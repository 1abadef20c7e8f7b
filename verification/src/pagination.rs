//! The profile pagination: a two-state view (minimized or expanded) driven
//! by `expand` / `minimize` reactions on its anchor message.
//!
//! The long-lived loop around it — waiting on the filtered reaction stream,
//! re-rendering, and the best-effort cleanup — performs outside calls and is
//! driven by the embedding program through `Session::handle_event`.

use vstd::prelude::*;
use crate::session::{PageChange, PageView, Session};
use crate::text::str_eq;

verus! {

/// The control affordances a profile session installs on its anchor.
#[derive(Clone, Copy, Debug, PartialEq, Eq, Structural)]
pub enum Emote {
    Expand,
    Minimize,
    Std,
    Tko,
    Ctb,
    Mna,
}

impl Emote {
    /// The custom-emote name carried by the platform reaction.
    pub fn name(&self) -> (r: &'static str)
        ensures
            *self == Emote::Expand ==> r@ == "expand"@,
            *self == Emote::Minimize ==> r@ == "minimize"@,
            *self == Emote::Std ==> r@ == "osu"@,
            *self == Emote::Tko ==> r@ == "taiko"@,
            *self == Emote::Ctb ==> r@ == "fruits"@,
            *self == Emote::Mna ==> r@ == "mania"@,
    {
        match self {
            Emote::Expand => "expand",
            Emote::Minimize => "minimize",
            Emote::Std => "osu",
            Emote::Tko => "taiko",
            Emote::Ctb => "fruits",
            Emote::Mna => "mania",
        }
    }
}

/// A platform reaction as the session sees it: only custom emotes carry a
/// name the view could recognize.
pub enum ReactionKind {
    Custom { animated: bool, name: Option<String> },
    Unicode { text: String },
}

/// The profile view: minimized by default, expanded on demand.
#[derive(Clone, Copy, Debug, PartialEq, Eq, Structural)]
pub struct ProfileView {
    pub minimized: bool,
}

impl PageView for ProfileView {
    open spec fn recognizes(&self, action: Seq<char>) -> bool {
        action == "expand"@ || action == "minimize"@
    }

    open spec fn applied(&self, action: Seq<char>) -> ProfileView {
        if action == "expand"@ {
            ProfileView { minimized: false }
        } else {
            ProfileView { minimized: true }
        }
    }

    fn apply_action(&mut self, action: &str) -> (c: PageChange) {
        if str_eq(action, "expand") {
            let was_minimized = self.minimized;
            self.minimized = false;
            if was_minimized {
                PageChange::Change
            } else {
                PageChange::Unchanged
            }
        } else if str_eq(action, "minimize") {
            let was_minimized = self.minimized;
            self.minimized = true;
            if was_minimized {
                PageChange::Unchanged
            } else {
                PageChange::Change
            }
        } else {
            PageChange::Unchanged
        }
    }
}

/// A paginated profile message: starts minimized.
pub struct ProfilePagination {
    pub msg_id: u64,
    pub channel_id: u64,
    pub view: ProfileView,
}

impl ProfilePagination {
    pub fn new(msg_id: u64, channel_id: u64) -> (p: ProfilePagination)
        ensures
            p.msg_id == msg_id,
            p.channel_id == channel_id,
            p.view.minimized == true,
    {
        ProfilePagination { msg_id, channel_id, view: ProfileView { minimized: true } }
    }

    /// The reactions the session installs on its anchor, in order.
    pub fn reactions() -> (r: Vec<Emote>)
        ensures
            r@ == seq![Emote::Expand, Emote::Minimize],
    {
        let mut v: Vec<Emote> = Vec::new();
        v.push(Emote::Expand);
        v.push(Emote::Minimize);
        proof {
            assert(v@ =~= seq![Emote::Expand, Emote::Minimize]);
        }
        v
    }

    /// Applies one raw reaction to the view: only a named custom emote the
    /// view recognizes can change it.
    pub fn process_reaction(&mut self, reaction: &ReactionKind) -> (c: PageChange)
        ensures
            final(self).msg_id == old(self).msg_id,
            final(self).channel_id == old(self).channel_id,
            ({
                let v = old(self).view;
                match reaction {
                    ReactionKind::Custom { name: Some(n), .. } => {
                        if v.recognizes(n@) {
                            &&& final(self).view == v.applied(n@)
                            &&& (c == PageChange::Change <==> v.applied(n@) != v)
                        } else {
                            &&& final(self).view == v
                            &&& c == PageChange::Unchanged
                        }
                    },
                    _ => {
                        &&& final(self).view == v
                        &&& c == PageChange::Unchanged
                    },
                }
            }),
    {
        match reaction {
            ReactionKind::Custom { name: Some(n), .. } => self.view.apply_action(n.as_str()),
            _ => PageChange::Unchanged,
        }
    }

    /// The session driving this pagination, owned by `owner` and bounded by
    /// `deadline`.
    pub fn into_session(self, owner: u64, deadline: i64) -> (s: Session<ProfileView>)
        ensures
            s.state == crate::session::SessionState::Active,
            s.view == self.view,
            s.owner == owner,
            s.anchor_msg == self.msg_id,
            s.channel == self.channel_id,
            s.deadline == deadline,
    {
        Session::new(self.view, owner, self.msg_id, self.channel_id, deadline)
    }
}

} // verus!
