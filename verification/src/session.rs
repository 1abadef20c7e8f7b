//! Reaction-driven pagination sessions.
//!
//! A session is exclusively owned by the task that created it: every control
//! event is funneled through `handle_event`, a pure transition over the
//! session state. Control events from non-owners are observed and ignored.
//! The deadline always wins ties against control events, so a session
//! terminates even under sustained control-event flooding. On leaving
//! `Active` the engine asks its driver to revoke the control affordances it
//! installed; cleanup failure is the driver's to log, never escalated.

use vstd::prelude::*;

verus! {

/// Whether applying a control action changed the rendered state.
#[derive(Clone, Copy, Debug, PartialEq, Eq, Structural)]
pub enum PageChange {
    Unchanged,
    Change,
}

/// The capability a paginated content kind implements: recognize control
/// actions and apply them to the view state.
pub trait PageView: Sized {
    /// Whether the view knows this control action.
    spec fn recognizes(&self, action: Seq<char>) -> bool;

    /// The view state after a recognized action.
    spec fn applied(&self, action: Seq<char>) -> Self;

    /// Applies one action; reports whether anything changed.
    fn apply_action(&mut self, action: &str) -> (c: PageChange)
        ensures
            old(self).recognizes(action@) ==> *final(self) == old(self).applied(action@),
            !old(self).recognizes(action@) ==> *final(self) == *old(self),
            (c == PageChange::Change) <==> (old(self).recognizes(action@) && old(self).applied(
                action@,
            ) != *old(self)),
    ;
}

/// Where a session stands in its lifecycle.
#[derive(Clone, Copy, Debug, PartialEq, Eq, Structural)]
pub enum SessionState {
    Active,
    Closing,
    Closed,
}

/// One stimulus delivered to a session.
pub enum SessionEvent {
    /// A platform reaction scoped to the session's anchor message.
    Control { actor: u64, action: String },
    /// The owner closed the session explicitly.
    Close,
    /// The driver finished revoking the control affordances.
    CleanupDone,
}

/// The ghost-level shape of a `SessionEvent`.
pub enum SessionEventModel {
    Control { actor: u64, action: Seq<char> },
    Close,
    CleanupDone,
}

impl View for SessionEvent {
    type V = SessionEventModel;

    open spec fn view(&self) -> SessionEventModel {
        match self {
            SessionEvent::Control { actor, action } => SessionEventModel::Control {
                actor: *actor,
                action: action@,
            },
            SessionEvent::Close => SessionEventModel::Close,
            SessionEvent::CleanupDone => SessionEventModel::CleanupDone,
        }
    }
}

/// What the driver must do after a transition.
#[derive(Clone, Copy, Debug, PartialEq, Eq, Structural)]
pub enum SessionAction {
    Ignore,
    /// Exactly one re-render of the current view.
    Rerender,
    /// Remove the control affordances the session installed, best effort.
    RevokeControls,
}

/// A live interactive pagination instance.
pub struct Session<V> {
    pub state: SessionState,
    pub view: V,
    pub owner: u64,
    pub anchor_msg: u64,
    pub channel: u64,
    pub deadline: i64,
}

/// The transition relation of the session state machine.
pub open spec fn spec_step<V: PageView>(s: Session<V>, e: SessionEventModel, now: int) -> (
    Session<V>,
    SessionAction,
) {
    match s.state {
        SessionState::Active => {
            if now >= s.deadline {
                // The timer path wins ties: the event is not applied.
                (Session { state: SessionState::Closing, ..s }, SessionAction::RevokeControls)
            } else {
                match e {
                    SessionEventModel::Control { actor, action } => {
                        if actor != s.owner {
                            (s, SessionAction::Ignore)
                        } else if s.view.recognizes(action) && s.view.applied(action) != s.view {
                            (
                                Session { view: s.view.applied(action), ..s },
                                SessionAction::Rerender,
                            )
                        } else {
                            (s, SessionAction::Ignore)
                        }
                    },
                    SessionEventModel::Close => (
                        Session { state: SessionState::Closing, ..s },
                        SessionAction::RevokeControls,
                    ),
                    SessionEventModel::CleanupDone => (s, SessionAction::Ignore),
                }
            }
        },
        SessionState::Closing => {
            match e {
                SessionEventModel::CleanupDone => (
                    Session { state: SessionState::Closed, ..s },
                    SessionAction::Ignore,
                ),
                _ => (s, SessionAction::Ignore),
            }
        },
        SessionState::Closed => (s, SessionAction::Ignore),
    }
}

impl<V: PageView> Session<V> {
    pub fn new(view: V, owner: u64, anchor_msg: u64, channel: u64, deadline: i64) -> (s: Session<
        V,
    >)
        ensures
            s.state == SessionState::Active,
            s.view == view,
            s.owner == owner,
            s.anchor_msg == anchor_msg,
            s.channel == channel,
            s.deadline == deadline,
    {
        Session { state: SessionState::Active, view, owner, anchor_msg, channel, deadline }
    }

    /// Consumes one stimulus at time `now` and reports what the driver must
    /// do. The transition is exactly `spec_step`.
    pub fn handle_event(&mut self, event: &SessionEvent, now: i64) -> (a: SessionAction)
        ensures
            (*final(self), a) == spec_step(*old(self), event@, now as int),
    {
        match self.state {
            SessionState::Active => {
                if now >= self.deadline {
                    self.state = SessionState::Closing;
                    SessionAction::RevokeControls
                } else {
                    match event {
                        SessionEvent::Control { actor, action } => {
                            if *actor != self.owner {
                                SessionAction::Ignore
                            } else {
                                let change = self.view.apply_action(action.as_str());
                                match change {
                                    PageChange::Change => SessionAction::Rerender,
                                    PageChange::Unchanged => SessionAction::Ignore,
                                }
                            }
                        },
                        SessionEvent::Close => {
                            self.state = SessionState::Closing;
                            SessionAction::RevokeControls
                        },
                        SessionEvent::CleanupDone => SessionAction::Ignore,
                    }
                }
            },
            SessionState::Closing => {
                match event {
                    SessionEvent::CleanupDone => {
                        self.state = SessionState::Closed;
                        SessionAction::Ignore
                    },
                    _ => SessionAction::Ignore,
                }
            },
            SessionState::Closed => SessionAction::Ignore,
        }
    }
}

/// Folds a whole trace of timed events through the state machine.
pub open spec fn spec_run<V: PageView>(s: Session<V>, trace: Seq<(SessionEventModel, int)>) -> Session<
    V,
>
    decreases trace.len(),
{
    if trace.len() == 0 {
        s
    } else {
        spec_run(spec_step(s, trace[0].0, trace[0].1).0, trace.drop_first())
    }
}

/// How revoking the control affordances can fail: a permission-class error
/// is permanent, anything else transient.
#[derive(Clone, Copy, Debug, PartialEq, Eq, Structural)]
pub enum CleanupError {
    PermissionDenied,
    Transient,
}

/// What the driver does after attempting to revoke all affordances.
#[derive(Clone, Copy, Debug, PartialEq, Eq, Structural)]
pub enum CleanupStep {
    Done,
    /// The runtime lost the privilege to clear the anchor: fall back to
    /// removing only the affordances the session itself installed.
    RemoveOwnReactions,
}

/// Decides the cleanup fallback. Whatever happened, the session proceeds to
/// `Closed`: cleanup failure is logged by the driver, never escalated.
pub fn cleanup_next(revoke_all: &Result<(), CleanupError>) -> (r: CleanupStep)
    ensures
        r == match *revoke_all {
            Ok(_) => CleanupStep::Done,
            Err(CleanupError::PermissionDenied) => CleanupStep::RemoveOwnReactions,
            Err(CleanupError::Transient) => CleanupStep::Done,
        },
{
    match revoke_all {
        Ok(_) => CleanupStep::Done,
        Err(CleanupError::PermissionDenied) => CleanupStep::RemoveOwnReactions,
        Err(CleanupError::Transient) => CleanupStep::Done,
    }
}

/// A control event from a non-owner actor never changes the view state, in
/// any session state.
pub proof fn lemma_nonowner_never_changes<V: PageView>(
    s: Session<V>,
    actor: u64,
    action: Seq<char>,
    now: int,
)
    requires
        actor != s.owner,
    ensures
        spec_step(s, SessionEventModel::Control { actor, action }, now).0.view == s.view,
        spec_step(s, SessionEventModel::Control { actor, action }, now).1
            != SessionAction::Rerender,
{
}

/// A recognized, state-changing control event from the owner of an active
/// session before its deadline updates exactly the view state and triggers
/// exactly one re-render.
pub proof fn lemma_owner_control_rerenders<V: PageView>(
    s: Session<V>,
    action: Seq<char>,
    now: int,
)
    requires
        s.state == SessionState::Active,
        now < s.deadline,
        s.view.recognizes(action),
        s.view.applied(action) != s.view,
    ensures
        ({
            let (s2, a) = spec_step(
                s,
                SessionEventModel::Control { actor: s.owner, action },
                now,
            );
            &&& s2.view == s.view.applied(action)
            &&& s2.state == SessionState::Active
            &&& s2.owner == s.owner
            &&& s2.anchor_msg == s.anchor_msg
            &&& s2.channel == s.channel
            &&& s2.deadline == s.deadline
            &&& a == SessionAction::Rerender
        }),
{
}

/// Once a session has left `Active`, no event whatsoever mutates its view
/// state again, and it never becomes active again.
pub proof fn lemma_frozen_after_active<V: PageView>(
    s: Session<V>,
    trace: Seq<(SessionEventModel, int)>,
)
    requires
        s.state != SessionState::Active,
    ensures
        spec_run(s, trace).view == s.view,
        spec_run(s, trace).state != SessionState::Active,
    decreases trace.len(),
{
    if trace.len() > 0 {
        lemma_frozen_after_active(spec_step(s, trace[0].0, trace[0].1).0, trace.drop_first());
    }
}

/// After the deadline has elapsed, no further view-state mutation occurs,
/// regardless of subsequent owner events.
pub proof fn lemma_no_mutation_after_deadline<V: PageView>(
    s: Session<V>,
    trace: Seq<(SessionEventModel, int)>,
)
    requires
        forall|k: int| 0 <= k < trace.len() ==> (#[trigger] trace[k]).1 >= s.deadline,
    ensures
        spec_run(s, trace).view == s.view,
{
    if trace.len() > 0 {
        let (s2, _) = spec_step(s, trace[0].0, trace[0].1);
        if s.state == SessionState::Active {
            // The first event arrives at or past the deadline: the timer
            // path wins and the session starts closing with its view intact.
            assert(s2.view == s.view && s2.state == SessionState::Closing);
            lemma_frozen_after_active(s2, trace.drop_first());
        } else {
            lemma_frozen_after_active(s, trace);
        }
    }
}

} // verus!
