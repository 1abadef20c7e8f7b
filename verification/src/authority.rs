//! The authority gate: may this actor run privileged commands here?
//!
//! The decision combines the cached permission set (the administrator bit
//! short-circuits), the guild's configured authority role list, and the
//! cached member record. A missing member record is surfaced as an
//! inconsistency, never as a silent allow or deny. Denial texts enumerate
//! the roles that would have granted access, in configured order.

use vstd::prelude::*;
use crate::cache::{CacheMiss, EntityCache, ADMINISTRATOR};
use crate::config::GuildConfigStore;
use crate::text::{dec_rep, u64_to_string};

verus! {

/// One authority outcome.
pub enum AuthorityResult {
    Allowed,
    Denied(String),
    Indeterminate(CacheMiss),
}

/// The ghost-level shape of an `AuthorityResult`.
pub enum AuthorityDecision {
    Allowed,
    Denied(Seq<char>),
    Indeterminate(CacheMiss),
}

impl View for AuthorityResult {
    type V = AuthorityDecision;

    open spec fn view(&self) -> AuthorityDecision {
        match self {
            AuthorityResult::Allowed => AuthorityDecision::Allowed,
            AuthorityResult::Denied(s) => AuthorityDecision::Denied(s@),
            AuthorityResult::Indeterminate(m) => AuthorityDecision::Indeterminate(*m),
        }
    }
}

/// The platform-style mention of one role id.
pub open spec fn role_mention(id: u64) -> Seq<char> {
    "<@&"@ + dec_rep(id as nat) + ">"@
}

/// Role mentions joined by a comma, in the order given.
pub open spec fn mention_list(roles: Seq<u64>) -> Seq<char>
    decreases roles.len(),
{
    if roles.len() == 0 {
        Seq::empty()
    } else if roles.len() == 1 {
        role_mention(roles[0])
    } else {
        mention_list(roles.drop_last()) + ", "@ + role_mention(roles.last())
    }
}

/// Guidance shown when only administrators qualify.
pub open spec fn admin_denial_text() -> Seq<char> {
    "You need admin permissions to use this command.\n(`/authorities` to adjust authority status for this server)"@
}

/// Guidance listing the configured authority roles.
pub open spec fn roles_denial_text(roles: Seq<u64>) -> Seq<char> {
    "You need either admin permissions or any of these roles to use this command:\n"@
        + mention_list(roles)
        + "\n(`/authorities` to adjust authority status for this server)"@
}

/// A member's role list touches the authority list.
pub open spec fn holds_authority_role(member_roles: Seq<u64>, authorities: Seq<u64>) -> bool {
    exists|i: int, j: int|
        #![trigger member_roles[i], authorities[j]]
        0 <= i < member_roles.len() && 0 <= j < authorities.len() && member_roles[i]
            == authorities[j]
}

/// The whole gate decision as a function of cache state, configuration,
/// actor and guild context.
pub open spec fn spec_check(
    cache: &EntityCache,
    store: &GuildConfigStore,
    actor_id: u64,
    guild_id: Option<u64>,
) -> AuthorityDecision {
    match guild_id {
        // Direct messages carry an empty denial: the caller's policy decides
        // what, if anything, to tell the actor.
        None => AuthorityDecision::Denied(Seq::empty()),
        Some(g) => {
            let perms = match cache.spec_permissions(actor_id, g) {
                Ok(p) => p,
                Err(_) => 0u64,
            };
            if perms & ADMINISTRATOR != 0 {
                AuthorityDecision::Allowed
            } else {
                let auths = store.spec_authorities(g);
                if auths.len() == 0 {
                    AuthorityDecision::Denied(admin_denial_text())
                } else {
                    match cache.member_roles(g, actor_id) {
                        None => AuthorityDecision::Indeterminate(
                            CacheMiss { guild_id: g, user_id: actor_id },
                        ),
                        Some(rs) => {
                            if holds_authority_role(rs, auths) {
                                AuthorityDecision::Allowed
                            } else {
                                AuthorityDecision::Denied(roles_denial_text(auths))
                            }
                        },
                    }
                }
            }
        },
    }
}

/// Appends `<@&id>` to a string.
fn append_mention(s: &mut String, id: u64)
    ensures
        final(s)@ == old(s)@ + role_mention(id),
{
    s.append("<@&");
    let num = u64_to_string(id);
    s.append(num.as_str());
    s.append(">");
}

/// Builds the comma-separated mention list for the denial text.
fn build_mention_list(roles: &Vec<u64>) -> (r: String)
    ensures
        r@ == mention_list(roles@),
{
    let mut s = String::new();
    let mut i: usize = 0;
    while i < roles.len()
        invariant
            i <= roles@.len(),
            s@ == mention_list(roles@.take(i as int)),
        decreases roles@.len() - i,
    {
        if i > 0 {
            s.append(", ");
        }
        let id = roles[i];
        append_mention(&mut s, id);
        proof {
            let taken = roles@.take(i + 1);
            assert(taken.drop_last() =~= roles@.take(i as int));
            assert(taken.last() == roles@[i as int]);
            assert(s@ =~= mention_list(taken));
        }
        i = i + 1;
    }
    proof {
        assert(roles@.take(roles@.len() as int) =~= roles@);
    }
    s
}

/// Does this vector hold `x`?
fn contains_u64(v: &Vec<u64>, x: u64) -> (r: bool)
    ensures
        r == exists|i: int| 0 <= i < v@.len() && v@[i] == x,
{
    let mut i: usize = 0;
    while i < v.len()
        invariant
            i <= v@.len(),
            forall|j: int| 0 <= j < i ==> v@[j] != x,
        decreases v@.len() - i,
    {
        if v[i] == x {
            return true;
        }
        i = i + 1;
    }
    false
}

/// Resolves whether an actor may invoke privileged commands.
pub struct AuthorityGate;

impl AuthorityGate {
    /// Decides from the cache and the guild's configuration. Deterministic:
    /// the result is a function of its inputs, pinned by the postcondition.
    #[verifier::loop_isolation(false)]
    pub fn check(
        cache: &EntityCache,
        store: &GuildConfigStore,
        actor_id: u64,
        guild_id: Option<u64>,
    ) -> (r: AuthorityResult)
        ensures
            r@ == spec_check(cache, store, actor_id, guild_id),
    {
        let g = match guild_id {
            Some(g) => g,
            None => {
                return AuthorityResult::Denied(String::new());
            },
        };
        let perms = match cache.permissions_of(actor_id, g) {
            Ok(p) => p,
            Err(_) => 0,
        };
        if perms & ADMINISTRATOR != 0 {
            return AuthorityResult::Allowed;
        }
        let auths = store.authority_roles(g);
        if auths.len() == 0 {
            return AuthorityResult::Denied(
                "You need admin permissions to use this command.\n(`/authorities` to adjust authority status for this server)".to_owned(),
            );
        }
        let member = match cache.member(g, actor_id) {
            Some(m) => m,
            None => {
                return AuthorityResult::Indeterminate(
                    CacheMiss { guild_id: g, user_id: actor_id },
                );
            },
        };
        let mut i: usize = 0;
        let ghost rs = cache.member_roles(g, actor_id)->Some_0;
        while i < member.roles.len()
            invariant
                i <= member.roles@.len(),
                member.roles@ == rs,
                auths@ == store.spec_authorities(g),
                forall|a: int, b: int|
                    #![trigger rs[a], auths@[b]]
                    0 <= a < i && 0 <= b < auths@.len() ==> rs[a] != auths@[b],
            decreases member.roles@.len() - i,
        {
            let role = member.roles[i];
            if contains_u64(&auths, role) {
                proof {
                    let j = choose|j: int| 0 <= j < auths@.len() && auths@[j] == role;
                    assert(rs[i as int] == auths@[j]);
                    assert(holds_authority_role(rs, store.spec_authorities(g)));
                }
                return AuthorityResult::Allowed;
            }
            i = i + 1;
        }
        proof {
            assert forall|a: int, b: int|
                #![trigger rs[a], auths@[b]]
                0 <= a < rs.len() && 0 <= b < auths@.len() implies rs[a] != auths@[b] by {}
            assert(!holds_authority_role(rs, auths@));
        }
        let mut text: String =
            "You need either admin permissions or any of these roles to use this command:\n".to_owned();
        let list = build_mention_list(&auths);
        text.append(list.as_str());
        text.append("\n(`/authorities` to adjust authority status for this server)");
        AuthorityResult::Denied(text)
    }
}

/// Under a fixed cache state and configuration, two checks for the same
/// actor and guild agree on the outcome and, for a denial, on the reason
/// with its ordered role list.
pub proof fn lemma_check_deterministic(
    r1: AuthorityResult,
    r2: AuthorityResult,
    cache: &EntityCache,
    store: &GuildConfigStore,
    actor_id: u64,
    guild_id: Option<u64>,
)
    requires
        r1@ == spec_check(cache, store, actor_id, guild_id),
        r2@ == spec_check(cache, store, actor_id, guild_id),
    ensures
        r1@ == r2@,
{
}

} // verus!
