//! In-memory mirror of platform entities, fed by the gateway event stream.
//!
//! The cache stores each entity kind in an arena keyed by id, with relations
//! expressed as id lists. `apply` ingests one event and updates exactly the
//! entities that event describes; lookups never block and report absence
//! explicitly instead of fabricating defaults.

use vstd::prelude::*;
use std::collections::HashMap;

verus! {

broadcast use vstd::std_specs::hash::group_hash_axioms;

/// A guild-equivalent container.
pub struct Guild {
    pub owner_id: u64,
    pub name: String,
}

/// A role with its permission bits.
pub struct Role {
    pub guild_id: u64,
    pub permissions: u64,
}

/// A member's role ids within one guild.
pub struct Member {
    pub roles: Vec<u64>,
}

/// A channel within a guild.
pub struct Channel {
    pub guild_id: u64,
}

/// A platform user.
pub struct User {
    pub name: String,
}

/// A typed "the cache does not know" signal, distinct from a negative
/// answer.
#[derive(Clone, Copy, Debug, PartialEq, Eq, Structural)]
pub struct CacheMiss {
    pub guild_id: u64,
    pub user_id: u64,
}

/// The permission bit that short-circuits every authority check.
pub const ADMINISTRATOR: u64 = 0x8;

/// One typed event from the gateway stream. Message and reaction events
/// carry no entity state and leave the cache untouched; they are routed to
/// the command and session layers instead.
pub enum CacheEvent {
    GuildCreate { id: u64, guild: Guild },
    GuildUpdate { id: u64, guild: Guild },
    GuildDelete { id: u64 },
    RoleCreate { id: u64, role: Role },
    RoleUpdate { id: u64, role: Role },
    RoleDelete { id: u64 },
    MemberAdd { guild_id: u64, user_id: u64, roles: Vec<u64> },
    MemberUpdate { guild_id: u64, user_id: u64, roles: Vec<u64> },
    MemberRemove { guild_id: u64, user_id: u64 },
    ChannelCreate { id: u64, channel: Channel },
    ChannelDelete { id: u64 },
    UserUpdate { id: u64, user: User },
    MessageCreate { channel_id: u64, author_id: u64 },
    ReactionAdd { message_id: u64, user_id: u64, emote: String },
    ReactionRemove { message_id: u64, user_id: u64, emote: String },
}

/// Process-wide entity store.
pub struct EntityCache {
    guilds: HashMap<u64, Guild>,
    roles: HashMap<u64, Role>,
    channels: HashMap<u64, Channel>,
    users: HashMap<u64, User>,
    members: HashMap<u64, HashMap<u64, Member>>,
}

impl EntityCache {
    pub closed spec fn guilds_view(&self) -> Map<u64, Guild> {
        self.guilds@
    }

    pub closed spec fn roles_view(&self) -> Map<u64, Role> {
        self.roles@
    }

    pub closed spec fn channels_view(&self) -> Map<u64, Channel> {
        self.channels@
    }

    pub closed spec fn users_view(&self) -> Map<u64, User> {
        self.users@
    }

    /// The roles of one cached member, or `None` when the member is absent.
    pub closed spec fn member_roles(&self, guild_id: u64, user_id: u64) -> Option<Seq<u64>> {
        if self.members@.dom().contains(guild_id) && self.members@[guild_id]@.dom().contains(
            user_id,
        ) {
            Some(self.members@[guild_id]@[user_id].roles@)
        } else {
            None
        }
    }

    /// The permission bits of a cached role; an absent role grants nothing.
    pub open spec fn role_bits(&self, role_id: u64) -> u64 {
        if self.roles_view().dom().contains(role_id) {
            self.roles_view()[role_id].permissions
        } else {
            0
        }
    }

    /// The union of the permission bits of a role id list.
    pub open spec fn perms_of_roles(&self, roles: Seq<u64>) -> u64
        decreases roles.len(),
    {
        if roles.len() == 0 {
            0u64
        } else {
            self.perms_of_roles(roles.drop_last()) | self.role_bits(roles.last())
        }
    }

    /// What `permissions_of` answers: the member's roles combined with the
    /// guild-wide everyone role, or a typed miss when the member is unknown.
    pub open spec fn spec_permissions(&self, actor_id: u64, guild_id: u64) -> Result<u64, CacheMiss> {
        match self.member_roles(guild_id, actor_id) {
            Some(rs) => Ok(self.role_bits(guild_id) | self.perms_of_roles(rs)),
            None => Err(CacheMiss { guild_id, user_id: actor_id }),
        }
    }

    pub fn new() -> (c: EntityCache)
        ensures
            c.guilds_view() == Map::<u64, Guild>::empty(),
            c.roles_view() == Map::<u64, Role>::empty(),
            c.channels_view() == Map::<u64, Channel>::empty(),
            c.users_view() == Map::<u64, User>::empty(),
            forall|g: u64, u: u64| #[trigger] c.member_roles(g, u) is None,
    {
        EntityCache {
            guilds: HashMap::new(),
            roles: HashMap::new(),
            channels: HashMap::new(),
            users: HashMap::new(),
            members: HashMap::new(),
        }
    }

    pub fn get_guild(&self, id: u64) -> (r: Option<&Guild>)
        ensures
            r is Some <==> self.guilds_view().dom().contains(id),
            r is Some ==> *r->Some_0 == self.guilds_view()[id],
    {
        self.guilds.get(&id)
    }

    pub fn get_role(&self, id: u64) -> (r: Option<&Role>)
        ensures
            r is Some <==> self.roles_view().dom().contains(id),
            r is Some ==> *r->Some_0 == self.roles_view()[id],
    {
        self.roles.get(&id)
    }

    pub fn get_channel(&self, id: u64) -> (r: Option<&Channel>)
        ensures
            r is Some <==> self.channels_view().dom().contains(id),
            r is Some ==> *r->Some_0 == self.channels_view()[id],
    {
        self.channels.get(&id)
    }

    pub fn get_user(&self, id: u64) -> (r: Option<&User>)
        ensures
            r is Some <==> self.users_view().dom().contains(id),
            r is Some ==> *r->Some_0 == self.users_view()[id],
    {
        self.users.get(&id)
    }

    /// Looks one member up; `None` is a cache miss, never a default.
    pub fn member(&self, guild_id: u64, user_id: u64) -> (r: Option<&Member>)
        ensures
            r is Some <==> self.member_roles(guild_id, user_id) is Some,
            r is Some ==> r->Some_0.roles@ == self.member_roles(guild_id, user_id)->Some_0,
    {
        match self.members.get(&guild_id) {
            Some(inner) => inner.get(&user_id),
            None => None,
        }
    }

    /// Ingests one event, updating exactly the entities it describes.
    pub fn apply(&mut self, event: CacheEvent)
        ensures
            ({
                let unchanged_guilds = final(self).guilds_view() == old(self).guilds_view();
                let unchanged_roles = final(self).roles_view() == old(self).roles_view();
                let unchanged_channels = final(self).channels_view() == old(
                    self,
                ).channels_view();
                let unchanged_users = final(self).users_view() == old(self).users_view();
                let unchanged_members = forall|g: u64, u: u64|
                    #[trigger] final(self).member_roles(g, u) == old(self).member_roles(g, u);
                match event {
                    CacheEvent::GuildCreate { id, guild } => {
                        &&& final(self).guilds_view() == old(self).guilds_view().insert(id, guild)
                        &&& unchanged_roles && unchanged_channels && unchanged_users
                            && unchanged_members
                    },
                    CacheEvent::GuildUpdate { id, guild } => {
                        &&& final(self).guilds_view() == old(self).guilds_view().insert(id, guild)
                        &&& unchanged_roles && unchanged_channels && unchanged_users
                            && unchanged_members
                    },
                    CacheEvent::GuildDelete { id } => {
                        &&& final(self).guilds_view() == old(self).guilds_view().remove(id)
                        &&& unchanged_roles && unchanged_channels && unchanged_users
                            && unchanged_members
                    },
                    CacheEvent::RoleCreate { id, role } => {
                        &&& final(self).roles_view() == old(self).roles_view().insert(id, role)
                        &&& unchanged_guilds && unchanged_channels && unchanged_users
                            && unchanged_members
                    },
                    CacheEvent::RoleUpdate { id, role } => {
                        &&& final(self).roles_view() == old(self).roles_view().insert(id, role)
                        &&& unchanged_guilds && unchanged_channels && unchanged_users
                            && unchanged_members
                    },
                    CacheEvent::RoleDelete { id } => {
                        &&& final(self).roles_view() == old(self).roles_view().remove(id)
                        &&& unchanged_guilds && unchanged_channels && unchanged_users
                            && unchanged_members
                    },
                    CacheEvent::MemberAdd { guild_id, user_id, roles } => {
                        &&& final(self).member_roles(guild_id, user_id) == Some(roles@)
                        &&& forall|g: u64, u: u64|
                            !(g == guild_id && u == user_id)
                                ==> #[trigger] final(self).member_roles(g, u) == old(
                                self,
                            ).member_roles(g, u)
                        &&& unchanged_guilds && unchanged_roles && unchanged_channels
                            && unchanged_users
                    },
                    CacheEvent::MemberUpdate { guild_id, user_id, roles } => {
                        &&& final(self).member_roles(guild_id, user_id) == Some(roles@)
                        &&& forall|g: u64, u: u64|
                            !(g == guild_id && u == user_id)
                                ==> #[trigger] final(self).member_roles(g, u) == old(
                                self,
                            ).member_roles(g, u)
                        &&& unchanged_guilds && unchanged_roles && unchanged_channels
                            && unchanged_users
                    },
                    CacheEvent::MemberRemove { guild_id, user_id } => {
                        &&& final(self).member_roles(guild_id, user_id) is None
                        &&& forall|g: u64, u: u64|
                            !(g == guild_id && u == user_id)
                                ==> #[trigger] final(self).member_roles(g, u) == old(
                                self,
                            ).member_roles(g, u)
                        &&& unchanged_guilds && unchanged_roles && unchanged_channels
                            && unchanged_users
                    },
                    CacheEvent::ChannelCreate { id, channel } => {
                        &&& final(self).channels_view() == old(self).channels_view().insert(
                            id,
                            channel,
                        )
                        &&& unchanged_guilds && unchanged_roles && unchanged_users
                            && unchanged_members
                    },
                    CacheEvent::ChannelDelete { id } => {
                        &&& final(self).channels_view() == old(self).channels_view().remove(id)
                        &&& unchanged_guilds && unchanged_roles && unchanged_users
                            && unchanged_members
                    },
                    CacheEvent::UserUpdate { id, user } => {
                        &&& final(self).users_view() == old(self).users_view().insert(id, user)
                        &&& unchanged_guilds && unchanged_roles && unchanged_channels
                            && unchanged_members
                    },
                    _ => {
                        &&& unchanged_guilds && unchanged_roles && unchanged_channels
                            && unchanged_users && unchanged_members
                    },
                }
            }),
    {
        match event {
            CacheEvent::GuildCreate { id, guild } => {
                self.guilds.insert(id, guild);
            },
            CacheEvent::GuildUpdate { id, guild } => {
                self.guilds.insert(id, guild);
            },
            CacheEvent::GuildDelete { id } => {
                self.guilds.remove(&id);
            },
            CacheEvent::RoleCreate { id, role } => {
                self.roles.insert(id, role);
            },
            CacheEvent::RoleUpdate { id, role } => {
                self.roles.insert(id, role);
            },
            CacheEvent::RoleDelete { id } => {
                self.roles.remove(&id);
            },
            CacheEvent::MemberAdd { guild_id, user_id, roles } => {
                self.put_member(guild_id, user_id, roles);
            },
            CacheEvent::MemberUpdate { guild_id, user_id, roles } => {
                self.put_member(guild_id, user_id, roles);
            },
            CacheEvent::MemberRemove { guild_id, user_id } => {
                let mut inner = match self.members.remove(&guild_id) {
                    Some(m) => m,
                    None => HashMap::new(),
                };
                inner.remove(&user_id);
                self.members.insert(guild_id, inner);
            },
            CacheEvent::ChannelCreate { id, channel } => {
                self.channels.insert(id, channel);
            },
            CacheEvent::ChannelDelete { id } => {
                self.channels.remove(&id);
            },
            CacheEvent::UserUpdate { id, user } => {
                self.users.insert(id, user);
            },
            CacheEvent::MessageCreate { .. } => {},
            CacheEvent::ReactionAdd { .. } => {},
            CacheEvent::ReactionRemove { .. } => {},
        }
    }

    fn put_member(&mut self, guild_id: u64, user_id: u64, roles: Vec<u64>)
        ensures
            final(self).member_roles(guild_id, user_id) == Some(roles@),
            forall|g: u64, u: u64|
                !(g == guild_id && u == user_id) ==> #[trigger] final(self).member_roles(g, u)
                    == old(self).member_roles(g, u),
            final(self).guilds_view() == old(self).guilds_view(),
            final(self).roles_view() == old(self).roles_view(),
            final(self).channels_view() == old(self).channels_view(),
            final(self).users_view() == old(self).users_view(),
    {
        let mut inner = match self.members.remove(&guild_id) {
            Some(m) => m,
            None => HashMap::new(),
        };
        inner.insert(user_id, Member { roles });
        self.members.insert(guild_id, inner);
    }

    /// Computes an actor's effective permission set from its cached role
    /// memberships, or reports a typed cache miss when the member record is
    /// absent — "unknown" is distinct from "denied".
    pub fn permissions_of(&self, actor_id: u64, guild_id: u64) -> (r: Result<u64, CacheMiss>)
        ensures
            r == self.spec_permissions(actor_id, guild_id),
    {
        let member = match self.member(guild_id, actor_id) {
            Some(m) => m,
            None => {
                return Err(CacheMiss { guild_id, user_id: actor_id });
            },
        };
        let ghost rs = self.member_roles(guild_id, actor_id)->Some_0;
        let everyone = match self.roles.get(&guild_id) {
            Some(role) => role.permissions,
            None => 0,
        };
        let mut acc: u64 = everyone;
        let mut i: usize = 0;
        proof {
            assert(rs.take(0) =~= Seq::<u64>::empty());
            assert(everyone | 0u64 == everyone) by (bit_vector);
        }
        while i < member.roles.len()
            invariant
                i <= member.roles@.len(),
                member.roles@ == rs,
                acc == self.role_bits(guild_id) | self.perms_of_roles(rs.take(i as int)),
            decreases member.roles@.len() - i,
        {
            let role_id = member.roles[i];
            let bits = match self.roles.get(&role_id) {
                Some(role) => role.permissions,
                None => 0,
            };
            acc = acc | bits;
            proof {
                assert(rs.take(i + 1).drop_last() =~= rs.take(i as int));
                assert(rs.take(i + 1).last() == rs[i as int]);
                lemma_or_assoc(
                    self.role_bits(guild_id),
                    self.perms_of_roles(rs.take(i as int)),
                    self.role_bits(role_id),
                );
            }
            i = i + 1;
        }
        proof {
            assert(rs.take(rs.len() as int) =~= rs);
        }
        Ok(acc)
    }

    /// How many entities of each kind the cache holds.
    pub fn stats(&self) -> (r: (usize, usize, usize, usize))
        ensures
            r.0 == self.guilds_view().dom().len(),
            r.1 == self.roles_view().dom().len(),
            r.2 == self.channels_view().dom().len(),
            r.3 == self.users_view().dom().len(),
    {
        (self.guilds.len(), self.roles.len(), self.channels.len(), self.users.len())
    }
}

proof fn lemma_or_assoc(a: u64, b: u64, c: u64)
    ensures
        (a | b) | c == a | (b | c),
{
    assert((a | b) | c == a | (b | c)) by (bit_vector);
}


/// The overview the operator's cache command prints, one comma-formatted
/// count per line.
pub fn cache_stats_description(
    guilds: u64,
    members: u64,
    users: u64,
    roles: u64,
    channels: u64,
) -> (r: String)
    ensures
        r@ == "Guilds: "@ + crate::text::comma_rep(guilds as nat) + "\nMembers: "@
            + crate::text::comma_rep(members as nat) + "\nUsers: "@ + crate::text::comma_rep(
            users as nat,
        ) + "\nRoles: "@ + crate::text::comma_rep(roles as nat) + "\nChannels: "@
            + crate::text::comma_rep(channels as nat),
{
    let mut s = "Guilds: ".to_owned();
    let g = crate::text::with_comma_int(guilds);
    s.append(g.as_str());
    s.append("\nMembers: ");
    let m = crate::text::with_comma_int(members);
    s.append(m.as_str());
    s.append("\nUsers: ");
    let u = crate::text::with_comma_int(users);
    s.append(u.as_str());
    s.append("\nRoles: ");
    let ro = crate::text::with_comma_int(roles);
    s.append(ro.as_str());
    s.append("\nChannels: ");
    let c = crate::text::with_comma_int(channels);
    s.append(c.as_str());
    s
}

} // verus!
