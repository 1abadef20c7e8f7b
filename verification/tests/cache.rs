use bathbot::cache::{
    cache_stats_description, CacheEvent, CacheMiss, Channel, EntityCache, Guild, Role, User,
};

#[test]
fn apply_updates_exactly_the_described_entities() {
    let mut cache = EntityCache::new();
    cache.apply(CacheEvent::GuildCreate {
        id: 1,
        guild: Guild { owner_id: 9, name: "one".to_string() },
    });
    cache.apply(CacheEvent::RoleCreate { id: 2, role: Role { guild_id: 1, permissions: 4 } });
    cache.apply(CacheEvent::ChannelCreate { id: 3, channel: Channel { guild_id: 1 } });
    cache.apply(CacheEvent::UserUpdate { id: 4, user: User { name: "u".to_string() } });
    cache.apply(CacheEvent::MemberAdd { guild_id: 1, user_id: 4, roles: vec![2] });

    assert_eq!(cache.get_guild(1).unwrap().name, "one");
    assert_eq!(cache.get_role(2).unwrap().permissions, 4);
    assert_eq!(cache.get_channel(3).unwrap().guild_id, 1);
    assert_eq!(cache.get_user(4).unwrap().name, "u");
    assert_eq!(cache.member(1, 4).unwrap().roles, vec![2]);
    assert_eq!(cache.stats(), (1, 1, 1, 1));

    // Message and reaction events leave the cache untouched.
    cache.apply(CacheEvent::MessageCreate { channel_id: 3, author_id: 4 });
    assert_eq!(cache.stats(), (1, 1, 1, 1));

    cache.apply(CacheEvent::MemberRemove { guild_id: 1, user_id: 4 });
    assert!(cache.member(1, 4).is_none());
    cache.apply(CacheEvent::GuildDelete { id: 1 });
    assert!(cache.get_guild(1).is_none());
}

#[test]
fn permissions_combine_roles_and_everyone() {
    let mut cache = EntityCache::new();
    // The guild-wide role shares the guild's id.
    cache.apply(CacheEvent::RoleCreate { id: 1, role: Role { guild_id: 1, permissions: 0x1 } });
    cache.apply(CacheEvent::RoleCreate { id: 2, role: Role { guild_id: 1, permissions: 0x4 } });
    cache.apply(CacheEvent::RoleCreate { id: 3, role: Role { guild_id: 1, permissions: 0x10 } });
    cache.apply(CacheEvent::MemberAdd { guild_id: 1, user_id: 7, roles: vec![2, 3] });
    assert_eq!(cache.permissions_of(7, 1), Ok(0x15));
}

#[test]
fn missing_member_is_a_typed_miss() {
    let cache = EntityCache::new();
    assert_eq!(
        cache.permissions_of(7, 1),
        Err(CacheMiss { guild_id: 1, user_id: 7 })
    );
}

#[test]
fn last_event_wins_per_entity() {
    let mut cache = EntityCache::new();
    cache.apply(CacheEvent::MemberAdd { guild_id: 1, user_id: 7, roles: vec![2] });
    cache.apply(CacheEvent::MemberUpdate { guild_id: 1, user_id: 7, roles: vec![3, 4] });
    assert_eq!(cache.member(1, 7).unwrap().roles, vec![3, 4]);
}

#[test]
fn stats_description_formats_counts() {
    assert_eq!(
        cache_stats_description(12, 1234567, 89, 4, 1000),
        "Guilds: 12\nMembers: 1,234,567\nUsers: 89\nRoles: 4\nChannels: 1,000"
    );
}
