use bathbot::authority::{AuthorityGate, AuthorityResult};
use bathbot::cache::{CacheEvent, EntityCache, Role, ADMINISTRATOR};
use bathbot::config::{GuildConfig, GuildConfigStore};

fn guild_with_member(cache: &mut EntityCache, guild: u64, user: u64, roles: Vec<u64>) {
    cache.apply(CacheEvent::MemberAdd {
        guild_id: guild,
        user_id: user,
        roles,
    });
}

fn store_with_authorities(guild: u64, authorities: Vec<u64>) -> GuildConfigStore {
    let mut store = GuildConfigStore::new();
    let mut config = GuildConfig::default();
    config.authorities = authorities;
    store.upsert(guild, config);
    store
}

#[test]
fn authority_role_grants_access() {
    // Guild configured with roles {1, 2}; the actor holds role 2.
    let mut cache = EntityCache::new();
    guild_with_member(&mut cache, 10, 5, vec![2]);
    let store = store_with_authorities(10, vec![1, 2]);
    let r = AuthorityGate::check(&cache, &store, 5, Some(10));
    assert!(matches!(r, AuthorityResult::Allowed));
}

#[test]
fn empty_authority_list_denies_without_admin() {
    let mut cache = EntityCache::new();
    guild_with_member(&mut cache, 10, 5, vec![2]);
    let store = store_with_authorities(10, vec![]);
    let r = AuthorityGate::check(&cache, &store, 5, Some(10));
    match r {
        AuthorityResult::Denied(text) => {
            assert_eq!(
                text,
                "You need admin permissions to use this command.\n(`/authorities` to adjust authority status for this server)"
            );
        }
        _ => panic!("expected a denial"),
    }
}

#[test]
fn administrator_bit_short_circuits() {
    let mut cache = EntityCache::new();
    cache.apply(CacheEvent::RoleCreate {
        id: 3,
        role: Role { guild_id: 10, permissions: ADMINISTRATOR },
    });
    guild_with_member(&mut cache, 10, 5, vec![3]);
    let store = store_with_authorities(10, vec![]);
    let r = AuthorityGate::check(&cache, &store, 5, Some(10));
    assert!(matches!(r, AuthorityResult::Allowed));
}

#[test]
fn denial_lists_roles_in_configured_order() {
    let mut cache = EntityCache::new();
    guild_with_member(&mut cache, 10, 5, vec![9]);
    let store = store_with_authorities(10, vec![2, 1]);
    let r = AuthorityGate::check(&cache, &store, 5, Some(10));
    match r {
        AuthorityResult::Denied(text) => {
            assert_eq!(
                text,
                "You need either admin permissions or any of these roles to use this command:\n<@&2>, <@&1>\n(`/authorities` to adjust authority status for this server)"
            );
        }
        _ => panic!("expected a denial"),
    }
}

#[test]
fn missing_member_is_indeterminate() {
    let cache = EntityCache::new();
    let store = store_with_authorities(10, vec![1]);
    let r = AuthorityGate::check(&cache, &store, 5, Some(10));
    match r {
        AuthorityResult::Indeterminate(miss) => {
            assert_eq!(miss.guild_id, 10);
            assert_eq!(miss.user_id, 5);
        }
        _ => panic!("expected an indeterminate outcome"),
    }
}

#[test]
fn direct_message_yields_empty_denial() {
    let cache = EntityCache::new();
    let store = GuildConfigStore::new();
    let r = AuthorityGate::check(&cache, &store, 5, None);
    match r {
        AuthorityResult::Denied(text) => assert_eq!(text, ""),
        _ => panic!("expected the empty placeholder denial"),
    }
}

#[test]
fn identical_inputs_decide_identically() {
    let mut cache = EntityCache::new();
    guild_with_member(&mut cache, 10, 5, vec![9]);
    let store = store_with_authorities(10, vec![2, 1]);
    let a = AuthorityGate::check(&cache, &store, 5, Some(10));
    let b = AuthorityGate::check(&cache, &store, 5, Some(10));
    match (a, b) {
        (AuthorityResult::Denied(ta), AuthorityResult::Denied(tb)) => assert_eq!(ta, tb),
        _ => panic!("expected two identical denials"),
    }
}
