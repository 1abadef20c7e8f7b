use bathbot::buckets::{BucketName, BucketRegistry};
use bathbot::cache::{CacheEvent, EntityCache};
use bathbot::commands::{
    check_authority, check_ratelimit, parse_invocation, process_command, CommandMeta, Invocation,
    ProcessResult,
};
use bathbot::config::{GuildConfig, GuildConfigStore};
use bathbot::error::{Error, ParseError};

fn invocation(author: u64, guild: Option<u64>) -> Invocation {
    Invocation {
        author_id: author,
        guild_id: guild,
        channel_id: 3,
        command: "roll".to_string(),
        args_raw: String::new(),
    }
}

fn privileged_meta() -> CommandMeta {
    CommandMeta {
        name: "authorities".to_string(),
        only_guilds: true,
        owner_only: false,
        authority: true,
        bucket: Some(BucketName::All),
    }
}

fn empty_setup() -> (EntityCache, GuildConfigStore, BucketRegistry) {
    let cache = EntityCache::new();
    let store = GuildConfigStore::new();
    let mut buckets = BucketRegistry::new();
    buckets.configure(BucketName::All, 1, 60);
    (cache, store, buckets)
}

#[test]
fn denied_actor_consumes_no_cooldown_token() {
    // The denied probe must leave the shared bucket untouched: the next
    // allowed invocation still takes with zero cooldown.
    let (mut cache, store, mut buckets) = empty_setup();
    cache.apply(CacheEvent::MemberAdd { guild_id: 10, user_id: 5, roles: vec![] });
    let meta = privileged_meta();
    let denied = invocation(5, Some(10));
    let r = process_command(&meta, &denied, &cache, &store, &mut buckets, 999, true, 0).unwrap();
    assert_eq!(r.0, ProcessResult::NoAuthority);
    // Same bucket key (the actor), so a consumed token would now show up.
    let open_meta = CommandMeta { authority: false, ..privileged_meta() };
    let again = process_command(&open_meta, &denied, &cache, &store, &mut buckets, 999, true, 1)
        .unwrap();
    assert_eq!(again.0, ProcessResult::Success);
}

#[test]
fn gates_run_in_order() {
    let (cache, store, mut buckets) = empty_setup();
    let meta = privileged_meta();
    // No send permission wins over everything.
    let r = process_command(&meta, &invocation(5, Some(10)), &cache, &store, &mut buckets, 0, false, 0)
        .unwrap();
    assert_eq!(r.0, ProcessResult::NoSendPermission);
    // Guild-only command in a direct message.
    let r = process_command(&meta, &invocation(5, None), &cache, &store, &mut buckets, 0, true, 0)
        .unwrap();
    assert_eq!(r.0, ProcessResult::NoDM);
    // Owner-only command from someone else.
    let owner_meta = CommandMeta { owner_only: true, authority: false, ..privileged_meta() };
    let r = process_command(&owner_meta, &invocation(5, Some(10)), &cache, &store, &mut buckets, 999, true, 0)
        .unwrap();
    assert_eq!(r.0, ProcessResult::NoOwner);
}

#[test]
fn missing_member_surfaces_as_error() {
    let (cache, store_empty, mut buckets) = empty_setup();
    let mut store = store_empty;
    let mut config = GuildConfig::default();
    config.authorities = vec![1];
    store.upsert(10, config);
    let meta = privileged_meta();
    let r = process_command(&meta, &invocation(5, Some(10)), &cache, &store, &mut buckets, 999, true, 0);
    match r {
        Err(Error::MemberNotCached(miss)) => {
            assert_eq!(miss.guild_id, 10);
            assert_eq!(miss.user_id, 5);
        }
        _ => panic!("expected the inconsistency error"),
    }
}

#[test]
fn ratelimited_invocation_reports_cooldown() {
    let (cache, store, mut buckets) = empty_setup();
    let meta = CommandMeta { authority: false, only_guilds: false, ..privileged_meta() };
    let inv = invocation(5, Some(10));
    let first = process_command(&meta, &inv, &cache, &store, &mut buckets, 999, true, 0).unwrap();
    assert_eq!(first, (ProcessResult::Success, None));
    let second = process_command(&meta, &inv, &cache, &store, &mut buckets, 999, true, 1).unwrap();
    assert_eq!(second.0, ProcessResult::Ratelimited(BucketName::All));
    assert_eq!(
        second.1.as_deref(),
        Some("Command on cooldown, try again in 59 seconds")
    );
}

#[test]
fn check_authority_maps_the_gate() {
    let mut cache = EntityCache::new();
    cache.apply(CacheEvent::MemberAdd { guild_id: 10, user_id: 5, roles: vec![2] });
    let mut store = GuildConfigStore::new();
    let mut config = GuildConfig::default();
    config.authorities = vec![2];
    store.upsert(10, config);
    let inv = invocation(5, Some(10));
    assert_eq!(check_authority(&cache, &store, &inv), Ok(None));
}

#[test]
fn check_ratelimit_derives_keys() {
    let mut buckets = BucketRegistry::new();
    buckets.configure(BucketName::Snipe, 1, 60);
    // The snipe bucket shares one key across all actors by design.
    let a = invocation(5, Some(10));
    let b = invocation(6, Some(10));
    assert_eq!(check_ratelimit(&mut buckets, &a, "snipe", 0), None);
    let hit = check_ratelimit(&mut buckets, &b, "snipe", 1);
    assert_eq!(hit, Some((59, BucketName::Snipe)));
}

#[test]
fn parse_invocation_shapes() {
    let ok = parse_invocation("<roll 100 dice", "<", 5, Some(10), 3).unwrap();
    assert_eq!(ok.command, "roll");
    assert_eq!(ok.args_raw, "100 dice");
    assert_eq!(ok.author_id, 5);

    let bare = parse_invocation("!!help", "!!", 5, None, 3).unwrap();
    assert_eq!(bare.command, "help");
    assert_eq!(bare.args_raw, "");

    assert_eq!(
        parse_invocation("roll", "<", 5, None, 3).unwrap_err(),
        ParseError::MissingPrefix
    );
    assert_eq!(
        parse_invocation("<", "<", 5, None, 3).unwrap_err(),
        ParseError::MissingCommand
    );
    assert_eq!(
        parse_invocation("< roll", "<", 5, None, 3).unwrap_err(),
        ParseError::MissingCommand
    );
}

#[test]
fn authorless_interaction_is_an_error() {
    let cache = EntityCache::new();
    let store = GuildConfigStore::new();
    let interaction = bathbot::commands::ComponentInteraction {
        author_id: None,
        guild_id: Some(10),
        message_id: 4,
    };
    assert_eq!(
        check_authority(&cache, &store, &interaction),
        Err(Error::MissingInteractionAuthor)
    );
    assert_eq!(
        Error::MissingInteractionAuthor.describe(),
        "event was expected to contain member or user but contained neither"
    );
}

#[test]
fn generic_failure_notice_text() {
    assert_eq!(
        bathbot::commands::dispatch_failure_notice(),
        "Something went wrong, blame bade"
    );
}

#[test]
fn args_keep_their_raw_spacing() {
    let inv = parse_invocation("<roll  6 more", "<", 5, None, 3).unwrap();
    assert_eq!(inv.command, "roll");
    assert_eq!(inv.args_raw, " 6 more");
}

#[test]
fn songs_bucket_charges_author_in_direct_messages() {
    let mut buckets = BucketRegistry::new();
    buckets.configure(BucketName::Songs, 1, 20);
    let dm = invocation(5, None);
    assert_eq!(check_ratelimit(&mut buckets, &dm, "songs", 0), None);
    // A guild invocation charges the guild's key instead, so it is fresh.
    let guild = invocation(5, Some(10));
    assert_eq!(check_ratelimit(&mut buckets, &guild, "songs", 1), None);
    // The author's own key is still hot.
    let again = invocation(5, None);
    assert_eq!(check_ratelimit(&mut buckets, &again, "songs", 2), Some((18, BucketName::Songs)));
}

#[test]
fn process_result_names() {
    assert_eq!(ProcessResult::success(()), ProcessResult::Success);
    assert_eq!(ProcessResult::Success.describe(), "Success");
    assert_eq!(
        ProcessResult::Ratelimited(BucketName::Songs).describe(),
        "Ratelimited (Songs)"
    );
    assert_eq!(ProcessResult::NoAuthority.describe(), "NoAuthority");
}
