use bathbot::buckets::{BucketName, BucketRegistry};

#[test]
fn default_bucket_cooldown_scenario() {
    // Capacity 1, interval 60s: the first take succeeds, the second a
    // second later reports the 59 seconds left.
    let mut registry = BucketRegistry::new();
    registry.configure(BucketName::All, 1, 60);
    let actor = 42;
    assert_eq!(registry.take(BucketName::All, actor, 0), 0);
    assert_eq!(registry.take(BucketName::All, actor, 1), 59);
}

#[test]
fn window_admits_capacity_takes() {
    let mut registry = BucketRegistry::new();
    registry.configure(BucketName::Songs, 2, 10);
    let key = 7;
    assert_eq!(registry.take(BucketName::Songs, key, 0), 0);
    assert_eq!(registry.take(BucketName::Songs, key, 3), 0);
    // Third take within the window: blocked until the first expires.
    let cooldown = registry.take(BucketName::Songs, key, 5);
    assert_eq!(cooldown, 5);
    // Once the window has passed, units are available again.
    assert_eq!(registry.take(BucketName::Songs, key, 10), 0);
}

#[test]
fn cooldown_never_exceeds_interval() {
    let mut registry = BucketRegistry::new();
    registry.configure(BucketName::Snipe, 1, 60);
    assert_eq!(registry.take(BucketName::Snipe, 0, 100), 0);
    let cooldown = registry.take(BucketName::Snipe, 0, 100);
    assert!(cooldown > 0 && cooldown <= 60);
}

#[test]
fn distinct_keys_never_contend() {
    let mut registry = BucketRegistry::new();
    registry.configure(BucketName::BgHint, 1, 60);
    assert_eq!(registry.take(BucketName::BgHint, 1, 0), 0);
    assert_eq!(registry.take(BucketName::BgHint, 2, 0), 0);
    assert!(registry.take(BucketName::BgHint, 1, 1) > 0);
}

#[test]
fn bucket_name_parsing() {
    assert_eq!(BucketName::parse("all"), Some(BucketName::All));
    assert_eq!(BucketName::parse("bg_bigger"), Some(BucketName::BgBigger));
    assert_eq!(BucketName::parse("bg_hint"), Some(BucketName::BgHint));
    assert_eq!(BucketName::parse("bg_skip"), Some(BucketName::BgSkip));
    assert_eq!(BucketName::parse("bg_start"), Some(BucketName::BgStart));
    assert_eq!(BucketName::parse("snipe"), Some(BucketName::Snipe));
    assert_eq!(BucketName::parse("songs"), Some(BucketName::Songs));
    assert_eq!(BucketName::parse("nonsense"), None);
}

#[test]
fn window_slides_rather_than_resets() {
    // Capacity 2, interval 10: takes at t=8 and t=9 fill the window, so a
    // take at t=11 still sees both and waits for the one from t=8.
    let mut registry = BucketRegistry::new();
    registry.configure(BucketName::BgStart, 2, 10);
    let key = 5;
    assert_eq!(registry.take(BucketName::BgStart, key, 8), 0);
    assert_eq!(registry.take(BucketName::BgStart, key, 9), 0);
    assert_eq!(registry.take(BucketName::BgStart, key, 11), 7);
    // By t=19 only the t=9 take is still within the window.
    assert_eq!(registry.take(BucketName::BgStart, key, 19), 0);
}
