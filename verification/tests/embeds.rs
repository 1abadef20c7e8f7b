use bathbot::embeds::{how_long_ago_text, BGHelpEmbed, CommandCounterEmbed, TrackEmbed};
use bathbot::osu::GameMode;

#[test]
fn bg_help_embed_fields() {
    let mut embed = BGHelpEmbed::new("<");
    assert_eq!(embed.title_owned().as_deref(), Some("Background guessing game"));
    let description = embed.description_owned().unwrap();
    assert!(description.starts_with("Given part of a map's background"));
    let fields = embed.fields_owned().unwrap();
    assert_eq!(fields.len(), 5);
    assert_eq!(fields[0].0, "start / s / skip / resolve / r");
    assert!(fields[0].1.contains("be sure to `<bg stop` first."));
    assert!(fields[0].1.ends_with("you can skip with `<bg s`."));
    assert!(!fields[0].2);
    assert_eq!(fields[1].0, "hint / h / tip");
    assert_eq!(fields[1].1, "Receive a hint (can be used multiple times)");
    assert!(fields[1].2);
    assert_eq!(fields[3].0, "stop / end / quit");
    assert_eq!(fields[4].0, "ranking / leaderboard / lb / stats");
    assert!(fields[4].1.contains("e.g. `<bg lb s`"));
}

#[test]
fn track_embed_contents() {
    let embed = TrackEmbed::new(
        GameMode::Std,
        vec!["peppy".to_string(), "rloseise".to_string()],
        vec!["badeu".to_string()],
        Some("whitecat".to_string()),
        50,
    );
    assert_eq!(
        embed.title.as_deref(),
        Some("Top score tracking | mode=osu | limit=50")
    );
    assert_eq!(embed.fields.len(), 3);
    assert_eq!(embed.fields[0].0, "Now tracking:");
    assert_eq!(embed.fields[0].1, "`peppy`, `rloseise`");
    assert_eq!(embed.fields[1].0, "Already tracked:");
    assert_eq!(embed.fields[1].1, "`badeu`");
    assert_eq!(embed.fields[2].0, "Failed to track:");
    assert_eq!(embed.fields[2].1, "`whitecat`");
}

#[test]
fn track_embed_skips_empty_sections() {
    let embed = TrackEmbed::new(GameMode::Mna, vec![], vec![], None, 100);
    assert_eq!(
        embed.title.as_deref(),
        Some("Top score tracking | mode=mania | limit=100")
    );
    assert!(embed.fields.is_empty());
}

#[test]
fn command_counter_layout() {
    let list = vec![
        ("recent".to_string(), 320u32),
        ("top".to_string(), 77u32),
        ("roll".to_string(), 5u32),
        ("compare".to_string(), 1u32),
    ];
    let embed = CommandCounterEmbed::new(list, 90, 1, (1, 2));
    let expected = format!(
        "```\n 1 {} # recent  => 320\n 2 {} # top     => 77\n 3 {} # roll    => 5\n 4   # compare => 1\n```",
        '\u{2654}', '\u{2655}', '\u{2656}'
    );
    assert_eq!(embed.description, expected);
    assert_eq!(embed.footer, "Page 1/2 ~ Started counting 1 minute ago");
    assert_eq!(embed.author, "Most popular commands:");
}

#[test]
fn relative_times() {
    assert_eq!(how_long_ago_text(0), "0 seconds ago");
    assert_eq!(how_long_ago_text(1), "1 second ago");
    assert_eq!(how_long_ago_text(59), "59 seconds ago");
    assert_eq!(how_long_ago_text(60), "1 minute ago");
    assert_eq!(how_long_ago_text(2 * 86400), "2 days ago");
    assert_eq!(how_long_ago_text(31536000), "1 year ago");
}
