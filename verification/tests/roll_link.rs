use bathbot::commands::{CommandOption, OptionKind};
use bathbot::error::Error;
use bathbot::link::{define_link, link_deprecation_notice, parse_link_options, ConfigArgs};
use bathbot::roll::{define_roll, parse_roll_options, roll, roll_limit, DEFAULT_LIMIT};

#[test]
fn roll_limits() {
    assert_eq!(roll_limit(None), DEFAULT_LIMIT);
    assert_eq!(roll_limit(Some("17")), 17);
    assert_eq!(roll_limit(Some("not a number")), DEFAULT_LIMIT);
}

#[test]
fn roll_stays_in_range_and_announces() {
    let (num, text) = roll(7, 1);
    assert_eq!(num, 1);
    assert_eq!(text, "<@7> rolls 1 point :game_die:");
    for _ in 0..20 {
        let (num, text) = roll(7, 6);
        assert!((1..=6).contains(&num));
        assert_eq!(text, format!("<@7> rolls {} point{} :game_die:", num, if num == 1 { "" } else { "s" }));
    }
}

#[test]
fn roll_option_parsing() {
    assert_eq!(parse_roll_options(&vec![]), Ok(DEFAULT_LIMIT));
    let options = vec![CommandOption::Int { name: "limit".to_string(), value: 42 }];
    assert_eq!(parse_roll_options(&options), Ok(42));
    let negative = vec![CommandOption::Int { name: "limit".to_string(), value: -5 }];
    assert_eq!(parse_roll_options(&negative), Ok(0));
    let wrong = vec![CommandOption::Str { name: "limit".to_string(), value: "9".to_string() }];
    assert_eq!(parse_roll_options(&wrong), Err(Error::InvalidCommandOptions));
}

#[test]
fn roll_definition() {
    let cmd = define_roll();
    assert_eq!(cmd.name, "roll");
    assert_eq!(cmd.description, "Roll a random number");
    assert_eq!(cmd.options.len(), 1);
    assert_eq!(cmd.options[0].name, "limit");
    assert_eq!(cmd.options[0].description, "Specify an upper limit, defaults to 100");
    match &cmd.options[0].kind {
        OptionKind::Integer { choices, required } => {
            assert!(choices.is_empty());
            assert!(!required);
        }
        _ => panic!("expected an integer option"),
    }
}

#[test]
fn link_option_parsing() {
    assert_eq!(
        parse_link_options(&vec![]),
        Ok(ConfigArgs { osu: None, twitch: None })
    );
    let options = vec![
        CommandOption::Bool { name: "osu".to_string(), value: true },
        CommandOption::Bool { name: "twitch".to_string(), value: false },
    ];
    assert_eq!(
        parse_link_options(&options),
        Ok(ConfigArgs { osu: Some(true), twitch: Some(false) })
    );
    let wrong = vec![CommandOption::Sub { name: "x".to_string() }];
    assert_eq!(parse_link_options(&wrong), Err(Error::InvalidCommandOptions));
}

#[test]
fn link_definition() {
    let cmd = define_link();
    assert_eq!(cmd.name, "link");
    assert_eq!(cmd.description, "(Un)link your discord to an osu! or twitch account");
    assert_eq!(
        cmd.help,
        Some("This command allows you to link or unlink to an osu! or twitch account.")
    );
    assert_eq!(cmd.options.len(), 2);
    assert_eq!(cmd.options[0].name, "osu");
    assert_eq!(cmd.options[1].name, "twitch");
    assert!(matches!(cmd.options[1].kind, OptionKind::Boolean { required: false }));
}

#[test]
fn deprecation_notice() {
    let text = link_deprecation_notice("https://example.invalid/invite");
    assert!(text.starts_with("This command is deprecated and no longer works.\n"));
    assert!(text.ends_with("[re-inviting the bot](https://example.invalid/invite)."));
}

#[test]
fn default_guild_config() {
    let config = bathbot::config::GuildConfig::default();
    assert!(config.with_lyrics);
    assert_eq!(config.prefixes, vec!["<".to_string(), "!!".to_string()]);
    assert!(config.authorities.is_empty());
    assert!(config.modified);
}
