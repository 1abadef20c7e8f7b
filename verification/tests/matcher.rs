use bathbot::matcher::{
    get_mention_channel, get_mention_role, get_mention_user, get_mods, get_osu_map_id,
    get_osu_mapset_id, get_osu_match_id, get_osu_user_id, highlight_funny_numeral,
    is_custom_emote, is_guest_diff, is_hit_results, parse_u64_str, tourney_badge,
};
use bathbot::osu::{MapIdType, ModSelection};

#[test]
fn mentions() {
    assert_eq!(get_mention_channel("<#123>"), Some(123));
    assert_eq!(get_mention_role("<@&456>"), Some(456));
    assert_eq!(get_mention_user("<@789>"), Some(789));
    assert_eq!(get_mention_user("<@!789>"), Some(789));
    assert_eq!(get_mention_user("hi <@!789> there"), Some(789));
    assert_eq!(get_mention_channel("987"), Some(987));
    assert_eq!(get_mention_channel("+987"), Some(987));
    assert_eq!(get_mention_user("<@&456>"), None);
    assert_eq!(get_mention_role("<@&>"), None);
    assert_eq!(get_mention_role("no mention here"), None);
    // A leftmost mention with an id past u64 yields nothing.
    assert_eq!(get_mention_role("<@&99999999999999999999999>"), None);
}

#[test]
fn leftmost_mention_wins() {
    assert_eq!(get_mention_channel("<#12> then <#34>"), Some(12));
    assert_eq!(get_mention_user("<@!1> <@2>"), Some(1));
}

#[test]
fn plain_number_parsing() {
    assert_eq!(parse_u64_str("17"), Some(17));
    assert_eq!(parse_u64_str("+17"), Some(17));
    assert_eq!(parse_u64_str(""), None);
    assert_eq!(parse_u64_str("1a"), None);
    assert_eq!(parse_u64_str("18446744073709551615"), Some(u64::MAX));
    assert_eq!(parse_u64_str("18446744073709551616"), None);
}

#[test]
fn osu_user_and_match_links() {
    assert_eq!(get_osu_user_id("https://osu.ppy.sh/users/2211396 gl"), Some(2211396));
    assert_eq!(get_osu_user_id("https://osu.ppy.sh/u/2211396"), None);
    assert_eq!(get_osu_match_id("58320988"), Some(58320988));
    assert_eq!(
        get_osu_match_id("https://osu.ppy.sh/community/matches/58320988"),
        Some(58320988)
    );
    assert_eq!(get_osu_match_id("https://osu.ppy.sh/mp/58320988"), Some(58320988));
    assert_eq!(get_osu_match_id("https://osu.ppy.sh/mp/x"), None);
}

#[test]
fn map_links() {
    assert_eq!(get_osu_map_id("3093455"), Some(MapIdType::Beatmap(3093455)));
    assert_eq!(
        get_osu_map_id("look https://osu.ppy.sh/b/3093455 wow"),
        Some(MapIdType::Beatmap(3093455))
    );
    assert_eq!(
        get_osu_map_id("https://osu.ppy.sh/beatmaps/3093455"),
        Some(MapIdType::Beatmap(3093455))
    );
    assert_eq!(
        get_osu_map_id("https://osu.ppy.sh/beatmapsets/1502699#osu/3093455"),
        Some(MapIdType::Beatmap(3093455))
    );
    // A mapset link without a map part carries no map id.
    assert_eq!(get_osu_map_id("https://osu.ppy.sh/beatmapsets/1502699"), None);
    // Without the link base nothing is scanned.
    assert_eq!(get_osu_map_id("b/3093455"), None);
}

#[test]
fn mapset_links() {
    assert_eq!(get_osu_mapset_id("1502699"), Some(MapIdType::Mapset(1502699)));
    assert_eq!(
        get_osu_mapset_id("https://osu.ppy.sh/s/1502699"),
        Some(MapIdType::Mapset(1502699))
    );
    assert_eq!(
        get_osu_mapset_id("https://osu.ppy.sh/beatmapsets/1502699#mania/3093455"),
        Some(MapIdType::Mapset(1502699))
    );
    assert_eq!(get_osu_mapset_id("nothing"), None);
}

#[test]
fn mod_selections() {
    // HD is bit 3 (8), HR bit 4 (16): the parser must map acronyms to bits.
    assert_eq!(get_mods("+hdhr"), Some(ModSelection::Include(24)));
    assert_eq!(get_mods("+hdhr!"), Some(ModSelection::Exact(24)));
    assert_eq!(get_mods("-hd!"), Some(ModSelection::Exclude(8)));
    assert_eq!(get_mods("+zq"), None);
    assert_eq!(get_mods("-hd"), None);
    assert_eq!(get_mods("hdhr"), None);
    assert_eq!(get_mods("+"), None);
    if let Some(sel) = get_mods("+dt") {
        assert_eq!(sel.mods(), 64);
    } else {
        panic!("expected a selection");
    }
}

#[test]
fn custom_emotes() {
    assert!(is_custom_emote("<:sip:601222837843722250>"));
    assert!(is_custom_emote("hey <a:dance:1234> hey"));
    assert!(!is_custom_emote("<:noid:>"));
    assert!(!is_custom_emote("plain text"));
}

#[test]
fn hit_results_blocks() {
    assert!(is_hit_results("score {300/100/50}"));
    assert!(is_hit_results("{1/2/3/4}"));
    assert!(!is_hit_results("{300/100}"));
    assert!(!is_hit_results("300/100/50"));
}

#[test]
fn guest_difficulties() {
    assert!(is_guest_diff("Someone's insane"));
    assert!(is_guest_diff("Someone' expert"));
    assert!(!is_guest_diff("Someone's Insane"));
    assert!(!is_guest_diff("nothing here"));
}

#[test]
fn tournament_badges() {
    assert!(tourney_badge("Winner of the 2020 World Cup"));
    assert!(!tourney_badge("Beatmap Spotlights curator"));
    assert!(!tourney_badge("contribution to something"));
    assert!(!tourney_badge("Idol fan club"));
    assert!(tourney_badge("idol@home winner"));
}

#[test]
fn funny_numeral_highlighting() {
    assert_eq!(highlight_funny_numeral("wysi 727 no way"), "wysi __727__ no way");
    assert_eq!(highlight_funny_numeral("7.27 and 7,2,7"), "__7.27__ and __7,2,7__");
    assert_eq!(highlight_funny_numeral("1234"), "1234");
    assert_eq!(highlight_funny_numeral("72"), "72");
    assert_eq!(highlight_funny_numeral("727727"), "__727____727__");
}
