use bathbot::osu::{
    completion, flag_url, flag_url_svg, grade_completion_mods, map_id_from_history,
    map_id_from_msg, mode_emote, parse_bg_filename, BgFileType, BgFilenameError, ChatMessage,
    EmbedLink, GameMode, MapIdType, ModSelection, ScoreAttrs, ScoreOrder,
};
use bathbot::pagination::Emote;
use bathbot::text::{u64_to_string, with_comma_int};

#[test]
fn number_formatting() {
    assert_eq!(u64_to_string(0), "0");
    assert_eq!(u64_to_string(90717), "90717");
    assert_eq!(with_comma_int(999), "999");
    assert_eq!(with_comma_int(1000), "1,000");
    assert_eq!(with_comma_int(1234567), "1,234,567");
    assert_eq!(with_comma_int(1000000), "1,000,000");
}

#[test]
fn flag_urls() {
    assert_eq!(flag_url("US"), "https://osuflags.omkserver.nl/US-256.png");
    assert_eq!(
        flag_url_svg("US"),
        "https://osu.ppy.sh/assets/images/flags/1f1fa-1f1f8.svg"
    );
    assert_eq!(
        flag_url_svg("de"),
        "https://osu.ppy.sh/assets/images/flags/1f1e9-1f1ea.svg"
    );
}

#[test]
fn completion_percentages() {
    assert_eq!(completion(50, 200), 25);
    assert_eq!(completion(200, 200), 100);
}

#[test]
fn grade_cells() {
    assert_eq!(grade_completion_mods("F", "", true, true, 50, 200), "F (25%)");
    assert_eq!(
        grade_completion_mods("F", "HDHR", false, true, 50, 200),
        "F (25%) +HDHR"
    );
    assert_eq!(grade_completion_mods("S", "", true, false, 0, 1), "S");
    assert_eq!(grade_completion_mods("S", "DT", false, false, 0, 1), "S +DT");
}

#[test]
fn mode_emotes() {
    assert_eq!(mode_emote(GameMode::Std), Emote::Std);
    assert_eq!(mode_emote(GameMode::Mna), Emote::Mna);
    assert_eq!(Emote::Ctb.name(), "fruits");
}

#[test]
fn mod_selection_bits() {
    assert_eq!(ModSelection::Include(24).mods(), 24);
    assert_eq!(ModSelection::Exclude(8).mods(), 8);
    assert_eq!(ModSelection::Exact(72).mods(), 72);
}

fn msg(content: &str, embeds: Vec<EmbedLink>) -> ChatMessage {
    ChatMessage { content: content.to_string(), embeds }
}

#[test]
fn map_ids_from_messages() {
    let plain = msg("check https://osu.ppy.sh/b/42 out", vec![]);
    assert_eq!(map_id_from_msg(&plain), Some(MapIdType::Beatmap(42)));

    // Purely numeric content defers to the embeds.
    let numeric = msg(
        "123",
        vec![EmbedLink {
            author_url: Some("https://osu.ppy.sh/s/77".to_string()),
            url: None,
        }],
    );
    assert_eq!(map_id_from_msg(&numeric), Some(MapIdType::Mapset(77)));

    let via_embed_url = msg(
        "nothing here",
        vec![
            EmbedLink { author_url: None, url: None },
            EmbedLink {
                author_url: None,
                url: Some("https://osu.ppy.sh/beatmapsets/9#osu/10".to_string()),
            },
        ],
    );
    assert_eq!(map_id_from_msg(&via_embed_url), Some(MapIdType::Beatmap(10)));

    let history = vec![msg("zilch", vec![]), plain];
    assert_eq!(map_id_from_history(&history), Some(MapIdType::Beatmap(42)));
    assert_eq!(map_id_from_history(&vec![]), None);
}

#[test]
fn bg_filenames() {
    assert_eq!(parse_bg_filename("948199.png"), Ok((948199, BgFileType::Png)));
    assert_eq!(parse_bg_filename("948199.jpg"), Ok((948199, BgFileType::Jpg)));
    assert_eq!(parse_bg_filename("948199.jpg.old"), Ok((948199, BgFileType::Jpg)));
    assert_eq!(parse_bg_filename("cover.png"), Err(BgFilenameError::BadName));
    assert_eq!(parse_bg_filename("948199.gif"), Err(BgFilenameError::BadType));
    assert_eq!(parse_bg_filename("948199"), Err(BgFilenameError::BadType));
    assert!(parse_bg_filename("948199.gif")
        .unwrap_err()
        .describe()
        .contains("`.jpg` or `.png`"));
}

fn score(combo: u32, created: i64, points: u32, ranked: i64) -> ScoreAttrs {
    ScoreAttrs {
        map_id: 0,
        mapset_id: 0,
        max_combo: combo,
        created_at: created,
        n_misses: 0,
        score: points,
        score_id: 0,
        seconds_drain: 0,
        total_hits: 0,
        ranked_date: ranked,
    }
}

#[test]
fn score_orderings() {
    assert_eq!(ScoreOrder::default(), ScoreOrder::Pp);

    let mut scores = vec![
        score(100, 5, 900, 30),
        score(300, 1, 100, 10),
        score(200, 9, 500, 20),
    ];
    ScoreOrder::Combo.apply(&mut scores);
    let combos: Vec<u32> = scores.iter().map(|s| s.max_combo).collect();
    assert_eq!(combos, vec![300, 200, 100]);

    ScoreOrder::Date.apply(&mut scores);
    let dates: Vec<i64> = scores.iter().map(|s| s.created_at).collect();
    assert_eq!(dates, vec![9, 5, 1]);

    ScoreOrder::Score.apply(&mut scores);
    let points: Vec<u32> = scores.iter().map(|s| s.score).collect();
    assert_eq!(points, vec![900, 500, 100]);

    ScoreOrder::RankedDate.apply(&mut scores);
    let ranked: Vec<i64> = scores.iter().map(|s| s.ranked_date).collect();
    assert_eq!(ranked, vec![10, 20, 30]);
}
