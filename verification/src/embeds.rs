//! The embeds the runtime renders itself: the background-game help, the
//! top-score tracking summary, and the command usage counter.

use vstd::prelude::*;
use crate::osu::GameMode;
use crate::text::{dec_rep, pad_left, pad_right, u64_to_string};

verus! {

/// The name of each mode, as the tracking title prints it.
pub open spec fn game_mode_name(mode: GameMode) -> Seq<char> {
    match mode {
        GameMode::Std => "osu"@,
        GameMode::Tko => "taiko"@,
        GameMode::Ctb => "fruits"@,
        GameMode::Mna => "mania"@,
    }
}

fn game_mode_name_exec(mode: GameMode) -> (r: &'static str)
    ensures
        r@ == game_mode_name(mode),
{
    match mode {
        GameMode::Std => "osu",
        GameMode::Tko => "taiko",
        GameMode::Ctb => "fruits",
        GameMode::Mna => "mania",
    }
}

/// The ghost shape of an embed field list.
pub open spec fn fields_view(fields: Seq<(String, String, bool)>) -> Seq<
    (Seq<char>, Seq<char>, bool),
> {
    Seq::new(fields.len(), |i: int| (fields[i].0@, fields[i].1@, fields[i].2))
}

/// Names joined as `` `a`, `b`, `c` ``.
pub open spec fn backtick_join(names: Seq<Seq<char>>) -> Seq<char>
    decreases names.len(),
{
    if names.len() == 0 {
        Seq::empty()
    } else if names.len() == 1 {
        "`"@ + names[0] + "`"@
    } else {
        backtick_join(names.drop_last()) + ", `"@ + names.last() + "`"@
    }
}

/// Builds the backtick-joined list of names.
#[verifier::loop_isolation(false)]
fn build_backtick_join(names: &Vec<String>) -> (r: String)
    ensures
        r@ == backtick_join(names@.map_values(|s: String| s@)),
{
    let ghost views = names@.map_values(|s: String| s@);
    let mut out = String::new();
    let mut i: usize = 0;
    while i < names.len()
        invariant
            0 <= i <= names@.len(),
            views == names@.map_values(|s: String| s@),
            out@ == backtick_join(views.take(i as int)),
        decreases names@.len() - i,
    {
        if i > 0 {
            out.append(", `");
        } else {
            out.append("`");
        }
        let name = &names[i];
        out.append(name.as_str());
        out.append("`");
        proof {
            let taken = views.take(i + 1);
            assert(taken.drop_last() =~= views.take(i as int));
            assert(taken.last() == views[i as int]);
            assert(out@ =~= backtick_join(taken));
        }
        i = i + 1;
    }
    proof {
        assert(views.take(views.len() as int) =~= views);
    }
    out
}

/// The help panel of the background guessing game.
pub struct BGHelpEmbed {
    pub title: &'static str,
    pub description: &'static str,
    pub fields: Vec<(String, String, bool)>,
}

/// The game-control field text, with the server's prefix spliced in.
pub open spec fn bg_start_text(prefix: Seq<char>) -> Seq<char> {
    "__If no game is running yet:__\nStart the game in the current channel.\nFirst, you get to choose which kind of backgrounds you will need to guess.\nReact to require a tag, or react-unreact to exclude a tag.\nIf no tag is chosen, all backgrounds will be selected.\n__If the game is already going:__\nResolve the current background and give a new one with the same tag specs.\nTo change mode or tags, be sure to `"@
        + prefix
        + "bg stop` first.\n__Mania:__\n*Start* the game with the additional argument `mania` or just `m` e.g. `"@
        + prefix + "bg s m`. Once the mania game is running, you can skip with `"@ + prefix
        + "bg s`."@
}

/// The leaderboard field text, with the server's prefix spliced in.
pub open spec fn bg_ranking_text(prefix: Seq<char>) -> Seq<char> {
    "Check out the global leaderboard for amount of correct guesses.\nIf you add `server` or `s` at the end, e.g. `"@
        + prefix + "bg lb s`, I will only consider members of the server."@
}

impl BGHelpEmbed {
    /// The whole help panel for a server with the given prefix.
    pub fn new(prefix: &str) -> (r: BGHelpEmbed)
        ensures
            r.title@ == "Background guessing game"@,
            r.description@
                == "Given part of a map's background, try to guess the **title** of the map's song.\nYou don't need to guess content in parentheses `(...)` or content after `ft.` or `feat.`.\nUse these subcommands to initiate with the game:"@,
            r.fields@.len() == 5,
            fields_view(r.fields@) =~= seq![
                ("start / s / skip / resolve / r"@, bg_start_text(prefix@), false),
                ("hint / h / tip"@, "Receive a hint (can be used multiple times)"@, true),
                (
                    "bigger / b / enhance"@,
                    "Increase the radius of the displayed image (can be used multiple times)"@,
                    true,
                ),
                (
                    "stop / end / quit"@,
                    "Resolve the current background and stop the game in this channel"@,
                    true,
                ),
                ("ranking / leaderboard / lb / stats"@, bg_ranking_text(prefix@), false),
            ],
    {
        let description =
            "Given part of a map's background, try to guess the **title** of the map's song.\nYou don't need to guess content in parentheses `(...)` or content after `ft.` or `feat.`.\nUse these subcommands to initiate with the game:";

        let mut start_text =
            "__If no game is running yet:__\nStart the game in the current channel.\nFirst, you get to choose which kind of backgrounds you will need to guess.\nReact to require a tag, or react-unreact to exclude a tag.\nIf no tag is chosen, all backgrounds will be selected.\n__If the game is already going:__\nResolve the current background and give a new one with the same tag specs.\nTo change mode or tags, be sure to `".to_owned();
        start_text.append(prefix);
        start_text.append(
            "bg stop` first.\n__Mania:__\n*Start* the game with the additional argument `mania` or just `m` e.g. `",
        );
        start_text.append(prefix);
        start_text.append("bg s m`. Once the mania game is running, you can skip with `");
        start_text.append(prefix);
        start_text.append("bg s`.");

        let mut ranking_text =
            "Check out the global leaderboard for amount of correct guesses.\nIf you add `server` or `s` at the end, e.g. `".to_owned();
        ranking_text.append(prefix);
        ranking_text.append("bg lb s`, I will only consider members of the server.");

        let mut fields: Vec<(String, String, bool)> = Vec::new();
        fields.push(("start / s / skip / resolve / r".to_owned(), start_text, false));
        fields.push((
            "hint / h / tip".to_owned(),
            "Receive a hint (can be used multiple times)".to_owned(),
            true,
        ));
        fields.push((
            "bigger / b / enhance".to_owned(),
            "Increase the radius of the displayed image (can be used multiple times)".to_owned(),
            true,
        ));
        fields.push((
            "stop / end / quit".to_owned(),
            "Resolve the current background and stop the game in this channel".to_owned(),
            true,
        ));
        fields.push((
            "ranking / leaderboard / lb / stats".to_owned(),
            ranking_text,
            false,
        ));
        BGHelpEmbed { title: "Background guessing game", description, fields }
    }

    pub fn title_owned(&mut self) -> (r: Option<String>)
        ensures
            *final(self) == *old(self),
            r matches Some(t) && t@ == old(self).title@,
    {
        Some(self.title.to_owned())
    }

    pub fn description_owned(&mut self) -> (r: Option<String>)
        ensures
            *final(self) == *old(self),
            r matches Some(t) && t@ == old(self).description@,
    {
        Some(self.description.to_owned())
    }

    pub fn fields_owned(self) -> (r: Option<Vec<(String, String, bool)>>)
        ensures
            r matches Some(f) && f == self.fields,
    {
        Some(self.fields)
    }
}

/// The summary shown after a top-score tracking change.
pub struct TrackEmbed {
    pub title: Option<String>,
    pub fields: Vec<(String, String, bool)>,
}

/// What the tracking summary's fields hold: the freshly tracked names, the
/// already tracked names, and the one that failed, each section only when
/// it has content.
pub open spec fn track_fields(
    success: Seq<Seq<char>>,
    failure: Seq<Seq<char>>,
    failed: Option<Seq<char>>,
) -> Seq<(Seq<char>, Seq<char>, bool)> {
    let a: Seq<(Seq<char>, Seq<char>, bool)> = if success.len() > 0 {
        seq![("Now tracking:"@, backtick_join(success), false)]
    } else {
        Seq::empty()
    };
    let b: Seq<(Seq<char>, Seq<char>, bool)> = if failure.len() > 0 {
        seq![("Already tracked:"@, backtick_join(failure), false)]
    } else {
        Seq::empty()
    };
    let c: Seq<(Seq<char>, Seq<char>, bool)> = match failed {
        Some(f) => seq![("Failed to track:"@, "`"@ + f + "`"@, false)],
        None => Seq::empty(),
    };
    a + b + c
}

impl TrackEmbed {
    /// The tracking summary for one change, under the mode and limit used.
    pub fn new(
        mode: GameMode,
        success: Vec<String>,
        failure: Vec<String>,
        failed: Option<String>,
        limit: usize,
    ) -> (r: TrackEmbed)
        ensures
            r.title matches Some(t) && t@ == "Top score tracking | mode="@ + game_mode_name(mode)
                + " | limit="@ + dec_rep(limit as nat),
            fields_view(r.fields@) =~= track_fields(
                success@.map_values(|s: String| s@),
                failure@.map_values(|s: String| s@),
                match failed {
                    Some(f) => Some(f@),
                    None => None,
                },
            ),
    {
        let mut title = "Top score tracking | mode=".to_owned();
        title.append(game_mode_name_exec(mode));
        title.append(" | limit=");
        let limit_text = u64_to_string(limit as u64);
        title.append(limit_text.as_str());

        let mut fields: Vec<(String, String, bool)> = Vec::new();
        if success.len() > 0 {
            let value = build_backtick_join(&success);
            fields.push(("Now tracking:".to_owned(), value, false));
        }
        if failure.len() > 0 {
            let value = build_backtick_join(&failure);
            fields.push(("Already tracked:".to_owned(), value, false));
        }
        match failed {
            Some(f) => {
                let mut value = "`".to_owned();
                value.append(f.as_str());
                value.append("`");
                fields.push(("Failed to track:".to_owned(), value, false));
            },
            None => {},
        }
        TrackEmbed { title: Some(title), fields }
    }

    pub fn title_owned(&mut self) -> (r: Option<String>)
        ensures
            r == old(self).title,
            final(self).title is None,
            final(self).fields == old(self).fields,
    {
        self.title.take()
    }

    pub fn fields_owned(self) -> (r: Option<Vec<(String, String, bool)>>)
        ensures
            r matches Some(f) && f == self.fields,
    {
        Some(self.fields)
    }
}


/// A relative-time phrase: the largest whole unit, pluralized, then "ago".
pub open spec fn spec_how_long_ago(secs: nat) -> Seq<char> {
    let n: nat = if secs >= 31536000 {
        secs / 31536000
    } else if secs >= 2592000 {
        secs / 2592000
    } else if secs >= 86400 {
        secs / 86400
    } else if secs >= 3600 {
        secs / 3600
    } else if secs >= 60 {
        secs / 60
    } else {
        secs
    };
    let unit: Seq<char> = if secs >= 31536000 {
        "year"@
    } else if secs >= 2592000 {
        "month"@
    } else if secs >= 86400 {
        "day"@
    } else if secs >= 3600 {
        "hour"@
    } else if secs >= 60 {
        "minute"@
    } else {
        "second"@
    };
    dec_rep(n) + " "@ + unit + (if n == 1 {
        Seq::<char>::empty()
    } else {
        "s"@
    }) + " ago"@
}

/// How long ago a moment `secs` seconds in the past was, in words.
pub fn how_long_ago_text(secs: u64) -> (r: String)
    ensures
        r@ == spec_how_long_ago(secs as nat),
{
    let n: u64;
    let unit: &'static str;
    if secs >= 31536000 {
        n = secs / 31536000;
        unit = "year";
    } else if secs >= 2592000 {
        n = secs / 2592000;
        unit = "month";
    } else if secs >= 86400 {
        n = secs / 86400;
        unit = "day";
    } else if secs >= 3600 {
        n = secs / 3600;
        unit = "hour";
    } else if secs >= 60 {
        n = secs / 60;
        unit = "minute";
    } else {
        n = secs;
        unit = "second";
    }
    let mut out = u64_to_string(n);
    out.append(" ");
    out.append(unit);
    if n != 1 {
        out.append("s");
    }
    out.append(" ago");
    proof {
        assert(out@ =~= spec_how_long_ago(secs as nat));
    }
    out
}

/// The medal shown beside the top three entries.
pub open spec fn counter_symbol(i: int) -> Seq<char> {
    if i == 1 {
        "\u{2654}"@
    } else if i == 2 {
        "\u{2655}"@
    } else if i == 3 {
        "\u{2656}"@
    } else {
        Seq::empty()
    }
}

fn counter_symbol_exec(i: usize) -> (r: &'static str)
    ensures
        r@ == counter_symbol(i as int),
{
    proof {
        reveal_strlit("");
    }
    match i {
        1 => "\u{2654}",
        2 => "\u{2655}",
        3 => "\u{2656}",
        _ => "",
    }
}

/// One line of the counter table.
pub open spec fn counter_line(name: Seq<char>, amount: u32, i: int, width: int) -> Seq<char> {
    pad_left(dec_rep(i as nat), 2) + " "@ + pad_right(counter_symbol(i), 1) + " # "@ + pad_right(
        name,
        width,
    ) + " => "@ + dec_rep(amount as nat) + "\n"@
}

/// The table body: one line per entry, numbered from `idx`.
pub open spec fn counter_lines(entries: Seq<(Seq<char>, u32)>, idx: int, width: int) -> Seq<char>
    decreases entries.len(),
{
    if entries.len() == 0 {
        Seq::empty()
    } else {
        counter_lines(entries.drop_last(), idx, width) + counter_line(
            entries.last().0,
            entries.last().1,
            idx + entries.len() - 1,
            width,
        )
    }
}

/// The widest name, which the name column is padded to.
pub open spec fn max_name_len(entries: Seq<(Seq<char>, u32)>) -> int
    decreases entries.len(),
{
    if entries.len() == 0 {
        0
    } else {
        let rest = max_name_len(entries.drop_last());
        if entries.last().0.len() > rest {
            entries.last().0.len() as int
        } else {
            rest
        }
    }
}

/// The usage-counter page: the most used commands as an aligned code block,
/// with the page position and the counting uptime in the footer.
pub struct CommandCounterEmbed {
    pub description: String,
    pub footer: String,
    pub author: String,
}

impl CommandCounterEmbed {
    /// Renders one page of the counter. `idx` is the rank of the first
    /// entry (at least 1), `booted_ago_secs` how long counting has been
    /// running, `pages` the current and total page count.
    #[verifier::loop_isolation(false)]
    pub fn new(
        list: Vec<(String, u32)>,
        booted_ago_secs: u64,
        idx: usize,
        pages: (usize, usize),
    ) -> (r: CommandCounterEmbed)
        requires
            idx >= 1,
            idx + list@.len() <= usize::MAX,
        ensures
            ({
                let entries = list@.map_values(|p: (String, u32)| (p.0@, p.1));
                &&& r.description@ == "```\n"@ + counter_lines(
                    entries,
                    idx as int,
                    max_name_len(entries),
                ) + "```"@
                &&& r.footer@ == "Page "@ + dec_rep(pages.0 as nat) + "/"@ + dec_rep(
                    pages.1 as nat,
                ) + " ~ Started counting "@ + spec_how_long_ago(booted_ago_secs as nat)
                &&& r.author@ == "Most popular commands:"@
            }),
    {
        let ghost entries = list@.map_values(|p: (String, u32)| (p.0@, p.1));
        // The name column is as wide as the widest name.
        let mut width: usize = 0;
        let mut k: usize = 0;
        while k < list.len()
            invariant
                0 <= k <= list@.len(),
                width == max_name_len(entries.take(k as int)),
            decreases list@.len() - k,
        {
            let name_len = list[k].0.as_str().unicode_len();
            proof {
                assert(entries.take(k + 1).drop_last() =~= entries.take(k as int));
                assert(entries.take(k + 1).last() == entries[k as int]);
            }
            if name_len > width {
                width = name_len;
            }
            k = k + 1;
        }
        proof {
            assert(entries.take(entries.len() as int) =~= entries);
        }

        let mut description = "```\n".to_owned();
        let mut k2: usize = 0;
        while k2 < list.len()
            invariant
                0 <= k2 <= list@.len(),
                description@ == "```\n"@ + counter_lines(
                    entries.take(k2 as int),
                    idx as int,
                    width as int,
                ),
            decreases list@.len() - k2,
        {
            append_counter_line(&mut description, list[k2].0.as_str(), list[k2].1, idx + k2, width);
            proof {
                let taken = entries.take(k2 + 1);
                assert(taken.drop_last() =~= entries.take(k2 as int));
                assert(taken.last() == entries[k2 as int]);
                assert(description@ =~= "```\n"@ + counter_lines(
                    taken,
                    idx as int,
                    width as int,
                ));
            }
            k2 = k2 + 1;
        }
        proof {
            assert(entries.take(entries.len() as int) =~= entries);
        }
        description.append("```");

        let footer = counter_footer(pages, booted_ago_secs);
        CommandCounterEmbed {
            description,
            footer,
            author: "Most popular commands:".to_owned(),
        }
    }
}

/// Appends one aligned counter line.
fn append_counter_line(out: &mut String, name: &str, amount: u32, i: usize, width: usize)
    requires
        i >= 1,
    ensures
        final(out)@ == old(out)@ + counter_line(name@, amount, i as int, width as int),
{
    let ghost before = out@;
    let num = u64_to_string(i as u64);
    crate::text::append_pad_left(out, num.as_str(), 2);
    out.append(" ");
    let sym = counter_symbol_exec(if i <= 3 {
        i
    } else {
        0
    });
    crate::text::append_pad_right(out, sym, 1);
    out.append(" # ");
    crate::text::append_pad_right(out, name, width);
    out.append(" => ");
    let amount_text = u64_to_string(amount as u64);
    out.append(amount_text.as_str());
    out.append("\n");
    proof {
        assert(counter_symbol(i as int) == counter_symbol(
            if i <= 3 {
                i as int
            } else {
                0
            },
        ));
        assert(out@ =~= before + counter_line(name@, amount, i as int, width as int));
    }
}

/// The page and uptime footer.
fn counter_footer(pages: (usize, usize), booted_ago_secs: u64) -> (r: String)
    ensures
        r@ == "Page "@ + dec_rep(pages.0 as nat) + "/"@ + dec_rep(pages.1 as nat)
            + " ~ Started counting "@ + spec_how_long_ago(booted_ago_secs as nat),
{
    let mut footer = "Page ".to_owned();
    let p0 = u64_to_string(pages.0 as u64);
    footer.append(p0.as_str());
    footer.append("/");
    let p1 = u64_to_string(pages.1 as u64);
    footer.append(p1.as_str());
    footer.append(" ~ Started counting ");
    let ago = how_long_ago_text(booted_ago_secs);
    footer.append(ago.as_str());
    proof {
        assert(footer@ =~= "Page "@ + dec_rep(pages.0 as nat) + "/"@ + dec_rep(pages.1 as nat)
            + " ~ Started counting "@ + spec_how_long_ago(booted_ago_secs as nat));
    }
    footer
}

} // verus!
