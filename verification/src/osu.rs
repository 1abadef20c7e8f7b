//! Game-side helpers: map ids found in messages, flag and completion
//! helpers, and the orderings scores can be ranked by.

use vstd::prelude::*;
use vstd::multiset::Multiset;
use vstd::string::StringSliceAdditionalSpecFns;

verus! {

/// A map id or a mapset id, as found in a message or link.
#[derive(Clone, Copy, Debug, PartialEq, Eq, Structural)]
pub enum MapIdType {
    Beatmap(u32),
    Mapset(u32),
}

/// Whether a mod set must be included, excluded, or matched exactly. The
/// mods themselves are carried as their bit representation.
#[derive(Clone, Copy, Debug, PartialEq, Eq, Structural)]
pub enum ModSelection {
    Include(u32),
    Exclude(u32),
    Exact(u32),
}

impl ModSelection {
    /// The mod bits, whatever the selection kind.
    pub fn mods(&self) -> (r: u32)
        ensures
            match *self {
                ModSelection::Include(m) => r == m,
                ModSelection::Exclude(m) => r == m,
                ModSelection::Exact(m) => r == m,
            },
    {
        match self {
            ModSelection::Include(m) => *m,
            ModSelection::Exclude(m) => *m,
            ModSelection::Exact(m) => *m,
        }
    }
}


/// The game modes.
#[derive(Clone, Copy, Debug, PartialEq, Eq, Structural)]
pub enum GameMode {
    Std,
    Tko,
    Ctb,
    Mna,
}

/// The emote standing for each mode.
pub fn mode_emote(mode: GameMode) -> (r: crate::pagination::Emote)
    ensures
        r == match mode {
            GameMode::Std => crate::pagination::Emote::Std,
            GameMode::Tko => crate::pagination::Emote::Tko,
            GameMode::Ctb => crate::pagination::Emote::Ctb,
            GameMode::Mna => crate::pagination::Emote::Mna,
        },
{
    match mode {
        GameMode::Std => crate::pagination::Emote::Std,
        GameMode::Tko => crate::pagination::Emote::Tko,
        GameMode::Ctb => crate::pagination::Emote::Ctb,
        GameMode::Mna => crate::pagination::Emote::Mna,
    }
}

/// The flag image for a country code.
pub fn flag_url(country_code: &str) -> (r: String)
    ensures
        r@ == "https://osuflags.omkserver.nl/"@ + country_code@ + "-256.png"@,
{
    let mut s = "https://osuflags.omkserver.nl/".to_owned();
    s.append(country_code);
    s.append("-256.png");
    s
}

/// A byte raised to its ASCII uppercase.
pub open spec fn byte_upper(b: u8) -> u8 {
    if 97 <= b <= 122 {
        (b - 32) as u8
    } else {
        b
    }
}

/// The regional-indicator code point a country-code byte lands on.
pub open spec fn flag_point(b: u8) -> nat {
    byte_upper(b) as nat + 0x1F1A5
}

/// The vector flag asset for a two-letter country code. A code of any other
/// byte length is a programming error upstream.
pub fn flag_url_svg(country_code: &str) -> (r: String)
    requires
        country_code.spec_bytes().len() == 2,
    ensures
        r@ == "https://osu.ppy.sh/assets/images/flags/"@ + crate::text::hex_rep(
            flag_point(country_code.spec_bytes()[0]),
        ) + "-"@ + crate::text::hex_rep(flag_point(country_code.spec_bytes()[1])) + ".svg"@,
{
    let bytes = country_code.as_bytes_vec();
    let b0 = bytes[0];
    let b1 = bytes[1];
    let up0: u8 = if 97 <= b0 && b0 <= 122 {
        b0 - 32
    } else {
        b0
    };
    let up1: u8 = if 97 <= b1 && b1 <= 122 {
        b1 - 32
    } else {
        b1
    };
    let p0: u32 = up0 as u32 + 0x1F1A5;
    let p1: u32 = up1 as u32 + 0x1F1A5;
    let mut s = "https://osu.ppy.sh/assets/images/flags/".to_owned();
    let h0 = crate::text::u32_to_hex_string(p0);
    s.append(h0.as_str());
    s.append("-");
    let h1 = crate::text::u32_to_hex_string(p1);
    s.append(h1.as_str());
    s.append(".svg");
    s
}

/// How much of the map a failed score got through, in percent.
pub fn completion(passed_hits: u32, total_objects: u32) -> (r: u32)
    requires
        total_objects > 0,
        100 * passed_hits <= u32::MAX,
    ensures
        r == 100 * (passed_hits as int) / (total_objects as int),
{
    100 * passed_hits / total_objects
}

/// The grade cell of a score line: the grade emote, the completion percent
/// for a fail outside catch, and the mod suffix when mods are set.
pub fn grade_completion_mods(
    grade: &str,
    mods: &str,
    mods_empty: bool,
    fail_non_catch: bool,
    passed_hits: u32,
    total_objects: u32,
) -> (r: String)
    requires
        fail_non_catch ==> total_objects > 0 && 100 * passed_hits <= u32::MAX,
    ensures
        ({
            let pct = crate::text::dec_rep(
                (100 * (passed_hits as int) / (total_objects as int)) as nat,
            );
            if mods_empty && fail_non_catch {
                r@ == grade@ + " ("@ + pct + "%)"@
            } else if !mods_empty && fail_non_catch {
                r@ == grade@ + " ("@ + pct + "%) +"@ + mods@
            } else if mods_empty {
                r@ == grade@
            } else {
                r@ == grade@ + " +"@ + mods@
            }
        }),
{
    if fail_non_catch {
        let pct = completion(passed_hits, total_objects);
        let pct_text = crate::text::u64_to_string(pct as u64);
        let mut s = grade.to_owned();
        s.append(" (");
        s.append(pct_text.as_str());
        if mods_empty {
            s.append("%)");
        } else {
            s.append("%) +");
            s.append(mods);
        }
        s
    } else {
        if mods_empty {
            grade.to_owned()
        } else {
            let mut s = grade.to_owned();
            s.append(" +");
            s.append(mods);
            s
        }
    }
}


/// Whether a character counts as numeric to the platform library.
pub uninterp spec fn is_numeric_char(c: char) -> bool;

/// Relies on char::is_numeric: whether a character is numeric depends on
/// the character alone.
#[verifier::external_body]
fn char_is_numeric(c: char) -> (r: bool)
    ensures
        r == is_numeric_char(c),
{
    c.is_numeric()
}

pub open spec fn all_numeric(s: Seq<char>) -> bool {
    forall|k: int| 0 <= k < s.len() ==> is_numeric_char(#[trigger] s[k])
}

/// The two link slots of an embed the map scan reads.
pub struct EmbedLink {
    pub author_url: Option<String>,
    pub url: Option<String>,
}

/// A chat message as the map scan sees it.
pub struct ChatMessage {
    pub content: String,
    pub embeds: Vec<EmbedLink>,
}

/// The first map or mapset id one link yields.
pub open spec fn spec_link_id(url: Option<String>) -> Option<MapIdType> {
    match url {
        Some(u) => match crate::matcher::spec_get_osu_map_id(u@) {
            Some(v) => Some(v),
            None => crate::matcher::spec_get_osu_mapset_id(u@),
        },
        None => None,
    }
}

/// The first id an embed yields: its author link first, then its own link.
pub open spec fn spec_embed_id(e: EmbedLink) -> Option<MapIdType> {
    match spec_link_id(e.author_url) {
        Some(v) => Some(v),
        None => spec_link_id(e.url),
    }
}

/// The first id any embed of the list yields.
pub open spec fn spec_embeds_map_id(es: Seq<EmbedLink>) -> Option<MapIdType>
    decreases es.len(),
{
    if es.len() == 0 {
        None
    } else {
        match spec_embed_id(es[0]) {
            Some(v) => Some(v),
            None => spec_embeds_map_id(es.drop_first()),
        }
    }
}

/// What scanning one message yields: purely numeric content defers to the
/// embeds; otherwise the content's links win, the embeds' links after.
pub open spec fn spec_map_id_from_msg(m: &ChatMessage) -> Option<MapIdType> {
    if all_numeric(m.content@) {
        spec_embeds_map_id(m.embeds@)
    } else {
        match crate::matcher::spec_get_osu_map_id(m.content@) {
            Some(v) => Some(v),
            None => match crate::matcher::spec_get_osu_mapset_id(m.content@) {
                Some(v) => Some(v),
                None => spec_embeds_map_id(m.embeds@),
            },
        }
    }
}

/// The first id any message of the history yields.
pub open spec fn spec_map_id_from_history(msgs: Seq<ChatMessage>) -> Option<MapIdType>
    decreases msgs.len(),
{
    if msgs.len() == 0 {
        None
    } else {
        match spec_map_id_from_msg(&msgs[0]) {
            Some(v) => Some(v),
            None => spec_map_id_from_history(msgs.drop_first()),
        }
    }
}

fn link_id(url: &Option<String>) -> (r: Option<MapIdType>)
    ensures
        r == spec_link_id(*url),
{
    match url {
        Some(u) => match crate::matcher::get_osu_map_id(u.as_str()) {
            Some(v) => Some(v),
            None => crate::matcher::get_osu_mapset_id(u.as_str()),
        },
        None => None,
    }
}

/// The first map or mapset id the message's embeds point at.
#[verifier::loop_isolation(false)]
pub fn check_embeds_for_map_id(embeds: &Vec<EmbedLink>) -> (r: Option<MapIdType>)
    ensures
        r == spec_embeds_map_id(embeds@),
{
    let mut i: usize = 0;
    proof {
        assert(embeds@.skip(0) =~= embeds@);
    }
    while i < embeds.len()
        invariant
            0 <= i <= embeds@.len(),
            spec_embeds_map_id(embeds@) == spec_embeds_map_id(embeds@.skip(i as int)),
        decreases embeds@.len() - i,
    {
        proof {
            assert(embeds@.skip(i as int)[0] == embeds@[i as int]);
            assert(embeds@.skip(i as int).drop_first() =~= embeds@.skip(i + 1));
        }
        let e = &embeds[i];
        match link_id(&e.author_url) {
            Some(v) => {
                return Some(v);
            },
            None => {},
        }
        match link_id(&e.url) {
            Some(v) => {
                return Some(v);
            },
            None => {},
        }
        i = i + 1;
    }
    proof {
        assert(embeds@.skip(embeds@.len() as int) =~= Seq::<EmbedLink>::empty());
    }
    None
}

/// The map or mapset a single message points at, if any.
#[verifier::loop_isolation(false)]
pub fn map_id_from_msg(msg: &ChatMessage) -> (r: Option<MapIdType>)
    ensures
        r == spec_map_id_from_msg(msg),
{
    let content = msg.content.as_str();
    let len = content.unicode_len();
    let mut numeric = true;
    let mut k: usize = 0;
    while k < len
        invariant
            0 <= k <= len,
            len == content@.len(),
            numeric == forall|m: int| 0 <= m < k ==> is_numeric_char(#[trigger] content@[m]),
        decreases len - k,
    {
        if !char_is_numeric(content.get_char(k)) {
            numeric = false;
            proof {
                assert(!is_numeric_char(content@[k as int]));
            }
            k = len;
        } else {
            k = k + 1;
        }
    }
    if numeric {
        return check_embeds_for_map_id(&msg.embeds);
    }
    match crate::matcher::get_osu_map_id(content) {
        Some(v) => Some(v),
        None => match crate::matcher::get_osu_mapset_id(content) {
            Some(v) => Some(v),
            None => check_embeds_for_map_id(&msg.embeds),
        },
    }
}

/// The map or mapset the most recent messages point at, scanning in order.
#[verifier::loop_isolation(false)]
pub fn map_id_from_history(msgs: &Vec<ChatMessage>) -> (r: Option<MapIdType>)
    ensures
        r == spec_map_id_from_history(msgs@),
{
    let mut i: usize = 0;
    proof {
        assert(msgs@.skip(0) =~= msgs@);
    }
    while i < msgs.len()
        invariant
            0 <= i <= msgs@.len(),
            spec_map_id_from_history(msgs@) == spec_map_id_from_history(msgs@.skip(i as int)),
        decreases msgs@.len() - i,
    {
        proof {
            assert(msgs@.skip(i as int)[0] == msgs@[i as int]);
            assert(msgs@.skip(i as int).drop_first() =~= msgs@.skip(i + 1));
        }
        match map_id_from_msg(&msgs[i]) {
            Some(v) => {
                return Some(v);
            },
            None => {},
        }
        i = i + 1;
    }
    proof {
        assert(msgs@.skip(msgs@.len() as int) =~= Seq::<ChatMessage>::empty());
    }
    None
}


/// The attributes a score is ranked by, as plain values. The ranked date of
/// its mapset is resolved by the caller (it lives in storage) and handed in
/// as a field.
#[derive(Clone, Copy, Debug, PartialEq, Eq, Structural)]
pub struct ScoreAttrs {
    pub map_id: u32,
    pub mapset_id: u32,
    pub max_combo: u32,
    pub created_at: i64,
    pub n_misses: u32,
    pub score: u32,
    pub score_id: u64,
    pub seconds_drain: u32,
    pub total_hits: u32,
    pub ranked_date: i64,
}

/// The orderings scores can be ranked by.
#[derive(Clone, Copy, Debug, PartialEq, Eq, Structural)]
pub enum ScoreOrder {
    Acc,
    Bpm,
    Combo,
    Date,
    Length,
    Misses,
    Pp,
    RankedDate,
    Score,
    Stars,
}

impl Default for ScoreOrder {
    /// Ranking by performance points is the default.
    fn default() -> (r: ScoreOrder)
        ensures
            r == ScoreOrder::Pp,
    {
        ScoreOrder::Pp
    }
}

/// The orders whose keys are plain integers, rankable here; the remaining
/// orders rank by fractional statistics and are resolved by the caller.
pub open spec fn integer_order(order: ScoreOrder) -> bool {
    ||| order == ScoreOrder::Combo
    ||| order == ScoreOrder::Date
    ||| order == ScoreOrder::RankedDate
    ||| order == ScoreOrder::Score
}

/// The sort key: biggest combo, newest, or highest score first; ranked date
/// oldest first.
pub open spec fn sort_key(order: ScoreOrder, s: ScoreAttrs) -> int {
    match order {
        ScoreOrder::Combo => -(s.max_combo as int),
        ScoreOrder::Date => -(s.created_at as int),
        ScoreOrder::RankedDate => s.ranked_date as int,
        _ => -(s.score as int),
    }
}

fn key_le(order: ScoreOrder, a: &ScoreAttrs, b: &ScoreAttrs) -> (r: bool)
    requires
        integer_order(order),
    ensures
        r == (sort_key(order, *a) <= sort_key(order, *b)),
{
    match order {
        ScoreOrder::Combo => a.max_combo >= b.max_combo,
        ScoreOrder::Date => a.created_at >= b.created_at,
        ScoreOrder::RankedDate => a.ranked_date <= b.ranked_date,
        _ => a.score >= b.score,
    }
}

impl ScoreOrder {
    /// Ranks the scores by this order: afterwards the keys are nondecreasing
    /// and the scores are a permutation of what was handed in.
    #[verifier::loop_isolation(false)]
    pub fn apply(self, scores: &mut Vec<ScoreAttrs>)
        requires
            integer_order(self),
        ensures
            final(scores)@.len() == old(scores)@.len(),
            final(scores)@.to_multiset() == old(scores)@.to_multiset(),
            forall|i: int, j: int|
                0 <= i <= j < final(scores)@.len() ==> sort_key(self, #[trigger] final(scores)@[i])
                    <= sort_key(self, #[trigger] final(scores)@[j]),
    {
        broadcast use vstd::seq_lib::group_to_multiset_ensures;

        let ghost orig = scores@;
        let mut out: Vec<ScoreAttrs> = Vec::new();
        while scores.len() > 0
            invariant
                out@.to_multiset().add(scores@.to_multiset()) =~= orig.to_multiset(),
                out@.len() + scores@.len() == orig.len(),
                forall|i: int, j: int|
                    0 <= i <= j < out@.len() ==> sort_key(self, #[trigger] out@[i]) <= sort_key(
                        self,
                        #[trigger] out@[j],
                    ),
                forall|i: int, j: int|
                    0 <= i < out@.len() && 0 <= j < scores@.len() ==> sort_key(
                        self,
                        #[trigger] out@[i],
                    ) <= sort_key(self, #[trigger] scores@[j]),
            decreases scores@.len(),
        {
            // Pick the smallest remaining key.
            let mut best: usize = 0;
            let mut m: usize = 1;
            while m < scores.len()
                invariant
                    0 <= best < m <= scores@.len(),
                    forall|j: int|
                        0 <= j < m ==> sort_key(self, scores@[best as int]) <= sort_key(
                            self,
                            #[trigger] scores@[j],
                        ),
                decreases scores@.len() - m,
            {
                if key_le(self, &scores[m], &scores[best]) {
                    best = m;
                }
                m = m + 1;
            }
            let picked = scores.remove(best);
            out.push(picked);
        }
        proof {
            assert(scores@.to_multiset() =~= Multiset::<ScoreAttrs>::empty());
            assert(out@.to_multiset() =~= orig.to_multiset());
        }
        *scores = out;
    }
}


/// The accepted background image types.
#[derive(Clone, Copy, Debug, PartialEq, Eq, Structural)]
pub enum BgFileType {
    Jpg,
    Png,
}

/// Why a background file name was refused.
#[derive(Clone, Copy, Debug, PartialEq, Eq, Structural)]
pub enum BgFilenameError {
    /// The part before the first dot is not a mapset id.
    BadName,
    /// The extension is neither `jpg` nor `png`.
    BadType,
}

impl BgFilenameError {
    /// The notice sent back to the operator.
    pub fn describe(&self) -> (r: &'static str)
        ensures
            *self == BgFilenameError::BadName ==> r@
                == "Provided image has no appropriate name. Be sure to let the name be the mapset id, e.g. 948199.png"@,
            *self == BgFilenameError::BadType ==> r@
                == "Provided image has inappropriate type. Must be either `.jpg` or `.png`"@,
    {
        match self {
            BgFilenameError::BadName => {
                "Provided image has no appropriate name. Be sure to let the name be the mapset id, e.g. 948199.png"
            },
            BgFilenameError::BadType => {
                "Provided image has inappropriate type. Must be either `.jpg` or `.png`"
            },
        }
    }
}

/// The first index of `c` at or after `i`, or the end of the string.
pub open spec fn char_end(s: Seq<char>, c: char, i: int) -> int
    decreases s.len() - i when 0 <= i <= s.len()
{
    if i < 0 || i >= s.len() {
        i
    } else if s[i] == c {
        i
    } else {
        char_end(s, c, i + 1)
    }
}

pub proof fn lemma_char_end(s: Seq<char>, c: char, i: int)
    requires
        0 <= i <= s.len(),
    ensures
        i <= char_end(s, c, i) <= s.len(),
        forall|k: int| i <= k < char_end(s, c, i) ==> #[trigger] s[k] != c,
        char_end(s, c, i) < s.len() ==> s[char_end(s, c, i)] == c,
    decreases s.len() - i,
{
    if i < s.len() && s[i] != c {
        lemma_char_end(s, c, i + 1);
    }
}

#[verifier::loop_isolation(false)]
fn scan_char_end(s: &str, s_len: usize, c: char, i: usize) -> (r: usize)
    requires
        s_len == s@.len(),
        i <= s_len,
    ensures
        r == char_end(s@, c, i as int),
    decreases s_len - i,
{
    let mut j = i;
    while j < s_len && s.get_char(j) != c
        invariant
            i <= j <= s_len,
            char_end(s@, c, i as int) == char_end(s@, c, j as int),
        decreases s_len - j,
    {
        j = j + 1;
    }
    j
}

/// What validating a background file name yields: the mapset id before the
/// first dot, and an accepted image type between the first and second dot.
pub open spec fn spec_parse_bg_filename(s: Seq<char>) -> Result<(u32, BgFileType), BgFilenameError> {
    let dot = char_end(s, '.', 0);
    match crate::matcher::spec_parse_u32(s.subrange(0, dot)) {
        None => Err(BgFilenameError::BadName),
        Some(id) => {
            if dot >= s.len() {
                Err(BgFilenameError::BadType)
            } else {
                let ext = s.subrange(dot + 1, char_end(s, '.', dot + 1));
                if ext == "jpg"@ {
                    Ok((id, BgFileType::Jpg))
                } else if ext == "png"@ {
                    Ok((id, BgFileType::Png))
                } else {
                    Err(BgFilenameError::BadType)
                }
            }
        },
    }
}

/// Validates an uploaded background's file name: mapset id, then `jpg` or
/// `png`.
pub fn parse_bg_filename(name: &str) -> (r: Result<(u32, BgFileType), BgFilenameError>)
    ensures
        r == spec_parse_bg_filename(name@),
{
    let s_len = name.unicode_len();
    let dot = scan_char_end(name, s_len, '.', 0);
    proof {
        lemma_char_end(name@, '.', 0);
    }
    let head = name.substring_char(0, dot);
    proof {
        assert(head@ =~= name@.subrange(0, dot as int));
    }
    let id = match crate::matcher::parse_u32_str(head) {
        Some(id) => id,
        None => {
            return Err(BgFilenameError::BadName);
        },
    };
    if dot >= s_len {
        return Err(BgFilenameError::BadType);
    }
    let ext_end = scan_char_end(name, s_len, '.', dot + 1);
    proof {
        lemma_char_end(name@, '.', dot + 1);
    }
    let ext = name.substring_char(dot + 1, ext_end);
    proof {
        assert(ext@ =~= name@.subrange(dot + 1, char_end(name@, '.', dot + 1)));
    }
    if crate::text::str_eq(ext, "jpg") {
        Ok((id, BgFileType::Jpg))
    } else if crate::text::str_eq(ext, "png") {
        Ok((id, BgFileType::Png))
    } else {
        Err(BgFilenameError::BadType)
    }
}

} // verus!
