//! Recognizers for the textual shapes the bot accepts: platform mentions,
//! map and match links, mod strings, and a few content checks.
//!
//! Each recognizer scans for the leftmost occurrence of its shape: a
//! literal prefix (`.` standing for any character where a link's dots are
//! matched loosely), a maximal digit run, and a terminator where the shape
//! demands one.

use vstd::prelude::*;
use crate::osu::{MapIdType, ModSelection};

verus! {

/// A decimal digit.
pub open spec fn is_digit(c: char) -> bool {
    48 <= c as int <= 57
}

/// The numeric value of one digit.
pub open spec fn digit_val(c: char) -> int {
    c as int - 48
}

/// The value of a digit string, most significant first.
pub open spec fn digits_val(s: Seq<char>) -> int
    decreases s.len(),
{
    if s.len() == 0 {
        0
    } else {
        digits_val(s.drop_last()) * 10 + digit_val(s.last())
    }
}

/// Every character is a digit.
pub open spec fn all_digits(s: Seq<char>) -> bool {
    forall|k: int| 0 <= k < s.len() ==> is_digit(#[trigger] s[k])
}

/// The end of the digit run starting at `i`.
pub open spec fn digit_end(s: Seq<char>, i: int) -> int
    decreases s.len() - i when 0 <= i <= s.len()
{
    if i < 0 || i >= s.len() {
        i
    } else if !is_digit(s[i]) {
        i
    } else {
        digit_end(s, i + 1)
    }
}

pub proof fn lemma_digit_end(s: Seq<char>, i: int)
    requires
        0 <= i <= s.len(),
    ensures
        i <= digit_end(s, i) <= s.len(),
        forall|k: int| i <= k < digit_end(s, i) ==> is_digit(#[trigger] s[k]),
        digit_end(s, i) < s.len() ==> !is_digit(s[digit_end(s, i)]),
    decreases s.len() - i,
{
    if i < s.len() && is_digit(s[i]) {
        lemma_digit_end(s, i + 1);
    }
}

/// `pat` matches at position `i`; a `.` in `pat` matches any character.
pub open spec fn pat_at(s: Seq<char>, i: int, pat: Seq<char>) -> bool {
    &&& 0 <= i
    &&& i + pat.len() <= s.len()
    &&& forall|k: int| 0 <= k < pat.len() ==> #[trigger] pat[k] == '.' || s[i + k] == pat[k]
}

/// The literal `lit` occurs at position `i`.
pub open spec fn lit_at(s: Seq<char>, i: int, lit: Seq<char>) -> bool {
    0 <= i && i + lit.len() <= s.len() && s.subrange(i, i + lit.len()) == lit
}

/// The literal occurs somewhere in `s`.
pub open spec fn contains_lit(s: Seq<char>, lit: Seq<char>) -> bool {
    exists|i: int| lit_at(s, i, lit)
}

fn char_is_digit(c: char) -> (r: bool)
    ensures
        r == is_digit(c),
{
    let v = c as u32;
    48 <= v && v <= 57
}

fn char_digit_val(c: char) -> (r: u32)
    requires
        is_digit(c),
    ensures
        r == digit_val(c),
{
    c as u32 - 48
}

/// Finds the end of the digit run starting at `i`.
#[verifier::loop_isolation(false)]
fn scan_digit_end(s: &str, s_len: usize, i: usize) -> (r: usize)
    requires
        s_len == s@.len(),
        i <= s_len,
    ensures
        r == digit_end(s@, i as int),
    decreases s_len - i,
{
    let mut j = i;
    while j < s_len && char_is_digit(s.get_char(j))
        invariant
            i <= j <= s_len,
            digit_end(s@, i as int) == digit_end(s@, j as int),
        decreases s_len - j,
    {
        j = j + 1;
    }
    j
}

/// Does `pat` (with `.` wildcards) match at `i`?
#[verifier::loop_isolation(false)]
fn pat_match_at(s: &str, s_len: usize, i: usize, pat: &str, pat_len: usize) -> (r: bool)
    requires
        s_len == s@.len(),
        pat_len == pat@.len(),
        i <= s_len,
    ensures
        r == pat_at(s@, i as int, pat@),
{
    if pat_len > s_len - i {
        return false;
    }
    let mut k: usize = 0;
    while k < pat_len
        invariant
            0 <= k <= pat_len,
            i + pat_len <= s_len,
            forall|m: int| 0 <= m < k ==> #[trigger] pat@[m] == '.' || s@[i + m] == pat@[m],
        decreases pat_len - k,
    {
        let pc = pat.get_char(k);
        if pc != '.' {
            let sc = s.get_char(i + k);
            if sc != pc {
                return false;
            }
        }
        k = k + 1;
    }
    true
}

/// The value of the digit run `s[i..j]`, or `None` when it exceeds `u64`.
pub open spec fn spec_parse_run_u64(s: Seq<char>, i: int, j: int) -> Option<u64> {
    if digits_val(s.subrange(i, j)) <= u64::MAX {
        Some(digits_val(s.subrange(i, j)) as u64)
    } else {
        None
    }
}

/// The value of the digit run `s[i..j]`, or `None` when it exceeds `u32`.
pub open spec fn spec_parse_run_u32(s: Seq<char>, i: int, j: int) -> Option<u32> {
    if digits_val(s.subrange(i, j)) <= u32::MAX {
        Some(digits_val(s.subrange(i, j)) as u32)
    } else {
        None
    }
}

proof fn lemma_digits_val_nonneg(s: Seq<char>)
    requires
        all_digits(s),
    ensures
        digits_val(s) >= 0,
    decreases s.len(),
{
    if s.len() > 0 {
        assert(all_digits(s.drop_last()));
        lemma_digits_val_nonneg(s.drop_last());
    }
}

/// Parses the digit run `s[i..j]`, detecting overflow past `u64`.
#[verifier::loop_isolation(false)]
fn parse_run_u64(s: &str, s_len: usize, i: usize, j: usize) -> (r: Option<u64>)
    requires
        s_len == s@.len(),
        i <= j <= s_len,
        forall|k: int| i <= k < j ==> is_digit(#[trigger] s@[k]),
    ensures
        r == spec_parse_run_u64(s@, i as int, j as int),
{
    let ghost whole = s@.subrange(i as int, j as int);
    let mut acc: u64 = 0;
    let mut k = i;
    proof {
        assert(s@.subrange(i as int, i as int) =~= Seq::<char>::empty());
    }
    while k < j
        invariant
            i <= k <= j,
            acc == digits_val(s@.subrange(i as int, k as int)),
        decreases j - k,
    {
        let d = char_digit_val(s.get_char(k));
        let ghost prefix = s@.subrange(i as int, k as int);
        let ghost next = s@.subrange(i as int, k + 1);
        proof {
            assert(next.drop_last() =~= prefix);
            assert(next.last() == s@[k as int]);
        }
        if acc > (u64::MAX - d as u64) / 10 {
            proof {
                // The prefix already overflows, and adding digits never
                // shrinks the value.
                assert(digits_val(next) > u64::MAX);
                assert forall|mm: int| k + 1 <= mm <= j implies digits_val(
                    s@.subrange(i as int, mm),
                ) > u64::MAX by {
                    lemma_digits_prefix_overflow(s@, i as int, k + 1, mm);
                }
            }
            return None;
        }
        acc = acc * 10 + d as u64;
        k = k + 1;
    }
    proof {
        lemma_digits_val_nonneg(whole);
    }
    Some(acc)
}

/// Once a digit prefix exceeds the bound, every extension does too.
proof fn lemma_digits_prefix_overflow(s: Seq<char>, i: int, m: int, mm: int)
    requires
        0 <= i <= m <= mm <= s.len(),
        forall|k: int| i <= k < mm ==> is_digit(#[trigger] s[k]),
        digits_val(s.subrange(i, m)) > u64::MAX,
    ensures
        digits_val(s.subrange(i, mm)) > u64::MAX,
    decreases mm - m,
{
    if mm > m {
        lemma_digits_prefix_overflow(s, i, m, mm - 1);
        let cur = s.subrange(i, mm);
        assert(cur.drop_last() =~= s.subrange(i, mm - 1));
        assert(is_digit(cur.last()));
        assert(digits_val(cur) == digits_val(cur.drop_last()) * 10 + digit_val(cur.last()));
    }
}

/// Parses the digit run `s[i..j]`, detecting overflow past `u32`.
fn parse_run_u32(s: &str, s_len: usize, i: usize, j: usize) -> (r: Option<u32>)
    requires
        s_len == s@.len(),
        i <= j <= s_len,
        forall|k: int| i <= k < j ==> is_digit(#[trigger] s@[k]),
    ensures
        r == spec_parse_run_u32(s@, i as int, j as int),
{
    proof {
        assert(all_digits(s@.subrange(i as int, j as int)));
        lemma_digits_val_nonneg(s@.subrange(i as int, j as int));
    }
    match parse_run_u64(s, s_len, i, j) {
        Some(v) => {
            if v <= u32::MAX as u64 {
                Some(v as u32)
            } else {
                None
            }
        },
        None => None,
    }
}

/// What `str::parse::<u64>` accepts: an optional plus sign, then digits,
/// within range.
pub open spec fn spec_parse_u64(s: Seq<char>) -> Option<u64> {
    let body = if s.len() > 0 && s[0] == '+' {
        s.drop_first()
    } else {
        s
    };
    if body.len() == 0 || !all_digits(body) {
        None
    } else if digits_val(body) <= u64::MAX {
        Some(digits_val(body) as u64)
    } else {
        None
    }
}

/// What `str::parse::<u32>` accepts.
pub open spec fn spec_parse_u32(s: Seq<char>) -> Option<u32> {
    let body = if s.len() > 0 && s[0] == '+' {
        s.drop_first()
    } else {
        s
    };
    if body.len() == 0 || !all_digits(body) {
        None
    } else if digits_val(body) <= u32::MAX {
        Some(digits_val(body) as u32)
    } else {
        None
    }
}

/// Parses a whole string as a `u64` the way `str::parse` does.
#[verifier::loop_isolation(false)]
pub fn parse_u64_str(s: &str) -> (r: Option<u64>)
    ensures
        r == spec_parse_u64(s@),
{
    let s_len = s.unicode_len();
    let start: usize = if s_len > 0 && s.get_char(0) == '+' {
        1
    } else {
        0
    };
    let ghost body = if s@.len() > 0 && s@[0] == '+' {
        s@.drop_first()
    } else {
        s@
    };
    proof {
        assert(body =~= s@.subrange(start as int, s_len as int));
    }
    if start == s_len {
        return None;
    }
    let end = scan_digit_end(s, s_len, start);
    proof {
        lemma_digit_end(s@, start as int);
    }
    if end < s_len {
        // A non-digit stops the run: the string is not a plain number.
        proof {
            assert(!is_digit(body[end - start]));
        }
        return None;
    }
    let r = parse_run_u64(s, s_len, start, end);
    proof {
        assert(s@.subrange(start as int, end as int) =~= body);
    }
    r
}

/// Parses a whole string as a `u32` the way `str::parse` does.
pub fn parse_u32_str(s: &str) -> (r: Option<u32>)
    ensures
        r == spec_parse_u32(s@),
{
    proof {
        let body = if s@.len() > 0 && s@[0] == '+' {
            s@.drop_first()
        } else {
            s@
        };
        if body.len() > 0 && all_digits(body) {
            lemma_digits_val_nonneg(body);
        }
    }
    match parse_u64_str(s) {
        Some(v) => {
            if v <= u32::MAX as u64 {
                Some(v as u32)
            } else {
                None
            }
        },
        None => None,
    }
}


/// Where the digit run of a mention starts: after the opening, skipping the
/// optional exclamation mark a user mention may carry.
pub open spec fn mention_digits_start(s: Seq<char>, i: int, pre: Seq<char>, opt_bang: bool) -> int {
    let k0 = i + pre.len();
    if opt_bang && k0 < s.len() && s[k0] == '!' {
        k0 + 1
    } else {
        k0
    }
}

/// A `<pre…digits…>` mention occurs at `i`.
pub open spec fn mention_match_at(s: Seq<char>, i: int, pre: Seq<char>, opt_bang: bool) -> bool {
    &&& pat_at(s, i, pre)
    &&& ({
        let k = mention_digits_start(s, i, pre, opt_bang);
        let e = digit_end(s, k);
        e > k && e < s.len() && s[e] == '>'
    })
}

/// The id carried by the mention at `i`, unless it exceeds `u64`.
pub open spec fn mention_value_at(s: Seq<char>, i: int, pre: Seq<char>, opt_bang: bool) -> Option<
    u64,
> {
    let k = mention_digits_start(s, i, pre, opt_bang);
    spec_parse_run_u64(s, k, digit_end(s, k))
}

pub open spec fn has_mention(s: Seq<char>, pre: Seq<char>, opt_bang: bool) -> bool {
    exists|i: int| mention_match_at(s, i, pre, opt_bang)
}

/// The position of the leftmost mention.
pub open spec fn first_mention(s: Seq<char>, pre: Seq<char>, opt_bang: bool) -> int {
    choose|i: int|
        mention_match_at(s, i, pre, opt_bang) && forall|j: int|
            0 <= j < i ==> !mention_match_at(s, j, pre, opt_bang)
}

/// What the mention extractors return: a plain id, or the id of the
/// leftmost mention in the message.
pub open spec fn spec_get_mention(s: Seq<char>, pre: Seq<char>, opt_bang: bool) -> Option<u64> {
    match spec_parse_u64(s) {
        Some(v) => Some(v),
        None => {
            if has_mention(s, pre, opt_bang) {
                mention_value_at(s, first_mention(s, pre, opt_bang), pre, opt_bang)
            } else {
                None
            }
        },
    }
}

/// Scans for the leftmost mention and parses its id.
#[verifier::loop_isolation(false)]
fn find_mention(s: &str, pre: &str, opt_bang: bool) -> (r: Option<u64>)
    ensures
        r == if has_mention(s@, pre@, opt_bang) {
            mention_value_at(s@, first_mention(s@, pre@, opt_bang), pre@, opt_bang)
        } else {
            Option::<u64>::None
        },
{
    let s_len = s.unicode_len();
    let pre_len = pre.unicode_len();
    let mut i: usize = 0;
    while i < s_len
        invariant
            0 <= i <= s_len,
            forall|j: int| 0 <= j < i ==> !mention_match_at(s@, j, pre@, opt_bang),
        decreases s_len - i,
    {
        if pat_match_at(s, s_len, i, pre, pre_len) {
            let k0 = i + pre_len;
            let k = if opt_bang && k0 < s_len && s.get_char(k0) == '!' {
                k0 + 1
            } else {
                k0
            };
            proof {
                assert(k == mention_digits_start(s@, i as int, pre@, opt_bang));
            }
            let e = scan_digit_end(s, s_len, k);
            proof {
                lemma_digit_end(s@, k as int);
            }
            if e > k && e < s_len && s.get_char(e) == '>' {
                proof {
                    assert(mention_match_at(s@, i as int, pre@, opt_bang));
                    let w = first_mention(s@, pre@, opt_bang);
                    assert(mention_match_at(s@, w, pre@, opt_bang) && forall|j: int|
                        0 <= j < w ==> !mention_match_at(s@, j, pre@, opt_bang));
                    assert(w == i);
                }
                return parse_run_u64(s, s_len, k, e);
            }
        }
        i = i + 1;
    }
    proof {
        if has_mention(s@, pre@, opt_bang) {
            let w = choose|w: int| mention_match_at(s@, w, pre@, opt_bang);
            assert(!mention_match_at(s@, w, pre@, opt_bang));
        }
    }
    None
}

fn get_mention(s: &str, pre: &str, opt_bang: bool) -> (r: Option<u64>)
    ensures
        r == spec_get_mention(s@, pre@, opt_bang),
{
    match parse_u64_str(s) {
        Some(v) => Some(v),
        None => find_mention(s, pre, opt_bang),
    }
}

/// A channel mention (`<#…>`) or plain channel id in the message.
pub fn get_mention_channel(msg: &str) -> (r: Option<u64>)
    ensures
        r == spec_get_mention(msg@, "<#"@, false),
{
    get_mention(msg, "<#", false)
}

/// A role mention (`<@&…>`) or plain role id in the message.
pub fn get_mention_role(msg: &str) -> (r: Option<u64>)
    ensures
        r == spec_get_mention(msg@, "<@&"@, false),
{
    get_mention(msg, "<@&", false)
}

/// A user mention (`<@…>` or `<@!…>`) or plain user id in the message.
pub fn get_mention_user(msg: &str) -> (r: Option<u64>)
    ensures
        r == spec_get_mention(msg@, "<@"@, true),
{
    get_mention(msg, "<@", true)
}

/// A link shape: the prefix (dots loose), then at least one digit.
pub open spec fn url_match_at(s: Seq<char>, i: int, pre: Seq<char>) -> bool {
    pat_at(s, i, pre) && digit_end(s, i + pre.len()) > i + pre.len()
}

/// The id the link at `i` carries, unless it exceeds `u32`.
pub open spec fn url_value_at(s: Seq<char>, i: int, pre: Seq<char>) -> Option<u32> {
    spec_parse_run_u32(s, i + pre.len(), digit_end(s, i + pre.len()))
}

pub open spec fn has_url(s: Seq<char>, pre: Seq<char>) -> bool {
    exists|i: int| url_match_at(s, i, pre)
}

pub open spec fn first_url(s: Seq<char>, pre: Seq<char>) -> int {
    choose|i: int|
        url_match_at(s, i, pre) && forall|j: int| 0 <= j < i ==> !url_match_at(s, j, pre)
}

pub open spec fn spec_find_url_id(s: Seq<char>, pre: Seq<char>) -> Option<u32> {
    if has_url(s, pre) {
        url_value_at(s, first_url(s, pre), pre)
    } else {
        None
    }
}

/// Scans for the leftmost link of the given shape and parses its id.
#[verifier::loop_isolation(false)]
fn find_url_id(s: &str, pre: &str) -> (r: Option<u32>)
    ensures
        r == spec_find_url_id(s@, pre@),
{
    let s_len = s.unicode_len();
    let pre_len = pre.unicode_len();
    let mut i: usize = 0;
    while i < s_len
        invariant
            0 <= i <= s_len,
            forall|j: int| 0 <= j < i ==> !url_match_at(s@, j, pre@),
        decreases s_len - i,
    {
        if pat_match_at(s, s_len, i, pre, pre_len) {
            let k = i + pre_len;
            let e = scan_digit_end(s, s_len, k);
            proof {
                lemma_digit_end(s@, k as int);
            }
            if e > k {
                proof {
                    assert(url_match_at(s@, i as int, pre@));
                    let w = first_url(s@, pre@);
                    assert(url_match_at(s@, w, pre@) && forall|j: int|
                        0 <= j < w ==> !url_match_at(s@, j, pre@));
                    assert(w == i);
                }
                return parse_run_u32(s, s_len, k, e);
            }
        }
        i = i + 1;
    }
    proof {
        if has_url(s@, pre@) {
            let w = choose|w: int| url_match_at(s@, w, pre@);
            assert(!url_match_at(s@, w, pre@));
        }
    }
    None
}

/// The user id in a profile link.
pub fn get_osu_user_id(msg: &str) -> (r: Option<u32>)
    ensures
        r == spec_find_url_id(msg@, "https://osu.ppy.sh/users/"@),
{
    find_url_id(msg, "https://osu.ppy.sh/users/")
}

/// A multiplayer match link, in either of its two spellings, or a plain id.
pub open spec fn spec_get_osu_match_id(s: Seq<char>) -> Option<u32> {
    match spec_parse_u32(s) {
        Some(v) => Some(v),
        None => {
            if has_url(s, "https://osu.ppy.sh/community/matches/"@) || has_url(
                s,
                "https://osu.ppy.sh/mp/"@,
            ) {
                spec_match_link_value(s)
            } else {
                None
            }
        },
    }
}

/// Either spelling matches at `i`.
pub open spec fn match_link_at(s: Seq<char>, i: int) -> bool {
    url_match_at(s, i, "https://osu.ppy.sh/community/matches/"@) || url_match_at(
        s,
        i,
        "https://osu.ppy.sh/mp/"@,
    )
}

pub open spec fn first_match_link(s: Seq<char>) -> int {
    choose|i: int| match_link_at(s, i) && forall|j: int| 0 <= j < i ==> !match_link_at(s, j)
}

/// The id at the leftmost match link.
pub open spec fn spec_match_link_value(s: Seq<char>) -> Option<u32> {
    let i = first_match_link(s);
    if url_match_at(s, i, "https://osu.ppy.sh/community/matches/"@) {
        url_value_at(s, i, "https://osu.ppy.sh/community/matches/"@)
    } else {
        url_value_at(s, i, "https://osu.ppy.sh/mp/"@)
    }
}

/// The match id in the message: a plain number, or the leftmost match link.
#[verifier::loop_isolation(false)]
pub fn get_osu_match_id(msg: &str) -> (r: Option<u32>)
    ensures
        r == spec_get_osu_match_id(msg@),
{
    match parse_u32_str(msg) {
        Some(v) => {
            return Some(v);
        },
        None => {},
    }
    let s_len = msg.unicode_len();
    let long_pre = "https://osu.ppy.sh/community/matches/";
    let short_pre = "https://osu.ppy.sh/mp/";
    let long_len = long_pre.unicode_len();
    let short_len = short_pre.unicode_len();
    proof {
        reveal_strlit("https://osu.ppy.sh/community/matches/");
        reveal_strlit("https://osu.ppy.sh/mp/");
    }
    let mut i: usize = 0;
    while i < s_len
        invariant
            0 <= i <= s_len,
            forall|j: int| 0 <= j < i ==> !match_link_at(msg@, j),
        decreases s_len - i,
    {
        let long_hit = pat_match_at(msg, s_len, i, long_pre, long_len);
        let short_hit = pat_match_at(msg, s_len, i, short_pre, short_len);
        if long_hit || short_hit {
            let k = if long_hit {
                i + long_len
            } else {
                i + short_len
            };
            let e = scan_digit_end(msg, s_len, k);
            proof {
                lemma_digit_end(msg@, k as int);
            }
            if e > k {
                proof {
                    assert(match_link_at(msg@, i as int));
                    let w = first_match_link(msg@);
                    assert(match_link_at(msg@, w) && forall|j: int|
                        0 <= j < w ==> !match_link_at(msg@, j));
                    assert(w == i);
                    if long_hit {
                        assert(url_match_at(msg@, i as int, long_pre@));
                    } else {
                        // The two spellings differ right after the shared
                        // base, so only the short one matched here.
                        assert(!url_match_at(msg@, i as int, long_pre@)) by {
                            if pat_at(msg@, i as int, long_pre@) {
                                assert(long_pre@[19] == 'c');
                                assert(msg@[i + 19] == 'c');
                            }
                        }
                    }
                }
                return parse_run_u32(msg, s_len, k, e);
            }
            proof {
                // The digits were missing: neither spelling matches here.
                if long_hit {
                    assert(!url_match_at(msg@, i as int, short_pre@)) by {
                        if pat_at(msg@, i as int, short_pre@) {
                            assert(long_pre@[19] == 'c');
                            assert(short_pre@[19] == 'm');
                            assert(msg@[i + 19] == 'c');
                            assert(msg@[i + 19] == 'm');
                        }
                    }
                }
                assert(!match_link_at(msg@, i as int));
            }
        }
        i = i + 1;
    }
    proof {
        if has_url(msg@, long_pre@) {
            let w = choose|w: int| url_match_at(msg@, w, long_pre@);
            assert(match_link_at(msg@, w));
            assert(!match_link_at(msg@, w));
        }
        if has_url(msg@, short_pre@) {
            let w = choose|w: int| url_match_at(msg@, w, short_pre@);
            assert(match_link_at(msg@, w));
            assert(!match_link_at(msg@, w));
        }
    }
    None
}


/// `lit` occurs literally at `i` (no wildcards).
#[verifier::loop_isolation(false)]
fn lit_match_at_exec(s: &str, s_len: usize, i: usize, lit: &str, lit_len: usize) -> (r: bool)
    requires
        s_len == s@.len(),
        lit_len == lit@.len(),
        i <= s_len,
    ensures
        r == lit_at(s@, i as int, lit@),
{
    if lit_len > s_len - i {
        return false;
    }
    let mut k: usize = 0;
    while k < lit_len
        invariant
            0 <= k <= lit_len,
            i + lit_len <= s_len,
            forall|m: int| 0 <= m < k ==> s@[i + m] == #[trigger] lit@[m],
        decreases lit_len - k,
    {
        if s.get_char(i + k) != lit.get_char(k) {
            proof {
                assert(s@.subrange(i as int, i + lit@.len())[k as int] != lit@[k as int]);
            }
            return false;
        }
        k = k + 1;
    }
    proof {
        assert(s@.subrange(i as int, i + lit@.len()) =~= lit@);
    }
    true
}

/// Does the literal occur anywhere in `s`?
#[verifier::loop_isolation(false)]
fn contains_lit_exec(s: &str, lit: &str) -> (r: bool)
    ensures
        r == contains_lit(s@, lit@),
{
    let s_len = s.unicode_len();
    let lit_len = lit.unicode_len();
    if lit_len == 0 {
        proof {
            assert(lit_at(s@, 0, lit@)) by {
                assert(s@.subrange(0, 0) =~= lit@);
            }
        }
        return true;
    }
    let mut i: usize = 0;
    while i < s_len
        invariant
            0 <= i <= s_len,
            forall|j: int| 0 <= j < i ==> !lit_at(s@, j, lit@),
        decreases s_len - i,
    {
        if lit_match_at_exec(s, s_len, i, lit, lit_len) {
            return true;
        }
        i = i + 1;
    }
    proof {
        if contains_lit(s@, lit@) {
            let w = choose|w: int| lit_at(s@, w, lit@);
            assert(!lit_at(s@, w, lit@));
        }
    }
    false
}

/// Where the digits of an old-style map link start: after `b/`, or after
/// `beatmaps/` when the long spelling is present.
pub open spec fn old_map_digits_start(s: Seq<char>, i: int) -> int {
    if pat_at(s, i + 20, "eatmaps"@) {
        i + 27
    } else {
        i + 20
    }
}

/// An old-style map link (`…/b/123` or `…/beatmaps/123`) occurs at `i`.
pub open spec fn old_map_match_at(s: Seq<char>, i: int) -> bool {
    &&& pat_at(s, i, "https://osu.ppy.sh/b"@)
    &&& ({
        let k = old_map_digits_start(s, i);
        k < s.len() && s[k] == '/' && digit_end(s, k + 1) > k + 1
    })
}

pub open spec fn old_map_value_at(s: Seq<char>, i: int) -> Option<u32> {
    let k = old_map_digits_start(s, i);
    spec_parse_run_u32(s, k + 1, digit_end(s, k + 1))
}

pub open spec fn has_old_map(s: Seq<char>) -> bool {
    exists|i: int| old_map_match_at(s, i)
}

pub open spec fn first_old_map(s: Seq<char>) -> int {
    choose|i: int| old_map_match_at(s, i) && forall|j: int| 0 <= j < i ==> !old_map_match_at(s, j)
}

/// A new-style mapset link (`…/beatmapsets/123…`) occurs at `i`.
pub open spec fn new_map_match_at(s: Seq<char>, i: int) -> bool {
    pat_at(s, i, "https://osu.ppy.sh/beatmapsets/"@) && digit_end(s, i + 31) > i + 31
}

/// The mapset id of the new-style link at `i`.
pub open spec fn new_map_set_value_at(s: Seq<char>, i: int) -> Option<u32> {
    spec_parse_run_u32(s, i + 31, digit_end(s, i + 31))
}

pub open spec fn has_new_map(s: Seq<char>) -> bool {
    exists|i: int| new_map_match_at(s, i)
}

pub open spec fn first_new_map(s: Seq<char>) -> int {
    choose|i: int| new_map_match_at(s, i) && forall|j: int| 0 <= j < i ==> !new_map_match_at(s, j)
}

/// Where the optional mode or channel separator of a new-style link ends,
/// or -1 when none is present.
pub open spec fn new_map_sep_end(s: Seq<char>, e1: int) -> int {
    if e1 < s.len() && s[e1] == '#' {
        if pat_at(s, e1 + 1, "osu"@) {
            e1 + 4
        } else if pat_at(s, e1 + 1, "mania"@) {
            e1 + 6
        } else if pat_at(s, e1 + 1, "taiko"@) {
            e1 + 6
        } else if pat_at(s, e1 + 1, "fruits"@) {
            e1 + 7
        } else {
            -1
        }
    } else if e1 + 1 < s.len() && s[e1] == '<' && s[e1 + 1] == '#' && digit_end(s, e1 + 2) > e1
        + 2 && digit_end(s, e1 + 2) < s.len() && s[digit_end(s, e1 + 2)] == '>' {
        digit_end(s, e1 + 2) + 1
    } else {
        -1
    }
}

/// The digits of the map part of a new-style link at `i`, when present.
pub open spec fn new_map_map_digits(s: Seq<char>, i: int) -> Option<(int, int)> {
    let e1 = digit_end(s, i + 31);
    let k2 = new_map_sep_end(s, e1);
    if k2 >= 0 && k2 < s.len() && s[k2] == '/' && digit_end(s, k2 + 1) > k2 + 1 {
        Some((k2 + 1, digit_end(s, k2 + 1)))
    } else {
        None
    }
}

/// The base of every game link; a message without it holds no map link.
pub open spec fn osu_base() -> Seq<char> {
    "https://osu.ppy.sh/"@
}

/// What `get_osu_map_id` answers: a plain number is a map id; otherwise the
/// leftmost old-style link, or the map part of the leftmost new-style link.
pub open spec fn spec_get_osu_map_id(s: Seq<char>) -> Option<MapIdType> {
    match spec_parse_u32(s) {
        Some(v) => Some(MapIdType::Beatmap(v)),
        None => {
            if !contains_lit(s, osu_base()) {
                None
            } else if has_old_map(s) {
                match old_map_value_at(s, first_old_map(s)) {
                    Some(v) => Some(MapIdType::Beatmap(v)),
                    None => None,
                }
            } else if has_new_map(s) {
                match new_map_map_digits(s, first_new_map(s)) {
                    Some((a, b)) => match spec_parse_run_u32(s, a, b) {
                        Some(v) => Some(MapIdType::Beatmap(v)),
                        None => None,
                    },
                    None => None,
                }
            } else {
                None
            }
        },
    }
}

/// What `get_osu_mapset_id` answers: a plain number is a mapset id;
/// otherwise the leftmost old-style mapset link, or the mapset part of the
/// leftmost new-style link.
pub open spec fn spec_get_osu_mapset_id(s: Seq<char>) -> Option<MapIdType> {
    match spec_parse_u32(s) {
        Some(v) => Some(MapIdType::Mapset(v)),
        None => {
            if !contains_lit(s, osu_base()) {
                None
            } else if has_url(s, "https://osu.ppy.sh/s/"@) {
                match url_value_at(s, first_url(s, "https://osu.ppy.sh/s/"@), "https://osu.ppy.sh/s/"@) {
                    Some(v) => Some(MapIdType::Mapset(v)),
                    None => None,
                }
            } else if has_new_map(s) {
                match new_map_set_value_at(s, first_new_map(s)) {
                    Some(v) => Some(MapIdType::Mapset(v)),
                    None => None,
                }
            } else {
                None
            }
        },
    }
}

/// Checks one position for an old-style map link and hands out its digits.
#[verifier::loop_isolation(false)]
fn old_map_at(s: &str, s_len: usize, i: usize) -> (r: Option<(usize, usize)>)
    requires
        s_len == s@.len(),
        i <= s_len,
    ensures
        r is Some <==> old_map_match_at(s@, i as int),
        r matches Some(p) ==> ({
            let k = old_map_digits_start(s@, i as int);
            &&& p.0 == k + 1
            &&& p.1 == digit_end(s@, k + 1)
            &&& p.0 < p.1 <= s_len
            &&& forall|m: int| p.0 <= m < p.1 ==> is_digit(#[trigger] s@[m])
        }),
{
    proof {
        reveal_strlit("https://osu.ppy.sh/b");
        reveal_strlit("eatmaps");
    }
    if !pat_match_at(s, s_len, i, "https://osu.ppy.sh/b", 20) {
        return None;
    }
    let k = if pat_match_at(s, s_len, i + 20, "eatmaps", 7) {
        i + 27
    } else {
        i + 20
    };
    if k >= s_len || s.get_char(k) != '/' {
        return None;
    }
    let e = scan_digit_end(s, s_len, k + 1);
    proof {
        lemma_digit_end(s@, k + 1);
    }
    if e > k + 1 {
        Some((k + 1, e))
    } else {
        None
    }
}

/// Checks one position for a new-style mapset link; hands out the end of
/// the mapset digits.
#[verifier::loop_isolation(false)]
fn new_map_at(s: &str, s_len: usize, i: usize) -> (r: Option<usize>)
    requires
        s_len == s@.len(),
        i <= s_len,
    ensures
        r is Some <==> new_map_match_at(s@, i as int),
        r matches Some(e1) ==> e1 == digit_end(s@, i + 31) && i + 31 < e1 <= s_len && (forall|
            m: int,
        |
            i + 31 <= m < e1 ==> is_digit(#[trigger] s@[m])),
{
    proof {
        reveal_strlit("https://osu.ppy.sh/beatmapsets/");
    }
    if !pat_match_at(s, s_len, i, "https://osu.ppy.sh/beatmapsets/", 31) {
        return None;
    }
    let e1 = scan_digit_end(s, s_len, i + 31);
    proof {
        lemma_digit_end(s@, i + 31);
    }
    if e1 > i + 31 {
        Some(e1)
    } else {
        None
    }
}

/// The map part of the new-style link whose mapset digits end at `e1`.
#[verifier::loop_isolation(false)]
fn new_map_map_digits_exec(s: &str, s_len: usize, e1: usize) -> (r: Option<(usize, usize)>)
    requires
        s_len == s@.len(),
        e1 <= s_len,
    ensures
        ({
            let k2 = new_map_sep_end(s@, e1 as int);
            match r {
                Some(p) => k2 >= 0 && k2 < s_len && s@[k2] == '/' && p.0 == k2 + 1 && p.1
                    == digit_end(s@, k2 + 1) && p.0 < p.1 <= s_len && (forall|m: int|
                    p.0 <= m < p.1 ==> is_digit(#[trigger] s@[m])),
                None => !(k2 >= 0 && k2 < s@.len() && s@[k2] == '/' && digit_end(s@, k2 + 1) > k2
                    + 1),
            }
        }),
{
    proof {
        reveal_strlit("osu");
        reveal_strlit("mania");
        reveal_strlit("taiko");
        reveal_strlit("fruits");
    }
    let k2: usize;
    if e1 < s_len && s.get_char(e1) == '#' {
        if pat_match_at(s, s_len, e1 + 1, "osu", 3) {
            k2 = e1 + 4;
        } else if pat_match_at(s, s_len, e1 + 1, "mania", 5) {
            k2 = e1 + 6;
        } else if pat_match_at(s, s_len, e1 + 1, "taiko", 5) {
            k2 = e1 + 6;
        } else if pat_match_at(s, s_len, e1 + 1, "fruits", 6) {
            k2 = e1 + 7;
        } else {
            return None;
        }
    } else if e1 < s_len && e1 + 1 < s_len && s.get_char(e1) == '<' && s.get_char(e1 + 1)
        == '#' {
        let d = scan_digit_end(s, s_len, e1 + 2);
        proof {
            lemma_digit_end(s@, e1 + 2);
        }
        if d > e1 + 2 && d < s_len && s.get_char(d) == '>' {
            k2 = d + 1;
        } else {
            return None;
        }
    } else {
        return None;
    }
    proof {
        assert(k2 == new_map_sep_end(s@, e1 as int));
    }
    if k2 < s_len && s.get_char(k2) == '/' {
        let e2 = scan_digit_end(s, s_len, k2 + 1);
        proof {
            lemma_digit_end(s@, k2 + 1);
        }
        if e2 > k2 + 1 {
            return Some((k2 + 1, e2));
        }
    }
    None
}

/// The map id in the message: a plain number, the leftmost old-style map
/// link, or the map part of the leftmost new-style link.
#[verifier::loop_isolation(false)]
pub fn get_osu_map_id(msg: &str) -> (r: Option<MapIdType>)
    ensures
        r == spec_get_osu_map_id(msg@),
{
    match parse_u32_str(msg) {
        Some(v) => {
            return Some(MapIdType::Beatmap(v));
        },
        None => {},
    }
    if !contains_lit_exec(msg, "https://osu.ppy.sh/") {
        return None;
    }
    let s_len = msg.unicode_len();
    proof {
        reveal_strlit("https://osu.ppy.sh/b");
        reveal_strlit("https://osu.ppy.sh/beatmapsets/");
    }
    let mut i: usize = 0;
    while i < s_len
        invariant
            0 <= i <= s_len,
            forall|j: int| 0 <= j < i ==> !old_map_match_at(msg@, j),
        decreases s_len - i,
    {
        match old_map_at(msg, s_len, i) {
            Some((a, b)) => {
                proof {
                    let w = first_old_map(msg@);
                    assert(old_map_match_at(msg@, w) && forall|j: int|
                        0 <= j < w ==> !old_map_match_at(msg@, j));
                    assert(w == i);
                }
                match parse_run_u32(msg, s_len, a, b) {
                    Some(v) => {
                        return Some(MapIdType::Beatmap(v));
                    },
                    None => {
                        return None;
                    },
                }
            },
            None => {},
        }
        i = i + 1;
    }
    proof {
        if has_old_map(msg@) {
            let w = choose|w: int| old_map_match_at(msg@, w);
            assert(!old_map_match_at(msg@, w));
        }
    }
    let mut i2: usize = 0;
    while i2 < s_len
        invariant
            0 <= i2 <= s_len,
            !has_old_map(msg@),
            forall|j: int| 0 <= j < i2 ==> !new_map_match_at(msg@, j),
        decreases s_len - i2,
    {
        match new_map_at(msg, s_len, i2) {
            Some(e1) => {
                proof {
                    let w = first_new_map(msg@);
                    assert(new_map_match_at(msg@, w) && forall|j: int|
                        0 <= j < w ==> !new_map_match_at(msg@, j));
                    assert(w == i2);
                }
                match new_map_map_digits_exec(msg, s_len, e1) {
                    Some((a, b)) => {
                        match parse_run_u32(msg, s_len, a, b) {
                            Some(v) => {
                                return Some(MapIdType::Beatmap(v));
                            },
                            None => {
                                return None;
                            },
                        }
                    },
                    None => {
                        return None;
                    },
                }
            },
            None => {},
        }
        i2 = i2 + 1;
    }
    proof {
        if has_new_map(msg@) {
            let w = choose|w: int| new_map_match_at(msg@, w);
            assert(!new_map_match_at(msg@, w));
        }
    }
    None
}

/// The mapset id in the message: a plain number, the leftmost old-style
/// mapset link, or the mapset part of the leftmost new-style link.
#[verifier::loop_isolation(false)]
pub fn get_osu_mapset_id(msg: &str) -> (r: Option<MapIdType>)
    ensures
        r == spec_get_osu_mapset_id(msg@),
{
    match parse_u32_str(msg) {
        Some(v) => {
            return Some(MapIdType::Mapset(v));
        },
        None => {},
    }
    if !contains_lit_exec(msg, "https://osu.ppy.sh/") {
        return None;
    }
    let s_len = msg.unicode_len();
    let set_pre = "https://osu.ppy.sh/s/";
    let set_pre_len = set_pre.unicode_len();
    proof {
        reveal_strlit("https://osu.ppy.sh/s/");
        reveal_strlit("https://osu.ppy.sh/beatmapsets/");
    }
    let mut i: usize = 0;
    while i < s_len
        invariant
            0 <= i <= s_len,
            forall|j: int| 0 <= j < i ==> !url_match_at(msg@, j, set_pre@),
        decreases s_len - i,
    {
        if pat_match_at(msg, s_len, i, set_pre, set_pre_len) {
            let k = i + set_pre_len;
            let e = scan_digit_end(msg, s_len, k);
            proof {
                lemma_digit_end(msg@, k as int);
            }
            if e > k {
                proof {
                    assert(url_match_at(msg@, i as int, set_pre@));
                    let w = first_url(msg@, set_pre@);
                    assert(url_match_at(msg@, w, set_pre@) && forall|j: int|
                        0 <= j < w ==> !url_match_at(msg@, j, set_pre@));
                    assert(w == i);
                }
                match parse_run_u32(msg, s_len, k, e) {
                    Some(v) => {
                        return Some(MapIdType::Mapset(v));
                    },
                    None => {
                        return None;
                    },
                }
            }
        }
        i = i + 1;
    }
    proof {
        if has_url(msg@, set_pre@) {
            let w = choose|w: int| url_match_at(msg@, w, set_pre@);
            assert(!url_match_at(msg@, w, set_pre@));
        }
    }
    let mut i2: usize = 0;
    while i2 < s_len
        invariant
            0 <= i2 <= s_len,
            !has_url(msg@, set_pre@),
            forall|j: int| 0 <= j < i2 ==> !new_map_match_at(msg@, j),
        decreases s_len - i2,
    {
        match new_map_at(msg, s_len, i2) {
            Some(e1) => {
                proof {
                    let w = first_new_map(msg@);
                    assert(new_map_match_at(msg@, w) && forall|j: int|
                        0 <= j < w ==> !new_map_match_at(msg@, j));
                    assert(w == i2);
                }
                match parse_run_u32(msg, s_len, i2 + 31, e1) {
                    Some(v) => {
                        return Some(MapIdType::Mapset(v));
                    },
                    None => {
                        return None;
                    },
                }
            },
            None => {},
        }
        i2 = i2 + 1;
    }
    proof {
        if has_new_map(msg@) {
            let w = choose|w: int| new_map_match_at(msg@, w);
            assert(!new_map_match_at(msg@, w));
        }
    }
    None
}


/// The first `:` or line break at or after `i`, or the end of the string.
pub open spec fn name_end(s: Seq<char>, i: int) -> int
    decreases s.len() - i when 0 <= i <= s.len()
{
    if i < 0 || i >= s.len() {
        i
    } else if s[i] == ':' || s[i] == '\n' {
        i
    } else {
        name_end(s, i + 1)
    }
}

pub proof fn lemma_name_end(s: Seq<char>, i: int)
    requires
        0 <= i <= s.len(),
    ensures
        i <= name_end(s, i) <= s.len(),
        forall|k: int| i <= k < name_end(s, i) ==> #[trigger] s[k] != ':' && s[k] != '\n',
        name_end(s, i) < s.len() ==> s[name_end(s, i)] == ':' || s[name_end(s, i)] == '\n',
    decreases s.len() - i,
{
    if i < s.len() && s[i] != ':' && s[i] != '\n' {
        lemma_name_end(s, i + 1);
    }
}

#[verifier::loop_isolation(false)]
fn scan_name_end(s: &str, s_len: usize, i: usize) -> (r: usize)
    requires
        s_len == s@.len(),
        i <= s_len,
    ensures
        r == name_end(s@, i as int),
    decreases s_len - i,
{
    let mut j = i;
    while j < s_len && s.get_char(j) != ':' && s.get_char(j) != '\n'
        invariant
            i <= j <= s_len,
            name_end(s@, i as int) == name_end(s@, j as int),
        decreases s_len - j,
    {
        j = j + 1;
    }
    j
}

/// A custom emote (`<:name:id>`, possibly animated `<a:name:id>`) occurs at
/// `i`.
pub open spec fn emote_match_at(s: Seq<char>, i: int) -> bool {
    &&& 0 <= i < s.len()
    &&& s[i] == '<'
    &&& ({
        let k = if i + 1 < s.len() && s[i + 1] == 'a' {
            i + 2
        } else {
            i + 1
        };
        &&& k < s.len()
        &&& s[k] == ':'
        &&& ({
            let m = name_end(s, k + 1);
            &&& m > k + 1
            &&& m < s.len()
            &&& s[m] == ':'
            &&& ({
                let e = digit_end(s, m + 1);
                e > m + 1 && e < s.len() && s[e] == '>'
            })
        })
    })
}

pub open spec fn spec_is_custom_emote(s: Seq<char>) -> bool {
    exists|i: int| emote_match_at(s, i)
}

/// Does the message hold a custom emote anywhere?
#[verifier::loop_isolation(false)]
pub fn is_custom_emote(msg: &str) -> (r: bool)
    ensures
        r == spec_is_custom_emote(msg@),
{
    let s_len = msg.unicode_len();
    let mut i: usize = 0;
    while i < s_len
        invariant
            0 <= i <= s_len,
            forall|j: int| 0 <= j < i ==> !emote_match_at(msg@, j),
        decreases s_len - i,
    {
        if msg.get_char(i) == '<' {
            let k = if i + 1 < s_len && msg.get_char(i + 1) == 'a' {
                i + 2
            } else {
                i + 1
            };
            if k < s_len && msg.get_char(k) == ':' {
                let m = scan_name_end(msg, s_len, k + 1);
                proof {
                    lemma_name_end(msg@, k + 1);
                }
                if m > k + 1 && m < s_len && msg.get_char(m) == ':' {
                    let e = scan_digit_end(msg, s_len, m + 1);
                    proof {
                        lemma_digit_end(msg@, m + 1);
                    }
                    if e > m + 1 && e < s_len && msg.get_char(e) == '>' {
                        proof {
                            assert(emote_match_at(msg@, i as int));
                        }
                        return true;
                    }
                }
            }
        }
        proof {
            assert(!emote_match_at(msg@, i as int));
        }
        i = i + 1;
    }
    proof {
        if spec_is_custom_emote(msg@) {
            let w = choose|w: int| emote_match_at(msg@, w);
            assert(!emote_match_at(msg@, w));
        }
    }
    false
}

/// From `j`, at least `k` more slash-separated digit groups followed by a
/// closing brace.
pub open spec fn hit_tail(s: Seq<char>, j: int, k: int) -> bool
    decreases s.len() - j when 0 <= j <= s.len() via hit_tail_decreases
{
    let e = digit_end(s, j);
    if e == j {
        false
    } else if e < s.len() && s[e] == '/' {
        hit_tail(s, e + 1, if k > 0 { k - 1 } else { 0 })
    } else {
        e < s.len() && s[e] == '}' && k <= 1
    }
}

#[via_fn]
proof fn hit_tail_decreases(s: Seq<char>, j: int, k: int) {
    lemma_digit_end(s, j);
}

/// A hit-results block (`{a/b/…/c}` with at least three groups) occurs at
/// `i`.
pub open spec fn hit_results_at(s: Seq<char>, i: int) -> bool {
    0 <= i < s.len() && s[i] == '{' && hit_tail(s, i + 1, 3)
}

pub open spec fn spec_is_hit_results(s: Seq<char>) -> bool {
    exists|i: int| hit_results_at(s, i)
}

/// Checks whether at least `k` slash-separated digit groups and a brace
/// follow position `j`.
#[verifier::loop_isolation(false)]
fn hit_tail_exec(s: &str, s_len: usize, j0: usize, k0: usize) -> (r: bool)
    requires
        s_len == s@.len(),
        j0 <= s_len,
    ensures
        r == hit_tail(s@, j0 as int, k0 as int),
    decreases s_len - j0,
{
    let mut j = j0;
    let mut k = k0;
    loop
        invariant
            j <= s_len,
            s_len == s@.len(),
            hit_tail(s@, j0 as int, k0 as int) == hit_tail(s@, j as int, k as int),
        decreases s_len - j,
    {
        let e = scan_digit_end(s, s_len, j);
        proof {
            lemma_digit_end(s@, j as int);
        }
        if e == j {
            return false;
        }
        if e < s_len && s.get_char(e) == '/' {
            k = if k > 0 {
                k - 1
            } else {
                0
            };
            j = e + 1;
        } else {
            return e < s_len && s.get_char(e) == '}' && k <= 1;
        }
    }
}

/// Does the message hold a `{hits/hits/…}` block with at least three
/// groups?
#[verifier::loop_isolation(false)]
pub fn is_hit_results(msg: &str) -> (r: bool)
    ensures
        r == spec_is_hit_results(msg@),
{
    let s_len = msg.unicode_len();
    let mut i: usize = 0;
    while i < s_len
        invariant
            0 <= i <= s_len,
            forall|j: int| 0 <= j < i ==> !hit_results_at(msg@, j),
        decreases s_len - i,
    {
        if msg.get_char(i) == '{' && hit_tail_exec(msg, s_len, i + 1, 3) {
            proof {
                assert(hit_results_at(msg@, i as int));
            }
            return true;
        }
        i = i + 1;
    }
    proof {
        if spec_is_hit_results(msg@) {
            let w = choose|w: int| hit_results_at(msg@, w);
            assert(!hit_results_at(msg@, w));
        }
    }
    false
}

/// A guest-difficulty phrase (`…'s easy` and the like) occurs at `i`.
pub open spec fn guest_diff_at(s: Seq<char>, i: int) -> bool {
    &&& 0 <= i < s.len()
    &&& s[i] == '\''
    &&& ({
        let k = if i + 1 < s.len() && s[i + 1] == 's' {
            i + 2
        } else {
            i + 1
        };
        &&& k < s.len()
        &&& s[k] == ' '
        &&& (pat_at(s, k + 1, "easy"@) || pat_at(s, k + 1, "normal"@) || pat_at(s, k + 1, "hard"@)
            || pat_at(s, k + 1, "insane"@) || pat_at(s, k + 1, "expert"@) || pat_at(
            s,
            k + 1,
            "extra"@,
        ) || pat_at(s, k + 1, "extreme"@) || pat_at(s, k + 1, "emotions"@) || pat_at(
            s,
            k + 1,
            "repetition"@,
        ))
    })
}

pub open spec fn spec_is_guest_diff(s: Seq<char>) -> bool {
    exists|i: int| guest_diff_at(s, i)
}

/// Does the message name a guest difficulty?
#[verifier::loop_isolation(false)]
pub fn is_guest_diff(msg: &str) -> (r: bool)
    ensures
        r == spec_is_guest_diff(msg@),
{
    proof {
        reveal_strlit("easy");
        reveal_strlit("normal");
        reveal_strlit("hard");
        reveal_strlit("insane");
        reveal_strlit("expert");
        reveal_strlit("extra");
        reveal_strlit("extreme");
        reveal_strlit("emotions");
        reveal_strlit("repetition");
    }
    let s_len = msg.unicode_len();
    let mut i: usize = 0;
    while i < s_len
        invariant
            0 <= i <= s_len,
            forall|j: int| 0 <= j < i ==> !guest_diff_at(msg@, j),
        decreases s_len - i,
    {
        if msg.get_char(i) == '\'' {
            let k = if i + 1 < s_len && msg.get_char(i + 1) == 's' {
                i + 2
            } else {
                i + 1
            };
            if k < s_len && msg.get_char(k) == ' ' {
                let hit = pat_match_at(msg, s_len, k + 1, "easy", 4) || pat_match_at(
                    msg,
                    s_len,
                    k + 1,
                    "normal",
                    6,
                ) || pat_match_at(msg, s_len, k + 1, "hard", 4) || pat_match_at(
                    msg,
                    s_len,
                    k + 1,
                    "insane",
                    6,
                ) || pat_match_at(msg, s_len, k + 1, "expert", 6) || pat_match_at(
                    msg,
                    s_len,
                    k + 1,
                    "extra",
                    5,
                ) || pat_match_at(msg, s_len, k + 1, "extreme", 7) || pat_match_at(
                    msg,
                    s_len,
                    k + 1,
                    "emotions",
                    8,
                ) || pat_match_at(msg, s_len, k + 1, "repetition", 10);
                if hit {
                    proof {
                        assert(guest_diff_at(msg@, i as int));
                    }
                    return true;
                }
            }
        }
        proof {
            assert(!guest_diff_at(msg@, i as int));
        }
        i = i + 1;
    }
    proof {
        if spec_is_guest_diff(msg@) {
            let w = choose|w: int| guest_diff_at(msg@, w);
            assert(!guest_diff_at(msg@, w));
        }
    }
    false
}


/// ASCII lowering, the way the badge words are compared.
pub open spec fn lower_char(c: char) -> char {
    if 65 <= c as int <= 90 {
        ((c as u8) + 32) as char
    } else {
        c
    }
}

/// `w` is a prefix of `s` up to ASCII case.
pub open spec fn prefix_ci(s: Seq<char>, w: Seq<char>) -> bool {
    w.len() <= s.len() && forall|k: int| 0 <= k < w.len() ==> lower_char(s[k]) == #[trigger] w[k]
}

/// The badge descriptions that do not count as tournament badges: ordinary
/// achievement badges start with one of these words, compared without case;
/// an "idol" badge only when something other than a handle follows.
pub open spec fn spec_badge_ignored(s: Seq<char>) -> bool {
    ||| prefix_ci(s, "contrib"@)
    ||| prefix_ci(s, "nomination"@)
    ||| prefix_ci(s, "assessment"@)
    ||| prefix_ci(s, "global"@)
    ||| prefix_ci(s, "moderation"@)
    ||| prefix_ci(s, "beatmap"@)
    ||| prefix_ci(s, "spotlight"@)
    ||| prefix_ci(s, "map"@)
    ||| prefix_ci(s, "pending"@)
    ||| prefix_ci(s, "aspire"@)
    ||| prefix_ci(s, "elite"@)
    ||| prefix_ci(s, "monthly"@)
    ||| prefix_ci(s, "exemplary"@)
    ||| prefix_ci(s, "outstanding"@)
    ||| prefix_ci(s, "longstanding"@)
    ||| (prefix_ci(s, "idol"@) && s.len() > 4 && s[4] != '@')
}

fn lower_char_exec(c: char) -> (r: char)
    ensures
        r == lower_char(c),
{
    let v = c as u32;
    if 65 <= v && v <= 90 {
        ((c as u8) + 32) as char
    } else {
        c
    }
}

/// Is `w` a prefix of `s`, ignoring ASCII case?
#[verifier::loop_isolation(false)]
fn prefix_ci_exec(s: &str, s_len: usize, w: &str, w_len: usize) -> (r: bool)
    requires
        s_len == s@.len(),
        w_len == w@.len(),
    ensures
        r == prefix_ci(s@, w@),
{
    if w_len > s_len {
        return false;
    }
    let mut k: usize = 0;
    while k < w_len
        invariant
            0 <= k <= w_len,
            w_len <= s_len,
            forall|m: int| 0 <= m < k ==> lower_char(s@[m]) == #[trigger] w@[m],
        decreases w_len - k,
    {
        if lower_char_exec(s.get_char(k)) != w.get_char(k) {
            return false;
        }
        k = k + 1;
    }
    true
}

/// A profile badge counts as a tournament badge unless its description
/// starts like an ordinary achievement badge.
pub fn tourney_badge(description: &str) -> (r: bool)
    ensures
        r == !spec_badge_ignored(description@),
{
    let s_len = description.unicode_len();
    proof {
        reveal_strlit("contrib");
        reveal_strlit("nomination");
        reveal_strlit("assessment");
        reveal_strlit("global");
        reveal_strlit("moderation");
        reveal_strlit("beatmap");
        reveal_strlit("spotlight");
        reveal_strlit("map");
        reveal_strlit("pending");
        reveal_strlit("aspire");
        reveal_strlit("elite");
        reveal_strlit("monthly");
        reveal_strlit("exemplary");
        reveal_strlit("outstanding");
        reveal_strlit("longstanding");
        reveal_strlit("idol");
    }
    let ignored = prefix_ci_exec(description, s_len, "contrib", 7) || prefix_ci_exec(
        description,
        s_len,
        "nomination",
        10,
    ) || prefix_ci_exec(description, s_len, "assessment", 10) || prefix_ci_exec(
        description,
        s_len,
        "global",
        6,
    ) || prefix_ci_exec(description, s_len, "moderation", 10) || prefix_ci_exec(
        description,
        s_len,
        "beatmap",
        7,
    ) || prefix_ci_exec(description, s_len, "spotlight", 9) || prefix_ci_exec(
        description,
        s_len,
        "map",
        3,
    ) || prefix_ci_exec(description, s_len, "pending", 7) || prefix_ci_exec(
        description,
        s_len,
        "aspire",
        6,
    ) || prefix_ci_exec(description, s_len, "elite", 5) || prefix_ci_exec(
        description,
        s_len,
        "monthly",
        7,
    ) || prefix_ci_exec(description, s_len, "exemplary", 9) || prefix_ci_exec(
        description,
        s_len,
        "outstanding",
        11,
    ) || prefix_ci_exec(description, s_len, "longstanding", 12) || (prefix_ci_exec(
        description,
        s_len,
        "idol",
        4,
    ) && s_len > 4 && description.get_char(4) != '@');
    !ignored
}

/// The length of the playful numeral (`727`, with optional separators) at
/// `i`, or 0 when none starts here.
pub open spec fn numeral_len_at(s: Seq<char>, i: int) -> int {
    if !(0 <= i && i < s.len() && s[i] == '7') {
        0
    } else {
        let j = if i + 1 < s.len() && (s[i + 1] == '.' || s[i + 1] == ',') {
            i + 2
        } else {
            i + 1
        };
        if j < s.len() && s[j] == '2' {
            let j2 = if j + 1 < s.len() && (s[j + 1] == '.' || s[j + 1] == ',') {
                j + 2
            } else {
                j + 1
            };
            if j2 < s.len() && s[j2] == '7' {
                j2 + 1 - i
            } else {
                0
            }
        } else {
            0
        }
    }
}

/// The content with every playful numeral wrapped in underline markers,
/// scanning left to right without overlap.
pub open spec fn spec_highlight_from(s: Seq<char>, i: int) -> Seq<char>
    decreases s.len() - i when 0 <= i <= s.len()
{
    if i >= s.len() {
        Seq::empty()
    } else {
        let m = numeral_len_at(s, i);
        if m > 0 {
            "__"@ + s.subrange(i, i + m) + "__"@ + spec_highlight_from(s, i + m)
        } else {
            seq![s[i]] + spec_highlight_from(s, i + 1)
        }
    }
}

/// Wraps every `727`-shaped numeral in the content in underline markers.
#[verifier::loop_isolation(false)]
pub fn highlight_funny_numeral(content: &str) -> (r: String)
    ensures
        r@ == spec_highlight_from(content@, 0),
{
    let s_len = content.unicode_len();
    let mut out = String::new();
    let mut i: usize = 0;
    while i < s_len
        invariant
            0 <= i <= s_len,
            spec_highlight_from(content@, 0) == out@ + spec_highlight_from(content@, i as int),
        decreases s_len - i,
    {
        let ghost prev = out@;
        // Measure a numeral starting here, if any.
        let mut m: usize = 0;
        if content.get_char(i) == '7' {
            let j = if i + 1 < s_len && (content.get_char(i + 1) == '.' || content.get_char(i + 1)
                == ',') {
                i + 2
            } else {
                i + 1
            };
            if j < s_len && content.get_char(j) == '2' {
                let j2 = if j + 1 < s_len && (content.get_char(j + 1) == '.' || content.get_char(
                    j + 1,
                ) == ',') {
                    j + 2
                } else {
                    j + 1
                };
                if j2 < s_len && content.get_char(j2) == '7' {
                    m = j2 + 1 - i;
                }
            }
        }
        proof {
            assert(m == numeral_len_at(content@, i as int));
        }
        if m > 0 {
            out.append("__");
            let piece = content.substring_char(i, i + m);
            out.append(piece);
            out.append("__");
            proof {
                assert(out@ =~= prev + ("__"@ + content@.subrange(i as int, i + m) + "__"@));
                assert(spec_highlight_from(content@, i as int) =~= ("__"@ + content@.subrange(
                    i as int,
                    i + m,
                ) + "__"@) + spec_highlight_from(content@, i + m));
                assert(spec_highlight_from(content@, 0) =~= out@ + spec_highlight_from(
                    content@,
                    i + m,
                ));
            }
            i = i + m;
        } else {
            let c = content.get_char(i);
            crate::text::push_char(&mut out, c);
            proof {
                assert(out@ =~= prev + seq![content@[i as int]]);
                assert(spec_highlight_from(content@, 0) =~= out@ + spec_highlight_from(
                    content@,
                    i + 1,
                ));
            }
            i = i + 1;
        }
    }
    out
}


/// A word character, as mod strings use them.
pub open spec fn is_word_char(c: char) -> bool {
    is_digit(c) || (65 <= c as int <= 90) || (97 <= c as int <= 122) || c == '_'
}

/// The end of the word-character run starting at `i`.
pub open spec fn word_end(s: Seq<char>, i: int) -> int
    decreases s.len() - i when 0 <= i <= s.len()
{
    if i < 0 || i >= s.len() {
        i
    } else if !is_word_char(s[i]) {
        i
    } else {
        word_end(s, i + 1)
    }
}

pub proof fn lemma_word_end(s: Seq<char>, i: int)
    requires
        0 <= i <= s.len(),
    ensures
        i <= word_end(s, i) <= s.len(),
        forall|k: int| i <= k < word_end(s, i) ==> is_word_char(#[trigger] s[k]),
        word_end(s, i) < s.len() ==> !is_word_char(s[word_end(s, i)]),
    decreases s.len() - i,
{
    if i < s.len() && is_word_char(s[i]) {
        lemma_word_end(s, i + 1);
    }
}

fn char_is_word(c: char) -> (r: bool)
    ensures
        r == is_word_char(c),
{
    let v = c as u32;
    (48 <= v && v <= 57) || (65 <= v && v <= 90) || (97 <= v && v <= 122) || c == '_'
}

#[verifier::loop_isolation(false)]
fn scan_word_end(s: &str, s_len: usize, i: usize) -> (r: usize)
    requires
        s_len == s@.len(),
        i <= s_len,
    ensures
        r == word_end(s@, i as int),
    decreases s_len - i,
{
    let mut j = i;
    while j < s_len && char_is_word(s.get_char(j))
        invariant
            i <= j <= s_len,
            word_end(s@, i as int) == word_end(s@, j as int),
        decreases s_len - j,
    {
        j = j + 1;
    }
    j
}

/// The mod bits an acronym string denotes, or `None` when it is not a
/// valid mod string.
pub uninterp spec fn mods_bits_of(s: Seq<char>) -> Option<u32>;

/// Relies on rosu_v2's `GameMods` parser: which acronym string denotes
/// which mod set is a function of the characters alone.
#[verifier::external_body]
fn parse_game_mods(s: &str) -> (r: Option<u32>)
    ensures
        r == mods_bits_of(s@),
{
    match <rosu_v2::prelude::GameMods as core::str::FromStr>::from_str(s) {
        Ok(m) => Some(m.bits()),
        Err(_) => None,
    }
}

/// A whole-message mod selection: `+mods` to include, `+mods!` for an exact
/// set, `-mods!` to exclude.
pub open spec fn spec_get_mods(s: Seq<char>) -> Option<ModSelection> {
    if s.len() > 0 && s[0] == '+' && ({
        let k = word_end(s, 1);
        k > 1 && (k == s.len() || (k == s.len() - 1 && s[k] == '!'))
    }) {
        let k = word_end(s, 1);
        match mods_bits_of(s.subrange(1, k)) {
            Some(bits) => {
                if k < s.len() {
                    Some(ModSelection::Exact(bits))
                } else {
                    Some(ModSelection::Include(bits))
                }
            },
            None => None,
        }
    } else if s.len() > 0 && s[0] == '-' && ({
        let k = word_end(s, 1);
        k > 1 && k == s.len() - 1 && s[k] == '!'
    }) {
        match mods_bits_of(s.subrange(1, word_end(s, 1))) {
            Some(bits) => Some(ModSelection::Exclude(bits)),
            None => None,
        }
    } else {
        None
    }
}

/// Reads a whole-message mod selection, if the message is one.
#[verifier::loop_isolation(false)]
pub fn get_mods(msg: &str) -> (r: Option<ModSelection>)
    ensures
        r == spec_get_mods(msg@),
{
    let s_len = msg.unicode_len();
    if s_len == 0 {
        return None;
    }
    let head = msg.get_char(0);
    if head != '+' && head != '-' {
        return None;
    }
    let k = scan_word_end(msg, s_len, 1);
    proof {
        lemma_word_end(msg@, 1);
    }
    if k <= 1 {
        return None;
    }
    let shape_ok = if head == '+' {
        k == s_len || (k == s_len - 1 && msg.get_char(k) == '!')
    } else {
        k == s_len - 1 && msg.get_char(k) == '!'
    };
    if !shape_ok {
        return None;
    }
    let word = msg.substring_char(1, k);
    proof {
        assert(word@ =~= msg@.subrange(1, k as int));
    }
    let bits = match parse_game_mods(word) {
        Some(b) => b,
        None => {
            return None;
        },
    };
    if head == '+' {
        if k < s_len {
            Some(ModSelection::Exact(bits))
        } else {
            Some(ModSelection::Include(bits))
        }
    } else {
        Some(ModSelection::Exclude(bits))
    }
}

} // verus!
