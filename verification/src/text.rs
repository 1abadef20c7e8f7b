//! Verified string building helpers.

use vstd::prelude::*;

verus! {

/// The character for a single decimal digit.
pub open spec fn digit_char(d: int) -> char {
    if d == 0 { '0' }
    else if d == 1 { '1' }
    else if d == 2 { '2' }
    else if d == 3 { '3' }
    else if d == 4 { '4' }
    else if d == 5 { '5' }
    else if d == 6 { '6' }
    else if d == 7 { '7' }
    else if d == 8 { '8' }
    else { '9' }
}

/// The decimal representation of a natural number, most significant digit first.
pub open spec fn dec_rep(n: nat) -> Seq<char>
    decreases n,
{
    if n < 10 {
        seq![digit_char(n as int)]
    } else {
        dec_rep(n / 10).push(digit_char((n % 10) as int))
    }
}

/// Relies on str's `==`: true exactly when the character sequences agree.
#[verifier::external_body]
pub fn str_eq(a: &str, b: &str) -> (r: bool)
    ensures
        r == (a@ == b@),
{
    a == b
}

/// Relies on String::push: appends exactly one character at the end.
#[verifier::external_body]
pub fn push_char(s: &mut String, c: char)
    ensures
        final(s)@ == old(s)@.push(c),
{
    s.push(c)
}

fn digit_to_char(d: u64) -> (c: char)
    requires
        d < 10,
    ensures
        c == digit_char(d as int),
{
    match d {
        0 => '0',
        1 => '1',
        2 => '2',
        3 => '3',
        4 => '4',
        5 => '5',
        6 => '6',
        7 => '7',
        8 => '8',
        _ => '9',
    }
}

/// Formats a number in decimal.
pub fn u64_to_string(n: u64) -> (s: String)
    ensures
        s@ == dec_rep(n as nat),
    decreases n,
{
    if n < 10 {
        let mut s = String::new();
        push_char(&mut s, digit_to_char(n));
        assert(s@ =~= dec_rep(n as nat));
        s
    } else {
        let mut s = u64_to_string(n / 10);
        push_char(&mut s, digit_to_char(n % 10));
        s
    }
}


/// The character for a single hexadecimal digit.
pub open spec fn hex_digit_char(d: int) -> char {
    if d == 0 { '0' }
    else if d == 1 { '1' }
    else if d == 2 { '2' }
    else if d == 3 { '3' }
    else if d == 4 { '4' }
    else if d == 5 { '5' }
    else if d == 6 { '6' }
    else if d == 7 { '7' }
    else if d == 8 { '8' }
    else if d == 9 { '9' }
    else if d == 10 { 'a' }
    else if d == 11 { 'b' }
    else if d == 12 { 'c' }
    else if d == 13 { 'd' }
    else if d == 14 { 'e' }
    else { 'f' }
}

/// The lowercase hexadecimal representation, most significant digit first.
pub open spec fn hex_rep(n: nat) -> Seq<char>
    decreases n,
{
    if n < 16 {
        seq![hex_digit_char(n as int)]
    } else {
        hex_rep(n / 16).push(hex_digit_char((n % 16) as int))
    }
}

fn hex_digit_to_char(d: u32) -> (c: char)
    requires
        d < 16,
    ensures
        c == hex_digit_char(d as int),
{
    match d {
        0 => '0',
        1 => '1',
        2 => '2',
        3 => '3',
        4 => '4',
        5 => '5',
        6 => '6',
        7 => '7',
        8 => '8',
        9 => '9',
        10 => 'a',
        11 => 'b',
        12 => 'c',
        13 => 'd',
        14 => 'e',
        _ => 'f',
    }
}

/// Formats a number in lowercase hexadecimal.
pub fn u32_to_hex_string(n: u32) -> (s: String)
    ensures
        s@ == hex_rep(n as nat),
    decreases n,
{
    if n < 16 {
        let mut s = String::new();
        push_char(&mut s, hex_digit_to_char(n));
        assert(s@ =~= hex_rep(n as nat));
        s
    } else {
        let mut s = u32_to_hex_string(n / 16);
        push_char(&mut s, hex_digit_to_char(n % 16));
        s
    }
}


/// `n` spaces.
pub open spec fn spaces(n: int) -> Seq<char>
    decreases n,
{
    if n <= 0 {
        Seq::empty()
    } else {
        spaces(n - 1).push(' ')
    }
}

/// `s` padded with spaces on the left up to width `w`.
pub open spec fn pad_left(s: Seq<char>, w: int) -> Seq<char> {
    if s.len() >= w {
        s
    } else {
        spaces(w - s.len()) + s
    }
}

/// `s` padded with spaces on the right up to width `w`.
pub open spec fn pad_right(s: Seq<char>, w: int) -> Seq<char> {
    if s.len() >= w {
        s
    } else {
        s + spaces(w - s.len())
    }
}

/// Appends `s` to `out`, left-padded with spaces to width `w`.
#[verifier::loop_isolation(false)]
pub fn append_pad_left(out: &mut String, s: &str, w: usize)
    ensures
        final(out)@ == old(out)@ + pad_left(s@, w as int),
{
    let len = s.unicode_len();
    let ghost base = out@;
    if len < w {
        let mut k: usize = 0;
        while k < w - len
            invariant
                0 <= k <= w - len,
                len < w,
                len == s@.len(),
                out@ == base + spaces(k as int),
            decreases w - len - k,
        {
            push_char(out, ' ');
            k = k + 1;
        }
    }
    proof {
        if s@.len() >= w {
            assert(out@ =~= base);
        }
    }
    out.append(s);
}

/// Appends `s` to `out`, right-padded with spaces to width `w`.
#[verifier::loop_isolation(false)]
pub fn append_pad_right(out: &mut String, s: &str, w: usize)
    ensures
        final(out)@ == old(out)@ + pad_right(s@, w as int),
{
    let len = s.unicode_len();
    out.append(s);
    let ghost base = out@;
    if len < w {
        let mut k: usize = 0;
        while k < w - len
            invariant
                0 <= k <= w - len,
                len < w,
                len == s@.len(),
                out@ == base + spaces(k as int),
            decreases w - len - k,
        {
            push_char(out, ' ');
            k = k + 1;
        }
        proof {
            assert(old(out)@ + (s@ + spaces(w - s@.len())) =~= (old(out)@ + s@) + spaces(
                w - s@.len(),
            ));
        }
    } else {
        proof {
            assert(base =~= old(out)@ + pad_right(s@, w as int));
        }
    }
}


/// Three digits, zero padded.
pub open spec fn dec3(m: int) -> Seq<char> {
    seq![digit_char(m / 100 % 10), digit_char(m / 10 % 10), digit_char(m % 10)]
}

/// The decimal representation with a comma between each group of three.
pub open spec fn comma_rep(n: nat) -> Seq<char>
    decreases n,
{
    if n < 1000 {
        dec_rep(n)
    } else {
        comma_rep(n / 1000) + ","@ + dec3((n % 1000) as int)
    }
}

/// Formats a number with comma-separated digit groups.
pub fn with_comma_int(n: u64) -> (s: String)
    ensures
        s@ == comma_rep(n as nat),
    decreases n,
{
    if n < 1000 {
        u64_to_string(n)
    } else {
        let mut s = with_comma_int(n / 1000);
        s.append(",");
        let m = n % 1000;
        push_char(&mut s, digit_to_char(m / 100 % 10));
        push_char(&mut s, digit_to_char(m / 10 % 10));
        push_char(&mut s, digit_to_char(m % 10));
        proof {
            assert(s@ =~= comma_rep(n as nat));
        }
        s
    }
}

} // verus!
