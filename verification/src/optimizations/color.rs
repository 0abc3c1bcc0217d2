//! Color normalization: a value beginning with a hex color or an
//! `rgb(r, g, b)` call is replaced by a canonical lowercase hex form, a
//! six-digit form collapsing to three digits when the first three digits
//! equal the last three pairwise.  A trailing `!important` is kept; any
//! other remainder is dropped, as for every recognized color token.

use crate::parsers::utils::{
    has_prefix_at, lemma_scan_while_not, match_prefix, parse_useless, scan_while_not, skip_trivia,
    trim_range,
};
use crate::text::str_eq;
use vstd::prelude::*;
use vstd::string::StringExecFns;

verus! {

/// A canonicalized color text.
#[derive(Clone, Eq, PartialEq, Default, Debug)]
pub struct Color(pub String);

impl View for Color {
    type V = Seq<char>;

    open spec fn view(&self) -> Seq<char> {
        self.0@
    }
}

pub open spec fn is_dec_digit(c: char) -> bool {
    48 <= c as u32 <= 57
}

pub open spec fn is_hex_digit(c: char) -> bool {
    is_dec_digit(c) || 97 <= c as u32 <= 102 || 65 <= c as u32 <= 70
}

/// Lowercase a hex digit; anything else is kept.
pub open spec fn hex_lower(c: char) -> char {
    if c == 'A' {
        'a'
    } else if c == 'B' {
        'b'
    } else if c == 'C' {
        'c'
    } else if c == 'D' {
        'd'
    } else if c == 'E' {
        'e'
    } else if c == 'F' {
        'f'
    } else {
        c
    }
}

fn hex_lower_exec(c: char) -> (r: char)
    ensures
        r == hex_lower(c),
{
    if c == 'A' {
        'a'
    } else if c == 'B' {
        'b'
    } else if c == 'C' {
        'c'
    } else if c == 'D' {
        'd'
    } else if c == 'E' {
        'e'
    } else if c == 'F' {
        'f'
    } else {
        c
    }
}

/// The lowercase hex digit of a value below sixteen.
pub open spec fn hex_char(d: int) -> char {
    if d < 10 {
        crate::text::digit_char(d)
    } else if d == 10 {
        'a'
    } else if d == 11 {
        'b'
    } else if d == 12 {
        'c'
    } else if d == 13 {
        'd'
    } else if d == 14 {
        'e'
    } else {
        'f'
    }
}

fn hex_char_exec(d: u32) -> (r: char)
    requires
        d < 16,
    ensures
        r == hex_char(d as int),
{
    if d == 0 {
        '0'
    } else if d == 1 {
        '1'
    } else if d == 2 {
        '2'
    } else if d == 3 {
        '3'
    } else if d == 4 {
        '4'
    } else if d == 5 {
        '5'
    } else if d == 6 {
        '6'
    } else if d == 7 {
        '7'
    } else if d == 8 {
        '8'
    } else if d == 9 {
        '9'
    } else if d == 10 {
        'a'
    } else if d == 11 {
        'b'
    } else if d == 12 {
        'c'
    } else if d == 13 {
        'd'
    } else if d == 14 {
        'e'
    } else {
        'f'
    }
}

pub open spec fn lower_hex_seq(s: Seq<char>) -> Seq<char> {
    s.map_values(|c: char| hex_lower(c))
}

fn append_hex_lower(out: &mut String, s: &str, i: usize, to: usize)
    requires
        i <= to <= s@.len(),
    ensures
        final(out)@ == old(out)@ + lower_hex_seq(s@.subrange(i as int, to as int)),
    decreases to - i,
{
    if i < to {
        crate::text::push_char(out, hex_lower_exec(s.get_char(i)));
        append_hex_lower(out, s, i + 1, to);
        proof {
            assert(out@ =~= old(out)@ + lower_hex_seq(s@.subrange(i as int, to as int)));
        }
    } else {
        proof {
            assert(out@ =~= old(out)@ + lower_hex_seq(s@.subrange(i as int, to as int)));
        }
    }
}

fn scan_hex(s: &str, i: usize) -> (r: usize)
    requires
        i <= s@.len(),
    ensures
        r == scan_while_not(s@, i as int, |c: char| !is_hex_digit(c)),
        i <= r <= s@.len(),
    decreases s@.len() - i,
{
    proof {
        lemma_scan_while_not(s@, i as int, |c: char| !is_hex_digit(c));
    }
    let n = s.unicode_len();
    if i >= n {
        n
    } else {
        let c = s.get_char(i);
        let u = c as u32;
        if 48 <= u && u <= 57 || 97 <= u && u <= 102 || 65 <= u && u <= 70 {
            scan_hex(s, i + 1)
        } else {
            i
        }
    }
}

fn scan_dec(s: &str, i: usize) -> (r: usize)
    requires
        i <= s@.len(),
    ensures
        r == scan_while_not(s@, i as int, |c: char| !is_dec_digit(c)),
        i <= r <= s@.len(),
    decreases s@.len() - i,
{
    proof {
        lemma_scan_while_not(s@, i as int, |c: char| !is_dec_digit(c));
    }
    let n = s.unicode_len();
    if i >= n {
        n
    } else {
        let u = s.get_char(i) as u32;
        if 48 <= u && u <= 57 {
            scan_dec(s, i + 1)
        } else {
            i
        }
    }
}

/// The numeric value of a digit run, saturated at 256: enough to decide
/// whether the argument fits a color channel, and exact when it does.
pub open spec fn digits_capped(s: Seq<char>, i: int, j: int) -> int
    decreases j - i,
{
    if j <= i {
        0
    } else {
        let prev = digits_capped(s, i, j - 1);
        if prev >= 256 {
            256
        } else {
            prev * 10 + (s[j - 1] as u32 as int - 48)
        }
    }
}

pub proof fn lemma_digits_capped(s: Seq<char>, i: int, j: int)
    requires
        0 <= i <= j <= s.len(),
        forall|k: int| i <= k < j ==> is_dec_digit(s[k]),
    ensures
        0 <= digits_capped(s, i, j) <= 2559,
    decreases j - i,
{
    if j > i {
        lemma_digits_capped(s, i, j - 1);
    }
}

fn digits_capped_exec(s: &str, i: usize, j: usize) -> (r: u32)
    requires
        i <= j <= s@.len(),
        forall|k: int| i <= k < j ==> is_dec_digit(s@[k]),
    ensures
        r == digits_capped(s@, i as int, j as int),
    decreases j - i,
{
    proof {
        lemma_digits_capped(s@, i as int, j as int);
    }
    if j <= i {
        0
    } else {
        let prev = digits_capped_exec(s, i, j - 1);
        if prev >= 256 {
            256
        } else {
            proof {
                lemma_digits_capped(s@, i as int, j - 1 as int);
            }
            prev * 10 + (s.get_char(j - 1) as u32 - 48)
        }
    }
}

/// A leading hex color: `#` and three, six or eight hex digits.  The hex is
/// lowercased; a six-digit form collapses to three when digits one to three
/// equal digits four to six pairwise.
pub open spec fn spec_parse_hex(v: Seq<char>) -> Option<(int, Seq<char>)> {
    if v.len() > 0 && v[0] == '#' {
        let he = scan_while_not(v, 1, |c: char| !is_hex_digit(c));
        let cnt = he - 1;
        if cnt == 3 || cnt == 6 || cnt == 8 {
            if cnt == 6 && v[1] == v[4] && v[2] == v[5] && v[3] == v[6] {
                Some((he, seq!['#'] + lower_hex_seq(v.subrange(1, 4))))
            } else {
                Some((he, seq!['#'] + lower_hex_seq(v.subrange(1, he))))
            }
        } else {
            None
        }
    } else {
        None
    }
}

/// Parse a leading hex color.
pub fn parse_hex(v: &str) -> (r: Option<(usize, Color)>)
    ensures
        match r {
            Some(p) => spec_parse_hex(v@) matches Some(q) && p.0 == q.0 && p.1@ == q.1 && p.0
                <= v@.len(),
            None => spec_parse_hex(v@) is None,
        },
{
    let n = v.unicode_len();
    if n > 0 && v.get_char(0) == '#' {
        let he = scan_hex(v, 1);
        let cnt = he - 1;
        if cnt == 3 || cnt == 6 || cnt == 8 {
            let mut out = String::new();
            crate::text::push_char(&mut out, '#');
            if cnt == 6 && v.get_char(1) == v.get_char(4) && v.get_char(2) == v.get_char(5)
                && v.get_char(3) == v.get_char(6) {
                append_hex_lower(&mut out, v, 1, 4);
                proof {
                    assert(out@ =~= seq!['#'] + lower_hex_seq(v@.subrange(1, 4)));
                }
                Some((he, Color(out)))
            } else {
                append_hex_lower(&mut out, v, 1, he);
                proof {
                    assert(out@ =~= seq!['#'] + lower_hex_seq(v@.subrange(1, he as int)));
                }
                Some((he, Color(out)))
            }
        } else {
            None
        }
    } else {
        None
    }
}

/// The lowercase hex text of three channel values, collapsed to three digits
/// when the first three digits equal the last three pairwise.
pub open spec fn hex_of_rgb(r: int, g: int, b: int) -> Seq<char> {
    let ds = seq![
        hex_char(r / 16),
        hex_char(r % 16),
        hex_char(g / 16),
        hex_char(g % 16),
        hex_char(b / 16),
        hex_char(b % 16),
    ];
    if ds[0] == ds[3] && ds[1] == ds[4] && ds[2] == ds[5] {
        seq!['#'] + ds.subrange(0, 3)
    } else {
        seq!['#'] + ds
    }
}

/// A leading `rgb(r, g, b)` call with trivia allowed around the pieces and
/// integer arguments up to 255, converted to hex.
pub open spec fn spec_parse_rgb(v: Seq<char>) -> Option<(int, Seq<char>)> {
    let r0 = skip_trivia(v, 0);
    if has_prefix_at(v, r0, "rgb"@) {
        let a = skip_trivia(v, r0 + "rgb"@.len());
        if 0 <= a && a < v.len() && v[a] == '(' {
            let d1s = skip_trivia(v, a + 1);
            let d1e = scan_while_not(v, d1s, |c: char| !is_dec_digit(c));
            let c1 = skip_trivia(v, d1e);
            if d1e > d1s && 0 <= c1 && c1 < v.len() && v[c1] == ',' {
                let d2s = skip_trivia(v, c1 + 1);
                let d2e = scan_while_not(v, d2s, |c: char| !is_dec_digit(c));
                let c2 = skip_trivia(v, d2e);
                if d2e > d2s && 0 <= c2 && c2 < v.len() && v[c2] == ',' {
                    let d3s = skip_trivia(v, c2 + 1);
                    let d3e = scan_while_not(v, d3s, |c: char| !is_dec_digit(c));
                    let t3 = skip_trivia(v, d3e);
                    if d3e > d3s && 0 <= t3 && t3 < v.len() && v[t3] == ')' {
                        let rr = digits_capped(v, d1s, d1e);
                        let gg = digits_capped(v, d2s, d2e);
                        let bb = digits_capped(v, d3s, d3e);
                        if rr <= 255 && gg <= 255 && bb <= 255 {
                            Some((t3 + 1, hex_of_rgb(rr, gg, bb)))
                        } else {
                            None
                        }
                    } else {
                        None
                    }
                } else {
                    None
                }
            } else {
                None
            }
        } else {
            None
        }
    } else {
        None
    }
}

/// Parse a leading `rgb(r, g, b)` call.
pub fn parse_rgb(v: &str) -> (r: Option<(usize, Color)>)
    ensures
        match r {
            Some(p) => spec_parse_rgb(v@) matches Some(q) && p.0 == q.0 && p.1@ == q.1 && p.0
                <= v@.len(),
            None => spec_parse_rgb(v@) is None,
        },
{
    let n = v.unicode_len();
    let r0 = parse_useless(v, 0);
    if !match_prefix(v, r0, "rgb") {
        return None;
    }
    let plen = "rgb".unicode_len();
    let a = parse_useless(v, r0 + plen);
    if !(a < n && v.get_char(a) == '(') {
        return None;
    }
    let d1s = parse_useless(v, a + 1);
    let d1e = scan_dec(v, d1s);
    let c1 = parse_useless(v, d1e);
    if !(d1e > d1s && c1 < n && v.get_char(c1) == ',') {
        return None;
    }
    let d2s = parse_useless(v, c1 + 1);
    let d2e = scan_dec(v, d2s);
    let c2 = parse_useless(v, d2e);
    if !(d2e > d2s && c2 < n && v.get_char(c2) == ',') {
        return None;
    }
    let d3s = parse_useless(v, c2 + 1);
    let d3e = scan_dec(v, d3s);
    let t3 = parse_useless(v, d3e);
    if !(d3e > d3s && t3 < n && v.get_char(t3) == ')') {
        return None;
    }
    proof {
        lemma_scan_while_not(v@, d1s as int, |c: char| !is_dec_digit(c));
        lemma_scan_while_not(v@, d2s as int, |c: char| !is_dec_digit(c));
        lemma_scan_while_not(v@, d3s as int, |c: char| !is_dec_digit(c));
    }
    let rr = digits_capped_exec(v, d1s, d1e);
    let gg = digits_capped_exec(v, d2s, d2e);
    let bb = digits_capped_exec(v, d3s, d3e);
    if rr <= 255 && gg <= 255 && bb <= 255 {
        let mut out = String::new();
        crate::text::push_char(&mut out, '#');
        let h0 = hex_char_exec(rr / 16);
        let h1 = hex_char_exec(rr % 16);
        let h2 = hex_char_exec(gg / 16);
        let h3 = hex_char_exec(gg % 16);
        let h4 = hex_char_exec(bb / 16);
        let h5 = hex_char_exec(bb % 16);
        if h0 == h3 && h1 == h4 && h2 == h5 {
            crate::text::push_char(&mut out, h0);
            crate::text::push_char(&mut out, h1);
            crate::text::push_char(&mut out, h2);
            proof {
                assert(out@ =~= hex_of_rgb(rr as int, gg as int, bb as int));
            }
        } else {
            crate::text::push_char(&mut out, h0);
            crate::text::push_char(&mut out, h1);
            crate::text::push_char(&mut out, h2);
            crate::text::push_char(&mut out, h3);
            crate::text::push_char(&mut out, h4);
            crate::text::push_char(&mut out, h5);
            proof {
                assert(out@ =~= hex_of_rgb(rr as int, gg as int, bb as int));
            }
        }
        Some((t3 + 1, Color(out)))
    } else {
        None
    }
}

/// The `!important` suffix kept by a color rewrite: present exactly when the
/// value's remainder after the color token is `!important` alone.
pub open spec fn important_suffix(v: Seq<char>, end: int) -> Seq<char> {
    if 0 <= end <= v.len() && trim_range(v, end, v.len() as int) == "!important"@ {
        "!important"@
    } else {
        Seq::empty()
    }
}

/// A value with a leading color token replaced by its canonical form; a
/// value with none is left untouched.
pub open spec fn spec_optimize_color(v: Seq<char>) -> Seq<char> {
    match spec_parse_hex(v) {
        Some(p) => p.1 + important_suffix(v, p.0),
        None => match spec_parse_rgb(v) {
            Some(p) => p.1 + important_suffix(v, p.0),
            None => v,
        },
    }
}

/// Canonicalize a leading color token, if any.
pub fn optimize_color(input: &str) -> (r: Color)
    ensures
        r@ == spec_optimize_color(input@),
{
    let n = input.unicode_len();
    let parsed: Option<(usize, Color)> = match parse_hex(input) {
        Some(p) => Some(p),
        None => parse_rgb(input),
    };
    match parsed {
        Some((end, mut color)) => {
            let rest = crate::parsers::utils::trimmed_substr(input, end, n);
            if str_eq(rest.as_str(), "!important") {
                color.0.append("!important");
            }
            proof {
                assert(color@ =~= spec_optimize_color(input@));
            }
            color
        },
        None => Color(input.to_owned()),
    }
}

} // verus!
