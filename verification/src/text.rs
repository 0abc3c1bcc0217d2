//! Small executable helpers over strings and characters, verified against
//! their `Seq<char>` views.

use vstd::prelude::*;

verus! {

/// Append one character to a string.
///
/// Relies on `String::push`: it appends exactly the given character.
#[verifier::external_body]
pub fn push_char(s: &mut String, c: char)
    ensures
        final(s)@ == old(s)@.push(c),
{
    s.push(c);
}

/// Character-wise equality of two string slices.
pub fn str_eq(a: &str, b: &str) -> (r: bool)
    ensures
        r == (a@ == b@),
{
    let alen = a.unicode_len();
    let blen = b.unicode_len();
    if alen != blen {
        proof {
            assert(a@ != b@) by {
                assert(a@.len() != b@.len());
            }
        }
        return false;
    }
    let mut i: usize = 0;
    while i < alen
        invariant
            i <= alen,
            alen == a@.len(),
            alen == b@.len(),
            forall|j: int| 0 <= j < i ==> a@[j] == b@[j],
        decreases alen - i,
    {
        if a.get_char(i) != b.get_char(i) {
            return false;
        }
        i += 1;
    }
    proof {
        assert(a@ =~= b@);
    }
    true
}

/// Lexicographic order on character sequences, from position `i` on.
pub open spec fn lex_le_from(a: Seq<char>, b: Seq<char>, i: int) -> bool
    decreases a.len() - i,
{
    if i >= a.len() {
        true
    } else if i >= b.len() {
        false
    } else if a[i] == b[i] {
        lex_le_from(a, b, i + 1)
    } else {
        (a[i] as u32) < (b[i] as u32)
    }
}

/// Lexicographic order on character sequences.
pub open spec fn lex_le(a: Seq<char>, b: Seq<char>) -> bool {
    lex_le_from(a, b, 0)
}

fn str_le_from(a: &str, b: &str, i: usize) -> (r: bool)
    requires
        i <= a@.len(),
        i <= b@.len(),
    ensures
        r == lex_le_from(a@, b@, i as int),
    decreases a@.len() - i,
{
    let alen = a.unicode_len();
    let blen = b.unicode_len();
    if i >= alen {
        true
    } else if i >= blen {
        false
    } else {
        let ca = a.get_char(i);
        let cb = b.get_char(i);
        if ca == cb {
            str_le_from(a, b, i + 1)
        } else {
            (ca as u32) < (cb as u32)
        }
    }
}

/// The lexicographic order is total: of any two texts, one is at or below
/// the other.
pub proof fn lemma_lex_le_total(a: Seq<char>, b: Seq<char>)
    ensures
        lex_le(a, b) || lex_le(b, a),
{
    lemma_lex_le_total_from(a, b, 0);
}

proof fn lemma_lex_le_total_from(a: Seq<char>, b: Seq<char>, i: int)
    ensures
        lex_le_from(a, b, i) || lex_le_from(b, a, i),
    decreases a.len() - i,
{
    if i < a.len() && i < b.len() {
        if a[i] == b[i] {
            lemma_lex_le_total_from(a, b, i + 1);
        } else {
            assert((a[i] as u32) != (b[i] as u32)) by {
                vstd::utf8::char_u32_cast(a[i], a[i] as u32);
                vstd::utf8::char_u32_cast(b[i], b[i] as u32);
            }
        }
    }
}

/// The lexicographic order is transitive.
pub proof fn lemma_lex_le_trans(a: Seq<char>, b: Seq<char>, c: Seq<char>)
    requires
        lex_le(a, b),
        lex_le(b, c),
    ensures
        lex_le(a, c),
{
    lemma_lex_le_trans_from(a, b, c, 0);
}

proof fn lemma_lex_le_trans_from(a: Seq<char>, b: Seq<char>, c: Seq<char>, i: int)
    requires
        lex_le_from(a, b, i),
        lex_le_from(b, c, i),
    ensures
        lex_le_from(a, c, i),
    decreases a.len() - i,
{
    if i < a.len() && i < b.len() && i < c.len() && a[i] == b[i] && b[i] == c[i] {
        lemma_lex_le_trans_from(a, b, c, i + 1);
    }
}

/// Character-wise lexicographic comparison of two string slices.
pub fn str_le(a: &str, b: &str) -> (r: bool)
    ensures
        r == lex_le(a@, b@),
{
    str_le_from(a, b, 0)
}

/// An owned copy of the characters of `s` from `from` (inclusive) to `to`
/// (exclusive).
pub fn substr(s: &str, from: usize, to: usize) -> (r: String)
    requires
        from <= to <= s@.len(),
    ensures
        r@ == s@.subrange(from as int, to as int),
{
    s.substring_char(from, to).to_owned()
}

/// True when `sfx`'s characters end `s`.
pub open spec fn has_suffix(s: Seq<char>, sfx: Seq<char>) -> bool {
    sfx.len() <= s.len() && s.subrange(s.len() - sfx.len(), s.len() as int) == sfx
}

/// Whether `sfx`'s characters end `s`.
pub fn ends_with(s: &str, sfx: &str) -> (r: bool)
    ensures
        r == has_suffix(s@, sfx@),
{
    let n = s.unicode_len();
    let m = sfx.unicode_len();
    if m > n {
        proof {
            assert(!has_suffix(s@, sfx@));
        }
        false
    } else {
        crate::parsers::utils::match_prefix(s, n - m, sfx)
    }
}

/// `s` from position `i` on, with each non-overlapping occurrence of `pat`
/// replaced by `rep`, scanning left to right.
pub open spec fn replace_from(s: Seq<char>, i: int, pat: Seq<char>, rep: Seq<char>) -> Seq<char>
    decreases s.len() - i,
{
    if i < 0 || i >= s.len() {
        Seq::empty()
    } else if pat.len() > 0 && crate::parsers::utils::has_prefix_at(s, i, pat) {
        rep + replace_from(s, i + pat.len(), pat, rep)
    } else {
        seq![s[i]] + replace_from(s, i + 1, pat, rep)
    }
}

/// `s` with every occurrence of `pat` replaced by `rep`.
pub open spec fn replace_all(s: Seq<char>, pat: Seq<char>, rep: Seq<char>) -> Seq<char> {
    replace_from(s, 0, pat, rep)
}

fn append_replaced(out: &mut String, s: &str, i: usize, pat: &str, rep: &str)
    requires
        i <= s@.len(),
        pat@.len() > 0,
    ensures
        final(out)@ == old(out)@ + replace_from(s@, i as int, pat@, rep@),
    decreases s@.len() - i,
{
    let n = s.unicode_len();
    if i >= n {
        proof {
            assert(out@ =~= old(out)@ + replace_from(s@, i as int, pat@, rep@));
        }
    } else if crate::parsers::utils::match_prefix(s, i, pat) {
        let plen = pat.unicode_len();
        out.append(rep);
        append_replaced(out, s, i + plen, pat, rep);
        proof {
            assert(out@ =~= old(out)@ + replace_from(s@, i as int, pat@, rep@));
        }
    } else {
        push_char(out, s.get_char(i));
        append_replaced(out, s, i + 1, pat, rep);
        proof {
            assert(out@ =~= old(out)@ + replace_from(s@, i as int, pat@, rep@));
        }
    }
}

/// `s` with every occurrence of `pat` replaced by `rep`.
pub fn replace_all_str(s: &str, pat: &str, rep: &str) -> (r: String)
    requires
        pat@.len() > 0,
    ensures
        r@ == replace_all(s@, pat@, rep@),
{
    let mut out = String::new();
    append_replaced(&mut out, s, 0, pat, rep);
    out
}

/// `s` with surrounding whitespace removed.
pub open spec fn trim_seq(s: Seq<char>) -> Seq<char> {
    crate::parsers::utils::trim_range(s, 0, s.len() as int)
}

/// A trimmed copy of `s`.
pub fn trimmed(s: &str) -> (r: String)
    ensures
        r@ == trim_seq(s@),
{
    let n = s.unicode_len();
    crate::parsers::utils::trimmed_substr(s, 0, n)
}

/// True when the value text ends with `!important`.
pub open spec fn ends_important(v: Seq<char>) -> bool {
    has_suffix(v, "!important"@)
}

/// Whether the value text ends with `!important`.
pub fn ends_important_exec(v: &str) -> (r: bool)
    ensures
        r == ends_important(v@),
{
    ends_with(v, "!important")
}

/// The value with every trailing `!important` removed and the remainder
/// trimmed of whitespace: the form a merged shorthand piece takes.
pub open spec fn strip_important(v: Seq<char>) -> Seq<char>
    decreases v.len(),
{
    if "!important"@.len() > 0 && has_suffix(v, "!important"@) {
        strip_important(v.subrange(0, v.len() - "!important"@.len()))
    } else {
        trim_seq(v)
    }
}

/// Remove any trailing `!important` suffixes and trim the rest.
pub fn strip_important_exec(v: &str) -> (r: String)
    ensures
        r@ == strip_important(v@),
    decreases v@.len(),
{
    let n = v.unicode_len();
    let plen = "!important".unicode_len();
    if plen > 0 && ends_with(v, "!important") {
        let shorter = crate::text::substr(v, 0, n - plen);
        strip_important_exec(shorter.as_str())
    } else {
        trimmed(v)
    }
}

pub open spec fn digit_char(d: int) -> char {
    if d == 0 {
        '0'
    } else if d == 1 {
        '1'
    } else if d == 2 {
        '2'
    } else if d == 3 {
        '3'
    } else if d == 4 {
        '4'
    } else if d == 5 {
        '5'
    } else if d == 6 {
        '6'
    } else if d == 7 {
        '7'
    } else if d == 8 {
        '8'
    } else {
        '9'
    }
}

/// The decimal digits of `n`, most significant first.
pub open spec fn dec_digits(n: int) -> Seq<char>
    decreases n,
{
    if n < 10 {
        seq![digit_char(n)]
    } else {
        dec_digits(n / 10).push(digit_char(n % 10))
    }
}

/// Append the decimal rendering of `n` to `out`.
pub fn append_decimal(out: &mut String, n: usize)
    ensures
        final(out)@ == old(out)@ + dec_digits(n as int),
    decreases n,
{
    if n < 10 {
        let d: usize = n;
        let c: char = if d == 0 {
            '0'
        } else if d == 1 {
            '1'
        } else if d == 2 {
            '2'
        } else if d == 3 {
            '3'
        } else if d == 4 {
            '4'
        } else if d == 5 {
            '5'
        } else if d == 6 {
            '6'
        } else if d == 7 {
            '7'
        } else if d == 8 {
            '8'
        } else {
            '9'
        };
        push_char(out, c);
        proof {
            assert(out@ =~= old(out)@ + dec_digits(n as int));
        }
    } else {
        append_decimal(out, n / 10);
        let d: usize = n % 10;
        let c: char = if d == 0 {
            '0'
        } else if d == 1 {
            '1'
        } else if d == 2 {
            '2'
        } else if d == 3 {
            '3'
        } else if d == 4 {
            '4'
        } else if d == 5 {
            '5'
        } else if d == 6 {
            '6'
        } else if d == 7 {
            '7'
        } else if d == 8 {
            '8'
        } else {
            '9'
        };
        push_char(out, c);
        proof {
            assert(out@ =~= old(out)@ + dec_digits(n as int));
        }
    }
}

} // verus!
