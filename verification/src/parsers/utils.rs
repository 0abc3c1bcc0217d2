//! Lexical helpers: whitespace and comment skipping, balanced-delimiter
//! scanning, stop-set scanning, and trimming.  Each executable scanner
//! returns exactly the position its spec function gives.
//!
//! Positions are character indices into the input's view.

use vstd::prelude::*;

verus! {

pub open spec fn is_space(c: char) -> bool {
    c == ' ' || c == '\t' || c == '\r' || c == '\n'
}

/// Position just after the first `*/` at or after `i`, if any.
pub open spec fn comment_end(s: Seq<char>, i: int) -> Option<int>
    decreases s.len() - i,
{
    if i < 0 || i + 2 > s.len() {
        None
    } else if s[i] == '*' && s[i + 1] == '/' {
        Some(i + 2)
    } else {
        comment_end(s, i + 1)
    }
}

pub proof fn lemma_comment_end(s: Seq<char>, i: int)
    ensures
        comment_end(s, i) matches Some(j) ==> i + 2 <= j <= s.len(),
    decreases s.len() - i,
{
    if !(i < 0 || i + 2 > s.len()) && !(s[i] == '*' && s[i + 1] == '/') {
        lemma_comment_end(s, i + 1);
    }
}

/// Position after the maximal run of whitespace and complete `/* ... */`
/// comments starting at `i`.  An unterminated comment is not consumed.
pub open spec fn skip_trivia(s: Seq<char>, i: int) -> int
    decreases s.len() - i,
{
    if i < 0 || i >= s.len() {
        i
    } else if is_space(s[i]) {
        skip_trivia(s, i + 1)
    } else if i + 1 < s.len() && s[i] == '/' && s[i + 1] == '*' {
        match comment_end(s, i + 2) {
            Some(j) => if i + 2 <= j && j <= s.len() {
                skip_trivia(s, j)
            } else {
                i
            },
            None => i,
        }
    } else {
        i
    }
}

pub proof fn lemma_skip_trivia(s: Seq<char>, i: int)
    requires
        0 <= i <= s.len(),
    ensures
        i <= skip_trivia(s, i) <= s.len(),
    decreases s.len() - i,
{
    if i < s.len() {
        if is_space(s[i]) {
            lemma_skip_trivia(s, i + 1);
        } else if i + 1 < s.len() && s[i] == '/' && s[i + 1] == '*' {
            if let Some(j) = comment_end(s, i + 2) {
                lemma_comment_end(s, i + 2);
                lemma_skip_trivia(s, j);
            }
        }
    }
}

/// Character-wise scan through a quoted string's content: from `i` (inside
/// the quotes) to the position just after the closing quote `q`.  A quote
/// preceded by a backslash does not terminate the string.
pub open spec fn qstr_scan(s: Seq<char>, i: int, q: char, esc: bool) -> Option<int>
    decreases s.len() - i,
{
    if i < 0 || i >= s.len() {
        None
    } else if esc {
        qstr_scan(s, i + 1, q, false)
    } else if s[i] == '\\' {
        qstr_scan(s, i + 1, q, true)
    } else if s[i] == q {
        Some(i + 1)
    } else {
        qstr_scan(s, i + 1, q, false)
    }
}

pub proof fn lemma_qstr_scan(s: Seq<char>, i: int, q: char, esc: bool)
    ensures
        qstr_scan(s, i, q, esc) matches Some(j) ==> i + 1 <= j <= s.len(),
    decreases s.len() - i,
{
    if 0 <= i < s.len() {
        lemma_qstr_scan(s, i + 1, q, false);
        lemma_qstr_scan(s, i + 1, q, true);
    }
}

/// Position just after a quoted string starting at `i` (which must hold `"`
/// or `'`), if it is terminated.
pub open spec fn quoted_end(s: Seq<char>, i: int) -> Option<int> {
    if 0 <= i < s.len() && (s[i] == '"' || s[i] == '\'') {
        qstr_scan(s, i + 1, s[i], false)
    } else {
        None
    }
}

pub proof fn lemma_quoted_end(s: Seq<char>, i: int)
    ensures
        quoted_end(s, i) matches Some(j) ==> i + 2 <= j <= s.len(),
{
    if 0 <= i < s.len() && (s[i] == '"' || s[i] == '\'') {
        lemma_qstr_scan(s, i + 1, s[i], false);
    }
}

/// Character-wise scan through balanced parentheses: from `i` with `depth`
/// groups open, to the position just after the close of the outermost group.
/// Quoted strings inside are inert: delimiters in them do not count.
pub open spec fn bal_scan(s: Seq<char>, i: int, depth: int, quote: Option<char>, esc: bool) -> Option<
    int,
>
    decreases s.len() - i,
{
    if i < 0 || i >= s.len() {
        None
    } else if esc {
        bal_scan(s, i + 1, depth, quote, false)
    } else if quote is Some {
        if s[i] == '\\' {
            bal_scan(s, i + 1, depth, quote, true)
        } else if s[i] == quote->0 {
            bal_scan(s, i + 1, depth, None, false)
        } else {
            bal_scan(s, i + 1, depth, quote, false)
        }
    } else if s[i] == '(' {
        bal_scan(s, i + 1, depth + 1, None, false)
    } else if s[i] == ')' {
        if depth <= 1 {
            Some(i + 1)
        } else {
            bal_scan(s, i + 1, depth - 1, None, false)
        }
    } else if s[i] == '"' || s[i] == '\'' {
        bal_scan(s, i + 1, depth, Some(s[i]), false)
    } else {
        bal_scan(s, i + 1, depth, None, false)
    }
}

pub proof fn lemma_bal_scan(s: Seq<char>, i: int, depth: int, quote: Option<char>, esc: bool)
    ensures
        bal_scan(s, i, depth, quote, esc) matches Some(j) ==> i + 1 <= j <= s.len(),
    decreases s.len() - i,
{
    if 0 <= i < s.len() {
        lemma_bal_scan(s, i + 1, depth, quote, false);
        lemma_bal_scan(s, i + 1, depth, quote, true);
        lemma_bal_scan(s, i + 1, depth + 1, None, false);
        lemma_bal_scan(s, i + 1, depth - 1, None, false);
        lemma_bal_scan(s, i + 1, depth, Some(s[i]), false);
        lemma_bal_scan(s, i + 1, depth, None, false);
    }
}

/// Position just after a balanced `( ... )` group starting at `i` (which must
/// hold `(`), if it closes.
pub open spec fn balanced_end(s: Seq<char>, i: int) -> Option<int> {
    if 0 <= i < s.len() && s[i] == '(' {
        bal_scan(s, i + 1, 1, None, false)
    } else {
        None
    }
}

pub proof fn lemma_balanced_end(s: Seq<char>, i: int)
    ensures
        balanced_end(s, i) matches Some(j) ==> i + 2 <= j <= s.len(),
{
    if 0 <= i < s.len() && s[i] == '(' {
        lemma_bal_scan(s, i + 1, 1, None, false);
    }
}

/// Scan to the next `{` that is outside strings and balanced parenthesis
/// groups; the input's end if there is none.
pub open spec fn ublock_scan(s: Seq<char>, i: int, depth: int, quote: Option<char>, esc: bool) -> int
    decreases s.len() - i,
{
    if i < 0 || i >= s.len() {
        s.len() as int
    } else if esc {
        ublock_scan(s, i + 1, depth, quote, false)
    } else if quote is Some {
        if s[i] == '\\' {
            ublock_scan(s, i + 1, depth, quote, true)
        } else if s[i] == quote->0 {
            ublock_scan(s, i + 1, depth, None, false)
        } else {
            ublock_scan(s, i + 1, depth, quote, false)
        }
    } else if s[i] == '{' && depth <= 0 {
        i
    } else if s[i] == '(' {
        ublock_scan(s, i + 1, depth + 1, None, false)
    } else if s[i] == ')' {
        ublock_scan(s, i + 1, if depth > 0 {
            depth - 1
        } else {
            0
        }, None, false)
    } else if s[i] == '"' || s[i] == '\'' {
        ublock_scan(s, i + 1, depth, Some(s[i]), false)
    } else {
        ublock_scan(s, i + 1, depth, None, false)
    }
}

/// Scan to the next `{` outside strings and parentheses, starting fresh.
pub open spec fn until_block_open(s: Seq<char>, i: int) -> int {
    ublock_scan(s, i, 0, None, false)
}

pub proof fn lemma_ublock_scan(s: Seq<char>, i: int, depth: int, quote: Option<char>, esc: bool)
    requires
        0 <= i <= s.len(),
    ensures
        i <= ublock_scan(s, i, depth, quote, esc) <= s.len(),
    decreases s.len() - i,
{
    if i < s.len() {
        lemma_ublock_scan(s, i + 1, depth, quote, false);
        lemma_ublock_scan(s, i + 1, depth, quote, true);
        lemma_ublock_scan(s, i + 1, depth + 1, None, false);
        lemma_ublock_scan(s, i + 1, if depth > 0 {
            depth - 1
        } else {
            0
        }, None, false);
        lemma_ublock_scan(s, i + 1, depth, Some(s[i]), false);
        lemma_ublock_scan(s, i + 1, depth, None, false);
    }
}

// ----------------------------------------------------------------------
// Stop-set scans
// ----------------------------------------------------------------------

/// Stop set of a selector text run: `,`, `{`, `:`.
pub open spec fn sel_stop(c: char) -> bool {
    c == ',' || c == '{' || c == ':'
}

/// Stop set of a pseudo-class name: `(`, `,`, `{`, `:`.
pub open spec fn pseudo_stop(c: char) -> bool {
    c == '(' || c == ',' || c == '{' || c == ':'
}

/// Stop set of a declaration name: `:`, `;`, `}`.
pub open spec fn key_stop(c: char) -> bool {
    c == ':' || c == ';' || c == '}'
}

pub open spec fn scan_while_not(s: Seq<char>, i: int, stop: spec_fn(char) -> bool) -> int
    decreases s.len() - i,
{
    if i < 0 || i >= s.len() {
        s.len() as int
    } else if stop(s[i]) {
        i
    } else {
        scan_while_not(s, i + 1, stop)
    }
}

pub proof fn lemma_scan_while_not(s: Seq<char>, i: int, stop: spec_fn(char) -> bool)
    requires
        0 <= i <= s.len(),
    ensures
        i <= scan_while_not(s, i, stop) <= s.len(),
        scan_while_not(s, i, stop) < s.len() ==> stop(s[scan_while_not(s, i, stop)]),
        forall|k: int| i <= k < scan_while_not(s, i, stop) ==> !stop(s[k]),
    decreases s.len() - i,
{
    if i < s.len() && !stop(s[i]) {
        lemma_scan_while_not(s, i + 1, stop);
    }
}

// ----------------------------------------------------------------------
// Trimming
// ----------------------------------------------------------------------

/// First position at or after `i` (bounded by `to`) holding a non-space.
pub open spec fn ltrim_idx(s: Seq<char>, i: int, to: int) -> int
    decreases to - i,
{
    if i < 0 || i >= to || i >= s.len() {
        i
    } else if is_space(s[i]) {
        ltrim_idx(s, i + 1, to)
    } else {
        i
    }
}

/// Last position after `from` such that everything from it to `to` is spaces.
pub open spec fn rtrim_idx(s: Seq<char>, from: int, to: int) -> int
    decreases to - from,
{
    if to <= from || to > s.len() || to < 1 {
        to
    } else if is_space(s[to - 1]) {
        rtrim_idx(s, from, to - 1)
    } else {
        to
    }
}

/// The characters of `s` from `from` to `to`, with surrounding whitespace
/// removed.
pub open spec fn trim_range(s: Seq<char>, from: int, to: int) -> Seq<char> {
    let a = ltrim_idx(s, from, to);
    let b = rtrim_idx(s, a, to);
    s.subrange(a, b)
}

pub proof fn lemma_trim_range(s: Seq<char>, from: int, to: int)
    requires
        0 <= from <= to <= s.len(),
    ensures
        from <= ltrim_idx(s, from, to) <= rtrim_idx(s, ltrim_idx(s, from, to), to) <= to,
{
    lemma_ltrim_idx(s, from, to);
    lemma_rtrim_idx(s, ltrim_idx(s, from, to), to);
}

pub proof fn lemma_ltrim_idx(s: Seq<char>, i: int, to: int)
    requires
        0 <= i <= to <= s.len(),
    ensures
        i <= ltrim_idx(s, i, to) <= to,
    decreases to - i,
{
    if i < to && i < s.len() && is_space(s[i]) {
        lemma_ltrim_idx(s, i + 1, to);
    }
}

pub proof fn lemma_rtrim_idx(s: Seq<char>, from: int, to: int)
    requires
        0 <= from <= to <= s.len(),
    ensures
        from <= rtrim_idx(s, from, to) <= to,
    decreases to - from,
{
    if to > from && to <= s.len() && to >= 1 && is_space(s[to - 1]) {
        lemma_rtrim_idx(s, from, to - 1);
    }
}

// ----------------------------------------------------------------------
// Executable scanners
// ----------------------------------------------------------------------

fn is_space_exec(c: char) -> (r: bool)
    ensures
        r == is_space(c),
{
    c == ' ' || c == '\t' || c == '\r' || c == '\n'
}

fn comment_end_exec(s: &str, i: usize) -> (r: Option<usize>)
    requires
        i <= s@.len(),
    ensures
        match r {
            Some(j) => comment_end(s@, i as int) == Some(j as int) && i + 2 <= j <= s@.len(),
            None => comment_end(s@, i as int) is None,
        },
    decreases s@.len() - i,
{
    let n = s.unicode_len();
    if i >= n || n - i < 2 {
        None
    } else if s.get_char(i) == '*' && s.get_char(i + 1) == '/' {
        Some(i + 2)
    } else {
        comment_end_exec(s, i + 1)
    }
}

/// Consume whitespace and complete comments; trivia may appear between any
/// two grammar tokens.
pub fn parse_useless(s: &str, i: usize) -> (r: usize)
    requires
        i <= s@.len(),
    ensures
        r == skip_trivia(s@, i as int),
        i <= r <= s@.len(),
    decreases s@.len() - i,
{
    proof {
        lemma_skip_trivia(s@, i as int);
    }
    let n = s.unicode_len();
    if i >= n {
        i
    } else {
        let c = s.get_char(i);
        if is_space_exec(c) {
            parse_useless(s, i + 1)
        } else if i + 1 < n && c == '/' && s.get_char(i + 1) == '*' {
            match comment_end_exec(s, i + 2) {
                Some(j) => parse_useless(s, j),
                None => i,
            }
        } else {
            i
        }
    }
}

fn qstr_scan_exec(s: &str, i: usize, q: char, esc: bool) -> (r: Option<usize>)
    requires
        i <= s@.len(),
    ensures
        match r {
            Some(j) => qstr_scan(s@, i as int, q, esc) == Some(j as int) && i + 1 <= j <= s@.len(),
            None => qstr_scan(s@, i as int, q, esc) is None,
        },
    decreases s@.len() - i,
{
    let n = s.unicode_len();
    if i >= n {
        None
    } else if esc {
        qstr_scan_exec(s, i + 1, q, false)
    } else {
        let c = s.get_char(i);
        if c == '\\' {
            qstr_scan_exec(s, i + 1, q, true)
        } else if c == q {
            Some(i + 1)
        } else {
            qstr_scan_exec(s, i + 1, q, false)
        }
    }
}

/// Position just after the quoted string starting at `i`, if terminated.
pub fn quoted_end_exec(s: &str, i: usize) -> (r: Option<usize>)
    requires
        i <= s@.len(),
    ensures
        match r {
            Some(j) => quoted_end(s@, i as int) == Some(j as int) && i + 2 <= j <= s@.len(),
            None => quoted_end(s@, i as int) is None,
        },
{
    let n = s.unicode_len();
    if i < n {
        let c = s.get_char(i);
        if c == '"' || c == '\'' {
            qstr_scan_exec(s, i + 1, c, false)
        } else {
            None
        }
    } else {
        None
    }
}

fn bal_scan_exec(s: &str, i: usize, depth: usize, quote: Option<char>, esc: bool) -> (r: Option<
    usize,
>)
    requires
        i <= s@.len(),
        depth <= i,
    ensures
        match r {
            Some(j) => bal_scan(s@, i as int, depth as int, quote, esc) == Some(j as int) && i + 1
                <= j <= s@.len(),
            None => bal_scan(s@, i as int, depth as int, quote, esc) is None,
        },
    decreases s@.len() - i,
{
    let n = s.unicode_len();
    if i >= n {
        None
    } else if esc {
        bal_scan_exec(s, i + 1, depth, quote, false)
    } else {
        let c = s.get_char(i);
        match quote {
            Some(q) => {
                if c == '\\' {
                    bal_scan_exec(s, i + 1, depth, quote, true)
                } else if c == q {
                    bal_scan_exec(s, i + 1, depth, None, false)
                } else {
                    bal_scan_exec(s, i + 1, depth, quote, false)
                }
            },
            None => {
                if c == '(' {
                    bal_scan_exec(s, i + 1, depth + 1, None, false)
                } else if c == ')' {
                    if depth <= 1 {
                        Some(i + 1)
                    } else {
                        bal_scan_exec(s, i + 1, depth - 1, None, false)
                    }
                } else if c == '"' || c == '\'' {
                    bal_scan_exec(s, i + 1, depth, Some(c), false)
                } else {
                    bal_scan_exec(s, i + 1, depth, None, false)
                }
            },
        }
    }
}

/// Position just after the balanced group starting at `i`, if it closes.
pub fn balanced_end_exec(s: &str, i: usize) -> (r: Option<usize>)
    requires
        i <= s@.len(),
    ensures
        match r {
            Some(j) => balanced_end(s@, i as int) == Some(j as int) && i + 2 <= j <= s@.len(),
            None => balanced_end(s@, i as int) is None,
        },
{
    let n = s.unicode_len();
    if i < n && s.get_char(i) == '(' {
        bal_scan_exec(s, i + 1, 1, None, false)
    } else {
        None
    }
}

fn ublock_scan_exec(s: &str, i: usize, depth: usize, quote: Option<char>, esc: bool) -> (r: usize)
    requires
        i <= s@.len(),
        depth <= i,
    ensures
        r == ublock_scan(s@, i as int, depth as int, quote, esc),
        i <= r <= s@.len(),
    decreases s@.len() - i,
{
    proof {
        lemma_ublock_scan(s@, i as int, depth as int, quote, esc);
    }
    let n = s.unicode_len();
    if i >= n {
        n
    } else if esc {
        ublock_scan_exec(s, i + 1, depth, quote, false)
    } else {
        let c = s.get_char(i);
        match quote {
            Some(q) => {
                if c == '\\' {
                    ublock_scan_exec(s, i + 1, depth, quote, true)
                } else if c == q {
                    ublock_scan_exec(s, i + 1, depth, None, false)
                } else {
                    ublock_scan_exec(s, i + 1, depth, quote, false)
                }
            },
            None => {
                if c == '{' && depth == 0 {
                    i
                } else if c == '(' {
                    ublock_scan_exec(s, i + 1, depth + 1, None, false)
                } else if c == ')' {
                    if depth > 0 {
                        ublock_scan_exec(s, i + 1, depth - 1, None, false)
                    } else {
                        ublock_scan_exec(s, i + 1, 0, None, false)
                    }
                } else if c == '"' || c == '\'' {
                    ublock_scan_exec(s, i + 1, depth, Some(c), false)
                } else {
                    ublock_scan_exec(s, i + 1, depth, None, false)
                }
            },
        }
    }
}

/// Scan up to the next `{` that is not inside a string or parenthesis group.
pub fn parse_to_block_open(s: &str, i: usize) -> (r: usize)
    requires
        i <= s@.len(),
    ensures
        r == until_block_open(s@, i as int),
        i <= r <= s@.len(),
{
    ublock_scan_exec(s, i, 0, None, false)
}

fn sel_stop_exec(c: char) -> (r: bool)
    ensures
        r == sel_stop(c),
{
    c == ',' || c == '{' || c == ':'
}

fn pseudo_stop_exec(c: char) -> (r: bool)
    ensures
        r == pseudo_stop(c),
{
    c == '(' || c == ',' || c == '{' || c == ':'
}

fn key_stop_exec(c: char) -> (r: bool)
    ensures
        r == key_stop(c),
{
    c == ':' || c == ';' || c == '}'
}

/// Maximal run not containing `,`, `{`, `:`.
pub fn scan_sel(s: &str, i: usize) -> (r: usize)
    requires
        i <= s@.len(),
    ensures
        r == scan_while_not(s@, i as int, |c: char| sel_stop(c)),
        i <= r <= s@.len(),
    decreases s@.len() - i,
{
    proof {
        lemma_scan_while_not(s@, i as int, |c: char| sel_stop(c));
    }
    let n = s.unicode_len();
    if i >= n {
        n
    } else if sel_stop_exec(s.get_char(i)) {
        i
    } else {
        scan_sel(s, i + 1)
    }
}

/// Maximal run not containing `(`, `,`, `{`, `:`.
pub fn scan_pseudo(s: &str, i: usize) -> (r: usize)
    requires
        i <= s@.len(),
    ensures
        r == scan_while_not(s@, i as int, |c: char| pseudo_stop(c)),
        i <= r <= s@.len(),
    decreases s@.len() - i,
{
    proof {
        lemma_scan_while_not(s@, i as int, |c: char| pseudo_stop(c));
    }
    let n = s.unicode_len();
    if i >= n {
        n
    } else if pseudo_stop_exec(s.get_char(i)) {
        i
    } else {
        scan_pseudo(s, i + 1)
    }
}

/// Maximal run not containing `:`, `;`, `}`.
pub fn scan_key(s: &str, i: usize) -> (r: usize)
    requires
        i <= s@.len(),
    ensures
        r == scan_while_not(s@, i as int, |c: char| key_stop(c)),
        i <= r <= s@.len(),
    decreases s@.len() - i,
{
    proof {
        lemma_scan_while_not(s@, i as int, |c: char| key_stop(c));
    }
    let n = s.unicode_len();
    if i >= n {
        n
    } else if key_stop_exec(s.get_char(i)) {
        i
    } else {
        scan_key(s, i + 1)
    }
}

/// Maximal run not containing `;`.
pub fn scan_semi(s: &str, i: usize) -> (r: usize)
    requires
        i <= s@.len(),
    ensures
        r == scan_while_not(s@, i as int, |c: char| c == ';'),
        i <= r <= s@.len(),
    decreases s@.len() - i,
{
    proof {
        lemma_scan_while_not(s@, i as int, |c: char| c == ';');
    }
    let n = s.unicode_len();
    if i >= n {
        n
    } else if s.get_char(i) == ';' {
        i
    } else {
        scan_semi(s, i + 1)
    }
}

/// Maximal run of non-space characters.
pub fn scan_not_space(s: &str, i: usize) -> (r: usize)
    requires
        i <= s@.len(),
    ensures
        r == scan_while_not(s@, i as int, |c: char| is_space(c)),
        i <= r <= s@.len(),
    decreases s@.len() - i,
{
    proof {
        lemma_scan_while_not(s@, i as int, |c: char| is_space(c));
    }
    let n = s.unicode_len();
    if i >= n {
        n
    } else if is_space_exec(s.get_char(i)) {
        i
    } else {
        scan_not_space(s, i + 1)
    }
}

/// Maximal run of space characters.
pub fn scan_space(s: &str, i: usize) -> (r: usize)
    requires
        i <= s@.len(),
    ensures
        r == scan_while_not(s@, i as int, |c: char| !is_space(c)),
        i <= r <= s@.len(),
    decreases s@.len() - i,
{
    proof {
        lemma_scan_while_not(s@, i as int, |c: char| !is_space(c));
    }
    let n = s.unicode_len();
    if i >= n {
        n
    } else if !is_space_exec(s.get_char(i)) {
        i
    } else {
        scan_space(s, i + 1)
    }
}

fn ltrim_exec(s: &str, i: usize, to: usize) -> (r: usize)
    requires
        i <= to <= s@.len(),
    ensures
        r == ltrim_idx(s@, i as int, to as int),
        i <= r <= to,
    decreases to - i,
{
    proof {
        lemma_ltrim_idx(s@, i as int, to as int);
    }
    if i >= to {
        i
    } else if is_space_exec(s.get_char(i)) {
        ltrim_exec(s, i + 1, to)
    } else {
        i
    }
}

fn rtrim_exec(s: &str, from: usize, to: usize) -> (r: usize)
    requires
        from <= to <= s@.len(),
    ensures
        r == rtrim_idx(s@, from as int, to as int),
        from <= r <= to,
    decreases to - from,
{
    proof {
        lemma_rtrim_idx(s@, from as int, to as int);
    }
    if to <= from {
        to
    } else if is_space_exec(s.get_char(to - 1)) {
        rtrim_exec(s, from, to - 1)
    } else {
        to
    }
}

/// An owned copy of the characters from `from` to `to`, with surrounding
/// whitespace removed.
pub fn trimmed_substr(s: &str, from: usize, to: usize) -> (r: String)
    requires
        from <= to <= s@.len(),
    ensures
        r@ == trim_range(s@, from as int, to as int),
{
    let a = ltrim_exec(s, from, to);
    let b = rtrim_exec(s, a, to);
    crate::text::substr(s, a, b)
}

/// A comment at `i`: `/*`, its text, `*/`.  Gives the position after the
/// close and the comment's text.
pub fn parse_comment(s: &str, i: usize) -> (r: Option<(usize, String)>)
    requires
        i <= s@.len(),
    ensures
        match r {
            Some(p) => i + 4 <= p.0 <= s@.len() && comment_end(s@, i + 2) == Some(p.0 as int)
                && s@[i as int] == '/' && s@[i + 1] == '*' && p.1@ == s@.subrange(
                i + 2,
                p.0 - 2,
            ),
            None => i + 2 > s@.len() || s@[i as int] != '/' || s@[i + 1] != '*' || comment_end(
                s@,
                i + 2,
            ) is None,
        },
{
    let n = s.unicode_len();
    if i < n && n - i >= 2 && s.get_char(i) == '/' && s.get_char(i + 1) == '*' {
        match comment_end_exec(s, i + 2) {
            Some(j) => {
                proof {
                    lemma_comment_end(s@, i + 2);
                }
                Some((j, crate::text::substr(s, i + 2, j - 2)))
            },
            None => None,
        }
    } else {
        None
    }
}

/// True when the characters of `p` stand in `s` at position `i`.
pub open spec fn has_prefix_at(s: Seq<char>, i: int, p: Seq<char>) -> bool {
    0 <= i && i + p.len() <= s.len() && s.subrange(i, i + p.len()) == p
}

/// Whether `p`'s characters stand in `s` at position `i`.
pub fn match_prefix(s: &str, i: usize, p: &str) -> (r: bool)
    requires
        i <= s@.len(),
    ensures
        r == has_prefix_at(s@, i as int, p@),
{
    let n = s.unicode_len();
    let plen = p.unicode_len();
    if plen > n - i {
        proof {
            assert(!has_prefix_at(s@, i as int, p@));
        }
        return false;
    }
    let mut k: usize = 0;
    while k < plen
        invariant
            0 <= k <= plen,
            i + plen <= n,
            n == s@.len(),
            plen == p@.len(),
            i <= s@.len(),
            forall|m: int| 0 <= m < k ==> s@[i + m] == p@[m],
        decreases plen - k,
    {
        if s.get_char(i + k) != p.get_char(k) {
            proof {
                assert(s@.subrange(i as int, i + plen as int)[k as int] == s@[i + k]);
                assert(s@.subrange(i as int, i + plen as int) != p@);
            }
            return false;
        }
        k += 1;
    }
    proof {
        assert(s@.subrange(i as int, i + plen as int) =~= p@);
    }
    true
}

} // verus!
