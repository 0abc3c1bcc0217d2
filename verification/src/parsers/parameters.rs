//! Declaration parsing: `key : value` pairs, each followed by `;` except
//! that the final declaration may omit its `;` before `}`.  A value may
//! legally contain `;` inside quoted strings or parenthesis groups, so it is
//! tokenized by alternation: quoted string, balanced group, or any character
//! not among `"'();}`.

use crate::dict::entries_insert;
use crate::parsers::utils::{
    balanced_end, key_stop, lemma_balanced_end, lemma_quoted_end, lemma_scan_while_not,
    lemma_skip_trivia, parse_useless, quoted_end, quoted_end_exec, balanced_end_exec, scan_key,
    scan_while_not, skip_trivia, trim_range, trimmed_substr,
};
use crate::structure::{EntriesV, Name, Parameters, Value};
use vstd::prelude::*;

verus! {

/// End of a declaration value starting at `i`: the first `;`, `}`, stray `)`,
/// or unterminated quote or group, at the top level.
pub open spec fn value_end(s: Seq<char>, i: int) -> int
    decreases s.len() - i,
{
    if i < 0 || i >= s.len() {
        i
    } else if s[i] == ';' || s[i] == '}' || s[i] == ')' {
        i
    } else if s[i] == '"' || s[i] == '\'' {
        match quoted_end(s, i) {
            Some(j) => if i < j && j <= s.len() {
                value_end(s, j)
            } else {
                i
            },
            None => i,
        }
    } else if s[i] == '(' {
        match balanced_end(s, i) {
            Some(j) => if i < j && j <= s.len() {
                value_end(s, j)
            } else {
                i
            },
            None => i,
        }
    } else {
        value_end(s, i + 1)
    }
}

pub proof fn lemma_value_end(s: Seq<char>, i: int)
    requires
        0 <= i <= s.len(),
    ensures
        i <= value_end(s, i) <= s.len(),
    decreases s.len() - i,
{
    if i < s.len() {
        if s[i] == ';' || s[i] == '}' || s[i] == ')' {
        } else if s[i] == '"' || s[i] == '\'' {
            if let Some(j) = quoted_end(s, i) {
                lemma_quoted_end(s, i);
                if i < j && j <= s.len() {
                    lemma_value_end(s, j);
                }
            }
        } else if s[i] == '(' {
            if let Some(j) = balanced_end(s, i) {
                lemma_balanced_end(s, i);
                if i < j && j <= s.len() {
                    lemma_value_end(s, j);
                }
            }
        } else {
            lemma_value_end(s, i + 1);
        }
    }
}

fn value_end_exec(s: &str, i: usize) -> (r: usize)
    requires
        i <= s@.len(),
    ensures
        r == value_end(s@, i as int),
        i <= r <= s@.len(),
    decreases s@.len() - i,
{
    proof {
        lemma_value_end(s@, i as int);
    }
    let n = s.unicode_len();
    if i >= n {
        i
    } else {
        let c = s.get_char(i);
        if c == ';' || c == '}' || c == ')' {
            i
        } else if c == '"' || c == '\'' {
            match quoted_end_exec(s, i) {
                Some(j) => value_end_exec(s, j),
                None => i,
            }
        } else if c == '(' {
            match balanced_end_exec(s, i) {
                Some(j) => value_end_exec(s, j),
                None => i,
            }
        } else {
            value_end_exec(s, i + 1)
        }
    }
}

/// One declaration at `i`: a nonempty key run, `:`, a nonempty value run,
/// then `;` (consumed) or `}` (left in place).  Key and value are trimmed.
pub open spec fn spec_parse_parameter(s: Seq<char>, i: int) -> Option<(int, (Seq<char>, Seq<char>))> {
    let k0 = skip_trivia(s, i);
    let k1 = scan_while_not(s, k0, |c: char| key_stop(c));
    if k1 == k0 {
        None
    } else if k1 < s.len() && s[k1] == ':' {
        let v0 = skip_trivia(s, k1 + 1);
        let v1 = value_end(s, v0);
        if v1 == v0 {
            None
        } else if v1 < s.len() && s[v1] == ';' {
            Some((v1 + 1, (trim_range(s, k0, k1), trim_range(s, v0, v1))))
        } else if v1 < s.len() && s[v1] == '}' {
            Some((v1, (trim_range(s, k0, k1), trim_range(s, v0, v1))))
        } else {
            None
        }
    } else {
        None
    }
}

pub proof fn lemma_parse_parameter(s: Seq<char>, i: int)
    requires
        0 <= i <= s.len(),
    ensures
        spec_parse_parameter(s, i) matches Some(p) ==> i < p.0 <= s.len(),
{
    lemma_skip_trivia(s, i);
    let k0 = skip_trivia(s, i);
    lemma_scan_while_not(s, k0, |c: char| key_stop(c));
    let k1 = scan_while_not(s, k0, |c: char| key_stop(c));
    if k1 != k0 && k1 < s.len() && s[k1] == ':' {
        lemma_skip_trivia(s, k1 + 1);
        let v0 = skip_trivia(s, k1 + 1);
        lemma_value_end(s, v0);
    }
}

/// Parse one declaration.
pub fn parse_parameter(s: &str, i: usize) -> (r: Option<(usize, (Name, Value))>)
    requires
        i <= s@.len(),
    ensures
        match r {
            Some(p) => spec_parse_parameter(s@, i as int) matches Some(q) && p.0 == q.0 && (
            p.1.0@,
            p.1.1@,
            ) == q.1 && i < p.0 <= s@.len(),
            None => spec_parse_parameter(s@, i as int) is None,
        },
{
    proof {
        lemma_parse_parameter(s@, i as int);
    }
    let n = s.unicode_len();
    let k0 = parse_useless(s, i);
    let k1 = scan_key(s, k0);
    if k1 == k0 {
        return None;
    }
    if k1 < n && s.get_char(k1) == ':' {
        let v0 = parse_useless(s, k1 + 1);
        let v1 = value_end_exec(s, v0);
        if v1 == v0 {
            return None;
        }
        if v1 < n && s.get_char(v1) == ';' {
            let name = trimmed_substr(s, k0, k1);
            let value = trimmed_substr(s, v0, v1);
            Some((v1 + 1, (name, value)))
        } else if v1 < n && s.get_char(v1) == '}' {
            let name = trimmed_substr(s, k0, k1);
            let value = trimmed_substr(s, v0, v1);
            Some((v1, (name, value)))
        } else {
            None
        }
    } else {
        None
    }
}

/// Zero or more declarations with trivia between them; stops before `@`, `{`,
/// `}`, the input's end, or anything that is not a declaration.
pub open spec fn spec_parse_parameters(s: Seq<char>, i: int) -> (int, Seq<(Seq<char>, Seq<char>)>)
    decreases s.len() - i,
{
    let j = skip_trivia(s, i);
    if 0 <= i && i <= j && j < s.len() && s[j] != '@' && s[j] != '{' && s[j] != '}' {
        match spec_parse_parameter(s, j) {
            Some(p) => if j < p.0 && p.0 <= s.len() {
                let rest = spec_parse_parameters(s, p.0);
                (rest.0, seq![p.1] + rest.1)
            } else {
                (i, Seq::empty())
            },
            None => (i, Seq::empty()),
        }
    } else {
        (i, Seq::empty())
    }
}

pub proof fn lemma_parse_parameters(s: Seq<char>, i: int)
    requires
        0 <= i <= s.len(),
    ensures
        i <= spec_parse_parameters(s, i).0 <= s.len(),
    decreases s.len() - i,
{
    lemma_skip_trivia(s, i);
    let j = skip_trivia(s, i);
    if i <= j && j < s.len() && s[j] != '@' && s[j] != '{' && s[j] != '}' {
        if let Some(p) = spec_parse_parameter(s, j) {
            lemma_parse_parameter(s, j);
            if j < p.0 && p.0 <= s.len() {
                lemma_parse_parameters(s, p.0);
            }
        }
    }
}

pub open spec fn pair_views(v: Seq<(Name, Value)>) -> Seq<(Seq<char>, Seq<char>)> {
    v.map_values(|p: (Name, Value)| (p.0@, p.1@))
}

/// Parse a run of declarations into a list of pairs.
pub fn parse_parameters(s: &str, i: usize) -> (r: (usize, Vec<(Name, Value)>))
    requires
        i <= s@.len(),
    ensures
        r.0 == spec_parse_parameters(s@, i as int).0,
        pair_views(r.1@) == spec_parse_parameters(s@, i as int).1,
        i <= r.0 <= s@.len(),
    decreases s@.len() - i,
{
    proof {
        lemma_parse_parameters(s@, i as int);
    }
    let n = s.unicode_len();
    let j = parse_useless(s, i);
    if j < n && s.get_char(j) != '@' && s.get_char(j) != '{' && s.get_char(j) != '}' {
        match parse_parameter(s, j) {
            Some(p) => {
                let (end, mut rest) = parse_parameters(s, p.0);
                rest.insert(0, p.1);
                proof {
                    assert(pair_views(rest@) =~= spec_parse_parameters(s@, i as int).1);
                }
                (end, rest)
            },
            None => {
                let r: Vec<(Name, Value)> = Vec::new();
                proof {
                    assert(pair_views(r@) =~= Seq::<(Seq<char>, Seq<char>)>::empty());
                }
                (i, r)
            },
        }
    } else {
        let r: Vec<(Name, Value)> = Vec::new();
        proof {
            assert(pair_views(r@) =~= Seq::<(Seq<char>, Seq<char>)>::empty());
        }
        (i, r)
    }
}

/// The declaration map built from parsed pairs in order: a later duplicate
/// key overwrites the earlier entry in place.
pub open spec fn entries_of_pairs(ps: Seq<(Seq<char>, Seq<char>)>) -> EntriesV
    decreases ps.len(),
{
    if ps.len() == 0 {
        Seq::empty()
    } else {
        entries_insert(entries_of_pairs(ps.drop_last()), ps.last().0, ps.last().1)
    }
}

/// Fill a declaration map from pairs in order.
pub fn pairs_to_parameters(v: Vec<(Name, Value)>) -> (r: Parameters)
    ensures
        r@ == entries_of_pairs(pair_views(v@)),
{
    let mut p = Parameters::new();
    let mut i: usize = 0;
    while i < v.len()
        invariant
            i <= v@.len(),
            p@ == entries_of_pairs(pair_views(v@.subrange(0, i as int))),
        decreases v@.len() - i,
    {
        let (name, value) = (v[i].0.clone(), v[i].1.clone());
        p.insert(name, value);
        proof {
            let pref = pair_views(v@.subrange(0, i + 1 as int));
            assert(pref.drop_last() =~= pair_views(v@.subrange(0, i as int)));
            assert(pref.last() == (v@[i as int].0@, v@[i as int].1@));
        }
        i += 1;
    }
    proof {
        assert(v@.subrange(0, v@.len() as int) =~= v@);
    }
    p
}

/// Parse a run of declarations and build the declaration map.
pub open spec fn spec_parse_parameter_map(s: Seq<char>, i: int) -> (int, EntriesV) {
    let r = spec_parse_parameters(s, i);
    (r.0, entries_of_pairs(r.1))
}

pub fn parse_parameter_map(s: &str, i: usize) -> (r: (usize, Parameters))
    requires
        i <= s@.len(),
    ensures
        r.0 == spec_parse_parameter_map(s@, i as int).0,
        r.1@ == spec_parse_parameter_map(s@, i as int).1,
        i <= r.0 <= s@.len(),
{
    let (end, pairs) = parse_parameters(s, i);
    let p = pairs_to_parameters(pairs);
    (end, p)
}

/// A braced declaration list: `{`, declarations, trivia, `}`.
pub open spec fn spec_parse_block_body(s: Seq<char>, i: int) -> Option<(int, EntriesV)> {
    if 0 <= i && i < s.len() && s[i] == '{' {
        let r = spec_parse_parameter_map(s, i + 1);
        let jf = skip_trivia(s, r.0);
        if 0 <= jf && jf < s.len() && s[jf] == '}' {
            Some((jf + 1, r.1))
        } else {
            None
        }
    } else {
        None
    }
}

pub fn parse_block_body(s: &str, i: usize) -> (r: Option<(usize, Parameters)>)
    requires
        i <= s@.len(),
    ensures
        match r {
            Some(p) => spec_parse_block_body(s@, i as int) matches Some(q) && p.0 == q.0 && p.1@
                == q.1 && i < p.0 <= s@.len(),
            None => spec_parse_block_body(s@, i as int) is None,
        },
{
    let n = s.unicode_len();
    if i < n && s.get_char(i) == '{' {
        let (j, params) = parse_parameter_map(s, i + 1);
        let jf = parse_useless(s, j);
        if jf < n && s.get_char(jf) == '}' {
            Some((jf + 1, params))
        } else {
            None
        }
    } else {
        None
    }
}

} // verus!
