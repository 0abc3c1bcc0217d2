//! Selector parsing: a comma-separated list of compound selectors, each an
//! optional base (`#id`, `.class`, or a bare tag) followed by pseudo-classes.
//! A pseudo-class may carry `(...)` params and a trailing descendant
//! selector (the `a` in `:is(.x) a`).

use crate::parsers::utils::{
    balanced_end, balanced_end_exec, lemma_scan_while_not, lemma_skip_trivia, parse_useless,
    scan_pseudo, scan_sel, scan_while_not, sel_stop, pseudo_stop, skip_trivia, trim_range,
    trimmed_substr,
};
use crate::structure::{
    PseudoClass, PseudoClassV, Selector, SelectorV, SelectorWithPseudoClasses,
    SelectorWithPseudoClassesV, Selectors, pseudo_views, selector_views,
};
use crate::text::substr;
use vstd::prelude::*;

verus! {

/// A simple selector at `i`: `#` then a nonempty run, `.` then a nonempty
/// run, or a nonempty bare run; each run stops at `,`, `{`, `:` and is
/// trimmed.
pub open spec fn spec_parse_selector(s: Seq<char>, i: int) -> Option<(int, SelectorV)> {
    if i < 0 || i >= s.len() {
        None
    } else if s[i] == '#' && scan_while_not(s, i + 1, |c: char| sel_stop(c)) > i + 1 {
        let j = scan_while_not(s, i + 1, |c: char| sel_stop(c));
        Some((j, SelectorV::Id(trim_range(s, i + 1, j))))
    } else if s[i] == '.' && scan_while_not(s, i + 1, |c: char| sel_stop(c)) > i + 1 {
        let j = scan_while_not(s, i + 1, |c: char| sel_stop(c));
        Some((j, SelectorV::Class(trim_range(s, i + 1, j))))
    } else {
        let j = scan_while_not(s, i, |c: char| sel_stop(c));
        if j > i {
            Some((j, SelectorV::Tag(trim_range(s, i, j))))
        } else {
            None
        }
    }
}

pub proof fn lemma_parse_selector(s: Seq<char>, i: int)
    requires
        0 <= i <= s.len(),
    ensures
        spec_parse_selector(s, i) matches Some(p) ==> i < p.0 <= s.len(),
{
    if i < s.len() {
        lemma_scan_while_not(s, i + 1, |c: char| sel_stop(c));
        lemma_scan_while_not(s, i, |c: char| sel_stop(c));
    }
}

/// Parse a simple selector.
pub fn parse_selector(s: &str, i: usize) -> (r: Option<(usize, Selector)>)
    requires
        i <= s@.len(),
    ensures
        match r {
            Some(p) => spec_parse_selector(s@, i as int) matches Some(q) && p.0 == q.0 && p.1@
                == q.1 && i < p.0 <= s@.len(),
            None => spec_parse_selector(s@, i as int) is None,
        },
{
    proof {
        lemma_parse_selector(s@, i as int);
    }
    let n = s.unicode_len();
    if i >= n {
        return None;
    }
    let c = s.get_char(i);
    if c == '#' {
        let j = scan_sel(s, i + 1);
        if j > i + 1 {
            return Some((j, Selector::Id(trimmed_substr(s, i + 1, j))));
        }
    }
    if c == '.' {
        let j = scan_sel(s, i + 1);
        if j > i + 1 {
            return Some((j, Selector::Class(trimmed_substr(s, i + 1, j))));
        }
    }
    let j = scan_sel(s, i);
    if j > i {
        Some((j, Selector::Tag(trimmed_substr(s, i, j))))
    } else {
        None
    }
}

/// One pseudo-class at `i`: trivia, one or two `:`, a nonempty name run,
/// optional balanced `(...)` params, then an optional trailer run up to the
/// next `,`, `{` or `:`.
pub open spec fn spec_parse_pseudo_class(s: Seq<char>, i: int) -> Option<(int, PseudoClassV)> {
    let j = skip_trivia(s, i);
    if 0 <= j && j < s.len() && s[j] == ':' {
        let k = if j + 1 < s.len() && s[j + 1] == ':' {
            j + 2
        } else {
            j + 1
        };
        let ne = scan_while_not(s, k, |c: char| pseudo_stop(c));
        if ne == k {
            None
        } else {
            let name = s.subrange(k, ne);
            let p0 = skip_trivia(s, ne);
            let parsed = if 0 <= p0 && p0 < s.len() && s[p0] == '(' {
                match balanced_end(s, p0) {
                    Some(pe) => if p0 + 2 <= pe && pe <= s.len() {
                        (Some(s.subrange(p0 + 1, pe - 1)), pe)
                    } else {
                        (None, p0)
                    },
                    None => (None, p0),
                }
            } else {
                (None, p0)
            };
            let t0 = skip_trivia(s, parsed.1);
            let te = scan_while_not(s, t0, |c: char| sel_stop(c));
            if te > t0 {
                Some((te, PseudoClassV { name, params: parsed.0, next: Some(s.subrange(t0, te)) }))
            } else {
                Some((t0, PseudoClassV { name, params: parsed.0, next: None }))
            }
        }
    } else {
        None
    }
}

pub proof fn lemma_parse_pseudo_class(s: Seq<char>, i: int)
    requires
        0 <= i <= s.len(),
    ensures
        spec_parse_pseudo_class(s, i) matches Some(p) ==> i < p.0 <= s.len(),
{
    lemma_skip_trivia(s, i);
    let j = skip_trivia(s, i);
    if j < s.len() && s[j] == ':' {
        let k = if j + 1 < s.len() && s[j + 1] == ':' {
            j + 2
        } else {
            j + 1
        };
        lemma_scan_while_not(s, k, |c: char| pseudo_stop(c));
        let ne = scan_while_not(s, k, |c: char| pseudo_stop(c));
        if ne != k {
            lemma_skip_trivia(s, ne);
            let p0 = skip_trivia(s, ne);
            if p0 < s.len() && s[p0] == '(' {
                crate::parsers::utils::lemma_balanced_end(s, p0);
            }
            let parsed = if p0 < s.len() && s[p0] == '(' {
                match balanced_end(s, p0) {
                    Some(pe) => if p0 + 2 <= pe && pe <= s.len() {
                        (Some(s.subrange(p0 + 1, pe - 1)), pe)
                    } else {
                        (None, p0)
                    },
                    None => (None, p0),
                }
            } else {
                (None, p0)
            };
            lemma_skip_trivia(s, parsed.1);
            lemma_scan_while_not(s, skip_trivia(s, parsed.1), |c: char| sel_stop(c));
        }
    }
}

/// Parse one pseudo-class.
pub fn parse_pseudo_class(s: &str, i: usize) -> (r: Option<(usize, PseudoClass)>)
    requires
        i <= s@.len(),
    ensures
        match r {
            Some(p) => spec_parse_pseudo_class(s@, i as int) matches Some(q) && p.0 == q.0 && p.1@
                == q.1 && i < p.0 <= s@.len(),
            None => spec_parse_pseudo_class(s@, i as int) is None,
        },
{
    proof {
        lemma_parse_pseudo_class(s@, i as int);
    }
    let n = s.unicode_len();
    let j = parse_useless(s, i);
    if j < n && s.get_char(j) == ':' {
        let k = if j + 1 < n && s.get_char(j + 1) == ':' {
            j + 2
        } else {
            j + 1
        };
        let ne = scan_pseudo(s, k);
        if ne == k {
            return None;
        }
        let name = substr(s, k, ne);
        let p0 = parse_useless(s, ne);
        let (params, after): (Option<String>, usize) = if p0 < n && s.get_char(p0) == '(' {
            match balanced_end_exec(s, p0) {
                Some(pe) => (Some(substr(s, p0 + 1, pe - 1)), pe),
                None => (None, p0),
            }
        } else {
            (None, p0)
        };
        let t0 = parse_useless(s, after);
        let te = scan_sel(s, t0);
        if te > t0 {
            let next = substr(s, t0, te);
            Some((te, PseudoClass { name, params, next: Some(next) }))
        } else {
            Some((t0, PseudoClass { name, params, next: None }))
        }
    } else {
        None
    }
}

/// Zero or more pseudo-classes.
pub open spec fn spec_parse_pseudo_classes(s: Seq<char>, i: int) -> (int, Seq<PseudoClassV>)
    decreases s.len() - i,
{
    match spec_parse_pseudo_class(s, i) {
        Some(p) => if 0 <= i && i < p.0 && p.0 <= s.len() {
            let rest = spec_parse_pseudo_classes(s, p.0);
            (rest.0, seq![p.1] + rest.1)
        } else {
            (i, Seq::empty())
        },
        None => (i, Seq::empty()),
    }
}

pub proof fn lemma_parse_pseudo_classes(s: Seq<char>, i: int)
    requires
        0 <= i <= s.len(),
    ensures
        i <= spec_parse_pseudo_classes(s, i).0 <= s.len(),
    decreases s.len() - i,
{
    if let Some(p) = spec_parse_pseudo_class(s, i) {
        lemma_parse_pseudo_class(s, i);
        if i < p.0 && p.0 <= s.len() {
            lemma_parse_pseudo_classes(s, p.0);
        }
    }
}

/// Parse a pseudo-class chain.
pub fn parse_pseudo_classes(s: &str, i: usize) -> (r: (usize, Vec<PseudoClass>))
    requires
        i <= s@.len(),
    ensures
        r.0 == spec_parse_pseudo_classes(s@, i as int).0,
        pseudo_views(r.1@) == spec_parse_pseudo_classes(s@, i as int).1,
        i <= r.0 <= s@.len(),
    decreases s@.len() - i,
{
    proof {
        lemma_parse_pseudo_classes(s@, i as int);
    }
    match parse_pseudo_class(s, i) {
        Some(p) => {
            let (end, mut rest) = parse_pseudo_classes(s, p.0);
            rest.insert(0, p.1);
            proof {
                assert(pseudo_views(rest@) =~= spec_parse_pseudo_classes(s@, i as int).1);
            }
            (end, rest)
        },
        None => {
            let r: Vec<PseudoClass> = Vec::new();
            proof {
                assert(pseudo_views(r@) =~= Seq::<PseudoClassV>::empty());
            }
            (i, r)
        },
    }
}

/// One compound selector: trivia, an optional base, trivia, pseudo-classes.
/// It always applies, possibly consuming nothing but trivia.
pub open spec fn spec_parse_compound(s: Seq<char>, i: int) -> (int, SelectorWithPseudoClassesV) {
    let b0 = skip_trivia(s, i);
    let based = match spec_parse_selector(s, b0) {
        Some(p) => (Some(p.1), p.0),
        None => (None, b0),
    };
    let a2 = skip_trivia(s, based.1);
    let ps = spec_parse_pseudo_classes(s, a2);
    (ps.0, SelectorWithPseudoClassesV { base: based.0, pseudo: ps.1 })
}

pub proof fn lemma_parse_compound(s: Seq<char>, i: int)
    requires
        0 <= i <= s.len(),
    ensures
        i <= spec_parse_compound(s, i).0 <= s.len(),
{
    lemma_skip_trivia(s, i);
    let b0 = skip_trivia(s, i);
    lemma_parse_selector(s, b0);
    let based = match spec_parse_selector(s, b0) {
        Some(p) => (Some(p.1), p.0),
        None => (None, b0),
    };
    lemma_skip_trivia(s, based.1);
    lemma_parse_pseudo_classes(s, skip_trivia(s, based.1));
}

/// Parse one compound selector.
pub fn parse_selector_with_pseudo_class(s: &str, i: usize) -> (r: (
    usize,
    SelectorWithPseudoClasses,
))
    requires
        i <= s@.len(),
    ensures
        r.0 == spec_parse_compound(s@, i as int).0,
        r.1@ == spec_parse_compound(s@, i as int).1,
        i <= r.0 <= s@.len(),
{
    proof {
        lemma_parse_compound(s@, i as int);
    }
    let b0 = parse_useless(s, i);
    let (base, after): (Option<Selector>, usize) = match parse_selector(s, b0) {
        Some(p) => (Some(p.1), p.0),
        None => (None, b0),
    };
    let a2 = parse_useless(s, after);
    let (end, ps) = parse_pseudo_classes(s, a2);
    (end, SelectorWithPseudoClasses(base, ps))
}

/// The comma-separated tail of a selector list, starting at a compound.
pub open spec fn spec_parse_selector_list(s: Seq<char>, i: int) -> (
    int,
    Seq<SelectorWithPseudoClassesV>,
)
    decreases s.len() - i,
{
    let c = spec_parse_compound(s, i);
    if 0 <= i && i <= c.0 && c.0 < s.len() && s[c.0] == ',' {
        let rest = spec_parse_selector_list(s, c.0 + 1);
        (rest.0, seq![c.1] + rest.1)
    } else {
        (c.0, seq![c.1])
    }
}

pub proof fn lemma_parse_selector_list(s: Seq<char>, i: int)
    requires
        0 <= i <= s.len(),
    ensures
        i <= spec_parse_selector_list(s, i).0 <= s.len(),
    decreases s.len() - i,
{
    lemma_parse_compound(s, i);
    let c = spec_parse_compound(s, i);
    if i <= c.0 && c.0 < s.len() && s[c.0] == ',' {
        lemma_parse_selector_list(s, c.0 + 1);
    }
}

fn parse_selector_list(s: &str, i: usize) -> (r: (usize, Vec<SelectorWithPseudoClasses>))
    requires
        i <= s@.len(),
    ensures
        r.0 == spec_parse_selector_list(s@, i as int).0,
        selector_views(r.1@) == spec_parse_selector_list(s@, i as int).1,
        i <= r.0 <= s@.len(),
    decreases s@.len() - i,
{
    proof {
        lemma_parse_selector_list(s@, i as int);
    }
    let n = s.unicode_len();
    let (j, c) = parse_selector_with_pseudo_class(s, i);
    if j < n && s.get_char(j) == ',' {
        let (end, mut rest) = parse_selector_list(s, j + 1);
        rest.insert(0, c);
        proof {
            assert(selector_views(rest@) =~= spec_parse_selector_list(s@, i as int).1);
        }
        (end, rest)
    } else {
        let mut r: Vec<SelectorWithPseudoClasses> = Vec::new();
        r.push(c);
        proof {
            assert(selector_views(r@) =~= seq![spec_parse_compound(s@, i as int).1]);
        }
        (j, r)
    }
}

/// A selector list at `i`: it must not start with an entity-boundary token
/// (`@`, `{`, `}`).
pub open spec fn spec_parse_selectors(s: Seq<char>, i: int) -> Option<(
    int,
    Seq<SelectorWithPseudoClassesV>,
)> {
    if 0 <= i && i < s.len() && s[i] != '@' && s[i] != '{' && s[i] != '}' {
        Some(spec_parse_selector_list(s, i))
    } else {
        None
    }
}

/// Parse a selector list.
pub fn parse_selectors(s: &str, i: usize) -> (r: Option<(usize, Selectors)>)
    requires
        i <= s@.len(),
    ensures
        match r {
            Some(p) => spec_parse_selectors(s@, i as int) matches Some(q) && p.0 == q.0 && p.1@
                == q.1 && i <= p.0 <= s@.len(),
            None => spec_parse_selectors(s@, i as int) is None,
        },
{
    let n = s.unicode_len();
    if i < n {
        let c = s.get_char(i);
        if c != '@' && c != '{' && c != '}' {
            let (end, list) = parse_selector_list(s, i);
            return Some((end, Selectors(list)));
        }
    }
    None
}

} // verus!
