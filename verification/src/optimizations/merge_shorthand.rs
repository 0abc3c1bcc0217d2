//! Shorthand synthesis: per block, the constituent declarations of `font`,
//! `list-style`, `background`, `border`, `outline` and `transition` are
//! collected and, when the family applies and the `!important` flags
//! are uniform over the present constituents, replaced by one shorthand.

use crate::dict::{
    entries_get, entries_insert, entries_swap_remove, has_key, lemma_insert_get,
    lemma_insert_keeps_unique, lemma_swap_remove_get, lemma_swap_remove_keeps_unique, unique_keys,
};
use crate::structure::{EntriesV, Parameters};
use crate::text::{ends_important, ends_important_exec, strip_important, strip_important_exec,
    trimmed};
use vstd::prelude::*;
use vstd::string::StringExecFns;

verus! {

/// The shorthand merge pass.
#[derive(Default, Debug, Clone)]
pub struct MergeShortHand;

/// One shorthand piece: the separator, then the constituent's value with its
/// `!important` stripped; nothing when the constituent is absent.
pub open spec fn piece(es: EntriesV, key: Seq<char>, sep: Seq<char>) -> Seq<char> {
    match entries_get(es, key) {
        Some(v) => sep + strip_important(v),
        None => Seq::empty(),
    }
}

/// The concatenated pieces of the family's constituents from `i` on.
pub open spec fn pieces_from(es: EntriesV, ks: Seq<(Seq<char>, Seq<char>)>, i: int) -> Seq<char>
    decreases ks.len() - i,
{
    if i < 0 || i >= ks.len() {
        Seq::empty()
    } else {
        piece(es, ks[i].0, ks[i].1) + pieces_from(es, ks, i + 1)
    }
}

/// Every present constituent from `i` on carries `!important`.
pub open spec fn all_imp_from(es: EntriesV, ks: Seq<(Seq<char>, Seq<char>)>, i: int) -> bool
    decreases ks.len() - i,
{
    if i < 0 || i >= ks.len() {
        true
    } else {
        (match entries_get(es, ks[i].0) {
            Some(v) => ends_important(v),
            None => true,
        }) && all_imp_from(es, ks, i + 1)
    }
}

/// No present constituent from `i` on carries `!important`.
pub open spec fn none_imp_from(es: EntriesV, ks: Seq<(Seq<char>, Seq<char>)>, i: int) -> bool
    decreases ks.len() - i,
{
    if i < 0 || i >= ks.len() {
        true
    } else {
        (match entries_get(es, ks[i].0) {
            Some(v) => !ends_important(v),
            None => true,
        }) && none_imp_from(es, ks, i + 1)
    }
}

/// Some constituent from `i` on is present.
pub open spec fn any_present_from(es: EntriesV, ks: Seq<(Seq<char>, Seq<char>)>, i: int) -> bool
    decreases ks.len() - i,
{
    if i < 0 || i >= ks.len() {
        false
    } else {
        has_key(es, ks[i].0) || any_present_from(es, ks, i + 1)
    }
}

/// The entries with the keys from `i` on swap-removed in order.
pub open spec fn remove_keys_from(es: EntriesV, rs: Seq<Seq<char>>, i: int) -> EntriesV
    decreases rs.len() - i,
{
    if i < 0 || i >= rs.len() {
        es
    } else {
        remove_keys_from(entries_swap_remove(es, rs[i]), rs, i + 1)
    }
}

/// One family's merge: when the shorthand key is absent, the family applies,
/// and the present constituents' `!important` flags are uniform, the shorthand
/// (the trimmed concatenation of the pieces, with one `!important` appended
/// when all carried it) is appended and the constituents are removed.
pub open spec fn merge_family(
    es: EntriesV,
    sh: Seq<char>,
    ks: Seq<(Seq<char>, Seq<char>)>,
    rs: Seq<Seq<char>>,
    applies: bool,
) -> EntriesV {
    if !has_key(es, sh) && applies && (all_imp_from(es, ks, 0) || none_imp_from(es, ks, 0)) {
        let text = crate::text::trim_seq(
            pieces_from(es, ks, 0) + if all_imp_from(es, ks, 0) {
                "!important"@
            } else {
                Seq::empty()
            },
        );
        remove_keys_from(entries_insert(es, sh, text), rs, 0)
    } else {
        es
    }
}

pub open spec fn key_views(ks: Seq<(&str, &str)>) -> Seq<(Seq<char>, Seq<char>)> {
    ks.map_values(|p: (&str, &str)| (p.0@, p.1@))
}

pub open spec fn name_views(rs: Seq<&str>) -> Seq<Seq<char>> {
    rs.map_values(|p: &str| p@)
}

fn pieces_exec(p: &Parameters, ks: &Vec<(&str, &str)>, i: usize, out: &mut String)
    ensures
        final(out)@ == old(out)@ + pieces_from(p@, key_views(ks@), i as int),
    decreases ks@.len() - i,
{
    if i < ks.len() {
        let (key, sep) = ks[i];
        match p.get(key) {
            Some(v) => {
                out.append(sep);
                let cleaned = strip_important_exec(v.as_str());
                out.append(cleaned.as_str());
            },
            None => {},
        }
        pieces_exec(p, ks, i + 1, out);
        proof {
            reveal_strlit("");
            assert(key_views(ks@)[i as int] == (ks@[i as int].0@, ks@[i as int].1@));
            assert(out@ =~= old(out)@ + pieces_from(p@, key_views(ks@), i as int));
        }
    } else {
        proof {
            assert(out@ =~= old(out)@ + pieces_from(p@, key_views(ks@), i as int));
        }
    }
}

fn all_imp_exec(p: &Parameters, ks: &Vec<(&str, &str)>, i: usize) -> (r: bool)
    ensures
        r == all_imp_from(p@, key_views(ks@), i as int),
    decreases ks@.len() - i,
{
    if i < ks.len() {
        proof {
            reveal_strlit("");
            assert(key_views(ks@)[i as int] == (ks@[i as int].0@, ks@[i as int].1@));
        }
        let ok = match p.get(ks[i].0) {
            Some(v) => ends_important_exec(v.as_str()),
            None => true,
        };
        ok && all_imp_exec(p, ks, i + 1)
    } else {
        true
    }
}

fn none_imp_exec(p: &Parameters, ks: &Vec<(&str, &str)>, i: usize) -> (r: bool)
    ensures
        r == none_imp_from(p@, key_views(ks@), i as int),
    decreases ks@.len() - i,
{
    if i < ks.len() {
        proof {
            reveal_strlit("");
            assert(key_views(ks@)[i as int] == (ks@[i as int].0@, ks@[i as int].1@));
        }
        let ok = match p.get(ks[i].0) {
            Some(v) => !ends_important_exec(v.as_str()),
            None => true,
        };
        ok && none_imp_exec(p, ks, i + 1)
    } else {
        true
    }
}

fn remove_keys_exec(p: Parameters, rs: &Vec<&str>, i: usize) -> (r: Parameters)
    ensures
        r@ == remove_keys_from(p@, name_views(rs@), i as int),
    decreases rs@.len() - i,
{
    let mut p = p;
    if i < rs.len() {
        proof {
            assert(name_views(rs@)[i as int] == rs@[i as int]@);
        }
        p.swap_remove(rs[i]);
        remove_keys_exec(p, rs, i + 1)
    } else {
        p
    }
}

fn merge_family_exec(p: Parameters, sh: &str, ks: &Vec<(&str, &str)>, rs: &Vec<&str>, applies: bool)
    -> (r: Parameters)
    ensures
        r@ == merge_family(p@, sh@, key_views(ks@), name_views(rs@), applies),
{
    let mut p = p;
    if p.contains_key(sh) {
        return p;
    }
    if !applies {
        return p;
    }
    let all = all_imp_exec(&p, ks, 0);
    let none = none_imp_exec(&p, ks, 0);
    if !(all || none) {
        return p;
    }
    let mut text = String::new();
    pieces_exec(&p, ks, 0, &mut text);
    if all {
        text.append("!important");
    }
    let trimmed_text = trimmed(text.as_str());
    p.insert(sh.to_owned(), trimmed_text);
    remove_keys_exec(p, rs, 0)
}

/// Declarations after the `font` merge: applies only with `font-size` and
/// `font-family` both present; `line-height` is joined with `/`.
pub open spec fn font_keys() -> Seq<(Seq<char>, Seq<char>)> {
    seq![
        ("font-style"@, Seq::<char>::empty()),
        ("font-variant"@, " "@),
        ("font-weight"@, " "@),
        ("font-size"@, " "@),
        ("line-height"@, "/"@),
        ("font-family"@, " "@),
    ]
}

pub open spec fn merge_font(es: EntriesV) -> EntriesV {
    merge_family(
        es,
        "font"@,
        font_keys(),
        font_keys().map_values(|p: (Seq<char>, Seq<char>)| p.0),
        has_key(es, "font-size"@) && has_key(es, "font-family"@),
    )
}

pub open spec fn list_keys() -> Seq<(Seq<char>, Seq<char>)> {
    seq![
        ("list-style-type"@, Seq::<char>::empty()),
        ("list-style-position"@, " "@),
        ("list-style-image"@, " "@),
    ]
}

pub open spec fn merge_list(es: EntriesV) -> EntriesV {
    merge_family(
        es,
        "list-style"@,
        list_keys(),
        list_keys().map_values(|p: (Seq<char>, Seq<char>)| p.0),
        any_present_from(es, list_keys(), 0),
    )
}

pub open spec fn background_keys() -> Seq<(Seq<char>, Seq<char>)> {
    seq![
        ("background-color"@, " "@),
        ("background-image"@, " "@),
        ("background-repeat"@, " "@),
        ("background-attachment"@, " "@),
        ("background-position"@, " "@),
    ]
}

/// The background constituents are removed in a fixed order of their own.
pub open spec fn background_removals() -> Seq<Seq<char>> {
    seq![
        "background-attachment"@,
        "background-color"@,
        "background-position"@,
        "background-repeat"@,
        "background-image"@,
    ]
}

pub open spec fn merge_background(es: EntriesV) -> EntriesV {
    merge_family(
        es,
        "background"@,
        background_keys(),
        background_removals(),
        any_present_from(es, background_keys(), 0),
    )
}

pub open spec fn border_keys() -> Seq<(Seq<char>, Seq<char>)> {
    seq![
        ("border-width"@, Seq::<char>::empty()),
        ("border-style"@, " "@),
        ("border-color"@, " "@),
    ]
}

pub open spec fn merge_border(es: EntriesV) -> EntriesV {
    merge_family(
        es,
        "border"@,
        border_keys(),
        border_keys().map_values(|p: (Seq<char>, Seq<char>)| p.0),
        any_present_from(es, border_keys(), 0),
    )
}

pub open spec fn outline_keys() -> Seq<(Seq<char>, Seq<char>)> {
    seq![
        ("outline-width"@, Seq::<char>::empty()),
        ("outline-style"@, " "@),
        ("outline-color"@, " "@),
    ]
}

pub open spec fn merge_outline(es: EntriesV) -> EntriesV {
    merge_family(
        es,
        "outline"@,
        outline_keys(),
        outline_keys().map_values(|p: (Seq<char>, Seq<char>)| p.0),
        any_present_from(es, outline_keys(), 0),
    )
}

pub open spec fn transition_keys() -> Seq<(Seq<char>, Seq<char>)> {
    seq![
        ("transition-property"@, Seq::<char>::empty()),
        ("transition-duration"@, " "@),
        ("transition-delay"@, " "@),
        ("transition-timing-function"@, " "@),
    ]
}

pub open spec fn merge_transition(es: EntriesV) -> EntriesV {
    merge_family(
        es,
        "transition"@,
        transition_keys(),
        transition_keys().map_values(|p: (Seq<char>, Seq<char>)| p.0),
        any_present_from(es, transition_keys(), 0),
    )
}

/// Declarations after every shorthand family is merged, in order: font,
/// list-style, background, border, outline, transition.
pub open spec fn spec_merge_shorthand(es: EntriesV) -> EntriesV {
    merge_transition(merge_outline(merge_border(merge_background(merge_list(merge_font(es))))))
}

fn any_present_exec(p: &Parameters, ks: &Vec<(&str, &str)>, i: usize) -> (r: bool)
    ensures
        r == any_present_from(p@, key_views(ks@), i as int),
    decreases ks@.len() - i,
{
    if i < ks.len() {
        proof {
            reveal_strlit("");
            assert(key_views(ks@)[i as int] == (ks@[i as int].0@, ks@[i as int].1@));
        }
        p.contains_key(ks[i].0) || any_present_exec(p, ks, i + 1)
    } else {
        false
    }
}

impl MergeShortHand {
    /// Merge every shorthand family of one declaration map.
    pub fn transform_parameters(&self, p: Parameters) -> (r: Parameters)
        ensures
            r@ == spec_merge_shorthand(p@),
    {
        let font_ks: Vec<(&str, &str)> = vec![
            ("font-style", ""),
            ("font-variant", " "),
            ("font-weight", " "),
            ("font-size", " "),
            ("line-height", "/"),
            ("font-family", " "),
        ];
        let font_rs: Vec<&str> = vec![
            "font-style",
            "font-variant",
            "font-weight",
            "font-size",
            "line-height",
            "font-family",
        ];
        proof {
            reveal_strlit("");
            assert(key_views(font_ks@) =~~= font_keys());
            assert(name_views(font_rs@) =~~= font_keys().map_values(
                |q: (Seq<char>, Seq<char>)| q.0,
            ));
        }
        let use_font = p.contains_key("font-size") && p.contains_key("font-family");
        let p = merge_family_exec(p, "font", &font_ks, &font_rs, use_font);

        let list_ks: Vec<(&str, &str)> = vec![
            ("list-style-type", ""),
            ("list-style-position", " "),
            ("list-style-image", " "),
        ];
        let list_rs: Vec<&str> = vec![
            "list-style-type",
            "list-style-position",
            "list-style-image",
        ];
        proof {
            reveal_strlit("");
            assert(key_views(list_ks@) =~~= list_keys());
            assert(name_views(list_rs@) =~~= list_keys().map_values(
                |q: (Seq<char>, Seq<char>)| q.0,
            ));
        }
        let use_list = any_present_exec(&p, &list_ks, 0);
        let p = merge_family_exec(p, "list-style", &list_ks, &list_rs, use_list);

        let bg_ks: Vec<(&str, &str)> = vec![
            ("background-color", " "),
            ("background-image", " "),
            ("background-repeat", " "),
            ("background-attachment", " "),
            ("background-position", " "),
        ];
        let bg_rs: Vec<&str> = vec![
            "background-attachment",
            "background-color",
            "background-position",
            "background-repeat",
            "background-image",
        ];
        proof {
            reveal_strlit("");
            assert(key_views(bg_ks@) =~~= background_keys());
            assert(name_views(bg_rs@) =~~= background_removals());
        }
        let use_bg = any_present_exec(&p, &bg_ks, 0);
        let p = merge_family_exec(p, "background", &bg_ks, &bg_rs, use_bg);

        let border_ks: Vec<(&str, &str)> = vec![
            ("border-width", ""),
            ("border-style", " "),
            ("border-color", " "),
        ];
        let border_rs: Vec<&str> = vec!["border-width", "border-style", "border-color"];
        proof {
            reveal_strlit("");
            assert(key_views(border_ks@) =~~= border_keys());
            assert(name_views(border_rs@) =~~= border_keys().map_values(
                |q: (Seq<char>, Seq<char>)| q.0,
            ));
        }
        let use_border = any_present_exec(&p, &border_ks, 0);
        let p = merge_family_exec(p, "border", &border_ks, &border_rs, use_border);

        let outline_ks: Vec<(&str, &str)> = vec![
            ("outline-width", ""),
            ("outline-style", " "),
            ("outline-color", " "),
        ];
        let outline_rs: Vec<&str> = vec!["outline-width", "outline-style", "outline-color"];
        proof {
            reveal_strlit("");
            assert(key_views(outline_ks@) =~~= outline_keys());
            assert(name_views(outline_rs@) =~~= outline_keys().map_values(
                |q: (Seq<char>, Seq<char>)| q.0,
            ));
        }
        let use_outline = any_present_exec(&p, &outline_ks, 0);
        let p = merge_family_exec(p, "outline", &outline_ks, &outline_rs, use_outline);

        let tr_ks: Vec<(&str, &str)> = vec![
            ("transition-property", ""),
            ("transition-duration", " "),
            ("transition-delay", " "),
            ("transition-timing-function", " "),
        ];
        let tr_rs: Vec<&str> = vec![
            "transition-property",
            "transition-duration",
            "transition-delay",
            "transition-timing-function",
        ];
        proof {
            reveal_strlit("");
            assert(key_views(tr_ks@) =~~= transition_keys());
            assert(name_views(tr_rs@) =~~= transition_keys().map_values(
                |q: (Seq<char>, Seq<char>)| q.0,
            ));
        }
        let use_tr = any_present_exec(&p, &tr_ks, 0);
        merge_family_exec(p, "transition", &tr_ks, &tr_rs, use_tr)
    }
}

/// Removing a run of keys touches no key outside the run: the value under
/// any other key is unchanged, and key uniqueness is kept.
pub proof fn lemma_remove_keys_get(es: EntriesV, rs: Seq<Seq<char>>, i: int, k: Seq<char>)
    requires
        unique_keys(es),
        forall|j: int| 0 <= j < rs.len() ==> rs[j] != k,
    ensures
        unique_keys(remove_keys_from(es, rs, i)),
        entries_get(remove_keys_from(es, rs, i), k) == entries_get(es, k),
    decreases rs.len() - i,
{
    if 0 <= i < rs.len() {
        lemma_swap_remove_keeps_unique(es, rs[i]);
        lemma_swap_remove_get(es, rs[i], k);
        lemma_remove_keys_get(entries_swap_remove(es, rs[i]), rs, i + 1, k);
    }
}

proof fn font_keys_distinct()
    ensures
        "font"@ != "font-style"@ && "font"@ != "font-variant"@ && "font"@ != "font-weight"@
            && "font"@ != "font-size"@ && "font"@ != "line-height"@ && "font"@ != "font-family"@,
{
    reveal_strlit("font");
    reveal_strlit("font-style");
    reveal_strlit("font-variant");
    reveal_strlit("font-weight");
    reveal_strlit("font-size");
    reveal_strlit("line-height");
    reveal_strlit("font-family");
    assert("font"@.len() == 4);
    assert("font-style"@.len() == 10);
    assert("font-variant"@.len() == 12);
    assert("font-weight"@.len() == 11);
    assert("font-size"@.len() == 9);
    assert("line-height"@.len() == 11);
    assert("font-family"@.len() == 11);
}

/// The `font` merge done once is done: a second pass finds the `font` key
/// present and changes nothing.
pub proof fn lemma_merge_font_idempotent(es: EntriesV)
    requires
        unique_keys(es),
    ensures
        merge_font(merge_font(es)) == merge_font(es),
{
    font_keys_distinct();
    let ks = font_keys();
    let rs = font_keys().map_values(|q: (Seq<char>, Seq<char>)| q.0);
    if !has_key(es, "font"@) && has_key(es, "font-size"@) && has_key(es, "font-family"@)
        && (all_imp_from(es, ks, 0) || none_imp_from(es, ks, 0)) {
        let text = crate::text::trim_seq(
            pieces_from(es, ks, 0) + if all_imp_from(es, ks, 0) {
                "!important"@
            } else {
                Seq::empty()
            },
        );
        let e1 = entries_insert(es, "font"@, text);
        lemma_insert_keeps_unique(es, "font"@, text);
        lemma_insert_get(es, "font"@, text, "font"@);
        assert(forall|j: int| 0 <= j < rs.len() ==> rs[j] == ks[j].0);
        assert(forall|j: int| 0 <= j < rs.len() ==> rs[j] != "font"@);
        lemma_remove_keys_get(e1, rs, 0, "font"@);
        let r = remove_keys_from(e1, rs, 0);
        assert(entries_get(r, "font"@) == Some(text));
        assert(has_key(r, "font"@));
        assert(merge_font(r) == r);
    }
}

/// Mixed `!important` flags leave a family unmerged: when some present
/// constituent carries the flag and another does not, the declarations come
/// back unchanged.
pub proof fn lemma_shorthand_mixed_unmerged(
    es: EntriesV,
    sh: Seq<char>,
    ks: Seq<(Seq<char>, Seq<char>)>,
    rs: Seq<Seq<char>>,
    applies: bool,
)
    requires
        !all_imp_from(es, ks, 0),
        !none_imp_from(es, ks, 0),
    ensures
        merge_family(es, sh, ks, rs, applies) == es,
{
}

} // verus!
