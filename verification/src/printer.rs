//! The printer: a total, deterministic serializer from the document tree to
//! minified CSS text.  Each executable builder appends to an output string
//! exactly the characters that the matching `render_*` spec function gives.
//!
//! The selector list of a block is the one place where output may reorder
//! input: its compound selectors are printed in lexicographic order, which
//! canonicalizes the group keys used when duplicate blocks are merged.

use crate::structure::{
    AtV, Block, BlockV, Blocks, CssEntities, CssEntity, CssEntityV, EntriesV, KeyframeBlockV,
    Parameters, PseudoClass, PseudoClassV, Selector, SelectorV, SelectorWithPseudoClasses,
    SelectorWithPseudoClassesV, Selectors, keyframe_block_views, pseudo_views, selector_views,
};
use crate::text::{lex_le, push_char, str_le};
use vstd::prelude::*;
use vstd::string::StringExecFns;

verus! {

// ----------------------------------------------------------------------
// Rendering, specified
// ----------------------------------------------------------------------

pub open spec fn render_param(p: (Seq<char>, Seq<char>)) -> Seq<char> {
    p.0 + seq![':'] + p.1
}

/// Declarations from position `i` on, joined by `;` with no trailing `;`.
pub open spec fn render_params_from(es: EntriesV, i: int) -> Seq<char>
    decreases es.len() - i,
{
    if i < 0 || i >= es.len() {
        Seq::empty()
    } else if i == es.len() - 1 {
        render_param(es[i])
    } else {
        render_param(es[i]) + seq![';'] + render_params_from(es, i + 1)
    }
}

pub open spec fn render_params(es: EntriesV) -> Seq<char> {
    render_params_from(es, 0)
}

pub open spec fn render_base(b: SelectorV) -> Seq<char> {
    match b {
        SelectorV::Id(name) => seq!['#'] + name,
        SelectorV::Class(name) => seq!['.'] + name,
        SelectorV::Tag(name) => name,
    }
}

pub open spec fn render_pseudo(p: PseudoClassV) -> Seq<char> {
    seq![':'] + p.name + (match p.params {
        Some(ps) => seq!['('] + ps + seq![')'],
        None => Seq::empty(),
    }) + (match p.next {
        Some(n) => seq![' '] + n,
        None => Seq::empty(),
    })
}

pub open spec fn render_pseudos_from(ps: Seq<PseudoClassV>, i: int) -> Seq<char>
    decreases ps.len() - i,
{
    if i < 0 || i >= ps.len() {
        Seq::empty()
    } else {
        render_pseudo(ps[i]) + render_pseudos_from(ps, i + 1)
    }
}

/// The text of one compound selector.
pub open spec fn render_compound(s: SelectorWithPseudoClassesV) -> Seq<char> {
    (match s.base {
        Some(b) => render_base(b),
        None => Seq::empty(),
    }) + render_pseudos_from(s.pseudo, 0)
}

pub open spec fn compound_texts_from(ss: Seq<SelectorWithPseudoClassesV>, i: int) -> Seq<
    Seq<char>,
>
    decreases ss.len() - i,
{
    if i < 0 || i >= ss.len() {
        Seq::empty()
    } else {
        seq![render_compound(ss[i])] + compound_texts_from(ss, i + 1)
    }
}

/// Insert a text into a sorted list of texts, before the first entry it is
/// not above.
pub open spec fn insert_sorted(x: Seq<char>, xs: Seq<Seq<char>>) -> Seq<Seq<char>>
    decreases xs.len(),
{
    if xs.len() == 0 {
        seq![x]
    } else if lex_le(x, xs.first()) {
        seq![x] + xs
    } else {
        seq![xs.first()] + insert_sorted(x, xs.drop_first())
    }
}

/// Stable insertion sort in lexicographic order.
pub open spec fn sort_texts(xs: Seq<Seq<char>>) -> Seq<Seq<char>>
    decreases xs.len(),
{
    if xs.len() == 0 {
        Seq::empty()
    } else {
        insert_sorted(xs.first(), sort_texts(xs.drop_first()))
    }
}

/// Every earlier text is at or below every later one.
pub open spec fn texts_sorted(xs: Seq<Seq<char>>) -> bool {
    forall|i: int, j: int| 0 <= i < j < xs.len() ==> lex_le(xs[i], xs[j])
}

proof fn lemma_insert_sorted_props(x: Seq<char>, xs: Seq<Seq<char>>)
    requires
        texts_sorted(xs),
    ensures
        texts_sorted(insert_sorted(x, xs)),
        insert_sorted(x, xs).to_multiset() == xs.to_multiset().insert(x),
        insert_sorted(x, xs).len() == xs.len() + 1,
    decreases xs.len(),
{
    broadcast use vstd::seq_lib::group_to_multiset_ensures;
    broadcast use vstd::multiset::group_multiset_axioms;

    if xs.len() == 0 {
        assert(seq![x] =~= xs.push(x));
    } else if lex_le(x, xs.first()) {
        let r = seq![x] + xs;
        assert forall|i: int, j: int| 0 <= i < j < r.len() implies lex_le(r[i], r[j]) by {
            if i == 0 {
                if j > 1 {
                    crate::text::lemma_lex_le_trans(x, xs[0], xs[j - 1]);
                }
            }
        }
        assert(r.remove(0) =~= xs);
        assert(r.to_multiset().remove(x) == xs.to_multiset());
        assert(r.contains(x));
        assert(r.to_multiset().count(x) > 0);
        assert(r.to_multiset() =~= xs.to_multiset().insert(x));
    } else {
        crate::text::lemma_lex_le_total(x, xs.first());
        let tail = xs.drop_first();
        assert forall|i: int, j: int| 0 <= i < j < tail.len() implies lex_le(tail[i], tail[j]) by {
            assert(xs[i + 1] == tail[i] && xs[j + 1] == tail[j]);
        }
        lemma_insert_sorted_props(x, tail);
        let ins = insert_sorted(x, tail);
        let r = seq![xs.first()] + ins;
        assert(r.remove(0) =~= ins);
        assert(r.to_multiset().remove(xs.first()) == ins.to_multiset());
        assert(r.contains(xs.first()));
        assert(r.to_multiset() =~= ins.to_multiset().insert(xs.first()));
        assert(xs.remove(0) =~= tail);
        assert(xs.to_multiset().remove(xs.first()) == tail.to_multiset());
        assert(xs.contains(xs.first()));
        assert(xs.to_multiset() =~= tail.to_multiset().insert(xs.first()));
        assert(r.to_multiset() =~= xs.to_multiset().insert(x));
        assert forall|i: int, j: int| 0 <= i < j < r.len() implies lex_le(r[i], r[j]) by {
            if i == 0 {
                let e = ins[j - 1];
                assert(ins.contains(e));
                assert(ins.to_multiset().count(e) > 0);
                if e == x {
                    assert(lex_le(xs.first(), e));
                } else {
                    assert(tail.to_multiset().count(e) > 0);
                    assert(tail.contains(e));
                    let k = choose|k: int| 0 <= k < tail.len() && tail[k] == e;
                    assert(xs[k + 1] == e);
                    assert(lex_le(xs[0], xs[k + 1]));
                }
            } else {
                assert(lex_le(ins[i - 1], ins[j - 1]));
            }
        }
    }
}

/// The selector sort gives a sorted permutation: the printed selector list
/// holds exactly the compound texts, in lexicographic order.  This sort
/// canonicalizes the group keys of the duplicate-block merge.
pub proof fn lemma_sort_texts_sorted(xs: Seq<Seq<char>>)
    ensures
        texts_sorted(sort_texts(xs)),
        sort_texts(xs).to_multiset() == xs.to_multiset(),
        sort_texts(xs).len() == xs.len(),
    decreases xs.len(),
{
    broadcast use vstd::seq_lib::group_to_multiset_ensures;
    broadcast use vstd::multiset::group_multiset_axioms;

    if xs.len() > 0 {
        let tail = xs.drop_first();
        lemma_sort_texts_sorted(tail);
        lemma_insert_sorted_props(xs.first(), sort_texts(tail));
        assert(xs.remove(0) =~= tail);
        assert(xs.to_multiset().remove(xs.first()) == tail.to_multiset());
        assert(xs.contains(xs.first()));
        assert(xs.to_multiset() =~= tail.to_multiset().insert(xs.first()));
    }
}

pub open spec fn join_comma_from(xs: Seq<Seq<char>>, i: int) -> Seq<char>
    decreases xs.len() - i,
{
    if i < 0 || i >= xs.len() {
        Seq::empty()
    } else if i == xs.len() - 1 {
        xs[i]
    } else {
        xs[i] + seq![','] + join_comma_from(xs, i + 1)
    }
}

/// The canonical text of a selector list: compound texts, sorted
/// lexicographically, joined by `,`.
pub open spec fn render_selectors(ss: Seq<SelectorWithPseudoClassesV>) -> Seq<char> {
    join_comma_from(sort_texts(compound_texts_from(ss, 0)), 0)
}

pub open spec fn render_block(b: BlockV) -> Seq<char> {
    render_selectors(b.selectors) + seq!['{'] + render_params(b.parameters) + seq!['}']
}

pub open spec fn render_keyframe_block(b: KeyframeBlockV) -> Seq<char> {
    b.name + seq!['{'] + render_params(b.parameters) + seq!['}']
}

pub open spec fn render_keyframe_blocks_from(bs: Seq<KeyframeBlockV>, i: int) -> Seq<char>
    decreases bs.len() - i,
{
    if i < 0 || i >= bs.len() {
        Seq::empty()
    } else {
        render_keyframe_block(bs[i]) + render_keyframe_blocks_from(bs, i + 1)
    }
}

pub open spec fn render_at(a: AtV) -> Seq<char> {
    match a {
        AtV::Namespace { prefix, url } => "@namespace "@ + (match prefix {
            Some(p) => p + seq![' '],
            None => Seq::empty(),
        }) + url + seq![';'],
        AtV::Import { url, media_queries } => "@import "@ + url + (match media_queries {
            Some(m) => seq![' '] + m,
            None => Seq::empty(),
        }) + seq![';'],
        AtV::Charset { charset } => "@charset "@ + charset + seq![';'],
    }
}

pub open spec fn render_entity(e: CssEntityV) -> Seq<char>
    decreases e, 0nat,
{
    match e {
        CssEntityV::Block(b) => render_block(b),
        CssEntityV::Media(m) => "@media "@ + m.screen + seq!['{'] + render_doc_from(m.entities, 0)
            + seq!['}'],
        CssEntityV::Page(p) => "@page"@ + (match p.selectors {
            Some(s) => seq![' '] + s,
            None => Seq::empty(),
        }) + " {"@ + render_params(p.parameters) + seq!['}'],
        CssEntityV::Supports(s) => "@supports "@ + s.conditions + seq!['{'] + render_doc_from(
            s.entities,
            0,
        ) + seq!['}'],
        CssEntityV::FontFace(ps) => "@font-face {"@ + render_params(ps) + seq!['}'],
        CssEntityV::Viewport(ps) => "@viewport {"@ + render_params(ps) + seq!['}'],
        CssEntityV::MsViewport(ps) => "@-ms-viewport {"@ + render_params(ps) + seq!['}'],
        CssEntityV::Keyframes(k) => (if k.webkit_prefix {
            "@-webkit-keyframes "@
        } else {
            "@keyframes "@
        }) + k.name + seq!['{'] + render_keyframe_blocks_from(k.blocks, 0) + seq!['}'],
        CssEntityV::At(a) => render_at(a),
    }
}

/// A document's text: its entities' texts, in order, with nothing between.
pub open spec fn render_doc_from(es: Seq<CssEntityV>, i: int) -> Seq<char>
    decreases es, (es.len() - i) as nat, 1nat,
{
    if i < 0 || i >= es.len() {
        Seq::empty()
    } else {
        render_entity(es[i]) + render_doc_from(es, i + 1)
    }
}

pub open spec fn render_doc(es: Seq<CssEntityV>) -> Seq<char> {
    render_doc_from(es, 0)
}

// ----------------------------------------------------------------------
// Rendering, executed
// ----------------------------------------------------------------------

fn append_params_from(out: &mut String, p: &Parameters, i: usize)
    ensures
        final(out)@ == old(out)@ + render_params_from(p@, i as int),
    decreases p@.len() - i,
{
    match p.get_index(i) {
        None => {
            proof {
                assert(out@ =~= old(out)@ + render_params_from(p@, i as int));
            }
        },
        Some(kv) => {
            let n = p.len();
            out.append(kv.0.as_str());
            push_char(out, ':');
            out.append(kv.1.as_str());
            if i + 1 < n {
                push_char(out, ';');
                append_params_from(out, p, i + 1);
                proof {
                    assert(out@ =~= old(out)@ + render_params_from(p@, i as int));
                }
            } else {
                proof {
                    assert(out@ =~= old(out)@ + render_params_from(p@, i as int));
                }
            }
        },
    }
}

fn append_base(out: &mut String, s: &Selector)
    ensures
        final(out)@ == old(out)@ + render_base(s@),
{
    match s {
        Selector::Id(name) => {
            push_char(out, '#');
            out.append(name.as_str());
            proof {
                assert(out@ =~= old(out)@ + render_base(s@));
            }
        },
        Selector::Class(name) => {
            push_char(out, '.');
            out.append(name.as_str());
            proof {
                assert(out@ =~= old(out)@ + render_base(s@));
            }
        },
        Selector::Tag(name) => {
            out.append(name.as_str());
            proof {
                assert(out@ =~= old(out)@ + render_base(s@));
            }
        },
    }
}

fn append_pseudo(out: &mut String, p: &PseudoClass)
    ensures
        final(out)@ == old(out)@ + render_pseudo(p@),
{
    push_char(out, ':');
    out.append(p.name.as_str());
    match &p.params {
        Some(ps) => {
            push_char(out, '(');
            out.append(ps.as_str());
            push_char(out, ')');
        },
        None => {},
    }
    match &p.next {
        Some(n) => {
            push_char(out, ' ');
            out.append(n.as_str());
        },
        None => {},
    }
    proof {
        assert(out@ =~= old(out)@ + render_pseudo(p@));
    }
}

fn append_pseudos_from(out: &mut String, ps: &Vec<PseudoClass>, i: usize)
    ensures
        final(out)@ == old(out)@ + render_pseudos_from(pseudo_views(ps@), i as int),
    decreases ps@.len() - i,
{
    if i < ps.len() {
        append_pseudo(out, &ps[i]);
        append_pseudos_from(out, ps, i + 1);
        proof {
            assert(pseudo_views(ps@)[i as int] == ps@[i as int]@);
            assert(out@ =~= old(out)@ + render_pseudos_from(pseudo_views(ps@), i as int));
        }
    } else {
        proof {
            assert(out@ =~= old(out)@ + render_pseudos_from(pseudo_views(ps@), i as int));
        }
    }
}

/// The text of one compound selector.
fn compound_text(s: &SelectorWithPseudoClasses) -> (r: String)
    ensures
        r@ == render_compound(s@),
{
    let mut out = String::new();
    match &s.0 {
        Some(b) => append_base(&mut out, b),
        None => {},
    }
    append_pseudos_from(&mut out, &s.1, 0);
    proof {
        assert(out@ =~= render_compound(s@));
    }
    out
}

pub open spec fn text_views(v: Seq<String>) -> Seq<Seq<char>> {
    v.map_values(|s: String| s@)
}

fn compound_texts_exec(ss: &Vec<SelectorWithPseudoClasses>, i: usize) -> (r: Vec<String>)
    ensures
        text_views(r@) == compound_texts_from(selector_views(ss@), i as int),
    decreases ss@.len() - i,
{
    if i < ss.len() {
        let first = compound_text(&ss[i]);
        let mut rest = compound_texts_exec(ss, i + 1);
        rest.insert(0, first);
        proof {
            assert(selector_views(ss@)[i as int] == ss@[i as int]@);
            assert(text_views(rest@) =~= compound_texts_from(selector_views(ss@), i as int));
        }
        rest
    } else {
        let r: Vec<String> = Vec::new();
        proof {
            assert(text_views(r@) =~= compound_texts_from(selector_views(ss@), i as int));
        }
        r
    }
}

fn insert_sorted_exec(x: String, v: Vec<String>) -> (r: Vec<String>)
    ensures
        text_views(r@) == insert_sorted(x@, text_views(v@)),
    decreases v@.len(),
{
    let ghost v0 = v@;
    if v.len() == 0 {
        let mut r = v;
        r.push(x);
        proof {
            assert(text_views(r@) =~= insert_sorted(x@, text_views(v0)));
        }
        r
    } else if str_le(x.as_str(), v[0].as_str()) {
        proof {
            assert(text_views(v@).first() == v@[0]@);
        }
        let mut r = v;
        r.insert(0, x);
        proof {
            assert(text_views(r@) =~= seq![x@] + text_views(v0));
        }
        r
    } else {
        let mut v = v;
        let first = v.remove(0);
        let rest = insert_sorted_exec(x, v);
        let mut r = rest;
        r.insert(0, first);
        proof {
            assert(text_views(v0).first() == v0[0]@);
            assert(text_views(v@) =~= text_views(v0).drop_first());
            assert(text_views(r@) =~= insert_sorted(x@, text_views(v0)));
        }
        r
    }
}

fn sort_strings(v: Vec<String>) -> (r: Vec<String>)
    ensures
        text_views(r@) == sort_texts(text_views(v@)),
    decreases v@.len(),
{
    let ghost v0 = v@;
    if v.len() == 0 {
        v
    } else {
        let mut v = v;
        let first = v.remove(0);
        proof {
            assert(text_views(v0).first() == v0[0]@);
            assert(text_views(v@) =~= text_views(v0).drop_first());
        }
        let sorted = sort_strings(v);
        insert_sorted_exec(first, sorted)
    }
}

fn append_join_comma(out: &mut String, xs: &Vec<String>, i: usize)
    ensures
        final(out)@ == old(out)@ + join_comma_from(text_views(xs@), i as int),
    decreases xs@.len() - i,
{
    if i < xs.len() {
        out.append(xs[i].as_str());
        if i + 1 < xs.len() {
            push_char(out, ',');
            append_join_comma(out, xs, i + 1);
        }
        proof {
            assert(out@ =~= old(out)@ + join_comma_from(text_views(xs@), i as int));
        }
    } else {
        proof {
            assert(out@ =~= old(out)@ + join_comma_from(text_views(xs@), i as int));
        }
    }
}

fn append_selectors(out: &mut String, ss: &Selectors)
    ensures
        final(out)@ == old(out)@ + render_selectors(ss@),
{
    let texts = compound_texts_exec(&ss.0, 0);
    let sorted = sort_strings(texts);
    append_join_comma(out, &sorted, 0);
}

fn append_block(out: &mut String, b: &Block)
    ensures
        final(out)@ == old(out)@ + render_block(b@),
{
    append_selectors(out, &b.selectors);
    push_char(out, '{');
    append_params_from(out, &b.parameters, 0);
    push_char(out, '}');
    proof {
        assert(out@ =~= old(out)@ + render_block(b@));
    }
}

fn append_entity(out: &mut String, e: &CssEntity)
    ensures
        final(out)@ == old(out)@ + render_entity(e@),
    decreases *e, 0nat,
{
    match e {
        CssEntity::Block(b) => {
            append_block(out, b);
        },
        CssEntity::Media(m) => {
            out.append("@media ");
            out.append(m.screen.as_str());
            push_char(out, '{');
            append_doc_from(out, &m.entities, 0);
            push_char(out, '}');
        },
        CssEntity::Page(p) => {
            out.append("@page");
            match &p.selectors {
                Some(s) => {
                    push_char(out, ' ');
                    out.append(s.as_str());
                },
                None => {},
            }
            out.append(" {");
            append_params_from(out, &p.parameters, 0);
            push_char(out, '}');
        },
        CssEntity::Supports(s) => {
            out.append("@supports ");
            out.append(s.conditions.as_str());
            push_char(out, '{');
            append_doc_from(out, &s.entities, 0);
            push_char(out, '}');
        },
        CssEntity::FontFace(f) => {
            out.append("@font-face {");
            append_params_from(out, &f.parameters, 0);
            push_char(out, '}');
        },
        CssEntity::Viewport(v) => {
            out.append("@viewport {");
            append_params_from(out, &v.parameters, 0);
            push_char(out, '}');
        },
        CssEntity::MsViewport(v) => {
            out.append("@-ms-viewport {");
            append_params_from(out, &v.parameters, 0);
            push_char(out, '}');
        },
        CssEntity::Keyframes(k) => {
            if k.webkit_prefix {
                out.append("@-webkit-keyframes ");
            } else {
                out.append("@keyframes ");
            }
            out.append(k.name.as_str());
            push_char(out, '{');
            append_keyframe_blocks_from(out, &k.blocks.0, 0);
            push_char(out, '}');
        },
        CssEntity::At(a) => {
            match a {
                crate::structure::At::Namespace(n) => {
                    out.append("@namespace ");
                    match &n.prefix {
                        Some(p) => {
                            out.append(p.as_str());
                            push_char(out, ' ');
                        },
                        None => {},
                    }
                    out.append(n.url.as_str());
                    push_char(out, ';');
                },
                crate::structure::At::Import(im) => {
                    out.append("@import ");
                    out.append(im.url.as_str());
                    match &im.media_queries {
                        Some(m) => {
                            push_char(out, ' ');
                            out.append(m.as_str());
                        },
                        None => {},
                    }
                    push_char(out, ';');
                },
                crate::structure::At::Charset(c) => {
                    out.append("@charset ");
                    out.append(c.charset.as_str());
                    push_char(out, ';');
                },
            }
        },
    }
    proof {
        assert(out@ =~= old(out)@ + render_entity(e@));
    }
}

fn append_keyframe_blocks_from(
    out: &mut String,
    bs: &Vec<crate::structure::KeyframeBlock>,
    i: usize,
)
    ensures
        final(out)@ == old(out)@ + render_keyframe_blocks_from(keyframe_block_views(bs@), i as int),
    decreases bs@.len() - i,
{
    if i < bs.len() {
        out.append(bs[i].name.as_str());
        push_char(out, '{');
        append_params_from(out, &bs[i].parameters, 0);
        push_char(out, '}');
        append_keyframe_blocks_from(out, bs, i + 1);
        proof {
            assert(keyframe_block_views(bs@)[i as int] == bs@[i as int]@);
            assert(out@ =~= old(out)@ + render_keyframe_blocks_from(
                keyframe_block_views(bs@),
                i as int,
            ));
        }
    } else {
        proof {
            assert(out@ =~= old(out)@ + render_keyframe_blocks_from(
                keyframe_block_views(bs@),
                i as int,
            ));
        }
    }
}

fn append_doc_from(out: &mut String, es: &CssEntities, i: usize)
    ensures
        final(out)@ == old(out)@ + render_doc_from(es@, i as int),
    decreases es.0@, (es.0@.len() - i) as nat, 1nat,
{
    proof {
        crate::structure::lemma_entity_views(es.0@);
    }
    if i < es.0.len() {
        append_entity(out, &es.0[i]);
        append_doc_from(out, es, i + 1);
        proof {
            assert(es@.len() == es.0@.len());
            assert(es@[i as int] == es.0@[i as int]@);
            assert(out@ =~= old(out)@ + render_doc_from(es@, i as int));
        }
    } else {
        proof {
            assert(es@.len() == es.0@.len());
            assert(out@ =~= old(out)@ + render_doc_from(es@, i as int));
        }
    }
}

impl Parameters {
    /// The declarations' text: `name:value` pairs joined by `;`.
    pub fn to_css(&self) -> (r: String)
        ensures
            r@ == render_params(self@),
    {
        let mut out = String::new();
        append_params_from(&mut out, self, 0);
        out
    }
}

impl Selectors {
    /// The canonical selector-list text: compound texts sorted and joined by
    /// `,`.
    pub fn to_css(&self) -> (r: String)
        ensures
            r@ == render_selectors(self@),
    {
        let mut out = String::new();
        append_selectors(&mut out, self);
        out
    }
}

impl Block {
    /// The block's text: `selectors{declarations}`.
    pub fn to_css(&self) -> (r: String)
        ensures
            r@ == render_block(self@),
    {
        let mut out = String::new();
        append_block(&mut out, self);
        out
    }
}

impl CssEntity {
    pub fn to_css(&self) -> (r: String)
        ensures
            r@ == render_entity(self@),
    {
        let mut out = String::new();
        append_entity(&mut out, self);
        out
    }
}

impl CssEntities {
    /// The document's text: its entities' texts in order.
    pub fn to_css(&self) -> (r: String)
        ensures
            r@ == render_doc(self@),
    {
        let mut out = String::new();
        append_doc_from(&mut out, self, 0);
        out
    }
}

impl Blocks {
    /// The blocks' texts in order.
    pub fn to_css(&self) -> (r: String)
        ensures
            r@ == render_blocks_from(crate::structure::block_views(self.0@), 0),
    {
        let mut out = String::new();
        append_blocks_from(&mut out, &self.0, 0);
        out
    }
}

pub open spec fn render_blocks_from(bs: Seq<BlockV>, i: int) -> Seq<char>
    decreases bs.len() - i,
{
    if i < 0 || i >= bs.len() {
        Seq::empty()
    } else {
        render_block(bs[i]) + render_blocks_from(bs, i + 1)
    }
}

fn append_blocks_from(out: &mut String, bs: &Vec<Block>, i: usize)
    ensures
        final(out)@ == old(out)@ + render_blocks_from(crate::structure::block_views(bs@), i as int),
    decreases bs@.len() - i,
{
    if i < bs.len() {
        append_block(out, &bs[i]);
        append_blocks_from(out, bs, i + 1);
        proof {
            assert(crate::structure::block_views(bs@)[i as int] == bs@[i as int]@);
            assert(out@ =~= old(out)@ + render_blocks_from(
                crate::structure::block_views(bs@),
                i as int,
            ));
        }
    } else {
        proof {
            assert(out@ =~= old(out)@ + render_blocks_from(
                crate::structure::block_views(bs@),
                i as int,
            ));
        }
    }
}

} // verus!
