//! The registered per-declaration rewrites (color canonicalization, value
//! normalization, name lowercasing), and the shared walk that carries any
//! declaration-level rewrite through a document: into blocks, at-rules with
//! declarations, keyframe frames, and the bodies of `@media` and
//! `@supports`.

use crate::optimizations::color::spec_optimize_color;
use crate::optimizations::font::{FontTransformer, spec_font_params};
use crate::optimizations::merge_m_n_p::{Merge, spec_merge_mnp};
use crate::optimizations::merge_shorthand::{MergeShortHand, spec_merge_shorthand};
use crate::parsers::parameters::entries_of_pairs;
use crate::structure::{
    At, Block, BlockV, CssEntities, CssEntity, CssEntityV, EntriesV, FontFace, Keyframes,
    KeyframeBlock, KeyframeBlockV, KeyframeBlocks, Media, MediaV, MsViewport, Name, Page, PageV,
    Parameters, Supports, SupportsV, Value, Viewport, entity_view, entity_views,
    keyframe_block_views,
};
use crate::parsers::utils::has_prefix_at;
use crate::text::{push_char, replace_all, replace_all_str};
use vstd::prelude::*;
use vstd::string::StringExecFns;

verus! {

// ----------------------------------------------------------------------
// Name lowercasing
// ----------------------------------------------------------------------

/// An ASCII letter lowered; anything else kept.
pub open spec fn lower_char(c: char) -> char {
    if c == 'A' {
        'a'
    } else if c == 'B' {
        'b'
    } else if c == 'C' {
        'c'
    } else if c == 'D' {
        'd'
    } else if c == 'E' {
        'e'
    } else if c == 'F' {
        'f'
    } else if c == 'G' {
        'g'
    } else if c == 'H' {
        'h'
    } else if c == 'I' {
        'i'
    } else if c == 'J' {
        'j'
    } else if c == 'K' {
        'k'
    } else if c == 'L' {
        'l'
    } else if c == 'M' {
        'm'
    } else if c == 'N' {
        'n'
    } else if c == 'O' {
        'o'
    } else if c == 'P' {
        'p'
    } else if c == 'Q' {
        'q'
    } else if c == 'R' {
        'r'
    } else if c == 'S' {
        's'
    } else if c == 'T' {
        't'
    } else if c == 'U' {
        'u'
    } else if c == 'V' {
        'v'
    } else if c == 'W' {
        'w'
    } else if c == 'X' {
        'x'
    } else if c == 'Y' {
        'y'
    } else if c == 'Z' {
        'z'
    } else {
        c
    }
}

fn lower_char_exec(c: char) -> (r: char)
    ensures
        r == lower_char(c),
{
    let u = c as u32;
    if 65 <= u && u <= 90 {
        if c == 'A' {
            'a'
        } else if c == 'B' {
            'b'
        } else if c == 'C' {
            'c'
        } else if c == 'D' {
            'd'
        } else if c == 'E' {
            'e'
        } else if c == 'F' {
            'f'
        } else if c == 'G' {
            'g'
        } else if c == 'H' {
            'h'
        } else if c == 'I' {
            'i'
        } else if c == 'J' {
            'j'
        } else if c == 'K' {
            'k'
        } else if c == 'L' {
            'l'
        } else if c == 'M' {
            'm'
        } else if c == 'N' {
            'n'
        } else if c == 'O' {
            'o'
        } else if c == 'P' {
            'p'
        } else if c == 'Q' {
            'q'
        } else if c == 'R' {
            'r'
        } else if c == 'S' {
            's'
        } else if c == 'T' {
            't'
        } else if c == 'U' {
            'u'
        } else if c == 'V' {
            'v'
        } else if c == 'W' {
            'w'
        } else if c == 'X' {
            'x'
        } else if c == 'Y' {
            'y'
        } else {
            'z'
        }
    } else {
        proof {
            assert(c != 'A' && c != 'B' && c != 'C' && c != 'D' && c != 'E' && c != 'F' && c != 'G'
                && c != 'H' && c != 'I' && c != 'J' && c != 'K' && c != 'L' && c != 'M' && c != 'N'
                && c != 'O' && c != 'P' && c != 'Q' && c != 'R' && c != 'S' && c != 'T' && c != 'U'
                && c != 'V' && c != 'W' && c != 'X' && c != 'Y' && c != 'Z');
        }
        c
    }
}

/// A name with its ASCII letters lowered.
pub open spec fn lower_seq(s: Seq<char>) -> Seq<char> {
    s.map_values(|c: char| lower_char(c))
}

fn lower_str(s: &str) -> (r: String)
    ensures
        r@ == lower_seq(s@),
{
    let n = s.unicode_len();
    let mut out = String::new();
    let mut i: usize = 0;
    while i < n
        invariant
            i <= n,
            n == s@.len(),
            out@ == lower_seq(s@.subrange(0, i as int)),
        decreases n - i,
    {
        push_char(&mut out, lower_char_exec(s.get_char(i)));
        proof {
            assert(out@ =~= lower_seq(s@.subrange(0, i + 1 as int)));
        }
        i += 1;
    }
    proof {
        assert(s@.subrange(0, n as int) =~= s@);
    }
    out
}

// ----------------------------------------------------------------------
// Value normalization
// ----------------------------------------------------------------------

/// A normalized value: a leading `0px`, `0rem` loses its unit, a leading
/// `0.` loses its zero, then ` 0px`, ` 0rem` become ` 0`, ` 0.` becomes
/// ` .`, `, ` becomes `,`, and ` !important` becomes `!important`,
/// everywhere.
pub open spec fn spec_normalize_value(v: Seq<char>) -> Seq<char> {
    let v1 = if has_prefix_at(v, 0, "0px"@) {
        "0"@ + v.subrange("0px"@.len() as int, v.len() as int)
    } else {
        v
    };
    let v2 = if has_prefix_at(v1, 0, "0rem"@) {
        "0"@ + v1.subrange("0rem"@.len() as int, v1.len() as int)
    } else {
        v1
    };
    let v3 = if has_prefix_at(v2, 0, "0."@) {
        "."@ + v2.subrange("0."@.len() as int, v2.len() as int)
    } else {
        v2
    };
    let r1 = replace_all(v3, " 0px"@, " 0"@);
    let r2 = replace_all(r1, " 0rem"@, " 0"@);
    let r3 = replace_all(r2, " 0."@, " ."@);
    let r4 = replace_all(r3, ", "@, ","@);
    replace_all(r4, " !important"@, "!important"@)
}

fn normalize_value(v: &str) -> (r: String)
    ensures
        r@ == spec_normalize_value(v@),
{
    proof {
        reveal_strlit(" 0px");
        reveal_strlit(" 0rem");
        reveal_strlit(" 0.");
        reveal_strlit(", ");
        reveal_strlit(" !important");
    }
    let n = v.unicode_len();
    let v1: String = if crate::parsers::utils::match_prefix(v, 0, "0px") {
        let plen = "0px".unicode_len();
        let mut t = String::from_str("0");
        t.append(crate::text::substr(v, plen, n).as_str());
        t
    } else {
        v.to_owned()
    };
    let n1 = v1.as_str().unicode_len();
    let v2: String = if crate::parsers::utils::match_prefix(v1.as_str(), 0, "0rem") {
        let plen = "0rem".unicode_len();
        let mut t = String::from_str("0");
        t.append(crate::text::substr(v1.as_str(), plen, n1).as_str());
        t
    } else {
        v1
    };
    let n2 = v2.as_str().unicode_len();
    let v3: String = if crate::parsers::utils::match_prefix(v2.as_str(), 0, "0.") {
        let plen = "0.".unicode_len();
        let mut t = String::from_str(".");
        t.append(crate::text::substr(v2.as_str(), plen, n2).as_str());
        t
    } else {
        v2
    };
    let r1 = replace_all_str(v3.as_str(), " 0px", " 0");
    let r2 = replace_all_str(r1.as_str(), " 0rem", " 0");
    let r3 = replace_all_str(r2.as_str(), " 0.", " .");
    let r4 = replace_all_str(r3.as_str(), ", ", ",");
    replace_all_str(r4.as_str(), " !important", "!important")
}

// ----------------------------------------------------------------------
// The registered rewrites
// ----------------------------------------------------------------------

/// A rewrite of declaration names.
#[derive(Clone, Copy, PartialEq, Eq, Structural, Debug)]
pub enum NameTransform {
    /// Lowercase the property name.
    Lowercase,
}

/// A rewrite of declaration values.
#[derive(Clone, Copy, PartialEq, Eq, Structural, Debug)]
pub enum ValueTransform {
    /// Canonicalize a leading color token.
    Color,
    /// Compress zero units, spaces after commas, and `!important` spacing.
    Normalize,
}

/// One registered per-declaration rewrite: of the name or of the value.
#[derive(Clone, Copy, PartialEq, Eq, Structural, Debug)]
pub enum TransformerParameterFn {
    Name(NameTransform),
    Value(ValueTransform),
}

/// The effect of one registered rewrite on a declaration.
pub open spec fn apply_one(f: TransformerParameterFn, kv: (Seq<char>, Seq<char>)) -> (
    Seq<char>,
    Seq<char>,
) {
    match f {
        TransformerParameterFn::Name(NameTransform::Lowercase) => (lower_seq(kv.0), kv.1),
        TransformerParameterFn::Value(ValueTransform::Color) => (
            kv.0,
            spec_optimize_color(kv.1),
        ),
        TransformerParameterFn::Value(ValueTransform::Normalize) => (
            kv.0,
            spec_normalize_value(kv.1),
        ),
    }
}

/// The effect of the registered rewrites from `i` on, applied in order.
pub open spec fn apply_fns_from(
    fns: Seq<TransformerParameterFn>,
    i: int,
    kv: (Seq<char>, Seq<char>),
) -> (Seq<char>, Seq<char>)
    decreases fns.len() - i,
{
    if i < 0 || i >= fns.len() {
        kv
    } else {
        apply_fns_from(fns, i + 1, apply_one(fns[i], kv))
    }
}

/// The declaration pairs from `i` on, each passed through every registered
/// rewrite.
pub open spec fn mapped_pairs_from(
    fns: Seq<TransformerParameterFn>,
    es: EntriesV,
    i: int,
) -> Seq<(Seq<char>, Seq<char>)>
    decreases es.len() - i,
{
    if i < 0 || i >= es.len() {
        Seq::empty()
    } else {
        seq![apply_fns_from(fns, 0, es[i])] + mapped_pairs_from(fns, es, i + 1)
    }
}

/// Declarations rebuilt with every registered rewrite applied to each entry,
/// in entry order; a name collision makes the later entry overwrite the
/// earlier one in place.
pub open spec fn transformer_params(fns: Seq<TransformerParameterFn>, es: EntriesV) -> EntriesV {
    entries_of_pairs(mapped_pairs_from(fns, es, 0))
}

/// The holder of registered per-declaration rewrites, applied in
/// registration order.
pub struct Transformer {
    parameters: Vec<TransformerParameterFn>,
}

impl Default for Transformer {
    /// A transformer with nothing registered.
    fn default() -> (r: Self)
        ensures
            r@ == Seq::<TransformerParameterFn>::empty(),
    {
        Transformer { parameters: Vec::new() }
    }
}

impl View for Transformer {
    type V = Seq<TransformerParameterFn>;

    closed spec fn view(&self) -> Seq<TransformerParameterFn> {
        self.parameters@
    }
}

impl Transformer {
    /// Register one rewrite, after those already registered.
    pub fn register_parameter(&mut self, transformer: TransformerParameterFn)
        ensures
            final(self)@ == old(self)@.push(transformer),
    {
        self.parameters.push(transformer)
    }

    fn apply_from(&self, i: usize, name: Name, value: Value) -> (r: (Name, Value))
        requires
            i <= self@.len(),
        ensures
            (r.0@, r.1@) == apply_fns_from(self@, i as int, (name@, value@)),
        decreases self@.len() - i,
    {
        if i < self.parameters.len() {
            let (name, value): (Name, Value) = match self.parameters[i] {
                TransformerParameterFn::Name(NameTransform::Lowercase) => (
                    lower_str(name.as_str()),
                    value,
                ),
                TransformerParameterFn::Value(ValueTransform::Color) => {
                    let c = crate::optimizations::color::optimize_color(value.as_str());
                    (name, c.0)
                },
                TransformerParameterFn::Value(ValueTransform::Normalize) => (
                    name,
                    normalize_value(value.as_str()),
                ),
            };
            self.apply_from(i + 1, name, value)
        } else {
            (name, value)
        }
    }

    fn collect_pairs(&self, p: &Parameters, i: usize) -> (r: Vec<(Name, Value)>)
        ensures
            crate::parsers::parameters::pair_views(r@) == mapped_pairs_from(
                self@,
                p@,
                i as int,
            ),
        decreases p@.len() - i,
    {
        match p.get_index(i) {
            Some(kv) => {
                let n = p.len();
                proof {
                    assert(i < n);
                }
                let (name, value) = self.apply_from(0, kv.0, kv.1);
                let mut rest = self.collect_pairs(p, i + 1);
                rest.insert(0, (name, value));
                proof {
                    assert(crate::parsers::parameters::pair_views(rest@)
                        =~~= mapped_pairs_from(self@, p@, i as int));
                }
                rest
            },
            None => {
                let r: Vec<(Name, Value)> = Vec::new();
                proof {
                    assert(crate::parsers::parameters::pair_views(r@) =~~= Seq::<(
                        Seq<char>,
                        Seq<char>,
                    )>::empty());
                }
                r
            },
        }
    }

    /// Apply every registered rewrite to each declaration, in order.
    pub fn transform_parameters(&self, p: Parameters) -> (r: Parameters)
        ensures
            r@ == transformer_params(self@, p@),
    {
        let pairs = self.collect_pairs(&p, 0);
        crate::parsers::parameters::pairs_to_parameters(pairs)
    }
}

// ----------------------------------------------------------------------
// Carrying a declaration rewrite through a document
// ----------------------------------------------------------------------

/// A declaration-level rewrite to carry through a document.
pub enum DeclRewriter<'a> {
    /// The box-sides merge.
    BoxSides,
    /// The shorthand-family merge.
    Shorthand,
    /// The font-weight normalization.
    FontWeight,
    /// The registered per-declaration rewrites.
    Registered(&'a Transformer),
}

/// The model of a declaration-level rewrite.
pub enum RewriterV {
    BoxSides,
    Shorthand,
    FontWeight,
    Registered(Seq<TransformerParameterFn>),
}

impl<'a> View for DeclRewriter<'a> {
    type V = RewriterV;

    open spec fn view(&self) -> RewriterV {
        match self {
            DeclRewriter::BoxSides => RewriterV::BoxSides,
            DeclRewriter::Shorthand => RewriterV::Shorthand,
            DeclRewriter::FontWeight => RewriterV::FontWeight,
            DeclRewriter::Registered(t) => RewriterV::Registered(t@),
        }
    }
}

/// A rewrite's effect on one declaration map.
pub open spec fn rewrite_decls(rw: RewriterV, es: EntriesV) -> EntriesV {
    match rw {
        RewriterV::BoxSides => spec_merge_mnp(es),
        RewriterV::Shorthand => spec_merge_shorthand(es),
        RewriterV::FontWeight => spec_font_params(es),
        RewriterV::Registered(fns) => transformer_params(fns, es),
    }
}

/// A rewrite's effect on the frames of an `@keyframes` rule.
pub open spec fn rewrite_frames_view(rw: RewriterV, bs: Seq<KeyframeBlockV>) -> Seq<KeyframeBlockV>
    decreases bs,
{
    if bs.len() == 0 {
        Seq::empty()
    } else {
        seq![
            KeyframeBlockV {
                name: bs.first().name,
                parameters: rewrite_decls(rw, bs.first().parameters),
            },
        ] + rewrite_frames_view(rw, bs.drop_first())
    }
}

/// A rewrite's effect on one entity: its declarations are rewritten, and the
/// bodies of `@media` and `@supports` are walked recursively; a simple
/// at-rule is untouched.
pub open spec fn rewrite_entity(rw: RewriterV, e: CssEntityV) -> CssEntityV
    decreases e, 0nat,
{
    match e {
        CssEntityV::Block(b) => CssEntityV::Block(
            BlockV { selectors: b.selectors, parameters: rewrite_decls(rw, b.parameters) },
        ),
        CssEntityV::Media(m) => CssEntityV::Media(
            MediaV { screen: m.screen, entities: rewrite_doc(rw, m.entities) },
        ),
        CssEntityV::Page(p) => CssEntityV::Page(
            PageV { selectors: p.selectors, parameters: rewrite_decls(rw, p.parameters) },
        ),
        CssEntityV::Supports(s) => CssEntityV::Supports(
            SupportsV { conditions: s.conditions, entities: rewrite_doc(rw, s.entities) },
        ),
        CssEntityV::FontFace(ps) => CssEntityV::FontFace(rewrite_decls(rw, ps)),
        CssEntityV::Viewport(ps) => CssEntityV::Viewport(rewrite_decls(rw, ps)),
        CssEntityV::MsViewport(ps) => CssEntityV::MsViewport(rewrite_decls(rw, ps)),
        CssEntityV::Keyframes(k) => CssEntityV::Keyframes(
            crate::structure::KeyframesV {
                webkit_prefix: k.webkit_prefix,
                name: k.name,
                blocks: rewrite_frames_view(rw, k.blocks),
            },
        ),
        CssEntityV::At(a) => CssEntityV::At(a),
    }
}

/// A rewrite's effect on a document: every entity rewritten, order kept.
pub open spec fn rewrite_doc(rw: RewriterV, es: Seq<CssEntityV>) -> Seq<CssEntityV>
    decreases es, 1nat,
{
    if es.len() == 0 {
        Seq::empty()
    } else {
        seq![rewrite_entity(rw, es.first())] + rewrite_doc(rw, es.drop_first())
    }
}

fn rewrite_params(rw: &DeclRewriter, p: Parameters) -> (r: Parameters)
    ensures
        r@ == rewrite_decls(rw@, p@),
{
    match rw {
        DeclRewriter::BoxSides => (Merge {}).transform_parameters(p),
        DeclRewriter::Shorthand => (MergeShortHand {}).transform_parameters(p),
        DeclRewriter::FontWeight => (FontTransformer {}).transform_parameters(p),
        DeclRewriter::Registered(t) => t.transform_parameters(p),
    }
}

fn rewrite_frames(rw: &DeclRewriter, bs: Vec<KeyframeBlock>) -> (r: Vec<KeyframeBlock>)
    ensures
        keyframe_block_views(r@) == rewrite_frames_view(rw@, keyframe_block_views(bs@)),
    decreases bs@.len(),
{
    let mut bs = bs;
    if bs.len() == 0 {
        proof {
            assert(keyframe_block_views(bs@) =~= Seq::<KeyframeBlockV>::empty());
        }
        bs
    } else {
        let ghost orig = bs@;
        let first = bs.remove(0);
        let KeyframeBlock { name, parameters } = first;
        let nf = KeyframeBlock { name, parameters: rewrite_params(rw, parameters) };
        let mut rest = rewrite_frames(rw, bs);
        let ghost restv = rest@;
        rest.insert(0, nf);
        proof {
            assert(rest@.first() == nf);
            assert(rest@.drop_first() =~= restv);
            assert(keyframe_block_views(orig).drop_first() =~~= keyframe_block_views(
                orig.drop_first(),
            ));
            assert(keyframe_block_views(orig).first() == orig.first()@);
            assert(keyframe_block_views(rest@) =~~= rewrite_frames_view(
                rw@,
                keyframe_block_views(orig),
            ));
        }
        rest
    }
}

impl Transformer {
    /// Apply the registered rewrites to one entity's declarations.
    pub fn transform(&self, entity: CssEntity) -> (r: CssEntity)
        ensures
            entity_view(r) == rewrite_entity(RewriterV::Registered(self@), entity_view(entity)),
    {
        rewrite_one(&DeclRewriter::Registered(self), entity)
    }

    /// Apply the registered rewrites throughout a document.
    pub fn transform_many(&self, entities: CssEntities) -> (r: CssEntities)
        ensures
            r@ == rewrite_doc(RewriterV::Registered(self@), entities@),
    {
        rewrite_many(&DeclRewriter::Registered(self), entities)
    }
}

impl Merge {
    /// Merge the box sides of one entity's declarations.
    pub fn transform(&self, entity: CssEntity) -> (r: CssEntity)
        ensures
            entity_view(r) == rewrite_entity(RewriterV::BoxSides, entity_view(entity)),
    {
        rewrite_one(&DeclRewriter::BoxSides, entity)
    }

    /// Merge the box sides throughout a document.
    pub fn transform_many(&self, entities: CssEntities) -> (r: CssEntities)
        ensures
            r@ == rewrite_doc(RewriterV::BoxSides, entities@),
    {
        rewrite_many(&DeclRewriter::BoxSides, entities)
    }
}

impl MergeShortHand {
    /// Merge the shorthand families of one entity's declarations.
    pub fn transform(&self, entity: CssEntity) -> (r: CssEntity)
        ensures
            entity_view(r) == rewrite_entity(RewriterV::Shorthand, entity_view(entity)),
    {
        rewrite_one(&DeclRewriter::Shorthand, entity)
    }

    /// Merge the shorthand families throughout a document.
    pub fn transform_many(&self, entities: CssEntities) -> (r: CssEntities)
        ensures
            r@ == rewrite_doc(RewriterV::Shorthand, entities@),
    {
        rewrite_many(&DeclRewriter::Shorthand, entities)
    }
}

impl FontTransformer {
    /// Normalize font weights in one entity's declarations.
    pub fn transform(&self, entity: CssEntity) -> (r: CssEntity)
        ensures
            entity_view(r) == rewrite_entity(RewriterV::FontWeight, entity_view(entity)),
    {
        rewrite_one(&DeclRewriter::FontWeight, entity)
    }

    /// Normalize font weights throughout a document.
    pub fn transform_many(&self, entities: CssEntities) -> (r: CssEntities)
        ensures
            r@ == rewrite_doc(RewriterV::FontWeight, entities@),
    {
        rewrite_many(&DeclRewriter::FontWeight, entities)
    }
}

/// Carry a declaration rewrite through one entity.
pub fn rewrite_one(rw: &DeclRewriter, e: CssEntity) -> (r: CssEntity)
    ensures
        entity_view(r) == rewrite_entity(rw@, entity_view(e)),
    decreases e, 0nat,
{
    match e {
        CssEntity::Block(b) => {
            let Block { selectors, parameters } = b;
            CssEntity::Block(Block { selectors, parameters: rewrite_params(rw, parameters) })
        },
        CssEntity::Media(m) => {
            let Media { screen, entities } = m;
            CssEntity::Media(Media { screen, entities: rewrite_many(rw, entities) })
        },
        CssEntity::Page(p) => {
            let Page { selectors, parameters } = p;
            CssEntity::Page(Page { selectors, parameters: rewrite_params(rw, parameters) })
        },
        CssEntity::Supports(s) => {
            let Supports { conditions, entities } = s;
            CssEntity::Supports(Supports { conditions, entities: rewrite_many(rw, entities) })
        },
        CssEntity::FontFace(f) => {
            let FontFace { parameters } = f;
            CssEntity::FontFace(FontFace { parameters: rewrite_params(rw, parameters) })
        },
        CssEntity::Viewport(v) => {
            let Viewport { parameters } = v;
            CssEntity::Viewport(Viewport { parameters: rewrite_params(rw, parameters) })
        },
        CssEntity::MsViewport(v) => {
            let MsViewport { parameters } = v;
            CssEntity::MsViewport(MsViewport { parameters: rewrite_params(rw, parameters) })
        },
        CssEntity::Keyframes(k) => {
            let Keyframes { webkit_prefix, name, blocks } = k;
            let KeyframeBlocks(frames) = blocks;
            CssEntity::Keyframes(
                Keyframes { webkit_prefix, name, blocks: KeyframeBlocks(rewrite_frames(rw, frames)) },
            )
        },
        CssEntity::At(a) => CssEntity::At(a),
    }
}

/// Carry a declaration rewrite through a document.
pub fn rewrite_many(rw: &DeclRewriter, es: CssEntities) -> (r: CssEntities)
    ensures
        r@ == rewrite_doc(rw@, es@),
    decreases es.0@, 1nat,
{
    let CssEntities(mut v) = es;
    if v.len() == 0 {
        proof {
            assert(entity_views(v@) =~= Seq::<CssEntityV>::empty());
        }
        CssEntities(v)
    } else {
        let ghost orig = v@;
        let first = v.remove(0);
        let fe = rewrite_one(rw, first);
        let rest = rewrite_many(rw, CssEntities(v));
        let CssEntities(mut out) = rest;
        let ghost restv = out@;
        out.insert(0, fe);
        proof {
            crate::structure::lemma_entity_views(orig);
            crate::structure::lemma_entity_views(orig.drop_first());
            assert(out@.first() == fe);
            assert(out@.drop_first() =~= restv);
            assert(entity_views(orig).drop_first() =~= entity_views(orig.drop_first()));
            assert(entity_views(out@) =~= rewrite_doc(rw@, entity_views(orig)));
        }
        CssEntities(out)
    }
}

} // verus!
