//! The document tree: a CSS document is an ordered sequence of entities, each
//! a rule block or an at-rule.  Every type carries a mathematical view; block
//! declarations are held in an insertion-ordered dictionary.

use crate::dict::{entries, entries_get, entries_insert, entries_swap_remove, has_key};
use indexmap::IndexMap;
use vstd::prelude::*;

verus! {

pub type Name = String;

pub type Value = String;

pub type Id = String;

pub type Class = String;

pub type Tag = String;

/// Model of a declaration list: (property name, value text) pairs in order.
pub type EntriesV = Seq<(Seq<char>, Seq<char>)>;

pub open spec fn opt_text_view(o: Option<String>) -> Option<Seq<char>> {
    match o {
        Some(s) => Some(s@),
        None => None,
    }
}

// ----------------------------------------------------------------------
// Selectors
// ----------------------------------------------------------------------

pub enum SelectorV {
    Id(Seq<char>),
    Class(Seq<char>),
    Tag(Seq<char>),
}

pub struct PseudoClassV {
    pub name: Seq<char>,
    pub params: Option<Seq<char>>,
    pub next: Option<Seq<char>>,
}

pub struct SelectorWithPseudoClassesV {
    pub base: Option<SelectorV>,
    pub pseudo: Seq<PseudoClassV>,
}

/// A simple selector: `#id`, `.class`, or a bare tag.
#[derive(Clone, Ord, PartialOrd, Eq, PartialEq, Debug)]
pub enum Selector {
    Id(Id),
    Class(Class),
    Tag(Tag),
}

impl View for Selector {
    type V = SelectorV;

    open spec fn view(&self) -> SelectorV {
        match self {
            Selector::Id(s) => SelectorV::Id(s@),
            Selector::Class(s) => SelectorV::Class(s@),
            Selector::Tag(s) => SelectorV::Tag(s@),
        }
    }
}

/// One pseudo-class in a compound selector: `:name`, optional `(params)`,
/// and an optional trailing descendant selector (the `a` in `:is(.x) a`).
#[derive(Clone, Ord, PartialOrd, Eq, PartialEq, Debug)]
pub struct PseudoClass {
    pub name: String,
    pub params: Option<String>,
    pub next: Option<String>,
}

impl View for PseudoClass {
    type V = PseudoClassV;

    open spec fn view(&self) -> PseudoClassV {
        PseudoClassV {
            name: self.name@,
            params: opt_text_view(self.params),
            next: opt_text_view(self.next),
        }
    }
}

/// A compound selector: an optional simple base plus a pseudo-class chain.
/// A compound with no base (a pure chain such as `:is(.x) a`) is legal.
#[derive(Clone, Ord, PartialOrd, Eq, PartialEq, Debug)]
pub struct SelectorWithPseudoClasses(pub Option<Selector>, pub Vec<PseudoClass>);

pub open spec fn pseudo_views(ps: Seq<PseudoClass>) -> Seq<PseudoClassV> {
    ps.map_values(|p: PseudoClass| p@)
}

impl View for SelectorWithPseudoClasses {
    type V = SelectorWithPseudoClassesV;

    open spec fn view(&self) -> SelectorWithPseudoClassesV {
        SelectorWithPseudoClassesV {
            base: match self.0 {
                Some(s) => Some(s@),
                None => None,
            },
            pseudo: pseudo_views(self.1@),
        }
    }
}

/// The comma-separated selector list of a block.
#[derive(Clone, Eq, PartialEq, Default, Debug)]
pub struct Selectors(pub Vec<SelectorWithPseudoClasses>);

pub open spec fn selector_views(ss: Seq<SelectorWithPseudoClasses>) -> Seq<
    SelectorWithPseudoClassesV,
> {
    ss.map_values(|s: SelectorWithPseudoClasses| s@)
}

impl View for Selectors {
    type V = Seq<SelectorWithPseudoClassesV>;

    open spec fn view(&self) -> Seq<SelectorWithPseudoClassesV> {
        selector_views(self.0@)
    }
}

// ----------------------------------------------------------------------
// Declarations
// ----------------------------------------------------------------------

/// The declarations of a block: an insertion-ordered mapping from property
/// name to value text, keys unique.  Each operation below relies on the
/// like-named method of `indexmap::IndexMap` and restates, over the entry
/// list, what that crate's documentation promises.
#[derive(Clone, Eq, PartialEq, Debug)]
pub struct Parameters(pub IndexMap<Name, Value>);

impl View for Parameters {
    type V = EntriesV;

    open spec fn view(&self) -> EntriesV {
        entries(self.0)
    }
}

impl Parameters {
    /// Relies on `IndexMap::new`: the new map is empty.
    #[verifier::external_body]
    pub fn new() -> (r: Parameters)
        ensures
            entries(r.0) == Seq::<(Seq<char>, Seq<char>)>::empty(),
    {
        Parameters(IndexMap::new())
    }

    /// Relies on `IndexMap::insert`: an existing key keeps its place and
    /// takes the new value, and the old value comes back; a new key is
    /// appended and `None` comes back.
    #[verifier::external_body]
    pub fn insert(&mut self, name: Name, value: Value) -> (prior: Option<Value>)
        ensures
            entries(final(self).0) == entries_insert(entries(old(self).0), name@, value@),
            prior is Some <==> has_key(entries(old(self).0), name@),
            prior is Some ==> Some(prior->0@) == entries_get(entries(old(self).0), name@),
    {
        self.0.insert(name, value)
    }

    /// Relies on `IndexMap::get`: the value stored under the key, if any.
    #[verifier::external_body]
    pub fn get(&self, name: &str) -> (r: Option<Value>)
        ensures
            r is Some <==> has_key(entries(self.0), name@),
            r is Some ==> Some(r->0@) == entries_get(entries(self.0), name@),
    {
        self.0.get(name).cloned()
    }

    /// Relies on `IndexMap::contains_key`.
    #[verifier::external_body]
    pub fn contains_key(&self, name: &str) -> (r: bool)
        ensures
            r == has_key(entries(self.0), name@),
    {
        self.0.contains_key(name)
    }

    /// Relies on `IndexMap::swap_remove`: the removed slot is filled by the
    /// last entry; the removed value comes back.
    #[verifier::external_body]
    pub fn swap_remove(&mut self, name: &str) -> (removed: Option<Value>)
        ensures
            entries(final(self).0) == entries_swap_remove(entries(old(self).0), name@),
            removed is Some <==> has_key(entries(old(self).0), name@),
            removed is Some ==> Some(removed->0@) == entries_get(entries(old(self).0), name@),
    {
        self.0.swap_remove(name)
    }

    /// Relies on `IndexMap::len`.
    #[verifier::external_body]
    pub fn len(&self) -> (r: usize)
        ensures
            r == entries(self.0).len(),
    {
        self.0.len()
    }

    /// Relies on `IndexMap::get_index`: the pair at a position in the order.
    #[verifier::external_body]
    pub fn get_index(&self, i: usize) -> (r: Option<(Name, Value)>)
        ensures
            r is Some <==> i < entries(self.0).len(),
            r is Some ==> ({ let p = r->0; (p.0@, p.1@) == entries(self.0)[i as int] }),
    {
        match self.0.get_index(i) {
            Some((k, v)) => Some((k.clone(), v.clone())),
            None => None,
        }
    }
}

// ----------------------------------------------------------------------
// Entities
// ----------------------------------------------------------------------

pub struct BlockV {
    pub selectors: Seq<SelectorWithPseudoClassesV>,
    pub parameters: EntriesV,
}

pub struct MediaV {
    pub screen: Seq<char>,
    pub entities: Seq<CssEntityV>,
}

pub struct PageV {
    pub selectors: Option<Seq<char>>,
    pub parameters: EntriesV,
}

pub struct SupportsV {
    pub conditions: Seq<char>,
    pub entities: Seq<CssEntityV>,
}

pub struct KeyframesV {
    pub webkit_prefix: bool,
    pub name: Seq<char>,
    pub blocks: Seq<KeyframeBlockV>,
}

pub struct KeyframeBlockV {
    pub name: Seq<char>,
    pub parameters: EntriesV,
}

pub enum AtV {
    Namespace { prefix: Option<Seq<char>>, url: Seq<char> },
    Import { url: Seq<char>, media_queries: Option<Seq<char>> },
    Charset { charset: Seq<char> },
}

pub enum CssEntityV {
    Block(BlockV),
    Media(MediaV),
    Page(PageV),
    Supports(SupportsV),
    FontFace(EntriesV),
    Viewport(EntriesV),
    MsViewport(EntriesV),
    Keyframes(KeyframesV),
    At(AtV),
}

/// A rule block: a selector list with its declarations.
#[derive(Clone, Eq, PartialEq, Debug)]
pub struct Block {
    pub selectors: Selectors,
    pub parameters: Parameters,
}

impl View for Block {
    type V = BlockV;

    open spec fn view(&self) -> BlockV {
        BlockV { selectors: self.selectors@, parameters: self.parameters@ }
    }
}

/// An `@media` rule: a condition and a nested document.
#[derive(Eq, PartialEq, Debug)]
pub struct Media {
    pub screen: Name,
    pub entities: CssEntities,
}

/// An `@page` rule.
#[derive(Clone, Eq, PartialEq, Debug)]
pub struct Page {
    pub selectors: Option<Name>,
    pub parameters: Parameters,
}

/// An `@supports` rule: a condition and a nested document.
#[derive(Eq, PartialEq, Debug)]
pub struct Supports {
    pub conditions: Name,
    pub entities: CssEntities,
}

/// An `@keyframes` (or `@-webkit-keyframes`) rule.
#[derive(Clone, Eq, PartialEq, Debug)]
pub struct Keyframes {
    pub webkit_prefix: bool,
    pub name: Name,
    pub blocks: KeyframeBlocks,
}

impl View for Keyframes {
    type V = KeyframesV;

    open spec fn view(&self) -> KeyframesV {
        KeyframesV {
            webkit_prefix: self.webkit_prefix,
            name: self.name@,
            blocks: keyframe_block_views(self.blocks.0@),
        }
    }
}

/// One frame of an `@keyframes` rule: a stop (`from`, `50%`, ...) with its
/// declarations.
#[derive(Clone, Eq, PartialEq, Debug)]
pub struct KeyframeBlock {
    pub name: Name,
    pub parameters: Parameters,
}

impl View for KeyframeBlock {
    type V = KeyframeBlockV;

    open spec fn view(&self) -> KeyframeBlockV {
        KeyframeBlockV { name: self.name@, parameters: self.parameters@ }
    }
}

/// An `@font-face` rule.
#[derive(Clone, Eq, PartialEq, Debug)]
pub struct FontFace {
    pub parameters: Parameters,
}

/// An `@viewport` rule.
#[derive(Clone, Eq, PartialEq, Debug)]
pub struct Viewport {
    pub parameters: Parameters,
}

/// An `@-ms-viewport` rule.
#[derive(Clone, Eq, PartialEq, Debug)]
pub struct MsViewport {
    pub parameters: Parameters,
}

/// An `@namespace` rule.
#[derive(Clone, Eq, PartialEq, Debug)]
pub struct NamespaceAt {
    pub prefix: Option<Value>,
    pub url: Value,
}

/// An `@import` rule.
#[derive(Clone, Eq, PartialEq, Debug)]
pub struct ImportAt {
    pub url: Value,
    pub media_queries: Option<Value>,
}

/// An `@charset` rule.
#[derive(Clone, Eq, PartialEq, Debug)]
pub struct CharsetAt {
    pub charset: Value,
}

/// The simple at-rules, each terminated by `;`.
#[derive(Clone, Eq, PartialEq, Debug)]
pub enum At {
    Namespace(NamespaceAt),
    Import(ImportAt),
    Charset(CharsetAt),
}

impl View for At {
    type V = AtV;

    open spec fn view(&self) -> AtV {
        match self {
            At::Namespace(n) => AtV::Namespace {
                prefix: opt_text_view(n.prefix),
                url: n.url@,
            },
            At::Import(i) => AtV::Import {
                url: i.url@,
                media_queries: opt_text_view(i.media_queries),
            },
            At::Charset(c) => AtV::Charset { charset: c.charset@ },
        }
    }
}

/// A top-level item of a CSS document.
#[derive(Eq, PartialEq, Debug)]
pub enum CssEntity {
    Block(Block),
    Media(Media),
    Page(Page),
    Supports(Supports),
    FontFace(FontFace),
    Viewport(Viewport),
    MsViewport(MsViewport),
    Keyframes(Keyframes),
    At(At),
}

/// An ordered CSS document.
#[derive(Eq, PartialEq, Default, Debug)]
pub struct CssEntities(pub Vec<CssEntity>);

/// A list of rule blocks.
#[derive(Clone, Eq, PartialEq, Default, Debug)]
pub struct Blocks(pub Vec<Block>);

/// The frames of an `@keyframes` rule, in order.
#[derive(Clone, Eq, PartialEq, Default, Debug)]
pub struct KeyframeBlocks(pub Vec<KeyframeBlock>);

pub open spec fn keyframe_block_views(bs: Seq<KeyframeBlock>) -> Seq<KeyframeBlockV> {
    bs.map_values(|b: KeyframeBlock| b@)
}

pub open spec fn block_views(bs: Seq<Block>) -> Seq<BlockV> {
    bs.map_values(|b: Block| b@)
}

pub open spec fn entity_view(e: CssEntity) -> CssEntityV
    decreases e,
{
    match e {
        CssEntity::Block(b) => CssEntityV::Block(b@),
        CssEntity::Media(m) => CssEntityV::Media(
            MediaV { screen: m.screen@, entities: entity_views(m.entities.0@) },
        ),
        CssEntity::Page(p) => CssEntityV::Page(
            PageV { selectors: opt_text_view(p.selectors), parameters: p.parameters@ },
        ),
        CssEntity::Supports(s) => CssEntityV::Supports(
            SupportsV { conditions: s.conditions@, entities: entity_views(s.entities.0@) },
        ),
        CssEntity::FontFace(f) => CssEntityV::FontFace(f.parameters@),
        CssEntity::Viewport(v) => CssEntityV::Viewport(v.parameters@),
        CssEntity::MsViewport(v) => CssEntityV::MsViewport(v.parameters@),
        CssEntity::Keyframes(k) => CssEntityV::Keyframes(k@),
        CssEntity::At(a) => CssEntityV::At(a@),
    }
}

pub open spec fn entity_views(es: Seq<CssEntity>) -> Seq<CssEntityV>
    decreases es,
{
    if es.len() == 0 {
        Seq::empty()
    } else {
        seq![entity_view(es.first())] + entity_views(es.drop_first())
    }
}

impl View for CssEntity {
    type V = CssEntityV;

    open spec fn view(&self) -> CssEntityV {
        entity_view(*self)
    }
}

impl View for CssEntities {
    type V = Seq<CssEntityV>;

    open spec fn view(&self) -> Seq<CssEntityV> {
        entity_views(self.0@)
    }
}

/// Index lemma for `entity_views`.
pub proof fn lemma_entity_views(es: Seq<CssEntity>)
    ensures
        entity_views(es).len() == es.len(),
        forall|i: int| 0 <= i < es.len() ==> entity_views(es)[i] == entity_view(es[i]),
    decreases es,
{
    if es.len() > 0 {
        lemma_entity_views(es.drop_first());
        assert forall|i: int| 0 <= i < es.len() implies entity_views(es)[i] == entity_view(
            es[i],
        ) by {
            if i > 0 {
                assert(entity_views(es)[i] == entity_views(es.drop_first())[i - 1]);
                assert(es.drop_first()[i - 1] == es[i]);
            }
        }
    }
}

/// `entity_views` distributes over concatenation.
pub proof fn lemma_entity_views_add(a: Seq<CssEntity>, b: Seq<CssEntity>)
    ensures
        entity_views(a + b) == entity_views(a) + entity_views(b),
    decreases a,
{
    if a.len() == 0 {
        assert(a + b =~= b);
        assert(entity_views(a) + entity_views(b) =~= entity_views(b));
    } else {
        lemma_entity_views_add(a.drop_first(), b);
        assert((a + b).first() == a.first());
        assert((a + b).drop_first() =~= a.drop_first() + b);
        assert(entity_views(a + b) =~= entity_views(a) + entity_views(b));
    }
}

} // verus!
