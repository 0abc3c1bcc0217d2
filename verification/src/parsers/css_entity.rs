//! The top productions: a document is trivia and zero or more entities; an
//! entity is an at-rule or a rule block, alternatives tried in a fixed order
//! with the first to apply winning.  Anything left unconsumed is a parse
//! error at the offending position.

use crate::parsers::at::{
    parse_at, parse_font_face, parse_keyframes, parse_media, parse_ms_viewport, parse_page,
    parse_supports, parse_viewport, spec_parse_at, spec_parse_decl_at, spec_parse_keyframes,
    spec_parse_media, spec_parse_page, spec_parse_supports,
};
use crate::parsers::parameters::{parse_block_body, spec_parse_block_body};
use crate::parsers::selector::{parse_selectors, spec_parse_selectors};
use crate::parsers::utils::{lemma_skip_trivia, parse_useless, skip_trivia};
use crate::structure::{
    Block, BlockV, CssEntities, CssEntity, CssEntityV, entity_view, entity_views,
};
use vstd::prelude::*;

verus! {

/// A rule block: a selector list, trivia, then braced declarations.
pub open spec fn spec_parse_block(s: Seq<char>, i: int) -> Option<(int, BlockV)> {
    match spec_parse_selectors(s, skip_trivia(s, i)) {
        Some(p) => {
            let jb = skip_trivia(s, p.0);
            match spec_parse_block_body(s, jb) {
                Some(b) => Some((b.0, BlockV { selectors: p.1, parameters: b.1 })),
                None => None,
            }
        },
        None => None,
    }
}

/// Parse a rule block.
pub fn parse_block(s: &str, i: usize) -> (r: Option<(usize, Block)>)
    requires
        i <= s@.len(),
    ensures
        match r {
            Some(p) => spec_parse_block(s@, i as int) matches Some(q) && p.0 == q.0 && p.1@ == q.1
                && i < p.0 <= s@.len(),
            None => spec_parse_block(s@, i as int) is None,
        },
{
    let t = parse_useless(s, i);
    match parse_selectors(s, t) {
        Some(p) => {
            let jb = parse_useless(s, p.0);
            match parse_block_body(s, jb) {
                Some(b) => Some((b.0, Block { selectors: p.1, parameters: b.1 })),
                None => None,
            }
        },
        None => None,
    }
}

/// One entity, alternatives in order of preference: `@media`; the simple
/// at-rules; `@keyframes`; `@font-face`; `@viewport`; `@-ms-viewport`;
/// `@supports`; `@page`; a rule block.
pub open spec fn spec_parse_entity(s: Seq<char>, i: int) -> Option<(int, CssEntityV)>
    decreases s.len() - i, 2nat,
{
    if spec_parse_media(s, i) is Some {
        let p = spec_parse_media(s, i)->0;
        Some((p.0, CssEntityV::Media(p.1)))
    } else if spec_parse_at(s, i) is Some {
        let p = spec_parse_at(s, i)->0;
        Some((p.0, CssEntityV::At(p.1)))
    } else if spec_parse_keyframes(s, i) is Some {
        let p = spec_parse_keyframes(s, i)->0;
        Some((p.0, CssEntityV::Keyframes(p.1)))
    } else if spec_parse_decl_at(s, i, "@font-face"@) is Some {
        let p = spec_parse_decl_at(s, i, "@font-face"@)->0;
        Some((p.0, CssEntityV::FontFace(p.1)))
    } else if spec_parse_decl_at(s, i, "@viewport"@) is Some {
        let p = spec_parse_decl_at(s, i, "@viewport"@)->0;
        Some((p.0, CssEntityV::Viewport(p.1)))
    } else if spec_parse_decl_at(s, i, "@-ms-viewport"@) is Some {
        let p = spec_parse_decl_at(s, i, "@-ms-viewport"@)->0;
        Some((p.0, CssEntityV::MsViewport(p.1)))
    } else if spec_parse_supports(s, i) is Some {
        let p = spec_parse_supports(s, i)->0;
        Some((p.0, CssEntityV::Supports(p.1)))
    } else if spec_parse_page(s, i) is Some {
        let p = spec_parse_page(s, i)->0;
        Some((p.0, CssEntityV::Page(p.1)))
    } else {
        match spec_parse_block(s, i) {
            Some(p) => Some((p.0, CssEntityV::Block(p.1))),
            None => None,
        }
    }
}

/// Parse one entity.
pub fn parse_entity(s: &str, i: usize) -> (r: Option<(usize, CssEntity)>)
    requires
        i <= s@.len(),
    ensures
        match r {
            Some(p) => spec_parse_entity(s@, i as int) matches Some(q) && p.0 == q.0 && entity_view(
                p.1,
            ) == q.1 && i < p.0 <= s@.len(),
            None => spec_parse_entity(s@, i as int) is None,
        },
    decreases s@.len() - i, 2nat,
{
    match parse_media(s, i) {
        Some(p) => {
            return Some((p.0, CssEntity::Media(p.1)));
        },
        None => {},
    }
    match parse_at(s, i) {
        Some(p) => {
            return Some((p.0, CssEntity::At(p.1)));
        },
        None => {},
    }
    match parse_keyframes(s, i) {
        Some(p) => {
            return Some((p.0, CssEntity::Keyframes(p.1)));
        },
        None => {},
    }
    match parse_font_face(s, i) {
        Some(p) => {
            return Some((p.0, CssEntity::FontFace(p.1)));
        },
        None => {},
    }
    match parse_viewport(s, i) {
        Some(p) => {
            return Some((p.0, CssEntity::Viewport(p.1)));
        },
        None => {},
    }
    match parse_ms_viewport(s, i) {
        Some(p) => {
            return Some((p.0, CssEntity::MsViewport(p.1)));
        },
        None => {},
    }
    match parse_supports(s, i) {
        Some(p) => {
            return Some((p.0, CssEntity::Supports(p.1)));
        },
        None => {},
    }
    match parse_page(s, i) {
        Some(p) => {
            return Some((p.0, CssEntity::Page(p.1)));
        },
        None => {},
    }
    match parse_block(s, i) {
        Some(p) => Some((p.0, CssEntity::Block(p.1))),
        None => None,
    }
}

/// A document region: trivia, then zero or more entities with trivia
/// between them.  The position returned is where the first thing that is
/// not an entity begins, after any trivia.
pub open spec fn spec_parse_document(s: Seq<char>, i: int) -> (int, Seq<CssEntityV>)
    decreases s.len() - i, 3nat,
{
    let j = skip_trivia(s, i);
    if 0 <= i && i <= j && j <= s.len() {
        match spec_parse_entity(s, j) {
            Some(p) => if j < p.0 && p.0 <= s.len() {
                let rest = spec_parse_document(s, p.0);
                (rest.0, seq![p.1] + rest.1)
            } else {
                (j, Seq::empty())
            },
            None => (j, Seq::empty()),
        }
    } else {
        (i, Seq::empty())
    }
}

/// Parse a document region.
pub fn parse_document(s: &str, i: usize) -> (r: (usize, CssEntities))
    requires
        i <= s@.len(),
    ensures
        r.0 == spec_parse_document(s@, i as int).0,
        r.1@ == spec_parse_document(s@, i as int).1,
        i <= r.0 <= s@.len(),
    decreases s@.len() - i, 3nat,
{
    proof {
        lemma_skip_trivia(s@, i as int);
    }
    let j = parse_useless(s, i);
    match parse_entity(s, j) {
        Some(p) => {
            let (end, mut rest) = parse_document(s, p.0);
            let ghost tailv = rest.0@;
            rest.0.insert(0, p.1);
            proof {
                assert(rest.0@.first() == p.1);
                assert(rest.0@.drop_first() =~= tailv);
                assert(entity_views(rest.0@) =~= spec_parse_document(s@, i as int).1);
            }
            (end, rest)
        },
        None => {
            let r = CssEntities(Vec::new());
            proof {
                assert(entity_views(r.0@) =~= Seq::<CssEntityV>::empty());
            }
            (j, r)
        },
    }
}

/// A whole stylesheet: a document region that must consume the entire
/// input.  A failure carries the character position where parsing stopped.
pub open spec fn spec_parse_css(s: Seq<char>) -> Result<Seq<CssEntityV>, int> {
    let d = spec_parse_document(s, 0);
    if d.0 == s.len() {
        Ok(d.1)
    } else {
        Err(d.0)
    }
}

/// Parse a whole stylesheet.
pub fn parse_css(s: &str) -> (r: Result<CssEntities, usize>)
    ensures
        match r {
            Ok(doc) => spec_parse_css(s@) matches Ok(v) && doc@ == v,
            Err(pos) => spec_parse_css(s@) matches Err(p) && pos == p && pos <= s@.len(),
        },
{
    let n = s.unicode_len();
    let (end, doc) = parse_document(s, 0);
    if end == n {
        Ok(doc)
    } else {
        Err(end)
    }
}

} // verus!
