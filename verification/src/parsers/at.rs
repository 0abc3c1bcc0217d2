//! At-rule parsing: `@media` and `@supports` hold nested documents;
//! `@keyframes` holds frames; `@font-face`, `@viewport`, `@-ms-viewport` and
//! `@page` hold declarations; `@charset`, `@namespace` and `@import` are
//! simple rules terminated by `;`.

use crate::parsers::css_entity::{parse_document, spec_parse_document};
use crate::parsers::parameters::{parse_block_body, spec_parse_block_body};
use crate::parsers::utils::{
    has_prefix_at, is_space, match_prefix, parse_to_block_open, parse_useless, scan_not_space,
    scan_space, scan_while_not, skip_trivia, trim_range, trimmed_substr, until_block_open,
};
use crate::structure::{
    At, AtV, CharsetAt, FontFace, ImportAt, KeyframeBlock, KeyframeBlockV, KeyframeBlocks,
    Keyframes, KeyframesV, Media, MediaV, MsViewport, NamespaceAt, Page, PageV, Supports,
    SupportsV, Viewport, keyframe_block_views, opt_text_view,
};
use crate::text::substr;
use vstd::prelude::*;

verus! {

// ----------------------------------------------------------------------
// @media and @supports
// ----------------------------------------------------------------------

/// An `@media` rule: prefix, condition up to `{`, braced document.
pub open spec fn spec_parse_media(s: Seq<char>, i: int) -> Option<(int, MediaV)>
    decreases s.len() - i, 1nat,
{
    let j = skip_trivia(s, i);
    if has_prefix_at(s, j, "@media"@) {
        let c0 = skip_trivia(s, j + "@media"@.len());
        let ce = until_block_open(s, c0);
        if ce == c0 {
            None
        } else if 0 <= i && i <= j && j <= ce && ce < s.len() && s[ce] == '{' {
            let d = spec_parse_document(s, ce + 1);
            if d.0 < s.len() && s[d.0] == '}' {
                Some((d.0 + 1, MediaV { screen: trim_range(s, c0, ce), entities: d.1 }))
            } else {
                None
            }
        } else {
            None
        }
    } else {
        None
    }
}

/// Parse an `@media` rule.
pub fn parse_media(s: &str, i: usize) -> (r: Option<(usize, Media)>)
    requires
        i <= s@.len(),
    ensures
        match r {
            Some(p) => spec_parse_media(s@, i as int) matches Some(q) && p.0 == q.0
                && crate::structure::entity_view(crate::structure::CssEntity::Media(p.1))
                == crate::structure::CssEntityV::Media(q.1) && i < p.0 <= s@.len(),
            None => spec_parse_media(s@, i as int) is None,
        },
    decreases s@.len() - i, 1nat,
{
    let j = parse_useless(s, i);
    if !match_prefix(s, j, "@media") {
        return None;
    }
    let n = s.unicode_len();
    let plen = "@media".unicode_len();
    let c0 = parse_useless(s, j + plen);
    let ce = parse_to_block_open(s, c0);
    if ce == c0 {
        return None;
    }
    if ce < n && s.get_char(ce) == '{' {
        let (jf, entities) = parse_document(s, ce + 1);
        if jf < n && s.get_char(jf) == '}' {
            let screen = trimmed_substr(s, c0, ce);
            Some((jf + 1, Media { screen, entities }))
        } else {
            None
        }
    } else {
        None
    }
}

/// An `@supports` rule: prefix, condition up to `{`, braced document.
pub open spec fn spec_parse_supports(s: Seq<char>, i: int) -> Option<(int, SupportsV)>
    decreases s.len() - i, 1nat,
{
    let j = skip_trivia(s, i);
    if has_prefix_at(s, j, "@supports"@) {
        let c0 = skip_trivia(s, j + "@supports"@.len());
        let ce = until_block_open(s, c0);
        if ce == c0 {
            None
        } else if 0 <= i && i <= j && j <= ce && ce < s.len() && s[ce] == '{' {
            let d = spec_parse_document(s, ce + 1);
            if d.0 < s.len() && s[d.0] == '}' {
                Some((d.0 + 1, SupportsV { conditions: trim_range(s, c0, ce), entities: d.1 }))
            } else {
                None
            }
        } else {
            None
        }
    } else {
        None
    }
}

/// Parse an `@supports` rule.
pub fn parse_supports(s: &str, i: usize) -> (r: Option<(usize, Supports)>)
    requires
        i <= s@.len(),
    ensures
        match r {
            Some(p) => spec_parse_supports(s@, i as int) matches Some(q) && p.0 == q.0
                && crate::structure::entity_view(crate::structure::CssEntity::Supports(p.1))
                == crate::structure::CssEntityV::Supports(q.1) && i < p.0 <= s@.len(),
            None => spec_parse_supports(s@, i as int) is None,
        },
    decreases s@.len() - i, 1nat,
{
    let j = parse_useless(s, i);
    if !match_prefix(s, j, "@supports") {
        return None;
    }
    let n = s.unicode_len();
    let plen = "@supports".unicode_len();
    let c0 = parse_useless(s, j + plen);
    let ce = parse_to_block_open(s, c0);
    if ce == c0 {
        return None;
    }
    if ce < n && s.get_char(ce) == '{' {
        let (jf, entities) = parse_document(s, ce + 1);
        if jf < n && s.get_char(jf) == '}' {
            let conditions = trimmed_substr(s, c0, ce);
            Some((jf + 1, Supports { conditions, entities }))
        } else {
            None
        }
    } else {
        None
    }
}

// ----------------------------------------------------------------------
// @keyframes
// ----------------------------------------------------------------------

/// One keyframe frame: a stop name up to `{`, then braced declarations.
pub open spec fn spec_parse_keyframe_block(s: Seq<char>, i: int) -> Option<(int, KeyframeBlockV)> {
    let j = skip_trivia(s, i);
    if 0 <= j && j < s.len() && s[j] != '@' && s[j] != '{' && s[j] != '}' {
        let ne = until_block_open(s, j);
        if ne == j {
            None
        } else {
            match spec_parse_block_body(s, ne) {
                Some(p) => Some((p.0, KeyframeBlockV { name: trim_range(s, j, ne), parameters: p.1 })),
                None => None,
            }
        }
    } else {
        None
    }
}

/// Parse one keyframe frame.
pub fn parse_keyframe_block(s: &str, i: usize) -> (r: Option<(usize, KeyframeBlock)>)
    requires
        i <= s@.len(),
    ensures
        match r {
            Some(p) => spec_parse_keyframe_block(s@, i as int) matches Some(q) && p.0 == q.0 && p.1@
                == q.1 && i < p.0 <= s@.len(),
            None => spec_parse_keyframe_block(s@, i as int) is None,
        },
{
    let n = s.unicode_len();
    let j = parse_useless(s, i);
    if j < n {
        let c = s.get_char(j);
        if c != '@' && c != '{' && c != '}' {
            let ne = parse_to_block_open(s, j);
            if ne == j {
                return None;
            }
            match parse_block_body(s, ne) {
                Some(p) => {
                    let name = trimmed_substr(s, j, ne);
                    return Some((p.0, KeyframeBlock { name, parameters: p.1 }));
                },
                None => {
                    return None;
                },
            }
        }
    }
    None
}

/// Zero or more keyframe frames.
pub open spec fn spec_parse_keyframe_blocks(s: Seq<char>, i: int) -> (int, Seq<KeyframeBlockV>)
    decreases s.len() - i,
{
    match spec_parse_keyframe_block(s, i) {
        Some(p) => if 0 <= i && i < p.0 && p.0 <= s.len() {
            let rest = spec_parse_keyframe_blocks(s, p.0);
            (rest.0, seq![p.1] + rest.1)
        } else {
            (i, Seq::empty())
        },
        None => (i, Seq::empty()),
    }
}

/// Parse a run of keyframe frames.
pub fn parse_keyframe_blocks(s: &str, i: usize) -> (r: (usize, Vec<KeyframeBlock>))
    requires
        i <= s@.len(),
    ensures
        r.0 == spec_parse_keyframe_blocks(s@, i as int).0,
        keyframe_block_views(r.1@) == spec_parse_keyframe_blocks(s@, i as int).1,
        i <= r.0 <= s@.len(),
    decreases s@.len() - i,
{
    match parse_keyframe_block(s, i) {
        Some(p) => {
            let (end, mut rest) = parse_keyframe_blocks(s, p.0);
            rest.insert(0, p.1);
            proof {
                assert(keyframe_block_views(rest@) =~= spec_parse_keyframe_blocks(
                    s@,
                    i as int,
                ).1);
            }
            (end, rest)
        },
        None => {
            let r: Vec<KeyframeBlock> = Vec::new();
            proof {
                assert(keyframe_block_views(r@) =~= Seq::<KeyframeBlockV>::empty());
            }
            (i, r)
        },
    }
}

/// An `@keyframes` or `@-webkit-keyframes` rule.
pub open spec fn spec_parse_keyframes(s: Seq<char>, i: int) -> Option<(int, KeyframesV)> {
    let t = skip_trivia(s, i);
    let matched = if has_prefix_at(s, t, "@keyframes"@) {
        Some((false, t + "@keyframes"@.len()))
    } else if has_prefix_at(s, t, "@-webkit-keyframes"@) {
        Some((true, t + "@-webkit-keyframes"@.len()))
    } else {
        None
    };
    match matched {
        Some(m) => {
            let j0 = skip_trivia(s, m.1);
            let ne = until_block_open(s, j0);
            if ne == j0 {
                None
            } else if ne < s.len() && s[ne] == '{' {
                let f = spec_parse_keyframe_blocks(s, ne + 1);
                let jf = skip_trivia(s, f.0);
                if jf < s.len() && s[jf] == '}' {
                    Some(
                        (
                            jf + 1,
                            KeyframesV {
                                webkit_prefix: m.0,
                                name: trim_range(s, j0, ne),
                                blocks: f.1,
                            },
                        ),
                    )
                } else {
                    None
                }
            } else {
                None
            }
        },
        None => None,
    }
}

/// Parse an `@keyframes` rule.
pub fn parse_keyframes(s: &str, i: usize) -> (r: Option<(usize, Keyframes)>)
    requires
        i <= s@.len(),
    ensures
        match r {
            Some(p) => spec_parse_keyframes(s@, i as int) matches Some(q) && p.0 == q.0 && p.1@
                == q.1 && i < p.0 <= s@.len(),
            None => spec_parse_keyframes(s@, i as int) is None,
        },
{
    let n = s.unicode_len();
    let t = parse_useless(s, i);
    let (webkit, after): (bool, usize) = if match_prefix(s, t, "@keyframes") {
        (false, t + "@keyframes".unicode_len())
    } else if match_prefix(s, t, "@-webkit-keyframes") {
        (true, t + "@-webkit-keyframes".unicode_len())
    } else {
        return None;
    };
    let j0 = parse_useless(s, after);
    let ne = parse_to_block_open(s, j0);
    if ne == j0 {
        return None;
    }
    if ne < n && s.get_char(ne) == '{' {
        let (fe, frames) = parse_keyframe_blocks(s, ne + 1);
        let jf = parse_useless(s, fe);
        if jf < n && s.get_char(jf) == '}' {
            let name = trimmed_substr(s, j0, ne);
            Some((jf + 1, Keyframes { webkit_prefix: webkit, name, blocks: KeyframeBlocks(frames) }))
        } else {
            None
        }
    } else {
        None
    }
}

// ----------------------------------------------------------------------
// Braced declaration at-rules
// ----------------------------------------------------------------------

/// `@font-face`, `@viewport` or `@-ms-viewport`: prefix, trivia, braced
/// declarations.  The result is the declaration entry list.
pub open spec fn spec_parse_decl_at(s: Seq<char>, i: int, prefix: Seq<char>) -> Option<(
    int,
    crate::structure::EntriesV,
)> {
    let t = skip_trivia(s, i);
    if has_prefix_at(s, t, prefix) {
        let j = skip_trivia(s, t + prefix.len());
        spec_parse_block_body(s, j)
    } else {
        None
    }
}

fn parse_decl_at(s: &str, i: usize, prefix: &str) -> (r: Option<(usize, crate::structure::Parameters)>)
    requires
        i <= s@.len(),
    ensures
        match r {
            Some(p) => spec_parse_decl_at(s@, i as int, prefix@) matches Some(q) && p.0 == q.0
                && p.1@ == q.1 && i < p.0 <= s@.len(),
            None => spec_parse_decl_at(s@, i as int, prefix@) is None,
        },
{
    let t = parse_useless(s, i);
    if !match_prefix(s, t, prefix) {
        return None;
    }
    let n = s.unicode_len();
    let plen = prefix.unicode_len();
    proof {
        assert(t + plen <= n);
    }
    let j = parse_useless(s, t + plen);
    parse_block_body(s, j)
}

/// Parse an `@font-face` rule.
pub fn parse_font_face(s: &str, i: usize) -> (r: Option<(usize, FontFace)>)
    requires
        i <= s@.len(),
    ensures
        match r {
            Some(p) => spec_parse_decl_at(s@, i as int, "@font-face"@) matches Some(q) && p.0 == q.0
                && p.1.parameters@ == q.1 && i < p.0 <= s@.len(),
            None => spec_parse_decl_at(s@, i as int, "@font-face"@) is None,
        },
{
    match parse_decl_at(s, i, "@font-face") {
        Some(p) => Some((p.0, FontFace { parameters: p.1 })),
        None => None,
    }
}

/// Parse an `@viewport` rule.
pub fn parse_viewport(s: &str, i: usize) -> (r: Option<(usize, Viewport)>)
    requires
        i <= s@.len(),
    ensures
        match r {
            Some(p) => spec_parse_decl_at(s@, i as int, "@viewport"@) matches Some(q) && p.0 == q.0
                && p.1.parameters@ == q.1 && i < p.0 <= s@.len(),
            None => spec_parse_decl_at(s@, i as int, "@viewport"@) is None,
        },
{
    match parse_decl_at(s, i, "@viewport") {
        Some(p) => Some((p.0, Viewport { parameters: p.1 })),
        None => None,
    }
}

/// Parse an `@-ms-viewport` rule.
pub fn parse_ms_viewport(s: &str, i: usize) -> (r: Option<(usize, MsViewport)>)
    requires
        i <= s@.len(),
    ensures
        match r {
            Some(p) => spec_parse_decl_at(s@, i as int, "@-ms-viewport"@) matches Some(q) && p.0
                == q.0 && p.1.parameters@ == q.1 && i < p.0 <= s@.len(),
            None => spec_parse_decl_at(s@, i as int, "@-ms-viewport"@) is None,
        },
{
    match parse_decl_at(s, i, "@-ms-viewport") {
        Some(p) => Some((p.0, MsViewport { parameters: p.1 })),
        None => None,
    }
}

// ----------------------------------------------------------------------
// @page
// ----------------------------------------------------------------------

/// An `@page` rule: prefix, optional selector up to `{`, braced declarations.
pub open spec fn spec_parse_page(s: Seq<char>, i: int) -> Option<(int, PageV)> {
    let t = skip_trivia(s, i);
    if has_prefix_at(s, t, "@page"@) {
        let j0 = skip_trivia(s, t + "@page"@.len());
        let ce = until_block_open(s, j0);
        let sel: Option<Seq<char>> = if ce == j0 {
            None
        } else {
            Some(trim_range(s, j0, ce))
        };
        match spec_parse_block_body(s, ce) {
            Some(p) => Some((p.0, PageV { selectors: sel, parameters: p.1 })),
            None => None,
        }
    } else {
        None
    }
}

/// Parse an `@page` rule.
pub fn parse_page(s: &str, i: usize) -> (r: Option<(usize, Page)>)
    requires
        i <= s@.len(),
    ensures
        match r {
            Some(p) => spec_parse_page(s@, i as int) matches Some(q) && p.0 == q.0 && opt_text_view(
                p.1.selectors,
            ) == q.1.selectors && p.1.parameters@ == q.1.parameters && i < p.0 <= s@.len(),
            None => spec_parse_page(s@, i as int) is None,
        },
{
    let t = parse_useless(s, i);
    if !match_prefix(s, t, "@page") {
        return None;
    }
    let n = s.unicode_len();
    let plen = "@page".unicode_len();
    proof {
        assert(t + plen <= n);
    }
    let j0 = parse_useless(s, t + plen);
    let ce = parse_to_block_open(s, j0);
    let sel: Option<String> = if ce == j0 {
        None
    } else {
        Some(trimmed_substr(s, j0, ce))
    };
    match parse_block_body(s, ce) {
        Some(p) => Some((p.0, Page { selectors: sel, parameters: p.1 })),
        None => None,
    }
}

// ----------------------------------------------------------------------
// Simple at-rules: @charset, @namespace, @import
// ----------------------------------------------------------------------

/// The content of a simple at-rule: prefix, trivia, a nonempty run up to
/// `;`, then `;`.  Gives the end position and the content's bounds.
pub open spec fn spec_parse_simple_at(s: Seq<char>, i: int, prefix: Seq<char>) -> Option<(
    int,
    (int, int),
)> {
    let t = skip_trivia(s, i);
    if has_prefix_at(s, t, prefix) {
        let c0 = skip_trivia(s, t + prefix.len());
        let ce = scan_while_not(s, c0, |c: char| c == ';');
        if ce == c0 {
            None
        } else if ce < s.len() && s[ce] == ';' {
            Some((ce + 1, (c0, ce)))
        } else {
            None
        }
    } else {
        None
    }
}

fn parse_simple_at(s: &str, i: usize, prefix: &str) -> (r: Option<(usize, (usize, usize))>)
    requires
        i <= s@.len(),
    ensures
        match r {
            Some(p) => spec_parse_simple_at(s@, i as int, prefix@) matches Some(q) && p.0 == q.0 && (
            p.1.0 as int,
            p.1.1 as int,
            ) == q.1 && i < p.0 <= s@.len() && p.1.0 <= p.1.1 && p.1.1 < p.0,
            None => spec_parse_simple_at(s@, i as int, prefix@) is None,
        },
{
    let t = parse_useless(s, i);
    if !match_prefix(s, t, prefix) {
        return None;
    }
    let n = s.unicode_len();
    let plen = prefix.unicode_len();
    let c0 = parse_useless(s, t + plen);
    let ce = crate::parsers::utils::scan_semi(s, c0);
    if ce == c0 {
        return None;
    }
    if ce < n && s.get_char(ce) == ';' {
        Some((ce + 1, (c0, ce)))
    } else {
        None
    }
}

/// An `@charset` rule; its value is the raw content.
pub open spec fn spec_parse_charset(s: Seq<char>, i: int) -> Option<(int, AtV)> {
    match spec_parse_simple_at(s, i, "@charset"@) {
        Some(p) => Some((p.0, AtV::Charset { charset: s.subrange(p.1.0, p.1.1) })),
        None => None,
    }
}

/// Parse an `@charset` rule.
pub fn parse_charset(s: &str, i: usize) -> (r: Option<(usize, CharsetAt)>)
    requires
        i <= s@.len(),
    ensures
        match r {
            Some(p) => spec_parse_charset(s@, i as int) matches Some(q) && p.0 == q.0
                && (At::Charset(p.1))@ == q.1 && i < p.0 <= s@.len(),
            None => spec_parse_charset(s@, i as int) is None,
        },
{
    match parse_simple_at(s, i, "@charset") {
        Some(p) => Some((p.0, CharsetAt { charset: substr(s, p.1.0, p.1.1) })),
        None => None,
    }
}

/// An `@namespace` rule: an optional prefix word, whitespace, then the URL.
pub open spec fn spec_parse_namespace(s: Seq<char>, i: int) -> Option<(int, AtV)> {
    match spec_parse_simple_at(s, i, "@namespace"@) {
        Some(p) => {
            let content = s.subrange(p.1.0, p.1.1);
            let we = scan_while_not(content, 0, |c: char| is_space(c));
            if we < content.len() && is_space(content[we]) {
                let se = scan_while_not(content, we, |c: char| !is_space(c));
                Some(
                    (
                        p.0,
                        AtV::Namespace {
                            prefix: Some(content.subrange(0, we)),
                            url: content.subrange(se, content.len() as int),
                        },
                    ),
                )
            } else {
                Some((p.0, AtV::Namespace { prefix: None, url: content }))
            }
        },
        None => None,
    }
}

/// Parse an `@namespace` rule.
pub fn parse_namespace(s: &str, i: usize) -> (r: Option<(usize, NamespaceAt)>)
    requires
        i <= s@.len(),
    ensures
        match r {
            Some(p) => spec_parse_namespace(s@, i as int) matches Some(q) && p.0 == q.0
                && (At::Namespace(p.1))@ == q.1 && i < p.0 <= s@.len(),
            None => spec_parse_namespace(s@, i as int) is None,
        },
{
    match parse_simple_at(s, i, "@namespace") {
        Some(p) => {
            let content = substr(s, p.1.0, p.1.1);
            let cs = content.as_str();
            let clen = cs.unicode_len();
            let we = scan_not_space(cs, 0);
            if we < clen {
                let se = scan_space(cs, we);
                let prefix = substr(cs, 0, we);
                let url = substr(cs, se, clen);
                proof {
                    crate::parsers::utils::lemma_scan_while_not(
                        cs@,
                        0,
                        |c: char| is_space(c),
                    );
                    assert(is_space(cs@[we as int]));
                }
                Some((p.0, NamespaceAt { prefix: Some(prefix), url }))
            } else {
                Some((p.0, NamespaceAt { prefix: None, url: content }))
            }
        },
        None => None,
    }
}

/// An `@import` rule: the URL word, then an optional media list.
pub open spec fn spec_parse_import(s: Seq<char>, i: int) -> Option<(int, AtV)> {
    match spec_parse_simple_at(s, i, "@import"@) {
        Some(p) => {
            let content = s.subrange(p.1.0, p.1.1);
            let ue = scan_while_not(content, 0, |c: char| is_space(c));
            if ue < content.len() && is_space(content[ue]) {
                let se = scan_while_not(content, ue, |c: char| !is_space(c));
                Some(
                    (
                        p.0,
                        AtV::Import {
                            url: content.subrange(0, ue),
                            media_queries: Some(content.subrange(se, content.len() as int)),
                        },
                    ),
                )
            } else {
                Some((p.0, AtV::Import { url: content, media_queries: None }))
            }
        },
        None => None,
    }
}

/// Parse an `@import` rule.
pub fn parse_import(s: &str, i: usize) -> (r: Option<(usize, ImportAt)>)
    requires
        i <= s@.len(),
    ensures
        match r {
            Some(p) => spec_parse_import(s@, i as int) matches Some(q) && p.0 == q.0 && (At::Import(
                p.1,
            ))@ == q.1 && i < p.0 <= s@.len(),
            None => spec_parse_import(s@, i as int) is None,
        },
{
    match parse_simple_at(s, i, "@import") {
        Some(p) => {
            let content = substr(s, p.1.0, p.1.1);
            let cs = content.as_str();
            let clen = cs.unicode_len();
            let ue = scan_not_space(cs, 0);
            if ue < clen {
                let se = scan_space(cs, ue);
                let url = substr(cs, 0, ue);
                let mq = substr(cs, se, clen);
                proof {
                    crate::parsers::utils::lemma_scan_while_not(
                        cs@,
                        0,
                        |c: char| is_space(c),
                    );
                    assert(is_space(cs@[ue as int]));
                }
                Some((p.0, ImportAt { url, media_queries: Some(mq) }))
            } else {
                Some((p.0, ImportAt { url: content, media_queries: None }))
            }
        },
        None => None,
    }
}

/// A simple at-rule: `@charset`, `@namespace` or `@import`, in that order of
/// preference.
pub open spec fn spec_parse_at(s: Seq<char>, i: int) -> Option<(int, AtV)> {
    if spec_parse_charset(s, i) is Some {
        spec_parse_charset(s, i)
    } else if spec_parse_namespace(s, i) is Some {
        spec_parse_namespace(s, i)
    } else {
        spec_parse_import(s, i)
    }
}

/// Parse a simple at-rule.
pub fn parse_at(s: &str, i: usize) -> (r: Option<(usize, At)>)
    requires
        i <= s@.len(),
    ensures
        match r {
            Some(p) => spec_parse_at(s@, i as int) matches Some(q) && p.0 == q.0 && p.1@ == q.1 && i
                < p.0 <= s@.len(),
            None => spec_parse_at(s@, i as int) is None,
        },
{
    match parse_charset(s, i) {
        Some(p) => {
            return Some((p.0, At::Charset(p.1)));
        },
        None => {},
    }
    match parse_namespace(s, i) {
        Some(p) => {
            return Some((p.0, At::Namespace(p.1)));
        },
        None => {},
    }
    match parse_import(s, i) {
        Some(p) => {
            return Some((p.0, At::Import(p.1)));
        },
        None => {},
    }
    None
}

} // verus!
