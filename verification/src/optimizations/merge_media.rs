//! Duplicate-media merging: each `@media` condition is normalized by
//! removing spaces after colons, so that equivalent queries share a key;
//! media entities with the same normalized condition are grouped and their
//! bodies concatenated in order.  Other entities keep their relative order,
//! with `@supports` bodies walked recursively; the merged media rules follow
//! them, in first-appearance order.

use crate::structure::{
    CssEntities, CssEntity, CssEntityV, Media, MediaV, Supports, SupportsV, entity_view,
    entity_views, lemma_entity_views, lemma_entity_views_add,
};
use crate::text::{replace_all, replace_all_str, str_eq};
use vstd::prelude::*;

verus! {

/// The duplicate-media merge pass.
#[derive(Default, Debug, Clone)]
pub struct MergeMedia;

/// A media condition with spaces after colons removed.
pub open spec fn normalize_screen(s: Seq<char>) -> Seq<char> {
    replace_all(s, ": "@, ":"@)
}

fn normalize_screen_exec(s: &str) -> (r: String)
    ensures
        r@ == normalize_screen(s@),
{
    proof {
        reveal_strlit(": ");
    }
    replace_all_str(s, ": ", ":")
}

/// The first media group at or after `i` keyed by `key`, or -1.
pub open spec fn media_idx_from(
    gs: Seq<(Seq<char>, Seq<CssEntityV>)>,
    key: Seq<char>,
    i: int,
) -> int
    decreases gs.len() - i,
{
    if i < 0 || i >= gs.len() {
        -1
    } else if gs[i].0 == key {
        i
    } else {
        media_idx_from(gs, key, i + 1)
    }
}

/// The media groups after one media rule is taken: a group with the same
/// normalized condition absorbs its body; otherwise a new group is appended.
pub open spec fn media_group_add(
    gs: Seq<(Seq<char>, Seq<CssEntityV>)>,
    key: Seq<char>,
    ents: Seq<CssEntityV>,
) -> Seq<(Seq<char>, Seq<CssEntityV>)> {
    let i = media_idx_from(gs, key, 0);
    if i >= 0 {
        gs.update(i, (gs[i].0, gs[i].1 + ents))
    } else {
        gs.push((key, ents))
    }
}

/// The walk over a document: media rules are folded into groups, everything
/// else is kept in order, with `@supports` bodies merged recursively.
pub open spec fn mm_walk(
    es: Seq<CssEntityV>,
    nb: Seq<CssEntityV>,
    gs: Seq<(Seq<char>, Seq<CssEntityV>)>,
) -> (Seq<CssEntityV>, Seq<(Seq<char>, Seq<CssEntityV>)>)
    decreases es, 0nat,
{
    if es.len() == 0 {
        (nb, gs)
    } else {
        match es.first() {
            CssEntityV::Media(m) => mm_walk(
                es.drop_first(),
                nb,
                media_group_add(gs, normalize_screen(m.screen), m.entities),
            ),
            CssEntityV::Supports(s) => mm_walk(
                es.drop_first(),
                nb.push(
                    CssEntityV::Supports(
                        SupportsV { conditions: s.conditions, entities: mm_doc(s.entities) },
                    ),
                ),
                gs,
            ),
            e => mm_walk(es.drop_first(), nb.push(e), gs),
        }
    }
}

/// The merged media rules of the groups, in first-appearance order.
pub open spec fn medias_of(gs: Seq<(Seq<char>, Seq<CssEntityV>)>) -> Seq<CssEntityV>
    decreases gs.len(),
{
    if gs.len() == 0 {
        Seq::empty()
    } else {
        seq![CssEntityV::Media(MediaV { screen: gs.first().0, entities: gs.first().1 })]
            + medias_of(gs.drop_first())
    }
}

/// A document with duplicate media rules merged.
pub open spec fn mm_doc(es: Seq<CssEntityV>) -> Seq<CssEntityV>
    decreases es, 1nat,
{
    let w = mm_walk(es, Seq::empty(), Seq::empty());
    w.0 + medias_of(w.1)
}

pub open spec fn media_views(gs: Seq<(String, CssEntities)>) -> Seq<(Seq<char>, Seq<CssEntityV>)> {
    gs.map_values(|g: (String, CssEntities)| (g.0@, g.1@))
}

fn media_find(gs: &Vec<(String, CssEntities)>, key: &str, i: usize) -> (r: Option<usize>)
    requires
        i <= gs@.len(),
    ensures
        match r {
            Some(j) => media_idx_from(media_views(gs@), key@, i as int) == j && i <= j < gs@.len(),
            None => media_idx_from(media_views(gs@), key@, i as int) == -1,
        },
    decreases gs@.len() - i,
{
    if i < gs.len() {
        proof {
            assert(media_views(gs@)[i as int] == (gs@[i as int].0@, gs@[i as int].1@));
        }
        if str_eq(gs[i].0.as_str(), key) {
            Some(i)
        } else {
            media_find(gs, key, i + 1)
        }
    } else {
        None
    }
}

fn media_group_add_exec(gs: Vec<(String, CssEntities)>, key: String, ents: CssEntities) -> (r: Vec<
    (String, CssEntities),
>)
    ensures
        media_views(r@) == media_group_add(media_views(gs@), key@, ents@),
{
    match media_find(&gs, key.as_str(), 0) {
        Some(i) => {
            let mut gs = gs;
            let ghost orig = gs@;
            let g = gs.remove(i);
            let CssEntities(mut body) = g.1;
            let CssEntities(mut add) = ents;
            let ghost bodyv = body@;
            let ghost addv = add@;
            body.append(&mut add);
            proof {
                lemma_entity_views_add(bodyv, addv);
            }
            gs.insert(i, (g.0, CssEntities(body)));
            proof {
                assert(media_views(gs@) =~~= media_group_add(media_views(orig), key@, ents@));
            }
            gs
        },
        None => {
            let mut gs = gs;
            let ghost orig = gs@;
            gs.push((key, ents));
            proof {
                assert(media_views(gs@) =~~= media_group_add(media_views(orig), key@, ents@));
            }
            gs
        },
    }
}

fn mm_walk_exec(es: Vec<CssEntity>, nb: Vec<CssEntity>, gs: Vec<(String, CssEntities)>) -> (r: (
    Vec<CssEntity>,
    Vec<(String, CssEntities)>,
))
    ensures
        entity_views(r.0@) == mm_walk(entity_views(es@), entity_views(nb@), media_views(gs@)).0,
        media_views(r.1@) == mm_walk(entity_views(es@), entity_views(nb@), media_views(gs@)).1,
    decreases es@, 0nat,
{
    let mut es = es;
    if es.len() == 0 {
        proof {
            assert(entity_views(es@) =~= Seq::<CssEntityV>::empty());
        }
        (nb, gs)
    } else {
        let ghost orig = es@;
        let first = es.remove(0);
        proof {
            lemma_entity_views(orig);
            assert(entity_views(orig).first() == entity_view(orig.first()));
            lemma_entity_views(orig.drop_first());
            assert(entity_views(orig).drop_first() =~= entity_views(orig.drop_first()));
        }
        match first {
            CssEntity::Media(m) => {
                let Media { screen, entities } = m;
                let key = normalize_screen_exec(screen.as_str());
                let gs = media_group_add_exec(gs, key, entities);
                mm_walk_exec(es, nb, gs)
            },
            CssEntity::Supports(s) => {
                let Supports { conditions, entities } = s;
                let inner = mm_transform(entities);
                let mut nb = nb;
                let ghost nb0 = nb@;
                nb.push(CssEntity::Supports(Supports { conditions, entities: inner }));
                proof {
                    lemma_entity_views(nb@);
                    lemma_entity_views(nb0);
                    assert(entity_views(nb@) =~= entity_views(nb0).push(
                        entity_view(nb@.last()),
                    ));
                }
                mm_walk_exec(es, nb, gs)
            },
            other => {
                let mut nb = nb;
                let ghost nb0 = nb@;
                nb.push(other);
                proof {
                    lemma_entity_views(nb@);
                    lemma_entity_views(nb0);
                    assert(entity_views(nb@) =~= entity_views(nb0).push(
                        entity_view(nb@.last()),
                    ));
                }
                mm_walk_exec(es, nb, gs)
            },
        }
    }
}

fn push_merged_media(out: Vec<CssEntity>, gs: Vec<(String, CssEntities)>) -> (r: Vec<CssEntity>)
    ensures
        entity_views(r@) == entity_views(out@) + medias_of(media_views(gs@)),
    decreases gs@.len(),
{
    let mut gs = gs;
    if gs.len() == 0 {
        proof {
            assert(entity_views(out@) + medias_of(media_views(gs@)) =~= entity_views(out@));
        }
        out
    } else {
        let ghost gorig = gs@;
        let g = gs.remove(0);
        let mut out = out;
        let ghost out0 = out@;
        out.push(CssEntity::Media(Media { screen: g.0, entities: g.1 }));
        let r = push_merged_media(out, gs);
        proof {
            lemma_entity_views(out@);
            lemma_entity_views(out0);
            assert(entity_views(out@) =~= entity_views(out0).push(entity_view(out@.last())));
            assert(media_views(gs@) =~= media_views(gorig).drop_first());
            assert(media_views(gorig).first() == (gorig.first().0@, gorig.first().1@));
            assert(entity_views(r@) =~= entity_views(out0) + medias_of(media_views(gorig)));
        }
        r
    }
}

/// Merge duplicate media rules throughout a document.
pub fn mm_transform(es: CssEntities) -> (r: CssEntities)
    ensures
        r@ == mm_doc(es@),
    decreases es.0@, 1nat,
{
    let CssEntities(v) = es;
    let (nb, gs) = mm_walk_exec(v, Vec::new(), Vec::new());
    proof {
        assert(entity_views(Seq::<CssEntity>::empty()) =~= Seq::<CssEntityV>::empty());
        assert(media_views(Seq::<(String, CssEntities)>::empty()) =~= Seq::<(
            Seq<char>,
            Seq<CssEntityV>,
        )>::empty());
    }
    let out = push_merged_media(nb, gs);
    CssEntities(out)
}

impl MergeMedia {
    /// Merge duplicate media rules throughout a document.
    pub fn transform_many(&self, entities: CssEntities) -> (r: CssEntities)
        ensures
            r@ == mm_doc(entities@),
    {
        mm_transform(entities)
    }
}

} // verus!
