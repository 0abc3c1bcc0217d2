//! Duplicate-block merging: within a document, rule blocks are grouped by
//! the canonical printed form of their selector list; each group becomes one
//! block whose declarations are the insertion-order union of the group's,
//! later duplicates overwriting earlier entries in place.  Entities that are
//! not rule blocks keep their relative order, with the bodies of `@media`
//! and `@supports` walked recursively; the merged blocks follow them, in
//! first-appearance order of each group.

use crate::dict::{
    entries_get, entries_insert, find_key, has_key, lemma_find_key, lemma_insert_get,
    lemma_insert_keeps_unique, unique_keys,
};
use crate::printer::render_selectors;
use crate::structure::{
    Block, BlockV, CssEntities, CssEntity, CssEntityV, EntriesV, Media, MediaV, Supports,
    SupportsV, entity_view, entity_views, lemma_entity_views,
};
use crate::text::str_eq;
use vstd::prelude::*;

verus! {

/// The duplicate-block merge pass.
#[derive(Default, Debug, Clone)]
pub struct MergeBlocks;

/// The first group at or after `i` keyed by `key`, or -1.
pub open spec fn group_idx_from(gs: Seq<(Seq<char>, BlockV)>, key: Seq<char>, i: int) -> int
    decreases gs.len() - i,
{
    if i < 0 || i >= gs.len() {
        -1
    } else if gs[i].0 == key {
        i
    } else {
        group_idx_from(gs, key, i + 1)
    }
}

/// The union of two declaration lists: the entries of `add` from `i` on
/// inserted into `base` in order.
pub open spec fn entries_union_from(base: EntriesV, add: EntriesV, i: int) -> EntriesV
    decreases add.len() - i,
{
    if i < 0 || i >= add.len() {
        base
    } else {
        entries_union_from(entries_insert(base, add[i].0, add[i].1), add, i + 1)
    }
}

/// The groups after one block is taken: an existing group with the block's
/// canonical selector text absorbs its declarations; otherwise a new group
/// is appended.
pub open spec fn group_add(gs: Seq<(Seq<char>, BlockV)>, b: BlockV) -> Seq<(Seq<char>, BlockV)> {
    let key = render_selectors(b.selectors);
    let i = group_idx_from(gs, key, 0);
    if i >= 0 {
        gs.update(
            i,
            (
                key,
                BlockV {
                    selectors: gs[i].1.selectors,
                    parameters: entries_union_from(gs[i].1.parameters, b.parameters, 0),
                },
            ),
        )
    } else {
        gs.push((key, b))
    }
}

/// The walk over a document: blocks are folded into groups, everything else
/// is kept in order, with `@media` and `@supports` bodies merged recursively.
pub open spec fn mb_walk(
    es: Seq<CssEntityV>,
    nb: Seq<CssEntityV>,
    gs: Seq<(Seq<char>, BlockV)>,
) -> (Seq<CssEntityV>, Seq<(Seq<char>, BlockV)>)
    decreases es, 0nat,
{
    if es.len() == 0 {
        (nb, gs)
    } else {
        match es.first() {
            CssEntityV::Block(b) => mb_walk(es.drop_first(), nb, group_add(gs, b)),
            CssEntityV::Media(m) => mb_walk(
                es.drop_first(),
                nb.push(
                    CssEntityV::Media(MediaV { screen: m.screen, entities: mb_doc(m.entities) }),
                ),
                gs,
            ),
            CssEntityV::Supports(s) => mb_walk(
                es.drop_first(),
                nb.push(
                    CssEntityV::Supports(
                        SupportsV { conditions: s.conditions, entities: mb_doc(s.entities) },
                    ),
                ),
                gs,
            ),
            e => mb_walk(es.drop_first(), nb.push(e), gs),
        }
    }
}

/// The merged blocks of the groups, in first-appearance order.
pub open spec fn blocks_of(gs: Seq<(Seq<char>, BlockV)>) -> Seq<CssEntityV>
    decreases gs.len(),
{
    if gs.len() == 0 {
        Seq::empty()
    } else {
        seq![CssEntityV::Block(gs.first().1)] + blocks_of(gs.drop_first())
    }
}

/// A document with duplicate blocks merged.
pub open spec fn mb_doc(es: Seq<CssEntityV>) -> Seq<CssEntityV>
    decreases es, 1nat,
{
    let w = mb_walk(es, Seq::empty(), Seq::empty());
    w.0 + blocks_of(w.1)
}

pub open spec fn group_views(gs: Seq<(String, Block)>) -> Seq<(Seq<char>, BlockV)> {
    gs.map_values(|g: (String, Block)| (g.0@, g.1@))
}

fn group_find(gs: &Vec<(String, Block)>, key: &str, i: usize) -> (r: Option<usize>)
    requires
        i <= gs@.len(),
    ensures
        match r {
            Some(j) => group_idx_from(group_views(gs@), key@, i as int) == j && i <= j < gs@.len(),
            None => group_idx_from(group_views(gs@), key@, i as int) == -1,
        },
    decreases gs@.len() - i,
{
    if i < gs.len() {
        proof {
            assert(group_views(gs@)[i as int] == (gs@[i as int].0@, gs@[i as int].1@));
        }
        if str_eq(gs[i].0.as_str(), key) {
            Some(i)
        } else {
            group_find(gs, key, i + 1)
        }
    } else {
        None
    }
}

fn merge_params_into(base: crate::structure::Parameters, add: &crate::structure::Parameters, i: usize) -> (r:
    crate::structure::Parameters)
    ensures
        r@ == entries_union_from(base@, add@, i as int),
    decreases add@.len() - i,
{
    let mut base = base;
    match add.get_index(i) {
        Some(kv) => {
            let n = add.len();
            proof {
                assert(i < n);
            }
            base.insert(kv.0, kv.1);
            merge_params_into(base, add, i + 1)
        },
        None => base,
    }
}

fn group_add_exec(gs: Vec<(String, Block)>, b: Block) -> (r: Vec<(String, Block)>)
    ensures
        group_views(r@) == group_add(group_views(gs@), b@),
{
    let key = b.selectors.to_css();
    match group_find(&gs, key.as_str(), 0) {
        Some(i) => {
            let mut gs = gs;
            let ghost orig = gs@;
            let g = gs.remove(i);
            let merged = Block {
                selectors: g.1.selectors,
                parameters: merge_params_into(g.1.parameters, &b.parameters, 0),
            };
            gs.insert(i, (key, merged));
            proof {
                assert(group_views(gs@) =~~= group_add(group_views(orig), b@));
            }
            gs
        },
        None => {
            let mut gs = gs;
            let ghost orig = gs@;
            gs.push((key, b));
            proof {
                assert(group_views(gs@) =~~= group_add(group_views(orig), b@));
            }
            gs
        },
    }
}

fn mb_walk_exec(es: Vec<CssEntity>, nb: Vec<CssEntity>, gs: Vec<(String, Block)>) -> (r: (
    Vec<CssEntity>,
    Vec<(String, Block)>,
))
    ensures
        entity_views(r.0@) == mb_walk(entity_views(es@), entity_views(nb@), group_views(gs@)).0,
        group_views(r.1@) == mb_walk(entity_views(es@), entity_views(nb@), group_views(gs@)).1,
    decreases es@, 0nat,
{
    let mut es = es;
    if es.len() == 0 {
        proof {
            assert(entity_views(es@) =~= Seq::<CssEntityV>::empty());
        }
        (nb, gs)
    } else {
        let ghost orig = es@;
        let first = es.remove(0);
        proof {
            lemma_entity_views(orig);
            assert(entity_views(orig).first() == entity_view(orig.first()));
            lemma_entity_views(orig.drop_first());
            assert(entity_views(orig).drop_first() =~= entity_views(orig.drop_first()));
        }
        match first {
            CssEntity::Block(b) => {
                let gs = group_add_exec(gs, b);
                mb_walk_exec(es, nb, gs)
            },
            CssEntity::Media(m) => {
                let Media { screen, entities } = m;
                let inner = mb_transform(entities);
                let mut nb = nb;
                let ghost nb0 = nb@;
                nb.push(CssEntity::Media(Media { screen, entities: inner }));
                proof {
                    lemma_entity_views(nb@);
                    lemma_entity_views(nb0);
                    assert(entity_views(nb@) =~= entity_views(nb0).push(
                        entity_view(nb@.last()),
                    ));
                }
                mb_walk_exec(es, nb, gs)
            },
            CssEntity::Supports(s) => {
                let Supports { conditions, entities } = s;
                let inner = mb_transform(entities);
                let mut nb = nb;
                let ghost nb0 = nb@;
                nb.push(CssEntity::Supports(Supports { conditions, entities: inner }));
                proof {
                    lemma_entity_views(nb@);
                    lemma_entity_views(nb0);
                    assert(entity_views(nb@) =~= entity_views(nb0).push(
                        entity_view(nb@.last()),
                    ));
                }
                mb_walk_exec(es, nb, gs)
            },
            other => {
                let mut nb = nb;
                let ghost nb0 = nb@;
                nb.push(other);
                proof {
                    lemma_entity_views(nb@);
                    lemma_entity_views(nb0);
                    assert(entity_views(nb@) =~= entity_views(nb0).push(
                        entity_view(nb@.last()),
                    ));
                }
                mb_walk_exec(es, nb, gs)
            },
        }
    }
}

fn push_merged_blocks(out: Vec<CssEntity>, gs: Vec<(String, Block)>) -> (r: Vec<CssEntity>)
    ensures
        entity_views(r@) == entity_views(out@) + blocks_of(group_views(gs@)),
    decreases gs@.len(),
{
    let mut gs = gs;
    if gs.len() == 0 {
        proof {
            assert(entity_views(out@) + blocks_of(group_views(gs@)) =~= entity_views(out@));
        }
        out
    } else {
        let ghost gorig = gs@;
        let g = gs.remove(0);
        let mut out = out;
        let ghost out0 = out@;
        out.push(CssEntity::Block(g.1));
        let r = push_merged_blocks(out, gs);
        proof {
            lemma_entity_views(out0.push(CssEntity::Block(g.1)));
            lemma_entity_views(out0);
            assert(entity_views(out0.push(CssEntity::Block(g.1))) =~= entity_views(out0).push(
                entity_view(CssEntity::Block(g.1)),
            ));
            assert(group_views(gs@) =~= group_views(gorig).drop_first());
            assert(group_views(gorig).first() == (gorig.first().0@, gorig.first().1@));
            assert(entity_views(r@) =~= entity_views(out0) + blocks_of(group_views(gorig)));
        }
        r
    }
}

/// Merge duplicate blocks throughout a document.
pub fn mb_transform(es: CssEntities) -> (r: CssEntities)
    ensures
        r@ == mb_doc(es@),
    decreases es.0@, 1nat,
{
    let CssEntities(v) = es;
    let (nb, gs) = mb_walk_exec(v, Vec::new(), Vec::new());
    proof {
        assert(entity_views(Seq::<CssEntity>::empty()) =~= Seq::<CssEntityV>::empty());
        assert(group_views(Seq::<(String, Block)>::empty()) =~= Seq::<(
            Seq<char>,
            BlockV,
        )>::empty());
    }
    let out = push_merged_blocks(nb, gs);
    CssEntities(out)
}

/// The value the union holds under a key: the last one the later list gave,
/// or the earlier list's value when the later list never names the key.
proof fn lemma_union_get_from(base: EntriesV, add: EntriesV, i: int, k: Seq<char>)
    requires
        unique_keys(base),
        0 <= i,
    ensures
        unique_keys(entries_union_from(base, add, i)),
        entries_get(entries_union_from(base, add, i), k) == ({
            let rest = suffix_last_get(add, k, i);
            if rest is Some {
                rest
            } else {
                entries_get(base, k)
            }
        }),
    decreases add.len() - i,
{
    if i < add.len() {
        lemma_insert_keeps_unique(base, add[i].0, add[i].1);
        lemma_insert_get(base, add[i].0, add[i].1, k);
        lemma_union_get_from(entries_insert(base, add[i].0, add[i].1), add, i + 1, k);
    }
}

/// The last value the list gives for `k` at or after `i`, if any.
pub open spec fn suffix_last_get(add: EntriesV, k: Seq<char>, i: int) -> Option<Seq<char>>
    decreases add.len() - i,
{
    if i < 0 || i >= add.len() {
        None
    } else {
        let rest = suffix_last_get(add, k, i + 1);
        if rest is Some {
            rest
        } else if add[i].0 == k {
            Some(add[i].1)
        } else {
            None
        }
    }
}

proof fn lemma_suffix_last_unique(add: EntriesV, k: Seq<char>, i: int)
    requires
        unique_keys(add),
        0 <= i,
    ensures
        i == 0 ==> suffix_last_get(add, k, 0) == entries_get(add, k),
        suffix_last_get(add, k, i) is Some ==> exists|j: int|
            i <= j < add.len() && add[j].0 == k && add[j].1 == suffix_last_get(add, k, i)->0,
        suffix_last_get(add, k, i) is None ==> forall|j: int|
            i <= j < add.len() ==> add[j].0 != k,
    decreases add.len() - i,
{
    if i < add.len() {
        lemma_suffix_last_unique(add, k, i + 1);
    }
    if i == 0 {
        lemma_find_key(add, k);
        let f = find_key(add, k);
        if f >= 0 {
            let s = suffix_last_get(add, k, 0);
            if s is Some {
                let j = choose|j: int|
                    0 <= j < add.len() && add[j].0 == k && add[j].1 == s->0;
                if j != f {
                    assert(add[j].0 != add[f].0);
                }
            } else {
                assert(add[f].0 != k);
            }
        } else {
            let s = suffix_last_get(add, k, 0);
            if s is Some {
                let j = choose|j: int|
                    0 <= j < add.len() && add[j].0 == k && add[j].1 == s->0;
                assert(add[j].0 != k);
            }
        }
    }
}

/// What merging two same-selector blocks leaves under each property: the
/// later block's value where it declares the property, else the earlier
/// block's value.  This is the final-value-per-property rule of the
/// duplicate-block merge.
pub proof fn lemma_merged_block_final_values(base: EntriesV, add: EntriesV, k: Seq<char>)
    requires
        unique_keys(base),
        unique_keys(add),
    ensures
        unique_keys(entries_union_from(base, add, 0)),
        entries_get(entries_union_from(base, add, 0), k) == (if has_key(add, k) {
            entries_get(add, k)
        } else {
            entries_get(base, k)
        }),
{
    lemma_union_get_from(base, add, 0, k);
    lemma_suffix_last_unique(add, k, 0);
}

impl MergeBlocks {
    /// Merge duplicate blocks throughout a document.
    pub fn transform_many(&self, entities: CssEntities) -> (r: CssEntities)
        ensures
            r@ == mb_doc(entities@),
    {
        mb_transform(entities)
    }
}

} // verus!
