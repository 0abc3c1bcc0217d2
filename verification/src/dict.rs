//! The insertion-ordered dictionary that declaration maps are built on, and
//! the mathematical model of its entry list.
//!
//! Declarations of a CSS block form an insertion-ordered mapping from
//! property name to value text with unique keys.  The executable container is
//! `indexmap::IndexMap<String, String>`; its contents are modelled as a
//! sequence of (key, value) pairs, named by `entries`.  Every operation used
//! by the library is wrapped here with a contract that states, over that
//! model, exactly what the crate's documentation promises of it.

use vstd::prelude::*;

verus! {

#[verifier::external_type_specification]
#[verifier::external_body]
#[verifier::reject_recursive_types(K)]
#[verifier::reject_recursive_types(V)]
#[verifier::reject_recursive_types(S)]
pub struct ExIndexMap<K, V, S>(indexmap::IndexMap<K, V, S>);

/// The entry list of an ordered dictionary: its (key, value) pairs in order.
pub uninterp spec fn entries(m: indexmap::IndexMap<String, String>) -> Seq<(Seq<char>, Seq<char>)>;

/// Relies on `IndexMap`'s `Clone`; nothing is assumed of the copy.
pub assume_specification<K: Clone, V: Clone, S: Clone>[ <indexmap::IndexMap<
    K,
    V,
    S,
> as Clone>::clone ](m: &indexmap::IndexMap<K, V, S>) -> indexmap::IndexMap<K, V, S>;

/// Index of the entry holding `key`, or -1 when no entry does.
pub open spec fn find_key(es: Seq<(Seq<char>, Seq<char>)>, key: Seq<char>) -> int
    decreases es.len(),
{
    if es.len() == 0 {
        -1
    } else if es.first().0 == key {
        0
    } else {
        let r = find_key(es.drop_first(), key);
        if r == -1 {
            -1
        } else {
            r + 1
        }
    }
}

pub open spec fn has_key(es: Seq<(Seq<char>, Seq<char>)>, key: Seq<char>) -> bool {
    find_key(es, key) >= 0
}

/// Value stored under `key`, if any.
pub open spec fn entries_get(es: Seq<(Seq<char>, Seq<char>)>, key: Seq<char>) -> Option<
    Seq<char>,
> {
    if has_key(es, key) {
        Some(es[find_key(es, key)].1)
    } else {
        None
    }
}

/// Entry list after an insert: an existing key keeps its place and takes the
/// new value; a new key is appended.
pub open spec fn entries_insert(
    es: Seq<(Seq<char>, Seq<char>)>,
    key: Seq<char>,
    value: Seq<char>,
) -> Seq<(Seq<char>, Seq<char>)> {
    let i = find_key(es, key);
    if i >= 0 {
        es.update(i, (key, value))
    } else {
        es.push((key, value))
    }
}

/// Entry list after a swap-remove: the removed slot is filled by the last
/// entry, which is popped off the end.
pub open spec fn entries_swap_remove(es: Seq<(Seq<char>, Seq<char>)>, key: Seq<char>) -> Seq<
    (Seq<char>, Seq<char>),
> {
    let i = find_key(es, key);
    if i == -1 {
        es
    } else if i == es.len() - 1 {
        es.drop_last()
    } else {
        es.update(i, es.last()).drop_last()
    }
}

/// No two entries share a key.
pub open spec fn unique_keys(es: Seq<(Seq<char>, Seq<char>)>) -> bool {
    forall|i: int, j: int| 0 <= i < j < es.len() ==> es[i].0 != es[j].0
}

pub proof fn lemma_find_key(es: Seq<(Seq<char>, Seq<char>)>, key: Seq<char>)
    ensures
        find_key(es, key) >= -1,
        find_key(es, key) == -1 ==> forall|i: int| 0 <= i < es.len() ==> es[i].0 != key,
        find_key(es, key) >= 0 ==> find_key(es, key) < es.len() && es[find_key(es, key)].0 == key
            && forall|i: int| 0 <= i < find_key(es, key) ==> es[i].0 != key,
    decreases es.len(),
{
    if es.len() > 0 && es.first().0 != key {
        lemma_find_key(es.drop_first(), key);
        let r = find_key(es.drop_first(), key);
        if r == -1 {
            assert forall|i: int| 0 <= i < es.len() implies es[i].0 != key by {
                if i > 0 {
                    assert(es.drop_first()[i - 1] == es[i]);
                }
            }
        } else {
            assert(es[r + 1] == es.drop_first()[r]);
            assert forall|i: int| 0 <= i < r + 1 implies es[i].0 != key by {
                if i > 0 {
                    assert(es.drop_first()[i - 1] == es[i]);
                }
            }
        }
    }
}

/// A key found in a prefix of distinct keys is found at the same index.
pub proof fn lemma_insert_keeps_unique(
    es: Seq<(Seq<char>, Seq<char>)>,
    key: Seq<char>,
    value: Seq<char>,
)
    requires
        unique_keys(es),
    ensures
        unique_keys(entries_insert(es, key, value)),
{
    lemma_find_key(es, key);
    let i = find_key(es, key);
    if i >= 0 {
        let es2 = es.update(i, (key, value));
        assert forall|p: int, q: int| 0 <= p < q < es2.len() implies es2[p].0 != es2[q].0 by {
            assert(es[p].0 != es[q].0);
            assert(es2[p].0 == if p == i {
                key
            } else {
                es[p].0
            });
            assert(es2[q].0 == if q == i {
                key
            } else {
                es[q].0
            });
            assert(es[i].0 == key);
        }
    } else {
        let es2 = es.push((key, value));
        assert forall|p: int, q: int| 0 <= p < q < es2.len() implies es2[p].0 != es2[q].0 by {
            if q < es.len() {
                assert(es2[p] == es[p] && es2[q] == es[q]);
            } else {
                assert(es2[q].0 == key && es2[p] == es[p]);
            }
        }
    }
}

/// With unique keys, an entry's position is exactly where its key is found.
pub proof fn lemma_get_witness(es: Seq<(Seq<char>, Seq<char>)>, key: Seq<char>, j: int)
    requires
        unique_keys(es),
        0 <= j < es.len(),
        es[j].0 == key,
    ensures
        find_key(es, key) == j,
        entries_get(es, key) == Some(es[j].1),
{
    lemma_find_key(es, key);
    let f = find_key(es, key);
    if f == -1 {
        assert(es[j].0 != key);
    } else {
        if f < j {
            assert(es[f].0 != es[j].0);
        } else if j < f {
            assert(es[j].0 != key);
        }
    }
}

/// An insert stores the new value under its key and touches no other key.
pub proof fn lemma_insert_get(
    es: Seq<(Seq<char>, Seq<char>)>,
    key: Seq<char>,
    value: Seq<char>,
    k2: Seq<char>,
)
    requires
        unique_keys(es),
    ensures
        entries_get(entries_insert(es, key, value), k2) == (if k2 == key {
            Some(value)
        } else {
            entries_get(es, k2)
        }),
{
    lemma_find_key(es, key);
    lemma_find_key(es, k2);
    lemma_insert_keeps_unique(es, key, value);
    let es2 = entries_insert(es, key, value);
    let i = find_key(es, key);
    if i >= 0 {
        if k2 == key {
            lemma_get_witness(es2, k2, i);
        } else {
            let f2 = find_key(es, k2);
            if f2 >= 0 {
                assert(es2[f2] == es[f2]);
                lemma_get_witness(es2, k2, f2);
            } else {
                lemma_find_key(es2, k2);
                let g = find_key(es2, k2);
                if g >= 0 {
                    assert(es2[g].0 == k2);
                    assert(es[g].0 == if g == i {
                        key
                    } else {
                        es2[g].0
                    });
                    assert(false);
                }
            }
        }
    } else {
        if k2 == key {
            lemma_get_witness(es2, k2, es.len() as int);
        } else {
            let f2 = find_key(es, k2);
            if f2 >= 0 {
                assert(es2[f2] == es[f2]);
                lemma_get_witness(es2, k2, f2);
            } else {
                lemma_find_key(es2, k2);
                let g = find_key(es2, k2);
                if g >= 0 {
                    assert(es2[g].0 == k2);
                    if g < es.len() {
                        assert(es[g].0 == k2);
                        assert(false);
                    } else {
                        assert(es2[g].0 == key);
                        assert(false);
                    }
                }
            }
        }
    }
}

/// A swap-remove clears its key and touches no other key.
pub proof fn lemma_swap_remove_get(
    es: Seq<(Seq<char>, Seq<char>)>,
    key: Seq<char>,
    k2: Seq<char>,
)
    requires
        unique_keys(es),
    ensures
        entries_get(entries_swap_remove(es, key), k2) == (if k2 == key {
            None
        } else {
            entries_get(es, k2)
        }),
{
    lemma_find_key(es, key);
    lemma_find_key(es, k2);
    lemma_swap_remove_keeps_unique(es, key);
    let es2 = entries_swap_remove(es, key);
    let i = find_key(es, key);
    let n = es.len() as int;
    if i == -1 {
        if k2 == key {
        }
    } else {
        if k2 == key {
            lemma_find_key(es2, key);
            let g = find_key(es2, key);
            if g >= 0 {
                assert(es2[g].0 == key);
                if i == n - 1 {
                    assert(es[g].0 == key);
                    assert(g != i ==> es[g].0 != es[i].0);
                    assert(false);
                } else {
                    if g == i {
                        assert(es2[g] == es[n - 1]);
                        assert(es[n - 1].0 != es[i].0);
                        assert(false);
                    } else {
                        assert(es2[g] == es[g]);
                        assert(es[g].0 != es[i].0);
                        assert(false);
                    }
                }
            }
        } else {
            let f2 = find_key(es, k2);
            if f2 >= 0 {
                if i == n - 1 {
                    assert(f2 != i);
                    assert(es2[f2] == es[f2]);
                    lemma_get_witness(es2, k2, f2);
                } else {
                    if f2 == n - 1 {
                        assert(es2[i] == es[n - 1]);
                        lemma_get_witness(es2, k2, i);
                    } else {
                        assert(f2 != i);
                        assert(es2[f2] == es[f2]);
                        lemma_get_witness(es2, k2, f2);
                    }
                }
            } else {
                lemma_find_key(es2, k2);
                let g = find_key(es2, k2);
                if g >= 0 {
                    assert(es2[g].0 == k2);
                    if i == n - 1 {
                        assert(es[g].0 == k2);
                        assert(false);
                    } else {
                        if g == i {
                            assert(es[n - 1].0 == k2);
                            assert(false);
                        } else {
                            assert(es[g].0 == k2);
                            assert(false);
                        }
                    }
                }
            }
        }
    }
}

pub proof fn lemma_swap_remove_keeps_unique(es: Seq<(Seq<char>, Seq<char>)>, key: Seq<char>)
    requires
        unique_keys(es),
    ensures
        unique_keys(entries_swap_remove(es, key)),
{
    lemma_find_key(es, key);
    let i = find_key(es, key);
    if i >= 0 {
        if i == es.len() - 1 {
            let es2 = es.drop_last();
            assert forall|p: int, q: int| 0 <= p < q < es2.len() implies es2[p].0 != es2[q].0 by {
                assert(es2[p] == es[p] && es2[q] == es[q]);
            }
        } else {
            let es2 = es.update(i, es.last()).drop_last();
            assert forall|p: int, q: int| 0 <= p < q < es2.len() implies es2[p].0 != es2[q].0 by {
                let n = es.len() - 1;
                assert(es2[p] == if p == i {
                    es[n]
                } else {
                    es[p]
                });
                assert(es2[q] == if q == i {
                    es[n]
                } else {
                    es[q]
                });
            }
        }
    }
}

} // verus!
