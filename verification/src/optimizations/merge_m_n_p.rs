//! The box-sides merge: when all four `margin-*` (or `padding-*`) sides are
//! declared, they are replaced by one shorthand in the minimal form, with
//! `!important` kept only when the four sides carry it uniformly.

use crate::dict::{
    entries_get, entries_insert, entries_swap_remove, has_key, lemma_insert_get,
    lemma_insert_keeps_unique, lemma_swap_remove_get, lemma_swap_remove_keeps_unique, unique_keys,
};
use crate::structure::{EntriesV, Parameters, Value};
use crate::text::{ends_important, ends_important_exec, push_char, str_eq, strip_important,
    strip_important_exec};
use vstd::prelude::*;
use vstd::string::StringExecFns;

verus! {

/// The box-sides merge pass.
#[derive(Clone, Debug, Default)]
pub struct Merge;

/// All four side values carry `!important`.
pub open spec fn all_important(t: Seq<char>, r: Seq<char>, b: Seq<char>, l: Seq<char>) -> bool {
    ends_important(t) && ends_important(r) && ends_important(b) && ends_important(l)
}

/// The four side values carry `!important` uniformly: all of them or none.
pub open spec fn important_uniform(t: Seq<char>, r: Seq<char>, b: Seq<char>, l: Seq<char>) -> bool {
    all_important(t, r, b, l) || !(ends_important(t) || ends_important(r) || ends_important(b)
        || ends_important(l))
}

/// The minimal shorthand text of four side values: `T` when all four agree,
/// `T R` when top equals bottom and right equals left, `T R B` when only
/// right equals left, else `T R B L`; a single `!important` is appended when
/// all four sides carried it.
pub open spec fn mnp_text(t0: Seq<char>, r0: Seq<char>, b0: Seq<char>, l0: Seq<char>) -> Seq<
    char,
> {
    let t = strip_important(t0);
    let r = strip_important(r0);
    let b = strip_important(b0);
    let l = strip_important(l0);
    let body = if t == b && r == l && t == r {
        t
    } else if t == b && r == l {
        t + seq![' '] + r
    } else if r == l {
        t + seq![' '] + r + seq![' '] + b
    } else {
        t + seq![' '] + r + seq![' '] + b + seq![' '] + l
    };
    if all_important(t0, r0, b0, l0) {
        body + "!important"@
    } else {
        body
    }
}

fn all_important_exec(t: &str, r: &str, b: &str, l: &str) -> (res: bool)
    ensures
        res == all_important(t@, r@, b@, l@),
{
    ends_important_exec(t) && ends_important_exec(r) && ends_important_exec(b)
        && ends_important_exec(l)
}

fn mnp_text_exec(t0: &str, r0: &str, b0: &str, l0: &str) -> (res: String)
    ensures
        res@ == mnp_text(t0@, r0@, b0@, l0@),
{
    let t = strip_important_exec(t0);
    let r = strip_important_exec(r0);
    let b = strip_important_exec(b0);
    let l = strip_important_exec(l0);
    let mut out = String::new();
    out.append(t.as_str());
    if t == b && r == l && t == r {
    } else if t == b && r == l {
        push_char(&mut out, ' ');
        out.append(r.as_str());
    } else if r == l {
        push_char(&mut out, ' ');
        out.append(r.as_str());
        push_char(&mut out, ' ');
        out.append(b.as_str());
    } else {
        push_char(&mut out, ' ');
        out.append(r.as_str());
        push_char(&mut out, ' ');
        out.append(b.as_str());
        push_char(&mut out, ' ');
        out.append(l.as_str());
    }
    if all_important_exec(t0, r0, b0, l0) {
        out.append("!important");
    }
    proof {
        assert(out@ =~= mnp_text(t0@, r0@, b0@, l0@));
    }
    out
}

/// Whether a side family merges: the shorthand absent, all four sides
/// present, their `!important` flags uniform.
pub open spec fn sides_applicable(
    es: EntriesV,
    sh: Seq<char>,
    tk: Seq<char>,
    rk: Seq<char>,
    bk: Seq<char>,
    lk: Seq<char>,
) -> bool {
    !has_key(es, sh) && has_key(es, tk) && has_key(es, rk) && has_key(es, bk) && has_key(es, lk)
        && important_uniform(
        entries_get(es, tk)->0,
        entries_get(es, rk)->0,
        entries_get(es, bk)->0,
        entries_get(es, lk)->0,
    )
}

/// Declarations after one side family is merged: if the shorthand is absent,
/// all four sides are present, and their `!important` flags are uniform, the
/// shorthand is appended and the sides are swap-removed (top, bottom, left,
/// right, in that order); else nothing changes.
pub open spec fn merge_sides(
    es: EntriesV,
    sh: Seq<char>,
    tk: Seq<char>,
    rk: Seq<char>,
    bk: Seq<char>,
    lk: Seq<char>,
) -> EntriesV {
    if sides_applicable(es, sh, tk, rk, bk, lk) {
        let text = mnp_text(
            entries_get(es, tk)->0,
            entries_get(es, rk)->0,
            entries_get(es, bk)->0,
            entries_get(es, lk)->0,
        );
        let e1 = entries_insert(es, sh, text);
        entries_swap_remove(
            entries_swap_remove(entries_swap_remove(entries_swap_remove(e1, tk), bk), lk),
            rk,
        )
    } else {
        es
    }
}

/// Declarations after the margin merge and then the padding merge.
pub open spec fn spec_merge_mnp(es: EntriesV) -> EntriesV {
    merge_sides(
        merge_sides(
            es,
            "margin"@,
            "margin-top"@,
            "margin-right"@,
            "margin-bottom"@,
            "margin-left"@,
        ),
        "padding"@,
        "padding-top"@,
        "padding-right"@,
        "padding-bottom"@,
        "padding-left"@,
    )
}

fn merge_sides_exec(p: Parameters, sh: &str, tk: &str, rk: &str, bk: &str, lk: &str) -> (res:
    Parameters)
    ensures
        res@ == merge_sides(p@, sh@, tk@, rk@, bk@, lk@),
{
    let mut p = p;
    if p.contains_key(sh) {
        return p;
    }
    let t = p.get(tk);
    let r = p.get(rk);
    let b = p.get(bk);
    let l = p.get(lk);
    match (t, r, b, l) {
        (Some(t), Some(r), Some(b), Some(l)) => {
            let uniform = if all_important_exec(t.as_str(), r.as_str(), b.as_str(), l.as_str()) {
                true
            } else {
                !(ends_important_exec(t.as_str()) || ends_important_exec(r.as_str())
                    || ends_important_exec(b.as_str()) || ends_important_exec(l.as_str()))
            };
            if uniform {
                let text = mnp_text_exec(t.as_str(), r.as_str(), b.as_str(), l.as_str());
                p.insert(sh.to_owned(), text);
                p.swap_remove(tk);
                p.swap_remove(bk);
                p.swap_remove(lk);
                p.swap_remove(rk);
                p
            } else {
                p
            }
        },
        _ => p,
    }
}

/// The four sides of a margin, as collected from a declaration map.
#[derive(Debug, Default, Clone)]
pub struct Margin {
    pub top: Option<Value>,
    pub right: Option<Value>,
    pub bottom: Option<Value>,
    pub left: Option<Value>,
}

/// The four sides of a padding, as collected from a declaration map.
#[derive(Debug, Default, Clone)]
pub struct Padding {
    pub top: Option<Value>,
    pub right: Option<Value>,
    pub bottom: Option<Value>,
    pub left: Option<Value>,
}

impl Margin {
    /// Record a side when the name is one of the `margin-*` sides.
    pub fn add(&mut self, name: &str, value: Value) -> (took: bool)
        ensures
            took == (name@ == "margin-top"@ || name@ == "margin-right"@ || name@
                == "margin-bottom"@ || name@ == "margin-left"@),
            final(self).top == (if name@ == "margin-top"@ {
                Some(value)
            } else {
                old(self).top
            }),
            final(self).right == (if name@ == "margin-right"@ {
                Some(value)
            } else {
                old(self).right
            }),
            final(self).bottom == (if name@ == "margin-bottom"@ {
                Some(value)
            } else {
                old(self).bottom
            }),
            final(self).left == (if name@ == "margin-left"@ {
                Some(value)
            } else {
                old(self).left
            }),
    {
        proof {
            reveal_strlit("margin-top");
            reveal_strlit("margin-right");
            reveal_strlit("margin-bottom");
            reveal_strlit("margin-left");
            assert("margin-top"@.len() == 10);
            assert("margin-right"@.len() == 12);
            assert("margin-bottom"@.len() == 13);
            assert("margin-left"@.len() == 11);
        }
        if str_eq(name, "margin-top") {
            self.top = Some(value);
            true
        } else if str_eq(name, "margin-right") {
            self.right = Some(value);
            true
        } else if str_eq(name, "margin-bottom") {
            self.bottom = Some(value);
            true
        } else if str_eq(name, "margin-left") {
            self.left = Some(value);
            true
        } else {
            false
        }
    }

    /// Whether the sides may be merged: all four present, `!important`
    /// uniform.
    pub fn is_may_be_merged(&self) -> (r: bool)
        ensures
            r == (self.top is Some && self.right is Some && self.bottom is Some && self.left
                is Some && important_uniform(
                self.top->0@,
                self.right->0@,
                self.bottom->0@,
                self.left->0@,
            )),
    {
        match (&self.top, &self.right, &self.bottom, &self.left) {
            (Some(t), Some(r), Some(b), Some(l)) => {
                if all_important_exec(t.as_str(), r.as_str(), b.as_str(), l.as_str()) {
                    true
                } else {
                    !(ends_important_exec(t.as_str()) || ends_important_exec(r.as_str())
                        || ends_important_exec(b.as_str()) || ends_important_exec(l.as_str()))
                }
            },
            _ => false,
        }
    }

    /// The merged shorthand text.
    pub fn text(&self) -> (r: String)
        requires
            self.top is Some,
            self.right is Some,
            self.bottom is Some,
            self.left is Some,
        ensures
            r@ == mnp_text(self.top->0@, self.right->0@, self.bottom->0@, self.left->0@),
    {
        match (&self.top, &self.right, &self.bottom, &self.left) {
            (Some(t), Some(r), Some(b), Some(l)) => mnp_text_exec(
                t.as_str(),
                r.as_str(),
                b.as_str(),
                l.as_str(),
            ),
            _ => String::new(),
        }
    }
}

impl Padding {
    /// Record a side when the name is one of the `padding-*` sides.
    pub fn add(&mut self, name: &str, value: Value) -> (took: bool)
        ensures
            took == (name@ == "padding-top"@ || name@ == "padding-right"@ || name@
                == "padding-bottom"@ || name@ == "padding-left"@),
            final(self).top == (if name@ == "padding-top"@ {
                Some(value)
            } else {
                old(self).top
            }),
            final(self).right == (if name@ == "padding-right"@ {
                Some(value)
            } else {
                old(self).right
            }),
            final(self).bottom == (if name@ == "padding-bottom"@ {
                Some(value)
            } else {
                old(self).bottom
            }),
            final(self).left == (if name@ == "padding-left"@ {
                Some(value)
            } else {
                old(self).left
            }),
    {
        proof {
            reveal_strlit("padding-top");
            reveal_strlit("padding-right");
            reveal_strlit("padding-bottom");
            reveal_strlit("padding-left");
            assert("padding-top"@.len() == 11);
            assert("padding-right"@.len() == 13);
            assert("padding-bottom"@.len() == 14);
            assert("padding-left"@.len() == 12);
        }
        if str_eq(name, "padding-top") {
            self.top = Some(value);
            true
        } else if str_eq(name, "padding-right") {
            self.right = Some(value);
            true
        } else if str_eq(name, "padding-bottom") {
            self.bottom = Some(value);
            true
        } else if str_eq(name, "padding-left") {
            self.left = Some(value);
            true
        } else {
            false
        }
    }

    /// Whether the sides may be merged: all four present, `!important`
    /// uniform.
    pub fn is_may_be_merged(&self) -> (r: bool)
        ensures
            r == (self.top is Some && self.right is Some && self.bottom is Some && self.left
                is Some && important_uniform(
                self.top->0@,
                self.right->0@,
                self.bottom->0@,
                self.left->0@,
            )),
    {
        match (&self.top, &self.right, &self.bottom, &self.left) {
            (Some(t), Some(r), Some(b), Some(l)) => {
                if all_important_exec(t.as_str(), r.as_str(), b.as_str(), l.as_str()) {
                    true
                } else {
                    !(ends_important_exec(t.as_str()) || ends_important_exec(r.as_str())
                        || ends_important_exec(b.as_str()) || ends_important_exec(l.as_str()))
                }
            },
            _ => false,
        }
    }

    /// The merged shorthand text.
    pub fn text(&self) -> (r: String)
        requires
            self.top is Some,
            self.right is Some,
            self.bottom is Some,
            self.left is Some,
        ensures
            r@ == mnp_text(self.top->0@, self.right->0@, self.bottom->0@, self.left->0@),
    {
        match (&self.top, &self.right, &self.bottom, &self.left) {
            (Some(t), Some(r), Some(b), Some(l)) => mnp_text_exec(
                t.as_str(),
                r.as_str(),
                b.as_str(),
                l.as_str(),
            ),
            _ => String::new(),
        }
    }
}

impl Merge {
    /// Merge the margin sides, then the padding sides, of one declaration
    /// map.
    pub fn transform_parameters(&self, p: Parameters) -> (r: Parameters)
        ensures
            r@ == spec_merge_mnp(p@),
    {
        let p = merge_sides_exec(
            p,
            "margin",
            "margin-top",
            "margin-right",
            "margin-bottom",
            "margin-left",
        );
        merge_sides_exec(
            p,
            "padding",
            "padding-top",
            "padding-right",
            "padding-bottom",
            "padding-left",
        )
    }
}

/// A side-family merge touches no key outside the family: the value under
/// any other key is unchanged, and key uniqueness is kept.
pub proof fn lemma_merge_sides_preserves_other(
    es: EntriesV,
    sh: Seq<char>,
    tk: Seq<char>,
    rk: Seq<char>,
    bk: Seq<char>,
    lk: Seq<char>,
    k: Seq<char>,
)
    requires
        unique_keys(es),
        k != sh,
        k != tk,
        k != rk,
        k != bk,
        k != lk,
    ensures
        unique_keys(merge_sides(es, sh, tk, rk, bk, lk)),
        entries_get(merge_sides(es, sh, tk, rk, bk, lk), k) == entries_get(es, k),
{
    if sides_applicable(es, sh, tk, rk, bk, lk) {
        let text = mnp_text(
            entries_get(es, tk)->0,
            entries_get(es, rk)->0,
            entries_get(es, bk)->0,
            entries_get(es, lk)->0,
        );
        let e1 = entries_insert(es, sh, text);
        let e2 = entries_swap_remove(e1, tk);
        let e3 = entries_swap_remove(e2, bk);
        let e4 = entries_swap_remove(e3, lk);
        lemma_insert_keeps_unique(es, sh, text);
        lemma_insert_get(es, sh, text, k);
        lemma_swap_remove_keeps_unique(e1, tk);
        lemma_swap_remove_get(e1, tk, k);
        lemma_swap_remove_keeps_unique(e2, bk);
        lemma_swap_remove_get(e2, bk, k);
        lemma_swap_remove_keeps_unique(e3, lk);
        lemma_swap_remove_get(e3, lk, k);
        lemma_swap_remove_keeps_unique(e4, rk);
        lemma_swap_remove_get(e4, rk, k);
    }
}

/// A side-family merge done once is done: a second pass finds the shorthand
/// key present and changes nothing.
pub proof fn lemma_merge_sides_idempotent(
    es: EntriesV,
    sh: Seq<char>,
    tk: Seq<char>,
    rk: Seq<char>,
    bk: Seq<char>,
    lk: Seq<char>,
)
    requires
        unique_keys(es),
        sh != tk,
        sh != rk,
        sh != bk,
        sh != lk,
    ensures
        !sides_applicable(merge_sides(es, sh, tk, rk, bk, lk), sh, tk, rk, bk, lk),
        merge_sides(merge_sides(es, sh, tk, rk, bk, lk), sh, tk, rk, bk, lk) == merge_sides(
            es,
            sh,
            tk,
            rk,
            bk,
            lk,
        ),
{
    if sides_applicable(es, sh, tk, rk, bk, lk) {
        let text = mnp_text(
            entries_get(es, tk)->0,
            entries_get(es, rk)->0,
            entries_get(es, bk)->0,
            entries_get(es, lk)->0,
        );
        let e1 = entries_insert(es, sh, text);
        let e2 = entries_swap_remove(e1, tk);
        let e3 = entries_swap_remove(e2, bk);
        let e4 = entries_swap_remove(e3, lk);
        let e5 = entries_swap_remove(e4, rk);
        lemma_insert_keeps_unique(es, sh, text);
        lemma_insert_get(es, sh, text, sh);
        lemma_swap_remove_keeps_unique(e1, tk);
        lemma_swap_remove_get(e1, tk, sh);
        lemma_swap_remove_keeps_unique(e2, bk);
        lemma_swap_remove_get(e2, bk, sh);
        lemma_swap_remove_keeps_unique(e3, lk);
        lemma_swap_remove_get(e3, lk, sh);
        lemma_swap_remove_keeps_unique(e4, rk);
        lemma_swap_remove_get(e4, rk, sh);
        assert(entries_get(e5, sh) == Some(text));
        assert(has_key(e5, sh));
    }
}

/// The needed inequalities among the side-family keys.
proof fn mnp_keys_distinct()
    ensures
        "margin"@ != "margin-top"@ && "margin"@ != "margin-right"@ && "margin"@
            != "margin-bottom"@ && "margin"@ != "margin-left"@,
        "padding"@ != "padding-top"@ && "padding"@ != "padding-right"@ && "padding"@
            != "padding-bottom"@ && "padding"@ != "padding-left"@,
        "margin"@ != "padding"@ && "margin"@ != "padding-top"@ && "margin"@ != "padding-right"@
            && "margin"@ != "padding-bottom"@ && "margin"@ != "padding-left"@,
        "margin-top"@ != "padding"@ && "margin-top"@ != "padding-top"@ && "margin-top"@
            != "padding-right"@ && "margin-top"@ != "padding-bottom"@ && "margin-top"@
            != "padding-left"@,
        "margin-right"@ != "padding"@ && "margin-right"@ != "padding-top"@ && "margin-right"@
            != "padding-right"@ && "margin-right"@ != "padding-bottom"@ && "margin-right"@
            != "padding-left"@,
        "margin-bottom"@ != "padding"@ && "margin-bottom"@ != "padding-top"@ && "margin-bottom"@
            != "padding-right"@ && "margin-bottom"@ != "padding-bottom"@ && "margin-bottom"@
            != "padding-left"@,
        "margin-left"@ != "padding"@ && "margin-left"@ != "padding-top"@ && "margin-left"@
            != "padding-right"@ && "margin-left"@ != "padding-bottom"@ && "margin-left"@
            != "padding-left"@,
{
    reveal_strlit("margin");
    reveal_strlit("margin-top");
    reveal_strlit("margin-right");
    reveal_strlit("margin-bottom");
    reveal_strlit("margin-left");
    reveal_strlit("padding");
    reveal_strlit("padding-top");
    reveal_strlit("padding-right");
    reveal_strlit("padding-bottom");
    reveal_strlit("padding-left");
    assert("margin"@.len() == 6);
    assert("margin-top"@.len() == 10);
    assert("margin-right"@.len() == 12);
    assert("margin-bottom"@.len() == 13);
    assert("margin-left"@.len() == 11);
    assert("padding"@.len() == 7);
    assert("padding-top"@.len() == 11);
    assert("padding-right"@.len() == 13);
    assert("padding-bottom"@.len() == 14);
    assert("padding-left"@.len() == 12);
    assert("margin-left"@[0] != "padding-top"@[0]);
    assert("margin-bottom"@[0] != "padding-right"@[0]);
    assert("margin-right"@[0] != "padding-left"@[0]);
}

/// Merging the box sides is idempotent: running the margin and padding
/// merges a second time changes nothing.
pub proof fn lemma_merge_mnp_idempotent(es: EntriesV)
    requires
        unique_keys(es),
    ensures
        spec_merge_mnp(spec_merge_mnp(es)) == spec_merge_mnp(es),
{
    mnp_keys_distinct();
    let m1 = merge_sides(
        es,
        "margin"@,
        "margin-top"@,
        "margin-right"@,
        "margin-bottom"@,
        "margin-left"@,
    );
    lemma_merge_sides_preserves_other(
        es,
        "margin"@,
        "margin-top"@,
        "margin-right"@,
        "margin-bottom"@,
        "margin-left"@,
        "padding"@,
    );
    let p1 = merge_sides(
        m1,
        "padding"@,
        "padding-top"@,
        "padding-right"@,
        "padding-bottom"@,
        "padding-left"@,
    );
    lemma_merge_sides_preserves_other(
        m1,
        "padding"@,
        "padding-top"@,
        "padding-right"@,
        "padding-bottom"@,
        "padding-left"@,
        "margin"@,
    );
    lemma_merge_sides_preserves_other(
        m1,
        "padding"@,
        "padding-top"@,
        "padding-right"@,
        "padding-bottom"@,
        "padding-left"@,
        "margin-top"@,
    );
    lemma_merge_sides_preserves_other(
        m1,
        "padding"@,
        "padding-top"@,
        "padding-right"@,
        "padding-bottom"@,
        "padding-left"@,
        "margin-right"@,
    );
    lemma_merge_sides_preserves_other(
        m1,
        "padding"@,
        "padding-top"@,
        "padding-right"@,
        "padding-bottom"@,
        "padding-left"@,
        "margin-bottom"@,
    );
    lemma_merge_sides_preserves_other(
        m1,
        "padding"@,
        "padding-top"@,
        "padding-right"@,
        "padding-bottom"@,
        "padding-left"@,
        "margin-left"@,
    );
    lemma_merge_sides_idempotent(
        es,
        "margin"@,
        "margin-top"@,
        "margin-right"@,
        "margin-bottom"@,
        "margin-left"@,
    );
    // The padding merge left every margin key as it was, so the margin
    // condition on `p1` decides as it did on `m1`, where the first pass
    // settled it.
    assert(!sides_applicable(
        p1,
        "margin"@,
        "margin-top"@,
        "margin-right"@,
        "margin-bottom"@,
        "margin-left"@,
    ));
    assert(merge_sides(
        p1,
        "margin"@,
        "margin-top"@,
        "margin-right"@,
        "margin-bottom"@,
        "margin-left"@,
    ) == p1);
    lemma_merge_sides_idempotent(
        m1,
        "padding"@,
        "padding-top"@,
        "padding-right"@,
        "padding-bottom"@,
        "padding-left"@,
    );
}

/// Mixed `!important` flags leave the declarations unchanged: a side family
/// whose four sides are present but not uniformly flagged is not merged.
pub proof fn lemma_mixed_important_not_merged(
    es: EntriesV,
    sh: Seq<char>,
    tk: Seq<char>,
    rk: Seq<char>,
    bk: Seq<char>,
    lk: Seq<char>,
)
    requires
        !important_uniform(
            entries_get(es, tk)->0,
            entries_get(es, rk)->0,
            entries_get(es, bk)->0,
            entries_get(es, lk)->0,
        ),
    ensures
        merge_sides(es, sh, tk, rk, bk, lk) == es,
{
}

/// A merged shorthand of four uniformly `!important` sides carries exactly
/// one `!important`, at its end.
pub proof fn lemma_merged_important_suffix(t: Seq<char>, r: Seq<char>, b: Seq<char>, l: Seq<char>)
    requires
        all_important(t, r, b, l),
    ensures
        crate::text::has_suffix(mnp_text(t, r, b, l), "!important"@),
{
    let body = mnp_text(t, r, b, l);
    assert(body.subrange(body.len() - "!important"@.len(), body.len() as int) =~= "!important"@);
}

} // verus!
