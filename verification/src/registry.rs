//! A registry of recipes, listed by id and looked up by id.

use vstd::prelude::*;
use vstd::multiset::Multiset;
use crate::recipes::RecipeMeta;
use crate::text::{lex_lt, lex_le, str_lt, lemma_lex_irrefl, lemma_lex_asym, lemma_lex_le_trans};

verus! {

/// Registered recipes with their identities, in registration order.
pub struct RecipeRegistry<R> {
    pub recipes: Vec<(RecipeMeta, R)>,
}

/// The metadata are in order of id.
pub open spec fn sorted_by_id(s: Seq<RecipeMeta>) -> bool {
    forall|i: int, j: int| 0 <= i < j < s.len() ==> lex_le(#[trigger] s[i].id@, #[trigger] s[j].id@)
}

/// `out` lists `items` in the order `p` gives: `out[k]` is `items[p[k]]`,
/// each item once, and items with equal ids keep their relative order.
pub open spec fn stable_order(p: Seq<int>, out: Seq<RecipeMeta>, items: Seq<RecipeMeta>) -> bool {
    &&& p.len() == out.len() == items.len()
    &&& forall|k: int| 0 <= k < p.len() ==> 0 <= #[trigger] p[k] < items.len() && out[k] == items[p[k]]
    &&& forall|k1: int, k2: int| 0 <= k1 < k2 < p.len() ==> #[trigger] p[k1] != #[trigger] p[k2]
    &&& forall|k1: int, k2: int|
        0 <= k1 < k2 < p.len() && #[trigger] out[k1].id@ == #[trigger] out[k2].id@ ==> p[k1] < p[k2]
}

impl<R> RecipeRegistry<R> {
    /// The identities, in registration order.
    pub open spec fn metas(&self) -> Seq<RecipeMeta> {
        self.recipes@.map_values(|e: (RecipeMeta, R)| e.0)
    }

    /// An empty registry.
    pub fn new() -> (r: Self)
        ensures
            r.recipes@.len() == 0,
    {
        RecipeRegistry { recipes: Vec::new() }
    }

    /// Registers a recipe under its identity.
    pub fn register(&mut self, meta: RecipeMeta, recipe: R)
        ensures
            final(self).recipes@ == old(self).recipes@.push((meta, recipe)),
    {
        self.recipes.push((meta, recipe));
    }

    /// Index of the first recipe registered with `id`.
    fn find(&self, id: &str) -> (r: Option<usize>)
        ensures
            match r {
                Some(i) => i < self.recipes@.len() && self.recipes@[i as int].0.id@ == id@ && forall|j: int|
                    0 <= j < i ==> self.recipes@[j].0.id@ != id@,
                None => forall|j: int| 0 <= j < self.recipes@.len() ==> self.recipes@[j].0.id@ != id@,
            },
    {
        let mut i: usize = 0;
        while i < self.recipes.len()
            invariant
                i <= self.recipes@.len(),
                forall|j: int| 0 <= j < i ==> self.recipes@[j].0.id@ != id@,
            decreases self.recipes.len() - i,
        {
            if !str_lt(self.recipes[i].0.id.as_str(), id) && !str_lt(id, self.recipes[i].0.id.as_str()) {
                proof {
                    crate::text::lemma_lex_total(self.recipes@[i as int].0.id@, id@);
                }
                return Some(i);
            }
            proof {
                lemma_lex_irrefl(id@);
            }
            i = i + 1;
        }
        None
    }

    /// The first recipe registered with `id`.
    pub fn get(&self, id: &str) -> (r: Option<&R>)
        ensures
            match r {
                Some(x) => exists|i: int|
                    0 <= i < self.recipes@.len() && self.recipes@[i].0.id@ == id@ && self.recipes@[i].1 == *x
                        && forall|j: int| 0 <= j < i ==> self.recipes@[j].0.id@ != id@,
                None => forall|j: int| 0 <= j < self.recipes@.len() ==> self.recipes@[j].0.id@ != id@,
            },
    {
        match self.find(id) {
            Some(i) => Some(&self.recipes[i].1),
            None => None,
        }
    }

    /// The identities of all recipes, sorted by id (equal ids keep their
    /// registration order).
    pub fn list(&self) -> (r: Vec<RecipeMeta>)
        ensures
            r@.to_multiset() == self.metas().to_multiset(),
            sorted_by_id(r@),
            exists|p: Seq<int>| stable_order(p, r@, self.metas()),
    {
        broadcast use vstd::seq_lib::group_to_multiset_ensures;

        let mut rest: Vec<RecipeMeta> = Vec::new();
        let mut i: usize = 0;
        while i < self.recipes.len()
            invariant
                i <= self.recipes@.len(),
                rest@ == self.metas().take(i as int),
            decreases self.recipes.len() - i,
        {
            rest.push(self.recipes[i].0.copy());
            i = i + 1;
            proof {
                assert(rest@ =~= self.metas().take(i as int));
            }
        }
        proof {
            assert(self.metas().take(self.recipes@.len() as int) =~= self.metas());
        }
        let ghost all = rest@;
        let ghost n = all.len() as int;
        let ghost mut ridx: Seq<int> = Seq::new(all.len(), |k: int| k);
        let ghost mut oidx: Seq<int> = Seq::empty();
        let mut out: Vec<RecipeMeta> = Vec::new();
        while rest.len() > 0
            invariant
                out@.to_multiset().add(rest@.to_multiset()) == all.to_multiset(),
                sorted_by_id(out@),
                forall|a: int, b: int| 0 <= a < out@.len() && 0 <= b < rest@.len() ==> lex_le(out@[a].id@, rest@[b].id@),
                n == all.len(),
                ridx.len() == rest@.len(),
                oidx.len() == out@.len(),
                oidx.len() + ridx.len() == n,
                forall|b: int| 0 <= b < ridx.len() ==> 0 <= #[trigger] ridx[b] < n && rest@[b] == all[ridx[b]],
                forall|a: int| 0 <= a < oidx.len() ==> 0 <= #[trigger] oidx[a] < n && out@[a] == all[oidx[a]],
                forall|b1: int, b2: int| 0 <= b1 < b2 < ridx.len() ==> #[trigger] ridx[b1] < #[trigger] ridx[b2],
                forall|a1: int, a2: int| 0 <= a1 < a2 < oidx.len() ==> #[trigger] oidx[a1] != #[trigger] oidx[a2],
                forall|a: int, b: int| 0 <= a < oidx.len() && 0 <= b < ridx.len() ==> #[trigger] oidx[a] != #[trigger] ridx[b],
                forall|a1: int, a2: int|
                    0 <= a1 < a2 < oidx.len() && #[trigger] out@[a1].id@ == #[trigger] out@[a2].id@ ==> oidx[a1] < oidx[a2],
                forall|a: int, b: int|
                    0 <= a < oidx.len() && 0 <= b < ridx.len() && #[trigger] out@[a].id@ == #[trigger] rest@[b].id@ ==> oidx[a]
                        < ridx[b],
            decreases rest@.len(),
        {
            let j = least_id(&rest);
            let ghost prev = rest@;
            let ghost prev_ridx = ridx;
            let ghost prev_oidx = oidx;
            let x = rest.remove(j);
            proof {
                vstd::seq_lib::to_multiset_remove(prev, j as int);
                assert(prev[j as int] == x);
                assert(prev.contains(x));
                prev.to_multiset_ensures();
                assert forall|b: int| 0 <= b < rest@.len() implies lex_le(x.id@, rest@[b].id@) by {
                    let b2 = if b < j { b } else { b + 1 };
                    assert(rest@[b] == prev[b2]);
                }
                ridx = prev_ridx.remove(j as int);
                oidx = prev_oidx.push(prev_ridx[j as int]);
            }
            let ghost out_prev = out@;
            out.push(x);
            proof {
                vstd::seq_lib::to_multiset_build(out_prev, x);
                assert(out@.to_multiset().add(rest@.to_multiset()) =~= all.to_multiset());
                assert forall|a: int, b: int| 0 <= a < out@.len() && 0 <= b < rest@.len() implies lex_le(
                    out@[a].id@,
                    rest@[b].id@,
                ) by {
                    let b2 = if b < j { b } else { b + 1 };
                    assert(rest@[b] == prev[b2]);
                }
                assert forall|a: int, b: int| 0 <= a < b < out@.len() implies lex_le(
                    #[trigger] out@[a].id@,
                    #[trigger] out@[b].id@,
                ) by {
                    if b == out@.len() - 1 {
                        assert(prev[j as int] == out@[b]);
                    }
                }
                assert forall|b: int| 0 <= b < ridx.len() implies 0 <= #[trigger] ridx[b] < n && rest@[b] == all[ridx[b]] by {
                    let b2 = if b < j { b } else { b + 1 };
                    assert(ridx[b] == prev_ridx[b2]);
                    assert(rest@[b] == prev[b2]);
                }
                assert forall|a: int| 0 <= a < oidx.len() implies 0 <= #[trigger] oidx[a] < n && out@[a] == all[oidx[a]] by {
                    if a < prev_oidx.len() {
                        assert(oidx[a] == prev_oidx[a]);
                        assert(out@[a] == out_prev[a]);
                    }
                }
                assert forall|b1: int, b2: int| 0 <= b1 < b2 < ridx.len() implies #[trigger] ridx[b1] < #[trigger] ridx[b2] by {
                    let c1 = if b1 < j { b1 } else { b1 + 1 };
                    let c2 = if b2 < j { b2 } else { b2 + 1 };
                    assert(ridx[b1] == prev_ridx[c1]);
                    assert(ridx[b2] == prev_ridx[c2]);
                }
                assert forall|a1: int, a2: int| 0 <= a1 < a2 < oidx.len() implies #[trigger] oidx[a1] != #[trigger] oidx[a2] by {
                    assert(oidx[a1] == prev_oidx[a1]);
                    if a2 < prev_oidx.len() {
                        assert(oidx[a2] == prev_oidx[a2]);
                    }
                }
                assert forall|a: int, b: int| 0 <= a < oidx.len() && 0 <= b < ridx.len() implies #[trigger] oidx[a]
                    != #[trigger] ridx[b] by {
                    let b2 = if b < j { b } else { b + 1 };
                    assert(ridx[b] == prev_ridx[b2]);
                    if a < prev_oidx.len() {
                        assert(oidx[a] == prev_oidx[a]);
                    }
                }
                assert forall|a1: int, a2: int|
                    0 <= a1 < a2 < oidx.len() && #[trigger] out@[a1].id@ == #[trigger] out@[a2].id@ implies oidx[a1]
                        < oidx[a2] by {
                    assert(oidx[a1] == prev_oidx[a1]);
                    assert(out@[a1] == out_prev[a1]);
                    if a2 < prev_oidx.len() {
                        assert(oidx[a2] == prev_oidx[a2]);
                        assert(out@[a2] == out_prev[a2]);
                    } else {
                        assert(out@[a2] == prev[j as int]);
                    }
                }
                assert forall|a: int, b: int|
                    0 <= a < oidx.len() && 0 <= b < ridx.len() && #[trigger] out@[a].id@ == #[trigger] rest@[b].id@
                        implies oidx[a] < ridx[b] by {
                    let b2 = if b < j { b } else { b + 1 };
                    assert(ridx[b] == prev_ridx[b2]);
                    assert(rest@[b] == prev[b2]);
                    if a < prev_oidx.len() {
                        assert(oidx[a] == prev_oidx[a]);
                        assert(out@[a] == out_prev[a]);
                    } else {
                        assert(out@[a] == prev[j as int]);
                        if b2 < j {
                            assert(prev[b2].id@ != prev[j as int].id@);
                        }
                    }
                }
            }
        }
        proof {
            assert(rest@.to_multiset() =~= Multiset::empty());
            assert(out@.to_multiset().add(Multiset::empty()) =~= out@.to_multiset());
            assert(stable_order(oidx, out@, self.metas()));
        }
        out
    }
}

/// Index of the first entry whose id no other id sorts before.
fn least_id(v: &Vec<RecipeMeta>) -> (r: usize)
    requires
        v.len() > 0,
    ensures
        r < v.len(),
        forall|j: int| 0 <= j < v.len() ==> lex_le(v@[r as int].id@, #[trigger] v@[j].id@),
        forall|j: int| 0 <= j < r ==> #[trigger] v@[j].id@ != v@[r as int].id@,
{
    let mut best: usize = 0;
    let mut i: usize = 1;
    proof {
        lemma_lex_irrefl(v@[0].id@);
    }
    while i < v.len()
        invariant
            1 <= i <= v.len(),
            best < i,
            forall|j: int| 0 <= j < i ==> lex_le(v@[best as int].id@, #[trigger] v@[j].id@),
            forall|j: int| 0 <= j < best ==> #[trigger] v@[j].id@ != v@[best as int].id@,
        decreases v.len() - i,
    {
        if str_lt(v[i].id.as_str(), v[best].id.as_str()) {
            proof {
                assert forall|j: int| 0 <= j < i + 1 implies lex_le(v@[i as int].id@, #[trigger] v@[j].id@) by {
                    lemma_lex_asym(v@[i as int].id@, v@[best as int].id@);
                    lemma_lex_le_trans(v@[i as int].id@, v@[best as int].id@, v@[j].id@);
                    lemma_lex_irrefl(v@[i as int].id@);
                }
                assert forall|j: int| 0 <= j < i implies #[trigger] v@[j].id@ != v@[i as int].id@ by {
                    crate::text::lemma_lex_total(v@[best as int].id@, v@[j].id@);
                    crate::text::lemma_lex_trans(v@[i as int].id@, v@[best as int].id@, v@[j].id@);
                    lemma_lex_irrefl(v@[i as int].id@);
                }
            }
            best = i;
        }
        i = i + 1;
    }
    best
}

/// Law: a recipe registered under an id that no earlier recipe has is the one
/// `get` finds for that id. `get` returns the recipe at an index whose id
/// matches and before which no id matches; in the registry after
/// `register`, that index can only be the new entry.
pub proof fn lemma_register_then_get<R>(before: Seq<(RecipeMeta, R)>, meta: RecipeMeta, recipe: R, i: int)
    requires
        forall|j: int| 0 <= j < before.len() ==> before[j].0.id@ != meta.id@,
        0 <= i < before.len() + 1,
        before.push((meta, recipe))[i].0.id@ == meta.id@,
        forall|j: int| 0 <= j < i ==> before.push((meta, recipe))[j].0.id@ != meta.id@,
    ensures
        i == before.len(),
        before.push((meta, recipe))[i].1 == recipe,
{
    if i < before.len() {
        assert(before.push((meta, recipe))[i] == before[i]);
    }
}

} // verus!
