//! The entity store: every live simulation entity, with insert,
//! remove, lookup and per-kind counting.
//!
//! Structural mutation during a pass is handled by the callers: each
//! system builds the next entity list in full and installs it when
//! its pass is complete, so a despawn requested mid-pass never
//! invalidates an iteration, and removing an id that is already gone
//! is a no-op.

use vstd::prelude::*;
use crate::components::{Entity, Kind};
use crate::constants::{COORD_LIMIT, SPEED_LIMIT};
use crate::seq_lemmas::{lemma_filter_elements, lemma_filter_subrange_step};

verus! {

/// Failure of a lookup on the store.
#[derive(Clone, Copy, PartialEq, Eq, Structural, Debug)]
pub enum StoreError {
    /// No live entity carries the requested id.
    NotFound,
}

/// Number of entities of kind `k` in `s`.
pub open spec fn count_kind(s: Seq<Entity>, k: Kind) -> int
    decreases s.len(),
{
    if s.len() == 0 {
        0
    } else {
        count_kind(s.drop_last(), k) + (if s.last().kind == k { 1int } else { 0int })
    }
}

/// Every entity in `s` is well formed.
pub open spec fn all_wf(s: Seq<Entity>) -> bool {
    forall|i: int| 0 <= i < s.len() ==> (#[trigger] s[i]).wf()
}

/// No two entities in `s` share an id.
pub open spec fn ids_distinct(s: Seq<Entity>) -> bool {
    forall|i: int, j: int|
        0 <= i < j < s.len() ==> (#[trigger] s[i]).id != (#[trigger] s[j]).id
}

/// Every id in `s` is below `b`.
pub open spec fn ids_below(s: Seq<Entity>, b: u64) -> bool {
    forall|i: int| 0 <= i < s.len() ==> (#[trigger] s[i]).id < b
}

/// The predicate an entity must meet to survive `remove(id)`:
/// carrying any id but `id`.
pub open spec fn keeps_id(id: u64) -> spec_fn(Entity) -> bool {
    |e: Entity| e.id != id
}

/// The predicate picking the entities of one kind.
pub open spec fn kind_is(k: Kind) -> spec_fn(Entity) -> bool {
    |e: Entity| e.kind == k
}

/// Position of the first entity of kind `k` at or after `i`, or the
/// length when none follows.
pub open spec fn first_kind_index_from(s: Seq<Entity>, k: Kind, i: int) -> int
    decreases s.len() - i,
{
    if i < 0 || i >= s.len() {
        s.len() as int
    } else if s[i].kind == k {
        i
    } else {
        first_kind_index_from(s, k, i + 1)
    }
}

/// Position of the first entity of kind `k`, or the length when the
/// kind is absent.
pub open spec fn first_kind_index(s: Seq<Entity>, k: Kind) -> int {
    first_kind_index_from(s, k, 0)
}

/// What `first_kind_index_from` names: an in-range result is the
/// position of a `k`-kind entity that no earlier position (from `i`
/// on) matches; the length means no match from `i` on.
pub proof fn lemma_first_kind_index_from(s: Seq<Entity>, k: Kind, i: int)
    requires
        0 <= i <= s.len(),
    ensures
        i <= first_kind_index_from(s, k, i) <= s.len(),
        first_kind_index_from(s, k, i) < s.len()
            ==> s[first_kind_index_from(s, k, i)].kind == k,
        forall|j: int|
            i <= j < first_kind_index_from(s, k, i) ==> (#[trigger] s[j]).kind != k,
    decreases s.len() - i,
{
    if i < s.len() && s[i].kind != k {
        lemma_first_kind_index_from(s, k, i + 1);
    }
}

/// The corollary at position zero, for `first_kind_index`.
pub proof fn lemma_first_kind_index(s: Seq<Entity>, k: Kind)
    ensures
        0 <= first_kind_index(s, k) <= s.len(),
        first_kind_index(s, k) < s.len() ==> s[first_kind_index(s, k)].kind == k,
        forall|j: int|
            0 <= j < first_kind_index(s, k) ==> (#[trigger] s[j]).kind != k,
{
    lemma_first_kind_index_from(s, k, 0);
}

/// Filtering keeps ids pairwise distinct and below the bound,
/// whatever the predicate keeps.
pub proof fn lemma_filter_preserves_ids(
    s: Seq<Entity>,
    pred: spec_fn(Entity) -> bool,
    b: u64,
)
    requires
        ids_distinct(s),
        ids_below(s, b),
    ensures
        ids_distinct(s.filter(pred)),
        ids_below(s.filter(pred), b),
    decreases s.len(),
{
    reveal_with_fuel(Seq::filter, 2);
    if s.len() == 0 {
    } else {
        let d = s.drop_last();
        assert(ids_distinct(d) && ids_below(d, b));
        lemma_filter_preserves_ids(d, pred, b);
        if pred(s.last()) {
            let f = d.filter(pred);
            lemma_filter_elements(d, pred);
            assert forall|i: int, j: int|
                0 <= i < j < s.filter(pred).len() implies
                (#[trigger] s.filter(pred)[i]).id != (#[trigger] s.filter(pred)[j]).id by {
                if j < f.len() {
                    assert(s.filter(pred)[i] == f[i] && s.filter(pred)[j] == f[j]);
                } else {
                    assert(s.filter(pred)[j] == s.last());
                    assert(s.filter(pred)[i] == f[i]);
                    let m = choose|m: int| 0 <= m < d.len() && d[m] == f[i];
                    assert(s[m] == f[i]);
                    assert(s[m].id != s[s.len() - 1].id);
                }
            }
            assert forall|i: int|
                0 <= i < s.filter(pred).len() implies (#[trigger] s.filter(pred)[i]).id < b by {
                if i < f.len() {
                    assert(s.filter(pred)[i] == f[i]);
                } else {
                    assert(s.filter(pred)[i] == s.last());
                }
            }
        }
    }
}

/// Filtering a well-formed entity list leaves only well-formed
/// entities, since each survivor occurs in the original.
pub proof fn lemma_filter_preserves_wf(s: Seq<Entity>, pred: spec_fn(Entity) -> bool)
    requires
        all_wf(s),
    ensures
        all_wf(s.filter(pred)),
{
    lemma_filter_elements(s, pred);
    assert forall|k: int|
        0 <= k < s.filter(pred).len() implies (#[trigger] s.filter(pred)[k]).wf() by {
        let e = s.filter(pred)[k];
        let j = choose|j: int| 0 <= j < s.len() && s[j] == e;
        assert(s[j].wf());
    }
}

/// Counting distributes over extending a prefix by one element.
pub proof fn lemma_count_kind_subrange_step(s: Seq<Entity>, k: Kind, i: int)
    requires
        0 <= i < s.len(),
    ensures
        count_kind(s.subrange(0, i + 1), k)
            == count_kind(s.subrange(0, i), k) + (if s[i].kind == k { 1int } else { 0int }),
{
    let pre = s.subrange(0, i);
    let post = s.subrange(0, i + 1);
    assert(post.drop_last() =~= pre);
    assert(post.last() == s[i]);
}

/// Appending one entity raises the matching count by one and leaves
/// the other counts alone.
pub proof fn lemma_count_kind_push(s: Seq<Entity>, e: Entity, k: Kind)
    ensures
        count_kind(s.push(e), k)
            == count_kind(s, k) + (if e.kind == k { 1int } else { 0int }),
{
    assert(s.push(e).drop_last() =~= s);
    assert(s.push(e).last() == e);
}

/// Filtering never raises a count.
pub proof fn lemma_count_kind_filter_le(s: Seq<Entity>, pred: spec_fn(Entity) -> bool, k: Kind)
    ensures
        count_kind(s.filter(pred), k) <= count_kind(s, k),
    decreases s.len(),
{
    reveal_with_fuel(Seq::filter, 2);
    if s.len() == 0 {
    } else {
        let d = s.drop_last();
        lemma_count_kind_filter_le(d, pred, k);
        if pred(s.last()) {
            lemma_count_kind_push(d.filter(pred), s.last(), k);
        }
    }
}

/// A kind-preserving map leaves every count unchanged.
pub proof fn lemma_count_kind_map_eq(s: Seq<Entity>, f: spec_fn(Entity) -> Entity, k: Kind)
    requires
        forall|e: Entity| (#[trigger] f(e)).kind == e.kind,
    ensures
        count_kind(s.map_values(f), k) == count_kind(s, k),
    decreases s.len(),
{
    if s.len() == 0 {
        assert(s.map_values(f) =~= Seq::<Entity>::empty());
    } else {
        let d = s.drop_last();
        lemma_count_kind_map_eq(d, f, k);
        assert(s.map_values(f).drop_last() =~= d.map_values(f));
        assert(s.map_values(f).last() == f(s.last()));
    }
}

/// Holds all live simulation entities.
pub struct EntityStore {
    /// The live entities, in spawn order.
    pub entities: Vec<Entity>,
    /// The id the next spawn will take; strictly above every live id.
    pub next_id: u64,
}

impl EntityStore {
    /// Store invariant: every entity is well formed, ids are pairwise
    /// distinct, and all ids are below `next_id` (so a fresh id is
    /// never a live one).
    pub open spec fn wf(self) -> bool {
        &&& all_wf(self.entities@)
        &&& ids_distinct(self.entities@)
        &&& ids_below(self.entities@, self.next_id)
    }

    /// An empty store.
    pub fn new() -> (s: EntityStore)
        ensures
            s.wf(),
            s.entities@.len() == 0,
            s.next_id == 0,
    {
        EntityStore { entities: Vec::new(), next_id: 0 }
    }

    /// Number of live entities.
    pub fn len(&self) -> (n: usize)
        ensures
            n == self.entities@.len(),
    {
        self.entities.len()
    }

    /// The entity at position `i` of the spawn-ordered list.
    pub fn get(&self, i: usize) -> (e: &Entity)
        requires
            i < self.entities@.len(),
        ensures
            *e == self.entities@[i as int],
    {
        &self.entities[i]
    }

    /// Inserts a new entity and returns its id, which is fresh: no
    /// live entity carries it, and no past one ever did.
    /// Half-extents must be strictly positive (a zero- or
    /// negative-sized box is a construction error and is rejected
    /// here, before any collision test can see it).
    pub fn spawn(&mut self, kind: Kind, x: i64, y: i64, half_x: i64, half_y: i64, speed: i64)
        -> (id: u64)
        requires
            old(self).wf(),
            old(self).next_id < u64::MAX,
            -COORD_LIMIT <= x <= COORD_LIMIT,
            -COORD_LIMIT <= y <= COORD_LIMIT,
            0 < half_x <= COORD_LIMIT,
            0 < half_y <= COORD_LIMIT,
            0 <= speed <= SPEED_LIMIT,
        ensures
            final(self).wf(),
            id == old(self).next_id,
            final(self).next_id == old(self).next_id + 1,
            final(self).entities@ == old(self).entities@.push(
                Entity { id, kind, x, y, half_x, half_y, speed },
            ),
    {
        let id = self.next_id;
        self.entities.push(Entity { id, kind, x, y, half_x, half_y, speed });
        self.next_id = self.next_id + 1;
        id
    }

    /// Removes the entity with the given id, if it is live; removing
    /// an absent id changes nothing.
    pub fn remove(&mut self, id: u64)
        requires
            old(self).wf(),
        ensures
            final(self).wf(),
            final(self).next_id == old(self).next_id,
            final(self).entities@ == old(self).entities@.filter(keeps_id(id)),
    {
        let ghost s = self.entities@;
        let ghost pred = keeps_id(id);
        let mut kept: Vec<Entity> = Vec::new();
        let n = self.entities.len();
        let mut i: usize = 0;
        while i < n
            invariant
                n == s.len(),
                i <= n,
                self.entities@ == s,
                pred == keeps_id(id),
                kept@ == s.subrange(0, i as int).filter(pred),
            decreases n - i,
        {
            let e = self.entities[i];
            proof {
                lemma_filter_subrange_step(s, pred, i as int);
            }
            if e.id != id {
                kept.push(e);
            }
            i = i + 1;
        }
        proof {
            assert(s.subrange(0, n as int) =~= s);
            lemma_filter_preserves_ids(s, pred, self.next_id);
            lemma_filter_preserves_wf(s, pred);
        }
        self.entities = kept;
    }

    /// The live entities of the given kind, in spawn order: the
    /// iterate-by-kind view that the systems' pair-sets walk.
    pub fn of_kind(&self, kind: Kind) -> (r: Vec<Entity>)
        ensures
            r@ == self.entities@.filter(kind_is(kind)),
    {
        let ghost s = self.entities@;
        let ghost pred = kind_is(kind);
        let mut out: Vec<Entity> = Vec::new();
        let n = self.entities.len();
        let mut i: usize = 0;
        while i < n
            invariant
                n == s.len(),
                i <= n,
                self.entities@ == s,
                pred == kind_is(kind),
                out@ == s.subrange(0, i as int).filter(pred),
            decreases n - i,
        {
            let e = self.entities[i];
            proof {
                lemma_filter_subrange_step(s, pred, i as int);
            }
            if e.kind == kind {
                out.push(e);
            }
            i = i + 1;
        }
        proof {
            assert(s.subrange(0, n as int) =~= s);
        }
        out
    }

    /// Number of live entities of the given kind.
    pub fn count(&self, kind: Kind) -> (n: usize)
        ensures
            n == count_kind(self.entities@, kind),
    {
        let ghost s = self.entities@;
        let len = self.entities.len();
        let mut n: usize = 0;
        let mut i: usize = 0;
        while i < len
            invariant
                len == s.len(),
                i <= len,
                self.entities@ == s,
                n == count_kind(s.subrange(0, i as int), kind),
                n <= i,
            decreases len - i,
        {
            proof {
                lemma_count_kind_subrange_step(s, kind, i as int);
            }
            if self.entities[i].kind == kind {
                n = n + 1;
            }
            i = i + 1;
        }
        proof {
            assert(s.subrange(0, len as int) =~= s);
        }
        n
    }

    /// Position of the entity with the given id, or `NotFound` once
    /// it has been despawned. Callers that iterate over a stale id
    /// list treat the error as a no-op.
    pub fn position_of(&self, id: u64) -> (r: Result<(i64, i64), StoreError>)
        ensures
            match r {
                Ok(p) => exists|i: int|
                    0 <= i < self.entities@.len()
                        && (#[trigger] self.entities@[i]).id == id
                        && p == (self.entities@[i].x, self.entities@[i].y),
                Err(e) => {
                    &&& e == StoreError::NotFound
                    &&& forall|i: int|
                        0 <= i < self.entities@.len()
                            ==> (#[trigger] self.entities@[i]).id != id
                },
            },
    {
        let len = self.entities.len();
        let mut i: usize = 0;
        while i < len
            invariant
                len == self.entities@.len(),
                i <= len,
                forall|j: int|
                    0 <= j < i ==> (#[trigger] self.entities@[j]).id != id,
            decreases len - i,
        {
            let e = &self.entities[i];
            if e.id == id {
                return Ok((e.x, e.y));
            }
            i = i + 1;
        }
        Err(StoreError::NotFound)
    }
}

} // verus!
