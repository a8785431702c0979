//! The snapshot builder: takes the ranked id list, keeps its first page in
//! rank order, accepts the per-story details one at a time — sequential,
//! in the same order — and releases a snapshot only when every planned
//! detail arrived, so a partial snapshot can never be emitted.

use vstd::prelude::*;
use crate::date::UtcInstant;
use crate::model::{HNTopStoriesSnap, HNTopStorySnap, PAGE_SIZE};

verus! {

/// The length a snapshot built from `n` ranked ids must have.
pub open spec fn planned_len(n: nat) -> nat {
    if n <= PAGE_SIZE {
        n
    } else {
        PAGE_SIZE as nat
    }
}

/// Truncation: a build planned from `L` ranked ids fetches exactly
/// `min(PAGE_SIZE, L)` of them — the first ones, in their given rank
/// order — so a completed snapshot has exactly that many items.
pub proof fn lemma_truncation(ids: Seq<u32>)
    ensures
        planned_len(ids.len()) == if ids.len() <= PAGE_SIZE {
            ids.len()
        } else {
            PAGE_SIZE as nat
        },
        forall|i: int|
            0 <= i < planned_len(ids.len()) ==> ids.take(planned_len(ids.len()) as int)[i]
                == ids[i],
{
}

/// An in-progress snapshot for one alarm.
pub struct SnapshotBuilder {
    pub t: UtcInstant,
    pub ids: Vec<u32>,
    pub items: Vec<HNTopStorySnap>,
}

impl SnapshotBuilder {
    pub open spec fn wf(self) -> bool {
        &&& self.t.wf()
        &&& self.ids@.len() <= PAGE_SIZE
        &&& self.items@.len() <= self.ids@.len()
    }

    /// Plans one snapshot captured at `t` from the ranked list `ids`:
    /// the first `min(PAGE_SIZE, len)` ids are kept, in their order.
    pub fn new(t: UtcInstant, ids: Vec<u32>) -> (b: Self)
        requires
            t.wf(),
        ensures
            b.wf(),
            b.t == t,
            b.ids@ == ids@.take(planned_len(ids@.len()) as int),
            b.items@.len() == 0,
    {
        let mut ids = ids;
        if ids.len() > PAGE_SIZE {
            ids.truncate(PAGE_SIZE);
        }
        proof {
            assert(ids@ =~= ids@.take(ids@.len() as int));
        }
        SnapshotBuilder { t, ids, items: Vec::new() }
    }

    /// The id whose detail must be fetched next, or `None` when every
    /// planned detail has arrived.
    pub fn next_id(&self) -> (r: Option<u32>)
        requires
            self.wf(),
        ensures
            r == if self.items@.len() < self.ids@.len() {
                Some(self.ids@[self.items@.len() as int])
            } else {
                None::<u32>
            },
    {
        if self.items.len() < self.ids.len() {
            Some(self.ids[self.items.len()])
        } else {
            None
        }
    }

    /// Appends the detail fetched for the id `next_id` named; order of
    /// arrival is the rank order of the ids.
    pub fn push_detail(&mut self, d: HNTopStorySnap)
        requires
            old(self).wf(),
            old(self).items@.len() < old(self).ids@.len(),
        ensures
            final(self).wf(),
            final(self).t == old(self).t,
            final(self).ids == old(self).ids,
            final(self).items@ == old(self).items@.push(d),
    {
        self.items.push(d);
    }

    /// Releases the snapshot — but only a complete one: `Some` exactly
    /// when a detail arrived for every planned id.
    pub fn finish(self) -> (r: Option<HNTopStoriesSnap>)
        requires
            self.wf(),
        ensures
            r is Some <==> self.items@.len() == self.ids@.len(),
            r matches Some(s) ==> s.wf() && s.t == self.t && s.items@ == self.items@,
    {
        if self.items.len() == self.ids.len() {
            Some(HNTopStoriesSnap { t: self.t, items: self.items })
        } else {
            None
        }
    }
}

} // verus!
