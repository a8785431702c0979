//! The data model of one poll cycle: an enriched story and the timestamped,
//! rank-ordered batch that one alarm produces.

use vstd::prelude::*;
use crate::date::UtcInstant;

verus! {

/// Items retained per snapshot: the first page of the ranked list.
pub const PAGE_SIZE: usize = 30;

/// One ranked story enriched with its detail; `score` and `comments`
/// default to zero when the detail payload omits them.
#[derive(Clone, Copy, Debug, PartialEq, Eq, Structural)]
pub struct HNTopStorySnap {
    pub id: u32,
    pub score: u32,
    pub comments: u32,
}

/// One immutable snapshot: the capture time and at most `PAGE_SIZE`
/// enriched stories, in the rank order the list endpoint returned.
#[derive(Debug, PartialEq, Eq)]
pub struct HNTopStoriesSnap {
    pub t: UtcInstant,
    pub items: Vec<HNTopStorySnap>,
}

impl HNTopStoriesSnap {
    pub open spec fn wf(self) -> bool {
        &&& self.t.wf()
        &&& self.items@.len() <= PAGE_SIZE
    }
}

} // verus!
