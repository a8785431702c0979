//! Verified core of a polling snapshot recorder: an event-driven scheduler
//! that, on each alarm, fetches a ranked list of story ids, enriches the
//! first page with per-story detail, encodes the batch as one JSON line and
//! appends it to a day-keyed rotating output file.

use vstd::prelude::*;

pub mod builder;
pub mod date;
pub mod decode;
pub mod encode;
pub mod fetch;
pub mod model;
pub mod sched;
pub mod writer;

verus! {

/// The failure taxonomy of the pipeline: reaching the upstream service
/// failed, a response body had the wrong shape, or the output file could
/// not be opened or written.
#[derive(Clone, Copy, Debug, PartialEq, Eq, Structural)]
pub enum WatchError {
    Transport,
    Decode,
    Io,
}

} // verus!
