//! Decoding of the two upstream response bodies: the ranked-list endpoint's
//! JSON integer array, and the detail endpoint's object, whose `score` and
//! `descendants` fields are optional and default to zero when absent or
//! null. The JSON trees come from serde_json behind trusted wrappers whose
//! results are named — parsing is a function of the text alone — and every
//! defaulting and shape decision is made here, verified, over the plain
//! values those wrappers hand back.

use vstd::prelude::*;
use crate::model::HNTopStorySnap;
use crate::WatchError;

verus! {

/// What the ranked-list body parses to: `Some` of the integer sequence
/// exactly when the text is a JSON array of integers that fit `u32`.
pub uninterp spec fn json_u32_array_of(s: Seq<char>) -> Option<Seq<u32>>;

/// Relies on serde_json::from_str::<Vec<u32>>: whether and how a text
/// parses as a JSON array of u32 is a function of the text alone.
#[verifier::external_body]
fn parse_u32_array(s: &str) -> (r: Option<Vec<u32>>)
    ensures
        r matches Some(v) ==> json_u32_array_of(s@) == Some(v@),
        r is None ==> json_u32_array_of(s@) is None,
{
    serde_json::from_str::<Vec<u32>>(s).ok()
}

/// What one member of the detail object looked like, as plain data.
#[derive(Clone, Copy, Debug, PartialEq, Eq, Structural)]
pub enum FieldVal {
    /// The object has no such key.
    Absent,
    /// The key is present and its value is `null`.
    Null,
    /// The key is present with this integer value.
    Int(u64),
    /// The key is present with a value of some other shape.
    Other,
}

/// What a detail body parses to: `None` when the text is not valid JSON,
/// else the shapes of its `id`, `score` and `descendants` members, in
/// that order — a function of the text alone.
pub uninterp spec fn json_detail_fields_of(s: Seq<char>) -> Option<(FieldVal, FieldVal, FieldVal)>;

/// Relies on serde_json::from_str::<Value>, Value::get with a string
/// index, and Number::as_u64: parses the body and reads its `id`, `score`
/// and `descendants` members, each sorted by variant into a `FieldVal`.
#[verifier::external_body]
fn parse_detail_fields(s: &str) -> (r: Option<(FieldVal, FieldVal, FieldVal)>)
    ensures
        r matches Some(f) ==> json_detail_fields_of(s@) == Some(f),
        r is None ==> json_detail_fields_of(s@) is None,
{
    let v = match serde_json::from_str::<serde_json::Value>(s) {
        Ok(v) => v,
        Err(_) => return None,
    };
    let mut out = [FieldVal::Absent, FieldVal::Absent, FieldVal::Absent];
    for (i, key) in ["id", "score", "descendants"].iter().enumerate() {
        out[i] = match v.get(key) {
            None => FieldVal::Absent,
            Some(serde_json::Value::Null) => FieldVal::Null,
            Some(serde_json::Value::Number(n)) => n.as_u64().map_or(FieldVal::Other, FieldVal::Int),
            Some(_) => FieldVal::Other,
        };
    }
    Some((out[0], out[1], out[2]))
}

/// The required `id` field: only a present integer that fits `u32` is
/// accepted.
pub open spec fn id_of_field(f: FieldVal) -> Option<u32> {
    match f {
        FieldVal::Int(n) => if n <= u32::MAX {
            Some(n as u32)
        } else {
            None
        },
        _ => None,
    }
}

/// An optional counter field (`score`, `descendants`): absent or null
/// defaults to zero; any other non-integer shape is a decode failure.
pub open spec fn count_of_field(f: FieldVal) -> Option<u32> {
    match f {
        FieldVal::Absent => Some(0),
        FieldVal::Null => Some(0),
        FieldVal::Int(n) => if n <= u32::MAX {
            Some(n as u32)
        } else {
            None
        },
        FieldVal::Other => None,
    }
}

/// What decoding a detail object with these three members yields: the
/// enriched story when every member is acceptable, else a decode failure.
pub open spec fn detail_result(id_f: FieldVal, score_f: FieldVal, desc_f: FieldVal) -> Result<
    HNTopStorySnap,
    WatchError,
> {
    match (id_of_field(id_f), count_of_field(score_f), count_of_field(desc_f)) {
        (Some(id), Some(score), Some(comments)) => Ok(HNTopStorySnap { id, score, comments }),
        _ => Err(WatchError::Decode),
    }
}

/// Builds one enriched story from the three members of its detail object,
/// exactly as `detail_result` states: `id` must be a `u32` integer, the
/// two counters must be absent, null, or `u32` integers, and the missing
/// counters become zero.
pub fn detail_from_parts(id_f: FieldVal, score_f: FieldVal, desc_f: FieldVal) -> (r: Result<
    HNTopStorySnap,
    WatchError,
>)
    ensures
        r == detail_result(id_f, score_f, desc_f),
{
    let id = match id_f {
        FieldVal::Int(n) if n <= u32::MAX as u64 => n as u32,
        _ => {
            return Err(WatchError::Decode);
        },
    };
    let score = match score_f {
        FieldVal::Absent => 0,
        FieldVal::Null => 0,
        FieldVal::Int(n) if n <= u32::MAX as u64 => n as u32,
        _ => {
            return Err(WatchError::Decode);
        },
    };
    let comments = match desc_f {
        FieldVal::Absent => 0,
        FieldVal::Null => 0,
        FieldVal::Int(n) if n <= u32::MAX as u64 => n as u32,
        _ => {
            return Err(WatchError::Decode);
        },
    };
    Ok(HNTopStorySnap { id, score, comments })
}

/// Decodes one detail response body: a body that is not valid JSON is a
/// decode failure, and any other yields exactly what `detail_result`
/// states for its `id`, `score` and `descendants` members.
pub fn decode_story_detail(s: &str) -> (r: Result<HNTopStorySnap, WatchError>)
    ensures
        r == (match json_detail_fields_of(s@) {
            None => Err::<HNTopStorySnap, WatchError>(WatchError::Decode),
            Some(f) => detail_result(f.0, f.1, f.2),
        }),
{
    match parse_detail_fields(s) {
        None => Err(WatchError::Decode),
        Some((id_f, score_f, desc_f)) => detail_from_parts(id_f, score_f, desc_f),
    }
}

/// Decodes the ranked-list response body: `Ok` of the id sequence exactly
/// when the body is a JSON array of `u32` integers, else a decode failure.
pub fn decode_top_ids(s: &str) -> (r: Result<Vec<u32>, WatchError>)
    ensures
        r is Ok <==> json_u32_array_of(s@) is Some,
        r matches Ok(v) ==> json_u32_array_of(s@) == Some(v@),
        r matches Err(e) ==> e == WatchError::Decode,
{
    match parse_u32_array(s) {
        Some(v) => Ok(v),
        None => Err(WatchError::Decode),
    }
}

} // verus!
