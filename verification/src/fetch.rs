//! The two request paths of the upstream service, resolved by the caller
//! against its base URL: `topstories.json` for the ranked list and
//! `item/{id}.json` for one story's detail.

use vstd::prelude::*;
use crate::encode::dec_digits;

verus! {

/// `topstories.json`.
pub open spec fn top_stories_path() -> Seq<u8> {
    seq![
        116u8,
        111u8,
        112u8,
        115u8,
        116u8,
        111u8,
        114u8,
        105u8,
        101u8,
        115u8,
        46u8,
        106u8,
        115u8,
        111u8,
        110u8,
    ]
}

/// `item/{id}.json`.
pub open spec fn item_path(id: u32) -> Seq<u8> {
    seq![105u8, 116u8, 101u8, 109u8, 47u8] + dec_digits(id as int) + seq![
        46u8,
        106u8,
        115u8,
        111u8,
        110u8,
    ]
}

/// The relative path of the ranked-list endpoint.
pub fn top_stories_path_bytes() -> (r: Vec<u8>)
    ensures
        r@ == top_stories_path(),
{
    let mut out: Vec<u8> = Vec::new();
    out.push(116);
    out.push(111);
    out.push(112);
    out.push(115);
    out.push(116);
    out.push(111);
    out.push(114);
    out.push(105);
    out.push(101);
    out.push(115);
    out.push(46);
    out.push(106);
    out.push(115);
    out.push(111);
    out.push(110);
    proof {
        assert(out@ =~= top_stories_path());
    }
    out
}

/// The relative path of the detail endpoint for story `id`.
pub fn item_path_bytes(id: u32) -> (r: Vec<u8>)
    ensures
        r@ == item_path(id),
{
    let mut out: Vec<u8> = Vec::new();
    out.push(105);
    out.push(116);
    out.push(101);
    out.push(109);
    out.push(47);
    crate::encode::push_u32_dec(&mut out, id);
    out.push(46);
    out.push(106);
    out.push(115);
    out.push(111);
    out.push(110);
    proof {
        assert(out@ =~= item_path(id));
    }
    out
}

} // verus!
