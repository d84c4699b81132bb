//! The serialized form of a block's extrinsics.

use vstd::prelude::*;
use crate::bytes::rows;

verus! {

/// The SCALE encoding of a list of byte strings: the number of items in
/// compact form, then each item with its own length in compact form.
pub uninterp spec fn scale_encoded(items: Seq<Seq<u8>>) -> Seq<u8>;

/// Whether a list can be encoded: the number of its items and the length of
/// each of them fit the 32 bits that a compact length has.
pub open spec fn encodable(items: Seq<Seq<u8>>) -> bool {
    &&& items.len() <= u32::MAX
    &&& forall|i: int| 0 <= i < items.len() ==> (#[trigger] items[i]).len() <= u32::MAX
}

/// `parity_scale_codec::Encode::encode` on a list of byte strings. It
/// panics on a length beyond 32 bits, which `requires` leaves out.
#[verifier::external_body]
pub(crate) fn scale_encode(items: &Vec<Vec<u8>>) -> (r: Vec<u8>)
    requires
        encodable(rows(items@)),
    ensures
        r@ == scale_encoded(rows(items@)),
{
    parity_scale_codec::Encode::encode(items)
}

/// Whether `items` can be encoded.
pub fn is_encodable(items: &Vec<Vec<u8>>) -> (r: bool)
    ensures
        r == encodable(rows(items@)),
{
    if items.len() > u32::MAX as usize {
        return false;
    }
    let mut i: usize = 0;
    while i < items.len()
        invariant
            i <= items.len(),
            forall|j: int| 0 <= j < i ==> (#[trigger] rows(items@)[j]).len() <= u32::MAX,
        decreases items.len() - i,
    {
        if items[i].len() > u32::MAX as usize {
            assert(rows(items@)[i as int].len() > u32::MAX);
            return false;
        }
        i += 1;
    }
    true
}

/// The serialized form of `items`, if they can be encoded.
pub fn encode_extrinsics(items: &Vec<Vec<u8>>) -> (r: Option<Vec<u8>>)
    ensures
        match r {
            Some(bytes) => encodable(rows(items@)) && bytes@ == scale_encoded(rows(items@)),
            None => !encodable(rows(items@)),
        },
{
    if is_encodable(items) {
        Some(scale_encode(items))
    } else {
        None
    }
}

} // verus!
