#![allow(unused_imports)]
use vstd::prelude::*;

mod block;
mod blockchain;
mod hashable;

pub use block::check_difficulty;
pub use block::Block;
pub use blockchain::Blockchain;
pub use hashable::Hashable;

verus! {

/// Milliseconds since the Unix epoch. Relies on std::time::SystemTime::now,
/// SystemTime::duration_since and Duration::as_millis: one reading of the
/// system clock; nothing is promised of the value it returns.
#[verifier::external_body]
pub fn now() -> u128 {
    std::time::SystemTime::now()
        .duration_since(std::time::UNIX_EPOCH)
        .expect("Error getting time since unix")
        .as_millis()
}

/// The 16-byte window at offset 16 of a digest, read as a little-endian
/// 128-bit integer. The difficulty predicate compares against this value.
pub open spec fn spec_difficulty_window(h: Seq<u8>) -> u128 {
    vstd::bytes::spec_u128_from_le_bytes(h.subrange(16, 32))
}

/// Reinterpret bytes 16 through 31 of a digest as a little-endian u128.
pub fn difficulty_bytes_as_u128(v: &[u8]) -> (r: u128)
    requires
        32 <= v@.len(),
    ensures
        r == spec_difficulty_window(v@),
{
    let w = vstd::slice::slice_subrange(v, 16, 32);
    vstd::bytes::u128_from_le_bytes(w)
}

} // verus!
