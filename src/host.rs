//! The host's byte order, which the native-order accessors follow.
use vstd::prelude::*;

verus! {

/// Relies on `u16::to_ne_bytes`: the two bytes of 1 in the host's byte
/// order, which is little-endian or big-endian.
#[verifier::external_body]
fn one_in_host_order() -> (r: [u8; 2])
    ensures
        r@ == seq![1u8, 0u8] || r@ == seq![0u8, 1u8],
{
    1u16.to_ne_bytes()
}

/// Whether the host stores the least significant byte first.
pub fn host_is_little_endian() -> bool {
    let b = one_in_host_order();
    b[0] == 1
}

} // verus!
