pub mod bytes;
pub mod crc32;
pub mod guid;
pub mod strings;

use vstd::prelude::*;

verus! {

/// Whether bit `bit` of `target` is set.
pub fn binary_test(target: u64, bit: u64) -> (r: bool)
    requires
        bit < 64,
    ensures
        r == ((target >> bit) % 2 == 1),
{
    let m: u64 = 1u64 << bit;
    let r = (target & m) == m;
    assert(((target & (1u64 << bit)) == (1u64 << bit)) == ((target >> bit) % 2 == 1)) by (bit_vector)
        requires
            bit < 64,
    ;
    r
}

} // verus!
