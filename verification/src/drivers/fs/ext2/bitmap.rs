//! Block and inode bitmaps: bit `i` is bit `i % 8` of byte `i / 8`, counted from the least
//! significant bit.
use vstd::prelude::*;

verus! {

/// Whether bit `i` of the bitmap `bm` is set.
pub open spec fn bit_set(bm: Seq<u8>, i: int) -> bool {
    bm[i / 8] & (1u8 << ((i % 8) as u8)) != 0
}

/// Whether bit `i` of `bm` is set.
pub fn test_bit(bm: &[u8], i: usize) -> (b: bool)
    requires
        i / 8 < bm@.len(),
    ensures
        b == bit_set(bm@, i as int),
{
    bm[i / 8] & (1u8 << ((i % 8) as u8)) != 0
}

/// The mask of bit `i` inside its byte.
pub open spec fn bit_mask(i: int) -> u8 {
    1u8 << ((i % 8) as u8)
}

/// `bm` with bit `i` set.
pub open spec fn with_bit(bm: Seq<u8>, i: int) -> Seq<u8> {
    bm.update(i / 8, bm[i / 8] | bit_mask(i))
}

/// `bm` with bit `i` cleared.
pub open spec fn without_bit(bm: Seq<u8>, i: int) -> Seq<u8> {
    bm.update(i / 8, bm[i / 8] & !bit_mask(i))
}

/// Sets bit `i` of `bm`; every other bit stays as it was.
pub fn set_bit(bm: &mut Vec<u8>, i: usize)
    requires
        i / 8 < old(bm)@.len(),
    ensures
        final(bm)@ == with_bit(old(bm)@, i as int),
        final(bm)@.len() == old(bm)@.len(),
        bit_set(final(bm)@, i as int),
        forall|j: int| 0 <= j < 8 * old(bm)@.len() && j != i ==> #[trigger] bit_set(final(bm)@, j) == bit_set(old(bm)@, j),
{
    let ghost before = bm@;
    let byte = bm[i / 8];
    let m: u8 = 1u8 << ((i % 8) as u8);
    bm.set(i / 8, byte | m);
    proof {
        let k = (i % 8) as u8;
        assert(k < 8);
        assert((byte | (1u8 << k)) & (1u8 << k) != 0) by (bit_vector)
            requires
                k < 8,
        ;
        assert forall|j: int| 0 <= j < 8 * before.len() && j != i implies #[trigger] bit_set(bm@, j)
            == bit_set(before, j) by {
            if j / 8 == i / 8 {
                let kj = (j % 8) as u8;
                assert(kj != k);
                assert(kj < 8);
                assert((byte | (1u8 << k)) & (1u8 << kj) == byte & (1u8 << kj)) by (bit_vector)
                    requires
                        k < 8,
                        kj < 8,
                        k != kj,
                ;
            }
        }
    }
}

/// Clears bit `i` of `bm`; every other bit stays as it was.
pub fn clear_bit(bm: &mut Vec<u8>, i: usize)
    requires
        i / 8 < old(bm)@.len(),
    ensures
        final(bm)@ == without_bit(old(bm)@, i as int),
        final(bm)@.len() == old(bm)@.len(),
        !bit_set(final(bm)@, i as int),
        forall|j: int| 0 <= j < 8 * old(bm)@.len() && j != i ==> #[trigger] bit_set(final(bm)@, j) == bit_set(old(bm)@, j),
{
    let ghost before = bm@;
    let byte = bm[i / 8];
    let m: u8 = 1u8 << ((i % 8) as u8);
    bm.set(i / 8, byte & !m);
    proof {
        let k = (i % 8) as u8;
        assert(k < 8);
        assert((byte & !(1u8 << k)) & (1u8 << k) == 0) by (bit_vector)
            requires
                k < 8,
        ;
        assert forall|j: int| 0 <= j < 8 * before.len() && j != i implies #[trigger] bit_set(bm@, j)
            == bit_set(before, j) by {
            if j / 8 == i / 8 {
                let kj = (j % 8) as u8;
                assert(kj != k);
                assert(kj < 8);
                assert((byte & !(1u8 << k)) & (1u8 << kj) == byte & (1u8 << kj)) by (bit_vector)
                    requires
                        k < 8,
                        kj < 8,
                        k != kj,
                ;
            }
        }
    }
}

/// The first clear bit of `bm` below `limit`, if any.
pub fn first_clear_bit(bm: &[u8], limit: usize) -> (r: Option<usize>)
    requires
        limit <= 8 * bm@.len(),
    ensures
        r matches Some(i) ==> i < limit && !bit_set(bm@, i as int) && forall|j: int|
            0 <= j < i ==> #[trigger] bit_set(bm@, j),
        r is None ==> forall|j: int| 0 <= j < limit ==> #[trigger] bit_set(bm@, j),
{
    let mut i: usize = 0;
    while i < limit
        invariant
            i <= limit,
            limit <= 8 * bm@.len(),
            forall|j: int| 0 <= j < i ==> #[trigger] bit_set(bm@, j),
        decreases limit - i,
    {
        if !test_bit(bm, i) {
            return Some(i);
        }
        i = i + 1;
    }
    None
}

/// Setting a clear bit and clearing it again gives the bitmap back.
pub proof fn lemma_set_then_clear(bm: Seq<u8>, i: int)
    requires
        0 <= i,
        i / 8 < bm.len(),
        !bit_set(bm, i),
    ensures
        without_bit(with_bit(bm, i), i) == bm,
{
    let x = bm[i / 8];
    let k = (i % 8) as u8;
    assert(k < 8);
    assert(x & (1u8 << k) == 0 ==> (x | (1u8 << k)) & !(1u8 << k) == x) by (bit_vector)
        requires
            k < 8,
    ;
    assert(without_bit(with_bit(bm, i), i) =~= bm);
}

} // verus!
