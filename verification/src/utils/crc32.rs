//! Table-driven CRC-32 over byte vectors.
//!
//! The lookup table is built from the reflected form of the polynomial
//! `0x04C11DB7`: each index is reflected over nine bit positions and shifted
//! to the top byte, shifted eight times through the polynomial, and finally
//! reflected over thirty-three bit positions.  Shift amounts of thirty-two
//! wrap around to zero, as a plain `<<` does when overflow checks are off.
use vstd::prelude::*;

verus! {

/// The generator polynomial in its non-reflected form.
pub const CRC32_POLYNOMIAL: u32 = 0x04C11DB7;

/// `v` with bit `p` (counted from bit 0 upwards, for `p` in `i_pos..=c_char`) moved to
/// position `(c_char - p) mod 32`, OR-ed into `acc`; `v` has already been shifted right
/// `i_pos` times.
pub open spec fn reflect_from(v: u32, c_char: int, i_pos: int, acc: u32) -> u32
    decreases c_char + 1 - i_pos,
{
    if i_pos >= c_char + 1 {
        acc
    } else {
        let bit: u32 = if v & 1 != 0 {
            acc | (1u32 << (((c_char - i_pos) % 32) as u32))
        } else {
            acc
        };
        reflect_from(v >> 1, c_char, i_pos + 1, bit)
    }
}

/// The reflection of `v` over the bit positions `0..=c_char`.
pub open spec fn spec_reflect(v: u32, c_char: int) -> u32 {
    reflect_from(v, c_char, 0, 0)
}

/// One step of the left-shifting polynomial division.
pub open spec fn poly_step(t: u32) -> u32 {
    let temp: u32 = if t & 0x8000_0000 != 0 { CRC32_POLYNOMIAL } else { 0 };
    ((t << 1u32) as u32) ^ temp
}

/// `n` steps of the polynomial division.
pub open spec fn poly_steps(t: u32, n: nat) -> u32
    decreases n,
{
    if n == 0 {
        t
    } else {
        poly_steps(poly_step(t), (n - 1) as nat)
    }
}

/// The table entry for the byte value `i`.
pub open spec fn table_entry(i: u32) -> u32 {
    spec_reflect(poly_steps(((spec_reflect(i, 8) << 24u32) as u32), 8), 32)
}

/// One table-driven update of the running value `c` with the byte `b`.
pub open spec fn crc_step(c: u32, b: u8) -> u32 {
    (c >> 8u32) ^ table_entry((c & 0xFF) ^ (b as u32))
}

/// The running value after feeding all of `data` into `c`, first byte first.
pub open spec fn crc_update(c: u32, data: Seq<u8>) -> u32
    decreases data.len(),
{
    if data.len() == 0 {
        c
    } else {
        crc_step(crc_update(c, data.drop_last()), data.last())
    }
}

/// The CRC-32 of `data`: start from all ones, feed every byte, invert.
pub open spec fn spec_crc32(data: Seq<u8>) -> u32 {
    crc_update(0xFFFF_FFFF, data) ^ 0xFFFF_FFFF
}

/// Reflects the bits `0..=c_char` of `i_reflect`.
pub fn reflect(i_reflect: u32, c_char: i8) -> (r: u32)
    requires
        0 <= c_char < 127,
    ensures
        r == spec_reflect(i_reflect, c_char as int),
{
    let mut v = i_reflect;
    let mut i_val: u32 = 0;
    let mut i_pos: i8 = 0;
    while i_pos < c_char + 1
        invariant
            0 <= c_char < 127,
            0 <= i_pos <= c_char + 1,
            reflect_from(v, c_char as int, i_pos as int, i_val) == spec_reflect(
                i_reflect,
                c_char as int,
            ),
        decreases c_char + 1 - i_pos,
    {
        if (v & 0x1) != 0 {
            let amount: u32 = ((c_char - i_pos) as u32) % 32;
            i_val = i_val | (1u32 << amount);
        }
        v = v >> 1;
        i_pos = i_pos + 1;
    }
    i_val
}

/// Builds the 256-entry lookup table.
pub fn initialize_crc32() -> (table: Vec<u32>)
    ensures
        table.len() == 256,
        forall|i: int| 0 <= i < 256 ==> #[trigger] table[i] == table_entry(i as u32),
{
    let mut table: Vec<u32> = Vec::new();
    let mut i_codes: u32 = 0;
    while i_codes <= 0xFF
        invariant
            i_codes <= 256,
            table.len() == i_codes,
            forall|i: int| 0 <= i < i_codes ==> #[trigger] table[i] == table_entry(i as u32),
        decreases 256 - i_codes,
    {
        let mut t: u32 = reflect(i_codes, 8) << 24;
        let ghost start = t;
        let mut k: u32 = 0;
        while k < 8
            invariant
                k <= 8,
                poly_steps(t, (8 - k) as nat) == poly_steps(start, 8),
            decreases 8 - k,
        {
            let temp: u32 = if t & (1u32 << 31) != 0 {
                CRC32_POLYNOMIAL
            } else {
                0
            };
            assert((1u32 << 31u32) == 0x8000_0000u32) by (bit_vector);
            t = (t << 1) ^ temp;
            k = k + 1;
        }
        let entry = reflect(t, 32);
        table.push(entry);
        i_codes = i_codes + 1;
    }
    table
}

/// Feeds every byte of `s_data` into the running value `i_crc`.
fn partial_crc(table: &Vec<u32>, i_crc: &mut u32, s_data: &Vec<u8>)
    requires
        table.len() == 256,
        forall|i: int| 0 <= i < 256 ==> #[trigger] table[i] == table_entry(i as u32),
    ensures
        *final(i_crc) == crc_update(*old(i_crc), s_data@),
{
    let ghost init = *i_crc;
    let mut idx: usize = 0;
    while idx < s_data.len()
        invariant
            table.len() == 256,
            forall|i: int| 0 <= i < 256 ==> #[trigger] table[i] == table_entry(i as u32),
            idx <= s_data.len(),
            *i_crc == crc_update(init, s_data@.take(idx as int)),
        decreases s_data.len() - idx,
    {
        let data = s_data[idx];
        let c = *i_crc;
        let key: u32 = (c & 0xFF) ^ (data as u32);
        assert(key < 256) by (bit_vector)
            requires key == (c & 0xFF) ^ (data as u32);
        *i_crc = (c >> 8) ^ table[key as usize];
        assert(s_data@.take(idx as int + 1).drop_last() =~= s_data@.take(idx as int));
        idx = idx + 1;
    }
    assert(s_data@.take(s_data.len() as int) =~= s_data@);
}

/// Whether `crc32` is the CRC-32 of `arr`.
pub fn is_verified_crc32(arr: &Vec<u8>, crc32: u32) -> (ok: bool)
    ensures
        ok == (crc32 == spec_crc32(arr@)),
{
    if crc32 == full_crc(arr) {
        return true;
    }
    false
}

/// The CRC-32 of `s_data`.
pub fn full_crc(s_data: &Vec<u8>) -> (crc: u32)
    ensures
        crc == spec_crc32(s_data@),
{
    let table = initialize_crc32();
    let mut ul_crc: u32 = 0xFFFF_FFFF;
    partial_crc(&table, &mut ul_crc, s_data);
    ul_crc ^ 0xFFFF_FFFF
}

} // verus!
