//! Globally unique identifiers as stored on disk by GPT: the first three
//! groups little-endian, the last two big-endian.
use vstd::prelude::*;
use crate::utils::bytes::{
    be_bytes, byte_of, le128, le16, le32, lemma_be_byte, lemma_le_byte, lemma_le_fixed, lemma_pow256,
    read_u128_le, read_u16_le, read_u32_le,
};

verus! {

/// A 16-byte GUID together with its groups.
#[derive(Clone, Copy, Debug, PartialEq, Eq, Structural)]
pub struct Guid {
    /// the entire guid in little endian
    whole: u128,
    first: u32,
    second: u16,
    third: u16,
    /// the last two groups, big endian
    last: u64,
}

impl View for Guid {
    /// The groups: the whole identifier, then the first, second, third and last group.
    type V = (u128, u32, u16, u16, u64);

    closed spec fn view(&self) -> (u128, u32, u16, u16, u64) {
        (self.whole, self.first, self.second, self.third, self.last)
    }
}

impl Guid {

    /// The group values that `buf` encodes.
    pub closed spec fn decodes(&self, buf: Seq<u8>) -> bool {
        &&& buf.len() == 16
        &&& self.whole == le128(buf, 0)
        &&& self.first == le32(buf, 0)
        &&& self.second == le16(buf, 4)
        &&& self.third == le16(buf, 6)
        &&& self.last == be_bytes(buf, 8, 8)
    }

    /// The 16 bytes that this identifier's groups encode.
    pub closed spec fn spec_bytes(&self) -> Seq<u8> {
        seq![
            (self.first % 256) as u8,
            ((self.first / 256) % 256) as u8,
            ((self.first / 65536) % 256) as u8,
            ((self.first / 0x100_0000) % 256) as u8,
            (self.second % 256) as u8,
            ((self.second / 256) % 256) as u8,
            (self.third % 256) as u8,
            ((self.third / 256) % 256) as u8,
            ((self.last / 0x100_0000_0000_0000) % 256) as u8,
            ((self.last / 0x1_0000_0000_0000) % 256) as u8,
            ((self.last / 0x100_0000_0000) % 256) as u8,
            ((self.last / 0x1_0000_0000) % 256) as u8,
            ((self.last / 0x100_0000) % 256) as u8,
            ((self.last / 0x1_0000) % 256) as u8,
            ((self.last / 0x100) % 256) as u8,
            (self.last % 256) as u8,
        ]
    }

    /// Parses the on-disk form of a GUID.
    pub fn from_buf(buf: &[u8; 16]) -> (g: Self)
        ensures
            g.decodes(buf@),
    {
        let s = buf.as_slice();
        let mut last: u64 = 0;
        let mut i: usize = 8;
        while i < 16
            invariant
                8 <= i <= 16,
                s@ == buf@,
                s@.len() == 16,
                last == be_bytes(s@, 8, (i - 8) as nat),
                last < crate::utils::bytes::pow256((i - 8) as nat),
            decreases 16 - i,
        {
            proof {
                reveal_with_fuel(crate::utils::bytes::pow256, 2);
                assert(last * 256 + s@[i as int] < crate::utils::bytes::pow256((i - 7) as nat))
                    by (nonlinear_arith)
                    requires
                        last < crate::utils::bytes::pow256((i - 8) as nat),
                        s@[i as int] < 256,
                        crate::utils::bytes::pow256((i - 7) as nat) == 256
                            * crate::utils::bytes::pow256((i - 8) as nat),
                ;
                crate::utils::bytes::lemma_pow256();
            }
            last = last * 256 + s[i] as u64;
            i = i + 1;
        }
        Guid {
            whole: read_u128_le(s, 0),
            first: read_u32_le(s, 0),
            second: read_u16_le(s, 4),
            third: read_u16_le(s, 6),
            last,
        }
    }

    /// The on-disk form of this GUID.
    pub fn to_buf(&self) -> (res: [u8; 16])
        ensures
            res@ == self.spec_bytes(),
    {
        let mut res: [u8; 16] = [0; 16];
        res[0] = (self.first % 256) as u8;
        res[1] = ((self.first / 256) % 256) as u8;
        res[2] = ((self.first / 65536) % 256) as u8;
        res[3] = ((self.first / 0x100_0000) % 256) as u8;
        res[4] = (self.second % 256) as u8;
        res[5] = ((self.second / 256) % 256) as u8;
        res[6] = (self.third % 256) as u8;
        res[7] = ((self.third / 256) % 256) as u8;
        res[8] = ((self.last / 0x100_0000_0000_0000) % 256) as u8;
        res[9] = ((self.last / 0x1_0000_0000_0000) % 256) as u8;
        res[10] = ((self.last / 0x100_0000_0000) % 256) as u8;
        res[11] = ((self.last / 0x1_0000_0000) % 256) as u8;
        res[12] = ((self.last / 0x100_0000) % 256) as u8;
        res[13] = ((self.last / 0x1_0000) % 256) as u8;
        res[14] = ((self.last / 0x100) % 256) as u8;
        res[15] = (self.last % 256) as u8;
        assert(res@ =~= self.spec_bytes());
        res
    }

    /// The all-zero identifier: its groups are zero, and it is written as sixteen zero
    /// bytes.
    pub fn new() -> (g: Self)
        ensures
            g@ == (0u128, 0u32, 0u16, 0u16, 0u64),
            g.spec_bytes() == Seq::new(16, |i: int| 0u8),
            g.decodes(Seq::new(16, |i: int| 0u8)),
    {
        let g = Guid { whole: 0, first: 0, second: 0, third: 0, last: 0 };
        assert(g.spec_bytes() =~= Seq::new(16, |i: int| 0u8));
        proof {
            let z = Seq::new(16, |i: int| 0u8);
            reveal_with_fuel(be_bytes, 9);
            assert(le128(z, 0) == 0);
            assert(be_bytes(z, 8, 8) == 0);
        }
        g
    }

    /// The identifier whose little-endian 16-byte encoding is `v`.
    pub fn from_u128(v: u128) -> (g: Self)
        ensures
            g.decodes(crate::utils::bytes::put_le(Seq::new(16, |i: int| 0u8), 0, 16, v as int)),
    {
        let mut buf: Vec<u8> = vec![0u8; 16];
        assert(buf@ =~= Seq::new(16, |i: int| 0u8));
        crate::utils::bytes::write_le(&mut buf, 0, 16, v);
        assert(buf@ =~= crate::utils::bytes::put_le(Seq::new(16, |i: int| 0u8), 0, 16, v as int));
        let mut arr: [u8; 16] = [0; 16];
        let mut i: usize = 0;
        while i < 16
            invariant
                i <= 16,
                buf@.len() == 16,
                forall|j: int| 0 <= j < i ==> #[trigger] arr@[j] == buf@[j],
            decreases 16 - i,
        {
            arr[i] = buf[i];
            i = i + 1;
        }
        assert(arr@ =~= buf@);
        Self::from_buf(&arr)
    }
}

/// Parsing the bytes of a GUID's groups gives back the same groups.
pub proof fn lemma_guid_to_buf_from_buf(buf: Seq<u8>, g: Guid)
    requires
        g.decodes(buf),
    ensures
        g.spec_bytes() == buf,
{
    lemma_le_fixed(buf, 0);
    lemma_le_fixed(buf, 4);
    lemma_le_fixed(buf, 6);
    lemma_pow256();
    assert forall|j: nat| j < 4 implies byte_of(g@.1 as int, j) == buf[j as int] by {
        lemma_le_byte(buf, 0, 4, j);
    }
    assert forall|j: nat| j < 2 implies byte_of(g@.2 as int, j) == buf[4 + j as int] by {
        lemma_le_byte(buf, 4, 2, j);
    }
    assert forall|j: nat| j < 2 implies byte_of(g@.3 as int, j) == buf[6 + j as int] by {
        lemma_le_byte(buf, 6, 2, j);
    }
    assert forall|j: nat| j < 8 implies byte_of(g@.4 as int, j) == buf[15 - j as int] by {
        lemma_be_byte(buf, 8, 8, j);
    }
    assert(byte_of(g@.1 as int, 0) == buf[0]);
    assert(byte_of(g@.1 as int, 1) == buf[1]);
    assert(byte_of(g@.1 as int, 2) == buf[2]);
    assert(byte_of(g@.1 as int, 3) == buf[3]);
    assert(byte_of(g@.2 as int, 0) == buf[4]);
    assert(byte_of(g@.2 as int, 1) == buf[5]);
    assert(byte_of(g@.3 as int, 0) == buf[6]);
    assert(byte_of(g@.3 as int, 1) == buf[7]);
    assert(byte_of(g@.4 as int, 7) == buf[8]);
    assert(byte_of(g@.4 as int, 6) == buf[9]);
    assert(byte_of(g@.4 as int, 5) == buf[10]);
    assert(byte_of(g@.4 as int, 4) == buf[11]);
    assert(byte_of(g@.4 as int, 3) == buf[12]);
    assert(byte_of(g@.4 as int, 2) == buf[13]);
    assert(byte_of(g@.4 as int, 1) == buf[14]);
    assert(byte_of(g@.4 as int, 0) == buf[15]);
    assert(g.spec_bytes() =~= buf);
}

} // verus!
