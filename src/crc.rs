//! Reflected CRC-32 (polynomial `0xEDB88320`, initial and final XOR
//! `0xFFFFFFFF`) computed with a 256-entry lookup table.
use vstd::prelude::*;

verus! {

/// The reflected generator polynomial.
pub const CRC_POLYNOMIAL: u32 = 0xedb88320;

/// Value the running checksum starts from, and that the result is XORed with.
pub const CRC_MASK: u32 = 0xffffffff;

/// One round of the bitwise reduction: shift right, folding the polynomial in
/// when the bit shifted out was set.
pub open spec fn reduce_round(c: u32) -> u32 {
    if c & 1 == 1 {
        CRC_POLYNOMIAL ^ (c >> 1)
    } else {
        c >> 1
    }
}

/// `n` rounds of `reduce_round` starting from `c`.
pub open spec fn reduce_rounds(c: u32, n: nat) -> u32
    decreases n,
{
    if n == 0 {
        c
    } else {
        reduce_round(reduce_rounds(c, (n - 1) as nat))
    }
}

/// The table entry for byte value `i`: eight reduction rounds from seed `i`.
pub open spec fn table_entry(i: u32) -> u32 {
    reduce_rounds(i, 8)
}

/// The whole lookup table, indexed by byte value.
pub open spec fn crc_table() -> Seq<u32> {
    Seq::new(256, |i: int| table_entry(i as u32))
}

/// Index of the table entry that the next byte `b` selects.
pub open spec fn table_index(c: u32, b: u8) -> u32 {
    (c ^ (b as u32)) & 0xff
}

/// Feeds the bytes of `s` one at a time into the running value `c`, looking
/// entries up in `table`.
pub open spec fn crc_fold(table: Seq<u32>, c: u32, s: Seq<u8>) -> u32
    decreases s.len(),
{
    if s.len() == 0 {
        c
    } else {
        let p = crc_fold(table, c, s.drop_last());
        table[table_index(p, s.last()) as int] ^ (p >> 8)
    }
}

/// The CRC-32 of `s` computed with `table`.
pub open spec fn crc32_with(table: Seq<u32>, s: Seq<u8>) -> u32 {
    crc_fold(table, CRC_MASK, s) ^ CRC_MASK
}

/// The standard CRC-32 of `s`.
pub open spec fn crc32(s: Seq<u8>) -> u32 {
    crc32_with(crc_table(), s)
}

/// Owner of a built lookup table. A value is only ever made with the complete
/// table, so a checksum never needs to build or check it.
pub struct CrcManager {
    table: Vec<u32>,
}

impl View for CrcManager {
    type V = Seq<u32>;

    closed spec fn view(&self) -> Seq<u32> {
        self.table@
    }
}

impl CrcManager {
    /// The manager holds exactly the standard table.
    pub open spec fn wf(&self) -> bool {
        self@ == crc_table()
    }

    /// Computes the lookup table: entry `i` is `i` after eight reduction rounds.
    pub fn make_crc_table() -> (table: Vec<u32>)
        ensures
            table@ == crc_table(),
            table@.len() == 256,
            forall|i: int| 0 <= i < 256 ==> #[trigger] table@[i] == table_entry(i as u32),
    {
        let mut table: Vec<u32> = Vec::with_capacity(256);
        let mut i: u32 = 0;
        while i < 256
            invariant
                i <= 256,
                table@.len() == i,
                forall|j: int| 0 <= j < i ==> #[trigger] table@[j] == table_entry(j as u32),
            decreases 256 - i,
        {
            let mut c: u32 = i;
            let mut k: u32 = 0;
            while k < 8
                invariant
                    k <= 8,
                    c == reduce_rounds(i, k as nat),
                decreases 8 - k,
            {
                if c & 1 == 1 {
                    c = CRC_POLYNOMIAL ^ (c >> 1);
                } else {
                    c = c >> 1;
                }
                k = k + 1;
            }
            table.push(c);
            i = i + 1;
        }
        assert(table@ =~= crc_table());
        table
    }

    /// Continues a running checksum `crc` over the bytes of `buf`, without the
    /// initial and final XOR.
    pub fn update_crc(&self, crc: u32, buf: &[u8]) -> (r: u32)
        requires
            self.wf(),
        ensures
            r == crc_fold(self@, crc, buf@),
    {
        let mut c: u32 = crc;
        let mut i: usize = 0;
        while i < buf.len()
            invariant
                self.wf(),
                i <= buf@.len(),
                c == crc_fold(self@, crc, buf@.subrange(0, i as int)),
            decreases buf@.len() - i,
        {
            let b: u8 = buf[i];
            let idx: u32 = (c ^ (b as u32)) & 0xff;
            assert(idx < 256) by (bit_vector)
                requires
                    idx == (c ^ (b as u32)) & 0xff,
            ;
            proof {
                let next = buf@.subrange(0, i + 1);
                assert(next.drop_last() =~= buf@.subrange(0, i as int));
                assert(next.last() == b);
            }
            c = self.table[idx as usize] ^ (c >> 8);
            i = i + 1;
        }
        assert(buf@.subrange(0, buf@.len() as int) =~= buf@);
        c
    }

    /// The CRC-32 of `buf`.
    pub fn crc(&self, buf: &[u8]) -> (r: u32)
        requires
            self.wf(),
        ensures
            r == crc32_with(self@, buf@),
            r == crc32(buf@),
    {
        self.update_crc(CRC_MASK, buf) ^ CRC_MASK
    }
}

/// Feeding `a` and then `b` gives the same running value as feeding `a + b`.
pub proof fn lemma_crc_fold_concat(table: Seq<u32>, c: u32, a: Seq<u8>, b: Seq<u8>)
    ensures
        crc_fold(table, c, a + b) == crc_fold(table, crc_fold(table, c, a), b),
    decreases b.len(),
{
    if b.len() == 0 {
        assert(a + b =~= a);
    } else {
        lemma_crc_fold_concat(table, c, a, b.drop_last());
        assert((a + b).drop_last() =~= a + b.drop_last());
        assert((a + b).last() == b.last());
    }
}

/// Builds the CRC-32 lookup table once; every checksum taken through the
/// result reuses it.
pub fn build_table() -> (m: CrcManager)
    ensures
        m.wf(),
        m@ == crc_table(),
{
    CrcManager { table: CrcManager::make_crc_table() }
}

/// The CRC-32 of `bytes`, computed with a built table.
pub fn checksum(table: &CrcManager, bytes: &[u8]) -> (r: u32)
    requires
        table.wf(),
    ensures
        r == crc32(bytes@),
{
    table.crc(bytes)
}

/// A checksum is reproducible: any two built tables are the same table, and
/// both give the same checksum for every byte sequence, namely its CRC-32.
pub proof fn lemma_checksum_reproducible(a: CrcManager, b: CrcManager, s: Seq<u8>)
    requires
        a.wf(),
        b.wf(),
    ensures
        a@ == b@,
        crc32_with(a@, s) == crc32_with(b@, s),
        crc32_with(a@, s) == crc32(s),
{
}

} // verus!
