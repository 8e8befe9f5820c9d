//! Legacy (MBR) partition table: parsing of the 512-byte boot sector into
//! four fixed-slot entries, re-encoding, and the protective-table predicate.

use vstd::prelude::*;

use crate::errors::PartitionError;
use vstd::bytes::{spec_u32_from_le_bytes, spec_u32_to_le_bytes, u32_from_le_bytes, u32_to_le_bytes};
use vstd::slice::{slice_index_get, slice_subrange};

verus! {

/// Byte offset of the two-byte `55 AA` boot signature within the sector.
pub const MBR_SIG_OFFSET: usize = 510;

/// Partition types this crate can name; any other type byte is carried
/// through as `Unknown` rather than rejected, since an unrecognized type is
/// common and non-fatal.
#[derive(Clone, Copy, Debug, PartialEq, Eq, Structural)]
pub enum MbrPartTypes {
    Empty,
    NTFS,
    Fat32,
    LinuxSwap,
    LinuxFS,
    EFIProtectiveMBR,
    EFISystem,
    Unknown(u8),
}

/// The partition type denoted by a raw type byte.
pub open spec fn spec_type_from_byte(b: u8) -> MbrPartTypes {
    if b == 0x00 {
        MbrPartTypes::Empty
    } else if b == 0x07 || b == 0x27 {
        MbrPartTypes::NTFS
    } else if b == 0x0b || b == 0x0c || b == 0x1c {
        MbrPartTypes::Fat32
    } else if b == 0x82 {
        MbrPartTypes::LinuxSwap
    } else if b == 0x83 {
        MbrPartTypes::LinuxFS
    } else if b == 0xee {
        MbrPartTypes::EFIProtectiveMBR
    } else if b == 0xef {
        MbrPartTypes::EFISystem
    } else {
        MbrPartTypes::Unknown(b)
    }
}

/// One 16-byte legacy partition entry. The status and type bytes are kept
/// raw so that re-encoding an entry reproduces its on-disk bytes exactly;
/// `active` and `part_type` derive their answers from them.
#[derive(Clone, Copy, Debug)]
pub struct MbrPartition {
    /// Byte 0: bit 7 set means the partition is marked active (bootable).
    pub status: u8,
    /// Bytes 1..4: legacy cylinder-head-sector start address, informational only.
    pub chs_start: [u8; 3],
    /// Byte 4: raw partition type.
    pub type_byte: u8,
    /// Bytes 5..8: legacy cylinder-head-sector end address, informational only.
    pub chs_end: [u8; 3],
    /// Bytes 8..12: first LBA, little-endian 32-bit, zero-extended.
    pub lba_start: u64,
    /// Bytes 12..16: sector count, little-endian 32-bit, zero-extended.
    pub num_sectors: u64,
}

/// Legacy tables carry 32-bit block addresses only.
pub open spec fn entry_wf(e: MbrPartition) -> bool {
    e.lba_start < 0x1_0000_0000 && e.num_sectors < 0x1_0000_0000
}

/// `e` is the decoding of the 16 bytes `b`.
pub open spec fn entry_parses_from(e: MbrPartition, b: Seq<u8>) -> bool {
    &&& e.status == b[0]
    &&& e.chs_start@ == b.subrange(1, 4)
    &&& e.type_byte == b[4]
    &&& e.chs_end@ == b.subrange(5, 8)
    &&& e.lba_start == spec_u32_from_le_bytes(b.subrange(8, 12)) as u64
    &&& e.num_sectors == spec_u32_from_le_bytes(b.subrange(12, 16)) as u64
}

/// The 16 on-disk bytes denoting `e`.
pub open spec fn spec_encode_entry(e: MbrPartition) -> Seq<u8> {
    seq![e.status] + e.chs_start@ + seq![e.type_byte] + e.chs_end@
        + spec_u32_to_le_bytes(e.lba_start as u32) + spec_u32_to_le_bytes(e.num_sectors as u32)
}

impl MbrPartition {
    /// Decodes one 16-byte entry slot.
    pub fn new(partition_buffer: &[u8]) -> (r: MbrPartition)
        requires
            partition_buffer@.len() == 16,
        ensures
            entry_parses_from(r, partition_buffer@),
            entry_wf(r),
    {
        let status = *slice_index_get(partition_buffer, 0);
        let chs_start: [u8; 3] = [
            *slice_index_get(partition_buffer, 1),
            *slice_index_get(partition_buffer, 2),
            *slice_index_get(partition_buffer, 3),
        ];
        let type_byte = *slice_index_get(partition_buffer, 4);
        let chs_end: [u8; 3] = [
            *slice_index_get(partition_buffer, 5),
            *slice_index_get(partition_buffer, 6),
            *slice_index_get(partition_buffer, 7),
        ];
        let lba_start = u32_from_le_bytes(slice_subrange(partition_buffer, 8, 12)) as u64;
        let num_sectors = u32_from_le_bytes(slice_subrange(partition_buffer, 12, 16)) as u64;
        let r = MbrPartition { status, chs_start, type_byte, chs_end, lba_start, num_sectors };
        proof {
            assert(r.chs_start@ =~= partition_buffer@.subrange(1, 4));
            assert(r.chs_end@ =~= partition_buffer@.subrange(5, 8));
        }
        r
    }

    /// Re-encodes the entry into its 16 on-disk bytes.
    pub fn encode(&self) -> (out: Vec<u8>)
        ensures
            out@ == spec_encode_entry(*self),
            out@.len() == 16,
    {
        let mut out: Vec<u8> = Vec::new();
        out.push(self.status);
        out.push(self.chs_start[0]);
        out.push(self.chs_start[1]);
        out.push(self.chs_start[2]);
        out.push(self.type_byte);
        out.push(self.chs_end[0]);
        out.push(self.chs_end[1]);
        out.push(self.chs_end[2]);
        let lba_bytes = u32_to_le_bytes(#[verifier::truncate] (self.lba_start as u32));
        out.push(lba_bytes[0]);
        out.push(lba_bytes[1]);
        out.push(lba_bytes[2]);
        out.push(lba_bytes[3]);
        let cnt_bytes = u32_to_le_bytes(#[verifier::truncate] (self.num_sectors as u32));
        out.push(cnt_bytes[0]);
        out.push(cnt_bytes[1]);
        out.push(cnt_bytes[2]);
        out.push(cnt_bytes[3]);
        proof {
            assert(out@ =~= spec_encode_entry(*self));
        }
        out
    }

    /// Whether the entry is marked active (bootable).
    pub fn active(&self) -> (r: bool)
        ensures
            r == (self.status & 0x80 != 0),
    {
        self.status & 0x80 != 0
    }

    /// The entry's partition type.
    pub fn part_type(&self) -> (r: MbrPartTypes)
        ensures
            r == spec_type_from_byte(self.type_byte),
    {
        if self.type_byte == 0x00 {
            MbrPartTypes::Empty
        } else if self.type_byte == 0x07 || self.type_byte == 0x27 {
            MbrPartTypes::NTFS
        } else if self.type_byte == 0x0b || self.type_byte == 0x0c || self.type_byte == 0x1c {
            MbrPartTypes::Fat32
        } else if self.type_byte == 0x82 {
            MbrPartTypes::LinuxSwap
        } else if self.type_byte == 0x83 {
            MbrPartTypes::LinuxFS
        } else if self.type_byte == 0xee {
            MbrPartTypes::EFIProtectiveMBR
        } else if self.type_byte == 0xef {
            MbrPartTypes::EFISystem
        } else {
            MbrPartTypes::Unknown(self.type_byte)
        }
    }

    /// The entry's first block address.
    pub fn lba_start(&self) -> (r: u64)
        ensures
            r == self.lba_start,
    {
        self.lba_start
    }

    /// The entry's block count.
    pub fn num_sectors(&self) -> (r: u64)
        ensures
            r == self.num_sectors,
    {
        self.num_sectors
    }
}

/// Decoding an entry and re-encoding it reproduces the original 16 bytes
/// bit for bit.
pub proof fn lemma_entry_round_trip(e: MbrPartition, b: Seq<u8>)
    requires
        b.len() == 16,
        entry_parses_from(e, b),
    ensures
        spec_encode_entry(e) == b,
{
    vstd::bytes::lemma_auto_spec_u32_to_from_le_bytes();
    assert(spec_u32_to_le_bytes(e.lba_start as u32) == b.subrange(8, 12));
    assert(spec_u32_to_le_bytes(e.num_sectors as u32) == b.subrange(12, 16));
    assert(spec_encode_entry(e) =~= b);
}

/// A legacy partition table: exactly four entries, in slot order, plus the
/// identity of the media it was read from.
#[derive(Clone, Debug)]
pub struct MBR {
    pub partitions: Vec<MbrPartition>,
    pub media_id: u32,
}

/// `m` is the decoding of the 512-byte boot sector `sector`.
pub open spec fn mbr_parses_from(m: MBR, sector: Seq<u8>) -> bool {
    &&& m.partitions@.len() == 4
    &&& forall|i: int|
        0 <= i < 4 ==> #[trigger] entry_parses_from(
            m.partitions@[i],
            sector.subrange(446 + 16 * i, 462 + 16 * i),
        )
}

/// The boot sector carries the mandatory `55 AA` signature.
pub open spec fn has_mbr_signature(sector: Seq<u8>) -> bool {
    sector[510] == 0x55 && sector[511] == 0xaa
}

/// How many entries of `s` carry the given raw type byte.
pub open spec fn count_matching(s: Seq<MbrPartition>, t: u8) -> int
    decreases s.len(),
{
    if s.len() == 0 {
        0
    } else {
        count_matching(s.drop_last(), t) + if s.last().type_byte == t {
            1int
        } else {
            0int
        }
    }
}

/// How many entries of `s` are not empty slots.
pub open spec fn count_used(s: Seq<MbrPartition>) -> int
    decreases s.len(),
{
    if s.len() == 0 {
        0
    } else {
        count_used(s.drop_last()) + if s.last().type_byte != 0 {
            1int
        } else {
            0int
        }
    }
}

impl MBR {
    /// Decodes a legacy partition table from a 512-byte boot sector.
    ///
    /// A sector lacking the `55 AA` signature is not a legacy table: the
    /// parse fails rather than defaulting, since relocation must never act
    /// on made-up partition data.
    pub fn new(bootsector: &[u8], media_id: u32) -> (r: Result<MBR, PartitionError>)
        requires
            bootsector@.len() == 512,
        ensures
            r is Ok <==> has_mbr_signature(bootsector@),
            r matches Ok(m) ==> mbr_parses_from(m, bootsector@) && m.media_id == media_id,
            r matches Err(e) ==> e == PartitionError::InvalidSignature,
    {
        let s0 = *slice_index_get(bootsector, MBR_SIG_OFFSET);
        let s1 = *slice_index_get(bootsector, MBR_SIG_OFFSET + 1);
        if s0 != 0x55 || s1 != 0xaa {
            return Err(PartitionError::InvalidSignature);
        }
        let mut partitions: Vec<MbrPartition> = Vec::new();
        partitions.push(MbrPartition::new(slice_subrange(bootsector, 446, 462)));
        partitions.push(MbrPartition::new(slice_subrange(bootsector, 462, 478)));
        partitions.push(MbrPartition::new(slice_subrange(bootsector, 478, 494)));
        partitions.push(MbrPartition::new(slice_subrange(bootsector, 494, 510)));
        let m = MBR { partitions, media_id };
        Ok(m)
    }

    /// The identity of the media this table was read from.
    pub fn media_id(&self) -> (r: u32)
        ensures
            r == self.media_id,
    {
        self.media_id
    }

    /// Whether this legacy table is a protective table: exactly one entry
    /// carries the protective type byte `0xEE`, signalling that a GUID
    /// partition table is authoritative and must be consulted instead.
    pub fn is_protective(&self) -> (r: bool)
        ensures
            r == (count_matching(self.partitions@, 0xee) == 1),
    {
        let mut count: u64 = 0;
        let n = self.partitions.len();
        let mut i: usize = 0;
        while i < n
            invariant
                n == self.partitions@.len(),
                i <= n,
                count == count_matching(self.partitions@.take(i as int), 0xee),
                count <= i,
            decreases n - i,
        {
            if self.partitions[i].type_byte == 0xee {
                count = count + 1;
            }
            proof {
                assert(self.partitions@.take(i + 1).drop_last() =~= self.partitions@.take(i as int));
            }
            i = i + 1;
        }
        proof {
            assert(self.partitions@.take(n as int) =~= self.partitions@);
        }
        count == 1
    }

    /// How many entries of the table are in use (not empty slots).
    pub fn count_partitions(&self) -> (r: u64)
        ensures
            r == count_used(self.partitions@),
    {
        let mut count: u64 = 0;
        let n = self.partitions.len();
        let mut i: usize = 0;
        while i < n
            invariant
                n == self.partitions@.len(),
                i <= n,
                count == count_used(self.partitions@.take(i as int)),
                count <= i,
            decreases n - i,
        {
            if self.partitions[i].type_byte != 0 {
                count = count + 1;
            }
            proof {
                assert(self.partitions@.take(i + 1).drop_last() =~= self.partitions@.take(i as int));
            }
            i = i + 1;
        }
        proof {
            assert(self.partitions@.take(n as int) =~= self.partitions@);
        }
        count
    }
}

/// Decoding a valid boot sector and re-encoding its four entries reproduces
/// the original 64 bytes of entry data bit for bit.
pub proof fn lemma_mbr_round_trip(m: MBR, sector: Seq<u8>)
    requires
        sector.len() == 512,
        mbr_parses_from(m, sector),
    ensures
        spec_encode_entry(m.partitions@[0]) + spec_encode_entry(m.partitions@[1])
            + spec_encode_entry(m.partitions@[2]) + spec_encode_entry(m.partitions@[3])
            == sector.subrange(446, 510),
{
    assert(entry_parses_from(m.partitions@[0], sector.subrange(446 + 16 * 0int, 462 + 16 * 0int)));
    assert(entry_parses_from(m.partitions@[1], sector.subrange(446 + 16 * 1int, 462 + 16 * 1int)));
    assert(entry_parses_from(m.partitions@[2], sector.subrange(446 + 16 * 2int, 462 + 16 * 2int)));
    assert(entry_parses_from(m.partitions@[3], sector.subrange(446 + 16 * 3int, 462 + 16 * 3int)));
    lemma_entry_round_trip(m.partitions@[0], sector.subrange(446, 462));
    lemma_entry_round_trip(m.partitions@[1], sector.subrange(462, 478));
    lemma_entry_round_trip(m.partitions@[2], sector.subrange(478, 494));
    lemma_entry_round_trip(m.partitions@[3], sector.subrange(494, 510));
    assert(spec_encode_entry(m.partitions@[0]) + spec_encode_entry(m.partitions@[1])
        + spec_encode_entry(m.partitions@[2]) + spec_encode_entry(m.partitions@[3])
        =~= sector.subrange(446, 510));
}

} // verus!
