//! GUID (GPT) partition table: header and entry parsing from raw sectors,
//! checksum validation, and re-encoding of the partition-entry array.

use vstd::prelude::*;

use crate::crc32::{crc32, spec_crc32};
use crate::errors::PartitionError;
use vstd::bytes::{
    spec_u16_from_le_bytes, spec_u16_to_le_bytes, spec_u32_from_le_bytes, spec_u32_to_le_bytes,
    spec_u64_from_le_bytes, spec_u64_to_le_bytes, u16_from_le_bytes, u16_to_le_bytes,
    u32_from_le_bytes, u32_to_le_bytes, u64_from_le_bytes, u64_to_le_bytes,
};
use vstd::slice::{slice_index_get, slice_subrange, slice_to_vec};

verus! {

/// A 16-byte GUID in its decoded form. The first three fields are stored
/// little-endian on disk; the trailing eight bytes are an opaque byte
/// string, packed here into one integer, low byte first, so that two GUIDs
/// are equal exactly when their on-disk bytes are equal.
#[derive(Clone, Copy, Debug, PartialEq, Eq, Structural)]
pub struct Guid {
    pub time_low: u32,
    pub time_mid: u16,
    pub time_high: u16,
    pub tail: u64,
}

/// The all-zero GUID, which marks an unused partition-entry slot.
pub open spec fn spec_zero_guid() -> Guid {
    Guid { time_low: 0, time_mid: 0, time_high: 0, tail: 0 }
}

/// `g` is the decoding of the 16 bytes `b`.
pub open spec fn guid_parses_from(g: Guid, b: Seq<u8>) -> bool {
    &&& g.time_low == spec_u32_from_le_bytes(b.subrange(0, 4))
    &&& g.time_mid == spec_u16_from_le_bytes(b.subrange(4, 6))
    &&& g.time_high == spec_u16_from_le_bytes(b.subrange(6, 8))
    &&& g.tail == spec_u64_from_le_bytes(b.subrange(8, 16))
}

/// The 16 on-disk bytes denoting `g`.
pub open spec fn spec_encode_guid(g: Guid) -> Seq<u8> {
    spec_u32_to_le_bytes(g.time_low) + spec_u16_to_le_bytes(g.time_mid) + spec_u16_to_le_bytes(
        g.time_high,
    ) + spec_u64_to_le_bytes(g.tail)
}

/// Decodes a GUID from its 16-byte wire form.
pub fn bytes_to_guid(bytes: &[u8]) -> (g: Guid)
    requires
        bytes@.len() == 16,
    ensures
        guid_parses_from(g, bytes@),
{
    let time_low = u32_from_le_bytes(slice_subrange(bytes, 0, 4));
    let time_mid = u16_from_le_bytes(slice_subrange(bytes, 4, 6));
    let time_high = u16_from_le_bytes(slice_subrange(bytes, 6, 8));
    let tail = u64_from_le_bytes(slice_subrange(bytes, 8, 16));
    Guid { time_low, time_mid, time_high, tail }
}

/// Re-encodes a GUID into its 16-byte wire form.
pub fn guid_to_bytes(g: &Guid) -> (out: Vec<u8>)
    ensures
        out@ == spec_encode_guid(*g),
        out@.len() == 16,
{
    let mut out: Vec<u8> = Vec::new();
    let mut part = u32_to_le_bytes(g.time_low);
    out.append(&mut part);
    let mut part = u16_to_le_bytes(g.time_mid);
    out.append(&mut part);
    let mut part = u16_to_le_bytes(g.time_high);
    out.append(&mut part);
    let mut part = u64_to_le_bytes(g.tail);
    out.append(&mut part);
    proof {
        assert(out@ =~= spec_encode_guid(*g));
    }
    out
}

/// The eight signature bytes `EFI PART`.
pub open spec fn spec_efi_signature() -> Seq<u8> {
    seq![0x45u8, 0x46u8, 0x49u8, 0x20u8, 0x50u8, 0x41u8, 0x52u8, 0x54u8]
}

/// The sector opens with the `EFI PART` signature.
pub open spec fn spec_has_efi_signature(s: Seq<u8>) -> bool {
    s.subrange(0, 8) == spec_efi_signature()
}

/// The header-size field stored in a GPT header sector.
pub open spec fn spec_hdr_size(s: Seq<u8>) -> u32 {
    spec_u32_from_le_bytes(s.subrange(12, 16))
}

/// The declared number of partition entries stored in a GPT header sector.
pub open spec fn spec_hdr_num_partitions(s: Seq<u8>) -> u32 {
    spec_u32_from_le_bytes(s.subrange(80, 84))
}

/// The declared partition-entry size stored in a GPT header sector.
pub open spec fn spec_hdr_part_size(s: Seq<u8>) -> u32 {
    spec_u32_from_le_bytes(s.subrange(84, 88))
}

/// The stored entry-array CRC32 in a GPT header sector.
pub open spec fn spec_hdr_part_crc(s: Seq<u8>) -> u32 {
    spec_u32_from_le_bytes(s.subrange(88, 92))
}

/// The bytes the header checksum is computed over: the first `sz` bytes of
/// the sector with the four CRC field bytes at offsets 16..20 zeroed.
pub open spec fn spec_header_crc_region(s: Seq<u8>, sz: int) -> Seq<u8> {
    Seq::new(
        sz as nat,
        |i: int|
            if 16 <= i < 20 {
                0u8
            } else {
                s[i]
            },
    )
}

/// A header sector is valid when it carries the signature, declares a
/// plausible header size, and its stored CRC32 matches the checksum
/// recomputed with the CRC field zeroed.
pub open spec fn spec_header_valid(s: Seq<u8>) -> bool {
    &&& spec_has_efi_signature(s)
    &&& 92 <= spec_hdr_size(s) <= 512
    &&& spec_u32_from_le_bytes(s.subrange(16, 20)) == spec_crc32(
        spec_header_crc_region(s, spec_hdr_size(s) as int),
    )
}

/// The decoded GPT header. All fields sit at fixed little-endian offsets
/// within the 512-byte header sector.
#[derive(Clone, Copy, Debug, PartialEq, Eq, Structural)]
pub struct GPTHeader {
    /// Bytes 8..12: specification revision.
    pub revision: u32,
    /// Bytes 12..16: size in bytes of the checksummed header region.
    pub header_sz: u32,
    /// Bytes 16..20: stored header CRC32 (computed with this field zeroed).
    pub crc32: u32,
    /// Bytes 24..32: LBA of this header copy.
    pub curr_lba: u64,
    /// Bytes 32..40: LBA of the backup header copy.
    pub backup_lba: u64,
    /// Bytes 40..48: first usable LBA for partition payloads.
    pub first_lba: u64,
    /// Bytes 48..56: last usable LBA for partition payloads, inclusive.
    pub last_lba: u64,
    /// Bytes 56..72: the GUID of the disk itself.
    pub guid: Guid,
    /// Bytes 72..80: LBA where the partition-entry array starts.
    pub lba_part_entries: u64,
    /// Bytes 80..84: declared number of partition entries.
    pub num_partitions: u32,
    /// Bytes 84..88: size in bytes of each partition entry.
    pub part_size: u32,
    /// Bytes 88..92: stored CRC32 of the partition-entry array.
    pub part_crc32: u32,
}

/// `h` is the decoding of the 512-byte header sector `s`.
pub open spec fn header_parses_from(h: GPTHeader, s: Seq<u8>) -> bool {
    &&& h.revision == spec_u32_from_le_bytes(s.subrange(8, 12))
    &&& h.header_sz == spec_hdr_size(s)
    &&& h.crc32 == spec_u32_from_le_bytes(s.subrange(16, 20))
    &&& h.curr_lba == spec_u64_from_le_bytes(s.subrange(24, 32))
    &&& h.backup_lba == spec_u64_from_le_bytes(s.subrange(32, 40))
    &&& h.first_lba == spec_u64_from_le_bytes(s.subrange(40, 48))
    &&& h.last_lba == spec_u64_from_le_bytes(s.subrange(48, 56))
    &&& guid_parses_from(h.guid, s.subrange(56, 72))
    &&& h.lba_part_entries == spec_u64_from_le_bytes(s.subrange(72, 80))
    &&& h.num_partitions == spec_hdr_num_partitions(s)
    &&& h.part_size == spec_hdr_part_size(s)
    &&& h.part_crc32 == spec_hdr_part_crc(s)
}

impl GPTHeader {
    /// Decodes and validates a GPT header from its 512-byte sector.
    ///
    /// The signature and the header checksum are both mandatory: a sector
    /// failing either check is corrupt and is rejected, never trusted,
    /// since the table it describes would subsequently drive destructive
    /// writes.
    pub fn new(sector: &[u8]) -> (r: Result<GPTHeader, PartitionError>)
        requires
            sector@.len() == 512,
        ensures
            r is Ok <==> spec_header_valid(sector@),
            r matches Ok(h) ==> header_parses_from(h, sector@),
            !spec_has_efi_signature(sector@) ==> r == Err::<GPTHeader, PartitionError>(
                PartitionError::BadSignature,
            ),
            spec_has_efi_signature(sector@) && !spec_header_valid(sector@) ==> r == Err::<
                GPTHeader,
                PartitionError,
            >(PartitionError::ChecksumMismatch),
    {
        let sig_ok = *slice_index_get(sector, 0) == 0x45 && *slice_index_get(sector, 1) == 0x46
            && *slice_index_get(sector, 2) == 0x49 && *slice_index_get(sector, 3) == 0x20
            && *slice_index_get(sector, 4) == 0x50 && *slice_index_get(sector, 5) == 0x41
            && *slice_index_get(sector, 6) == 0x52 && *slice_index_get(sector, 7) == 0x54;
        proof {
            if sig_ok {
                assert(sector@.subrange(0, 8) =~= spec_efi_signature());
            } else {
                assert(sector@.subrange(0, 8) != spec_efi_signature());
            }
        }
        if !sig_ok {
            return Err(PartitionError::BadSignature);
        }
        let header_sz = u32_from_le_bytes(slice_subrange(sector, 12, 16));
        if header_sz < 92 || header_sz > 512 {
            return Err(PartitionError::ChecksumMismatch);
        }
        // Rebuild the checksummed region with the CRC field bytes zeroed.
        let mut region: Vec<u8> = Vec::new();
        let sz = header_sz as usize;
        let mut i: usize = 0;
        while i < sz
            invariant
                sz <= 512,
                sector@.len() == 512,
                i <= sz,
                region@.len() == i,
                forall|j: int|
                    0 <= j < i ==> region@[j] == (if 16 <= j < 20 {
                        0u8
                    } else {
                        sector@[j]
                    }),
            decreases sz - i,
        {
            if i >= 16 && i < 20 {
                region.push(0u8);
            } else {
                region.push(*slice_index_get(sector, i));
            }
            i = i + 1;
        }
        proof {
            assert(region@ =~= spec_header_crc_region(sector@, header_sz as int));
        }
        let stored = u32_from_le_bytes(slice_subrange(sector, 16, 20));
        let computed = crc32(region.as_slice());
        if stored != computed {
            return Err(PartitionError::ChecksumMismatch);
        }
        let r = GPTHeader {
            revision: u32_from_le_bytes(slice_subrange(sector, 8, 12)),
            header_sz,
            crc32: stored,
            curr_lba: u64_from_le_bytes(slice_subrange(sector, 24, 32)),
            backup_lba: u64_from_le_bytes(slice_subrange(sector, 32, 40)),
            first_lba: u64_from_le_bytes(slice_subrange(sector, 40, 48)),
            last_lba: u64_from_le_bytes(slice_subrange(sector, 48, 56)),
            guid: bytes_to_guid(slice_subrange(sector, 56, 72)),
            lba_part_entries: u64_from_le_bytes(slice_subrange(sector, 72, 80)),
            num_partitions: u32_from_le_bytes(slice_subrange(sector, 80, 84)),
            part_size: u32_from_le_bytes(slice_subrange(sector, 84, 88)),
            part_crc32: u32_from_le_bytes(slice_subrange(sector, 88, 92)),
        };
        Ok(r)
    }

    /// The number of partition entries the header declares.
    pub fn num_partitions(&self) -> (r: u32)
        ensures
            r == self.num_partitions,
    {
        self.num_partitions
    }
}

/// The ghost form of one partition entry, with the name field as a plain
/// byte sequence.
pub struct GptEntryV {
    pub part_type_guid: Guid,
    pub part_guid: Guid,
    pub first_lba: u64,
    pub last_lba: u64,
    pub attr_flags: u64,
    pub part_name: Seq<u8>,
}

/// One decoded 128-byte GPT partition entry.
#[derive(Clone, Debug)]
pub struct GPTPartition {
    /// Bytes 0..16: the GUID naming what the partition holds.
    pub part_type_guid: Guid,
    /// Bytes 16..32: the GUID naming this partition itself.
    pub part_guid: Guid,
    /// Bytes 32..40: first LBA of the partition payload.
    pub first_lba: u64,
    /// Bytes 40..48: last LBA of the partition payload, inclusive.
    pub last_lba: u64,
    /// Bytes 48..56: attribute flag bitset.
    pub attr_flags: u64,
    /// Bytes 56..128: the partition name, UTF-16LE, possibly zero-terminated
    /// before the end of the field.
    pub part_name: Vec<u8>,
}

impl View for GPTPartition {
    type V = GptEntryV;

    open spec fn view(&self) -> GptEntryV {
        GptEntryV {
            part_type_guid: self.part_type_guid,
            part_guid: self.part_guid,
            first_lba: self.first_lba,
            last_lba: self.last_lba,
            attr_flags: self.attr_flags,
            part_name: self.part_name@,
        }
    }
}

impl DeepView for GPTPartition {
    type V = GptEntryV;

    open spec fn deep_view(&self) -> GptEntryV {
        self.view()
    }
}

/// `e` is the decoding of the first 128 bytes of an entry record `b`.
pub open spec fn gpt_entry_parses_from(e: GptEntryV, b: Seq<u8>) -> bool {
    &&& guid_parses_from(e.part_type_guid, b.subrange(0, 16))
    &&& guid_parses_from(e.part_guid, b.subrange(16, 32))
    &&& e.first_lba == spec_u64_from_le_bytes(b.subrange(32, 40))
    &&& e.last_lba == spec_u64_from_le_bytes(b.subrange(40, 48))
    &&& e.attr_flags == spec_u64_from_le_bytes(b.subrange(48, 56))
    &&& e.part_name == b.subrange(56, 128)
}

/// The entry names a real partition; an all-zero type GUID marks an unused
/// slot, which consumers must skip rather than treat as a zero-length
/// partition.
pub open spec fn entry_used(e: GptEntryV) -> bool {
    e.part_type_guid != spec_zero_guid()
}

/// The 128 on-disk bytes denoting `e`.
pub open spec fn spec_encode_gpt_entry(e: GptEntryV) -> Seq<u8> {
    spec_encode_guid(e.part_type_guid) + spec_encode_guid(e.part_guid) + spec_u64_to_le_bytes(
        e.first_lba,
    ) + spec_u64_to_le_bytes(e.last_lba) + spec_u64_to_le_bytes(e.attr_flags) + e.part_name
}

impl GPTPartition {
    /// Decodes one partition entry from the first 128 bytes of its record.
    pub fn new(chunk: &[u8]) -> (r: GPTPartition)
        requires
            chunk@.len() == 128,
        ensures
            gpt_entry_parses_from(r@, chunk@),
            r@.part_name.len() == 72,
    {
        let part_type_guid = bytes_to_guid(slice_subrange(chunk, 0, 16));
        let part_guid = bytes_to_guid(slice_subrange(chunk, 16, 32));
        let first_lba = u64_from_le_bytes(slice_subrange(chunk, 32, 40));
        let last_lba = u64_from_le_bytes(slice_subrange(chunk, 40, 48));
        let attr_flags = u64_from_le_bytes(slice_subrange(chunk, 48, 56));
        let part_name = slice_to_vec(slice_subrange(chunk, 56, 128));
        GPTPartition { part_type_guid, part_guid, first_lba, last_lba, attr_flags, part_name }
    }

    /// The GUID naming this partition itself.
    pub fn part_guid(&self) -> (r: Guid)
        ensures
            r == self.part_guid,
    {
        self.part_guid
    }

    /// The partition's first block address.
    pub fn first_lba(&self) -> (r: u64)
        ensures
            r == self.first_lba,
    {
        self.first_lba
    }

    /// The partition's last block address, inclusive.
    pub fn last_lba(&self) -> (r: u64)
        ensures
            r == self.last_lba,
    {
        self.last_lba
    }

    /// Whether this entry names a real partition rather than an unused slot.
    pub fn is_used(&self) -> (r: bool)
        ensures
            r == entry_used(self@),
    {
        self.part_type_guid.time_low != 0 || self.part_type_guid.time_mid != 0
            || self.part_type_guid.time_high != 0 || self.part_type_guid.tail != 0
    }

    /// Re-encodes the entry into the first 128 bytes of its record.
    pub fn encode(&self) -> (out: Vec<u8>)
        ensures
            out@ == spec_encode_gpt_entry(self@),
            out@.len() == 56 + self.part_name@.len(),
    {
        let mut out = guid_to_bytes(&self.part_type_guid);
        let mut part = guid_to_bytes(&self.part_guid);
        out.append(&mut part);
        let mut part = u64_to_le_bytes(self.first_lba);
        out.append(&mut part);
        let mut part = u64_to_le_bytes(self.last_lba);
        out.append(&mut part);
        let mut part = u64_to_le_bytes(self.attr_flags);
        out.append(&mut part);
        let mut name_copy = slice_to_vec(self.part_name.as_slice());
        out.append(&mut name_copy);
        proof {
            assert(out@ =~= spec_encode_gpt_entry(self@));
        }
        out
    }
}

/// `entries` is the decoding of the first `num` records, each `ps` bytes
/// long, of the raw entry-array bytes.
pub open spec fn entries_parse_from(entries: Seq<GptEntryV>, raw: Seq<u8>, num: u32, ps: u32) -> bool {
    &&& entries.len() == num
    &&& forall|i: int|
        0 <= i < num ==> #[trigger] gpt_entry_parses_from(
            entries[i],
            raw.subrange(i * ps, i * ps + 128),
        )
}

/// The raw entry-array bytes are acceptable: records big enough to hold
/// the fixed fields, a buffer long enough for the declared count, and an
/// entry-array checksum that matches the stored one.
pub open spec fn spec_entries_input_ok(raw: Seq<u8>, num: u32, ps: u32, crc: u32) -> bool {
    &&& ps >= 128
    &&& raw.len() >= num * ps
    &&& spec_crc32(raw.subrange(0, num * ps)) == crc
}

/// Slices the raw partition-entry-array bytes into `num_partitions` records
/// of `part_size` bytes each and decodes them, after checking the
/// entry-array CRC32 against the value the header stored.
pub fn parse_entries(
    raw: &[u8],
    num_partitions: u32,
    part_size: u32,
    expected_crc: u32,
) -> (r: Result<Vec<GPTPartition>, PartitionError>)
    ensures
        r is Ok <==> spec_entries_input_ok(raw@, num_partitions, part_size, expected_crc),
        r matches Ok(v) ==> entries_parse_from(v.deep_view(), raw@, num_partitions, part_size),
        part_size < 128 || raw@.len() < num_partitions * part_size ==> r == Err::<
            Vec<GPTPartition>,
            PartitionError,
        >(PartitionError::Truncated),
        part_size >= 128 && raw@.len() >= num_partitions * part_size && spec_crc32(
            raw@.subrange(0, num_partitions * part_size),
        ) != expected_crc ==> r == Err::<Vec<GPTPartition>, PartitionError>(
            PartitionError::ChecksumMismatch,
        ),
{
    if part_size < 128 {
        return Err(PartitionError::Truncated);
    }
    proof {
        assert((num_partitions as int) * (part_size as int) <= 0xffff_ffff * 0xffff_ffff)
            by (nonlinear_arith)
            requires
                num_partitions <= 0xffff_ffffu32,
                part_size <= 0xffff_ffffu32,
        ;
    }
    let total = (num_partitions as u64) * (part_size as u64);
    if (raw.len() as u64) < total {
        return Err(PartitionError::Truncated);
    }
    let region = slice_subrange(raw, 0, total as usize);
    let computed = crc32(region);
    if computed != expected_crc {
        return Err(PartitionError::ChecksumMismatch);
    }
    let mut out: Vec<GPTPartition> = Vec::new();
    let mut i: u32 = 0;
    while i < num_partitions
        invariant
            part_size >= 128,
            total == (num_partitions as int) * (part_size as int),
            raw@.len() >= total,
            total <= usize::MAX,
            i <= num_partitions,
            out.deep_view().len() == i,
            forall|j: int|
                0 <= j < i ==> #[trigger] gpt_entry_parses_from(
                    out.deep_view()[j],
                    raw@.subrange(j * part_size, j * part_size + 128),
                ),
        decreases num_partitions - i,
    {
        proof {
            assert((i as int + 1) * (part_size as int) <= (num_partitions as int) * (
            part_size as int)) by (nonlinear_arith)
                requires
                    i < num_partitions,
                    part_size >= 0,
            ;
            assert((i as int + 1) * (part_size as int) == (i as int) * (part_size as int) + (
            part_size as int)) by (nonlinear_arith);
            assert((i as int) * (part_size as int) >= 0) by (nonlinear_arith)
                requires
                    i >= 0,
                    part_size >= 0,
            ;
        }
        let off = (i as u64) * (part_size as u64);
        proof {
            assert(off + 128 <= total);
        }
        let start = off as usize;
        let chunk = slice_subrange(raw, start, start + 128);
        let e = GPTPartition::new(chunk);
        let ghost prev = out.deep_view();
        out.push(e);
        proof {
            assert(out.deep_view() =~= prev.push(e.deep_view()));
            assert(chunk@ == raw@.subrange((i as int) * (part_size as int), (i as int) * (
            part_size as int) + 128));
        }
        i = i + 1;
    }
    Ok(out)
}

/// The on-disk bytes of a whole entry array: each entry's 128 encoded
/// bytes, padded with zeroes to its declared record size.
pub open spec fn spec_encode_entries(entries: Seq<GptEntryV>, ps: int) -> Seq<u8>
    decreases entries.len(),
{
    if entries.len() == 0 {
        Seq::empty()
    } else {
        spec_encode_entries(entries.drop_last(), ps) + spec_encode_gpt_entry(entries.last())
            + Seq::new((ps - 128) as nat, |i: int| 0u8)
    }
}

/// Re-encodes a partition-entry array for writing back to disk, padding
/// each record with zeroes up to `part_size` bytes.
pub fn encode_entries(partitions: &Vec<GPTPartition>, part_size: u32) -> (out: Vec<u8>)
    requires
        part_size >= 128,
        forall|i: int| 0 <= i < partitions@.len() ==> (#[trigger] partitions@[i]@).part_name.len()
            == 72,
    ensures
        out@ == spec_encode_entries(partitions.deep_view(), part_size as int),
        out@.len() == partitions@.len() * part_size,
{
    let mut out: Vec<u8> = Vec::new();
    let n = partitions.len();
    let mut i: usize = 0;
    while i < n
        invariant
            part_size >= 128,
            n == partitions@.len(),
            i <= n,
            forall|k: int| 0 <= k < n ==> (#[trigger] partitions@[k]@).part_name.len() == 72,
            out@ == spec_encode_entries(partitions.deep_view().take(i as int), part_size as int),
            out@.len() == i * part_size,
        decreases n - i,
    {
        let ghost base = out@;
        let mut record = partitions[i].encode();
        out.append(&mut record);
        let mut k: u32 = 128;
        while k < part_size
            invariant
                128 <= k <= part_size,
                out@ =~= base + spec_encode_gpt_entry(partitions@[i as int]@) + Seq::new(
                    (k - 128) as nat,
                    |j: int| 0u8,
                ),
            decreases part_size - k,
        {
            out.push(0u8);
            proof {
                assert(out@ =~= base + spec_encode_gpt_entry(partitions@[i as int]@) + Seq::new(
                    (k + 1 - 128) as nat,
                    |j: int| 0u8,
                ));
            }
            k = k + 1;
        }
        proof {
            let dv = partitions.deep_view();
            assert(dv.take(i + 1).drop_last() =~= dv.take(i as int));
            assert(dv.take(i + 1).last() == partitions@[i as int]@);
            assert(out@ =~= spec_encode_entries(dv.take(i + 1), part_size as int));
            assert((i + 1) * (part_size as int) == i * (part_size as int) + part_size)
                by (nonlinear_arith);
        }
        i = i + 1;
    }
    proof {
        assert(partitions.deep_view().take(n as int) =~= partitions.deep_view());
    }
    out
}

/// A decoded GUID partition table together with the identity and block
/// size of the device it was read from. It is rebuilt fresh from disk for
/// every operation: a relocation changes the very state the table
/// describes, so a stale table is never reused after a write.
#[derive(Clone, Debug)]
pub struct GPTDisk {
    pub media_id: u32,
    pub blocksize: u32,
    pub header: GPTHeader,
    pub partitions: Vec<GPTPartition>,
}

impl GPTDisk {
    /// Builds the table from the raw 512-byte header sector and the raw
    /// partition-entry-array bytes, validating the signature and both
    /// checksums on the way.
    pub fn new(header_sector: &[u8], entry_bytes: &[u8], media_id: u32, blocksize: u32) -> (r:
        Result<GPTDisk, PartitionError>)
        requires
            header_sector@.len() == 512,
            blocksize >= 1,
        ensures
            r is Ok <==> (spec_header_valid(header_sector@) && spec_entries_input_ok(
                entry_bytes@,
                spec_hdr_num_partitions(header_sector@),
                spec_hdr_part_size(header_sector@),
                spec_hdr_part_crc(header_sector@),
            )),
            r matches Ok(d) ==> ({
                &&& d.media_id == media_id
                &&& d.blocksize == blocksize
                &&& header_parses_from(d.header, header_sector@)
                &&& entries_parse_from(
                    d.partitions.deep_view(),
                    entry_bytes@,
                    spec_hdr_num_partitions(header_sector@),
                    spec_hdr_part_size(header_sector@),
                )
            }),
            !spec_has_efi_signature(header_sector@) ==> r == Err::<GPTDisk, PartitionError>(
                PartitionError::BadSignature,
            ),
            spec_has_efi_signature(header_sector@) && !spec_header_valid(header_sector@) ==> r
                == Err::<GPTDisk, PartitionError>(PartitionError::ChecksumMismatch),
            spec_header_valid(header_sector@) && (spec_hdr_part_size(header_sector@) < 128
                || entry_bytes@.len() < spec_hdr_num_partitions(header_sector@)
                * spec_hdr_part_size(header_sector@)) ==> r == Err::<GPTDisk, PartitionError>(
                PartitionError::Truncated,
            ),
    {
        let header = match GPTHeader::new(header_sector) {
            Ok(h) => h,
            Err(e) => { return Err(e) },
        };
        let partitions = match parse_entries(
            entry_bytes,
            header.num_partitions,
            header.part_size,
            header.part_crc32,
        ) {
            Ok(v) => v,
            Err(e) => { return Err(e) },
        };
        Ok(GPTDisk { media_id, blocksize, header, partitions })
    }

    /// The number of partition entries in the table.
    pub fn num_parts(&self) -> (r: u32)
        ensures
            r == self.header.num_partitions,
    {
        self.header.num_partitions()
    }

    /// The table's partition entries, in on-disk order.
    pub fn partitions(&self) -> (r: &Vec<GPTPartition>)
        ensures
            *r == self.partitions,
    {
        &self.partitions
    }
}

/// How many whole device blocks the partition-entry array occupies: its
/// `num_partitions * part_size` bytes, rounded up to full blocks.
pub fn entry_array_blocks(num_partitions: u32, part_size: u32, block_size: u32) -> (r: u64)
    requires
        block_size >= 1,
    ensures
        r == ((num_partitions as int) * (part_size as int) + block_size - 1) / (block_size as int),
{
    proof {
        assert((num_partitions as int) * (part_size as int) <= 0xffff_ffff * 0xffff_ffff)
            by (nonlinear_arith)
            requires
                num_partitions <= 0xffff_ffffu32,
                part_size <= 0xffff_ffffu32,
        ;
    }
    let total = (num_partitions as u64) * (part_size as u64);
    (total + (block_size as u64) - 1) / (block_size as u64)
}

} // verus!
