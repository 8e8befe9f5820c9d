use partshift::crc32::crc32;
use partshift::errors::PartitionError;
use partshift::gpt::{
    bytes_to_guid, entry_array_blocks, encode_entries, guid_to_bytes, parse_entries, GPTDisk,
    GPTHeader, GPTPartition,
};

/// A header sector whose checksum has not been patched in yet.
fn header_sector_unpatched(num_partitions: u32, part_size: u32, part_crc: u32) -> Vec<u8> {
    let mut s = vec![0u8; 512];
    s[0..8].copy_from_slice(b"EFI PART");
    s[8..12].copy_from_slice(&0x0001_0000u32.to_le_bytes());
    s[12..16].copy_from_slice(&92u32.to_le_bytes());
    s[24..32].copy_from_slice(&1u64.to_le_bytes());
    s[32..40].copy_from_slice(&0xffffu64.to_le_bytes());
    s[40..48].copy_from_slice(&34u64.to_le_bytes());
    s[48..56].copy_from_slice(&0xfffeu64.to_le_bytes());
    for i in 0..16 {
        s[56 + i] = i as u8;
    }
    s[72..80].copy_from_slice(&2u64.to_le_bytes());
    s[80..84].copy_from_slice(&num_partitions.to_le_bytes());
    s[84..88].copy_from_slice(&part_size.to_le_bytes());
    s[88..92].copy_from_slice(&part_crc.to_le_bytes());
    s
}

/// Patches the stored header CRC32 so the sector validates.
fn patch_header_crc(s: &mut [u8]) {
    let mut region = s[0..92].to_vec();
    for b in region[16..20].iter_mut() {
        *b = 0;
    }
    let crc = crc32(&region);
    s[16..20].copy_from_slice(&crc.to_le_bytes());
}

fn valid_header_sector() -> Vec<u8> {
    let mut s = header_sector_unpatched(128, 128, 0);
    patch_header_crc(&mut s);
    s
}

/// One 128-byte partition-entry record.
fn entry_record(type_seed: u8, guid_seed: u8, first_lba: u64, last_lba: u64) -> Vec<u8> {
    let mut e = vec![0u8; 128];
    for i in 0..16 {
        e[i] = type_seed.wrapping_add(i as u8);
        e[16 + i] = guid_seed.wrapping_add(i as u8);
    }
    e[32..40].copy_from_slice(&first_lba.to_le_bytes());
    e[40..48].copy_from_slice(&last_lba.to_le_bytes());
    e[48..56].copy_from_slice(&7u64.to_le_bytes());
    for i in 0..8 {
        e[56 + i] = b"diskname"[i];
    }
    e
}

#[test]
fn valid_header_parses() {
    let s = valid_header_sector();
    let h = GPTHeader::new(&s).unwrap();
    assert_eq!(h.revision, 0x0001_0000);
    assert_eq!(h.header_sz, 92);
    assert_eq!(h.curr_lba, 1);
    assert_eq!(h.backup_lba, 0xffff);
    assert_eq!(h.first_lba, 34);
    assert_eq!(h.last_lba, 0xfffe);
    assert_eq!(h.lba_part_entries, 2);
    assert_eq!(h.num_partitions(), 128);
    assert_eq!(h.part_size, 128);
    assert_eq!(h.guid.time_low, 0x0302_0100);
    assert_eq!(h.guid.time_mid, 0x0504);
    assert_eq!(h.guid.time_high, 0x0706);
    assert_eq!(h.guid.tail, 0x0f0e_0d0c_0b0a_0908);
}

#[test]
fn corrupted_header_is_rejected() {
    // A header whose stored CRC32 does not match the recomputed checksum
    // must never come back as a header.
    let mut s = valid_header_sector();
    s[40] ^= 0x01;
    assert_eq!(GPTHeader::new(&s).unwrap_err(), PartitionError::ChecksumMismatch);

    let mut s2 = valid_header_sector();
    s2[16] ^= 0xff;
    assert_eq!(GPTHeader::new(&s2).unwrap_err(), PartitionError::ChecksumMismatch);
}

#[test]
fn wrong_signature_is_rejected() {
    let mut s = valid_header_sector();
    s[0] = b'X';
    assert_eq!(GPTHeader::new(&s).unwrap_err(), PartitionError::BadSignature);
}

#[test]
fn absurd_header_size_is_rejected() {
    let mut s = valid_header_sector();
    s[12..16].copy_from_slice(&8u32.to_le_bytes());
    assert_eq!(GPTHeader::new(&s).unwrap_err(), PartitionError::ChecksumMismatch);
    let mut s2 = valid_header_sector();
    s2[12..16].copy_from_slice(&4096u32.to_le_bytes());
    assert_eq!(GPTHeader::new(&s2).unwrap_err(), PartitionError::ChecksumMismatch);
}

#[test]
fn scenario_entry_array_span() {
    // 128 entries of 128 bytes on 512-byte blocks span 32 blocks.
    assert_eq!(entry_array_blocks(128, 128, 512), 32);
    // An array that does not end on a block boundary rounds up.
    assert_eq!(entry_array_blocks(3, 128, 512), 1);
    assert_eq!(entry_array_blocks(5, 128, 512), 2);
    assert_eq!(entry_array_blocks(0, 128, 512), 0);
}

#[test]
fn guid_bytes_round_trip() {
    let bytes: Vec<u8> = (0u8..16).map(|i| i.wrapping_mul(17).wrapping_add(3)).collect();
    let g = bytes_to_guid(&bytes);
    assert_eq!(guid_to_bytes(&g), bytes);
}

#[test]
fn entries_parse_and_expose_fields() {
    let mut raw = entry_record(0x10, 0x40, 2048, 4095);
    raw.extend(entry_record(0x20, 0x60, 4096, 8191));
    let crc = crc32(&raw);
    let v = parse_entries(&raw, 2, 128, crc).unwrap();
    assert_eq!(v.len(), 2);
    assert_eq!(v[0].first_lba(), 2048);
    assert_eq!(v[0].last_lba(), 4095);
    assert_eq!(v[1].first_lba(), 4096);
    assert_eq!(v[1].last_lba(), 8191);
    assert!(v[0].is_used());
    assert_ne!(v[0].part_guid(), v[1].part_guid());
    assert_eq!(v[0].part_name[0..8], *b"diskname");
}

#[test]
fn zero_entry_is_unused() {
    let raw = vec![0u8; 128];
    let crc = crc32(&raw);
    let v = parse_entries(&raw, 1, 128, crc).unwrap();
    assert!(!v[0].is_used());
}

#[test]
fn short_entry_buffer_is_truncated() {
    let raw = entry_record(0x10, 0x40, 10, 20);
    assert_eq!(parse_entries(&raw, 2, 128, 0).unwrap_err(), PartitionError::Truncated);
    assert_eq!(parse_entries(&raw, 1, 64, 0).unwrap_err(), PartitionError::Truncated);
}

#[test]
fn corrupted_entry_array_is_rejected() {
    let raw = entry_record(0x10, 0x40, 10, 20);
    let crc = crc32(&raw);
    assert_eq!(
        parse_entries(&raw, 1, 128, crc ^ 1).unwrap_err(),
        PartitionError::ChecksumMismatch
    );
}

#[test]
fn entry_reencodes_exactly() {
    let raw = entry_record(0x11, 0x22, 100, 200);
    let crc = crc32(&raw);
    let v = parse_entries(&raw, 1, 128, crc).unwrap();
    assert_eq!(v[0].encode(), raw);
}

#[test]
fn encode_entries_pads_records() {
    let raw = entry_record(0x11, 0x22, 100, 200);
    let crc = crc32(&raw);
    let v = parse_entries(&raw, 1, 128, crc).unwrap();
    let bytes = encode_entries(&v, 136);
    assert_eq!(bytes.len(), 136);
    assert_eq!(&bytes[0..128], &raw[..]);
    assert_eq!(&bytes[128..136], &[0u8; 8]);
}

#[test]
fn disk_builds_from_header_and_entries() {
    let mut raw = entry_record(0x10, 0x40, 2048, 4095);
    raw.extend(entry_record(0x20, 0x60, 4096, 8191));
    let part_crc = crc32(&raw);
    let mut s = header_sector_unpatched(2, 128, part_crc);
    patch_header_crc(&mut s);
    let d = GPTDisk::new(&s, &raw, 9, 512).unwrap();
    assert_eq!(d.media_id, 9);
    assert_eq!(d.blocksize, 512);
    assert_eq!(d.num_parts(), 2);
    assert_eq!(d.partitions().len(), 2);
    assert_eq!(d.partitions()[1].first_lba(), 4096);
}

#[test]
fn disk_rejects_mismatched_entry_crc() {
    let raw = entry_record(0x10, 0x40, 2048, 4095);
    let mut s = header_sector_unpatched(1, 128, crc32(&raw) ^ 1);
    patch_header_crc(&mut s);
    assert_eq!(
        GPTDisk::new(&s, &raw, 9, 512).unwrap_err(),
        PartitionError::ChecksumMismatch
    );
}

#[test]
fn parse_helper_matches_struct_fields() {
    let rec = entry_record(0x30, 0x50, 555, 777);
    let p = GPTPartition::new(&rec);
    assert_eq!(p.first_lba, 555);
    assert_eq!(p.last_lba, 777);
    assert_eq!(p.attr_flags, 7);
    assert_eq!(p.part_name.len(), 72);
}
