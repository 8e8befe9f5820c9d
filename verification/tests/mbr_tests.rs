use partshift::errors::PartitionError;
use partshift::mbr::{MbrPartTypes, MbrPartition, MBR};

/// A 512-byte sector with the boot signature and four empty entry slots.
fn blank_sector() -> Vec<u8> {
    let mut s = vec![0u8; 512];
    s[510] = 0x55;
    s[511] = 0xaa;
    s
}

/// Writes one 16-byte entry into slot `slot` (0..4) of the sector.
fn put_entry(
    sector: &mut [u8],
    slot: usize,
    status: u8,
    type_byte: u8,
    lba_start: u32,
    num_sectors: u32,
) {
    let off = 446 + 16 * slot;
    sector[off] = status;
    sector[off + 1] = 0x01;
    sector[off + 2] = 0x02;
    sector[off + 3] = 0x03;
    sector[off + 4] = type_byte;
    sector[off + 5] = 0x04;
    sector[off + 6] = 0x05;
    sector[off + 7] = 0x06;
    sector[off + 8..off + 12].copy_from_slice(&lba_start.to_le_bytes());
    sector[off + 12..off + 16].copy_from_slice(&num_sectors.to_le_bytes());
}

#[test]
fn rejects_sector_without_signature() {
    let mut s = blank_sector();
    s[510] = 0x00;
    assert_eq!(MBR::new(&s, 7).unwrap_err(), PartitionError::InvalidSignature);
    let mut s2 = blank_sector();
    s2[511] = 0x55;
    assert_eq!(MBR::new(&s2, 7).unwrap_err(), PartitionError::InvalidSignature);
}

#[test]
fn parses_entry_fields() {
    let mut s = blank_sector();
    put_entry(&mut s, 0, 0x80, 0x83, 2048, 409600);
    let m = MBR::new(&s, 42).unwrap();
    assert_eq!(m.media_id(), 42);
    let e = &m.partitions[0];
    assert!(e.active());
    assert!(matches!(e.part_type(), MbrPartTypes::LinuxFS));
    assert_eq!(e.lba_start(), 2048);
    assert_eq!(e.num_sectors(), 409600);
    let e1 = &m.partitions[1];
    assert!(!e1.active());
    assert!(matches!(e1.part_type(), MbrPartTypes::Empty));
}

#[test]
fn maps_type_bytes() {
    let mut buf = [0u8; 16];
    buf[4] = 0x27;
    assert!(matches!(MbrPartition::new(&buf).part_type(), MbrPartTypes::NTFS));
    buf[4] = 0x0c;
    assert!(matches!(MbrPartition::new(&buf).part_type(), MbrPartTypes::Fat32));
    buf[4] = 0x82;
    assert!(matches!(MbrPartition::new(&buf).part_type(), MbrPartTypes::LinuxSwap));
    buf[4] = 0xef;
    assert!(matches!(MbrPartition::new(&buf).part_type(), MbrPartTypes::EFISystem));
    buf[4] = 0x5a;
    assert!(matches!(MbrPartition::new(&buf).part_type(), MbrPartTypes::Unknown(0x5a)));
}

#[test]
fn entry_data_round_trips() {
    let mut s = blank_sector();
    put_entry(&mut s, 0, 0x80, 0x07, 63, 1000000);
    put_entry(&mut s, 1, 0x00, 0x0b, 1000063, 2000000);
    put_entry(&mut s, 2, 0x00, 0x83, 3000063, 4000000);
    put_entry(&mut s, 3, 0x00, 0xef, 7000063, 8000);
    let m = MBR::new(&s, 1).unwrap();
    let mut reencoded: Vec<u8> = Vec::new();
    for e in m.partitions.iter() {
        reencoded.extend(e.encode());
    }
    assert_eq!(&reencoded[..], &s[446..510]);
}

#[test]
fn scenario_protective_sector() {
    let mut s = blank_sector();
    put_entry(&mut s, 0, 0x00, 0xee, 1, 0xffff_ffff);
    let m = MBR::new(&s, 3).unwrap();
    assert!(m.is_protective());
    assert!(matches!(m.partitions[0].part_type(), MbrPartTypes::EFIProtectiveMBR));
}

#[test]
fn two_protective_entries_are_not_protective() {
    let mut s = blank_sector();
    put_entry(&mut s, 0, 0x00, 0xee, 1, 100);
    put_entry(&mut s, 1, 0x00, 0xee, 200, 100);
    let m = MBR::new(&s, 3).unwrap();
    assert!(!m.is_protective());
}

#[test]
fn counts_used_entries() {
    let mut s = blank_sector();
    put_entry(&mut s, 0, 0x00, 0x83, 100, 10);
    put_entry(&mut s, 2, 0x00, 0x07, 200, 10);
    let m = MBR::new(&s, 3).unwrap();
    assert_eq!(m.count_partitions(), 2);
}
