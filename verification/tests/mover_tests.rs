use partshift::gpt::{GPTDisk, GPTHeader, GPTPartition, Guid};
use partshift::mover::relocation_steps;
use partshift::planner::{plan, SAFETY_MARGIN_BYTES};

fn guid(n: u64) -> Guid {
    Guid { time_low: n as u32, time_mid: 0, time_high: 0, tail: n }
}

fn small_disk(target: &GPTPartition) -> GPTDisk {
    let header = GPTHeader {
        revision: 0x0001_0000,
        header_sz: 92,
        crc32: 0,
        curr_lba: 1,
        backup_lba: 0,
        first_lba: 34,
        last_lba: 1_000_000,
        guid: guid(0xD15C),
        lba_part_entries: 2,
        num_partitions: 1,
        part_size: 128,
        part_crc32: 0,
    };
    GPTDisk { media_id: 1, blocksize: 512, header, partitions: vec![target.clone()] }
}

#[test]
fn schedule_with_remainder() {
    // 10 blocks moved through a 4-block scratch buffer: two full chunks
    // and one short final transfer, in increasing, contiguous order.
    let target = GPTPartition {
        part_type_guid: guid(0xAA),
        part_guid: guid(1),
        first_lba: 100,
        last_lba: 109,
        attr_flags: 0,
        part_name: vec![0u8; 72],
    };
    let d = small_disk(&target);
    let p = plan(&d, &target, 500, SAFETY_MARGIN_BYTES + 4 * 512).unwrap();
    assert_eq!(p.chunk_blocks, 4);
    assert_eq!(p.full_chunks, 2);
    assert_eq!(p.remainder_blocks, 2);
    let steps = relocation_steps(&p, 100, 500);
    assert_eq!(steps.len(), 3);
    assert_eq!((steps[0].read_lba, steps[0].write_lba, steps[0].blocks), (100, 500, 4));
    assert_eq!((steps[1].read_lba, steps[1].write_lba, steps[1].blocks), (104, 504, 4));
    assert_eq!((steps[2].read_lba, steps[2].write_lba, steps[2].blocks), (108, 508, 2));
    let total: u64 = steps.iter().map(|s| s.blocks).sum();
    assert_eq!(total, 10);
}

#[test]
fn schedule_without_remainder() {
    let target = GPTPartition {
        part_type_guid: guid(0xAA),
        part_guid: guid(1),
        first_lba: 100,
        last_lba: 107,
        attr_flags: 0,
        part_name: vec![0u8; 72],
    };
    let d = small_disk(&target);
    let p = plan(&d, &target, 500, SAFETY_MARGIN_BYTES + 4 * 512).unwrap();
    assert_eq!(p.full_chunks, 2);
    assert_eq!(p.remainder_blocks, 0);
    let steps = relocation_steps(&p, 100, 500);
    assert_eq!(steps.len(), 2);
    assert_eq!((steps[1].read_lba, steps[1].write_lba, steps[1].blocks), (104, 504, 4));
}

#[test]
fn single_short_transfer() {
    // A payload smaller than one chunk is one short transfer.
    let target = GPTPartition {
        part_type_guid: guid(0xAA),
        part_guid: guid(1),
        first_lba: 100,
        last_lba: 102,
        attr_flags: 0,
        part_name: vec![0u8; 72],
    };
    let d = small_disk(&target);
    let p = plan(&d, &target, 500, SAFETY_MARGIN_BYTES + 4 * 512).unwrap();
    assert_eq!(p.full_chunks, 0);
    assert_eq!(p.remainder_blocks, 3);
    let steps = relocation_steps(&p, 100, 500);
    assert_eq!(steps.len(), 1);
    assert_eq!((steps[0].read_lba, steps[0].write_lba, steps[0].blocks), (100, 500, 3));
}
