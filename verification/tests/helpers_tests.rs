use partshift::helpers::{free_ram_pages, BootRecord};

#[test]
fn sums_page_counts() {
    assert_eq!(free_ram_pages(&vec![1, 2, 3]), Some(6));
    assert_eq!(free_ram_pages(&vec![]), Some(0));
    assert_eq!(free_ram_pages(&vec![0, 0, 5]), Some(5));
}

#[test]
fn reports_unrepresentable_total() {
    assert_eq!(free_ram_pages(&vec![u64::MAX, 1]), None);
    assert_eq!(free_ram_pages(&vec![u64::MAX]), Some(u64::MAX));
}

#[test]
fn boot_record_carries_media_identity() {
    let rec = BootRecord { data: [0u8; 512], media_id: 11 };
    assert_eq!(rec.media_id, 11);
    assert_eq!(rec.data.len(), 512);
}
