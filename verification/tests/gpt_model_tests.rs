use gptboot::gpt::{
    partition_type_efi_system, utf16_to_array_nul, CreatePartitionOptions, GptDisk, GptError,
    GptPartition, GptPartitionAttribs,
};
use gptboot::guid::Guid;

fn no_name() -> [u16; 36] {
    [0u16; 36]
}

fn options(size_in_lba: u64) -> CreatePartitionOptions {
    CreatePartitionOptions::new(
        partition_type_efi_system(),
        Some(Guid::from_u128(0xA4A4A4A4_A4A4_A4A4_A4A4_A4A4A4A4A4A4)),
        size_in_lba,
        GptPartitionAttribs::zero(),
        no_name(),
    )
}

#[test]
fn new_empty_fills_mirrored_headers() {
    let disk = GptDisk::new_empty(512, 1000, Some(Guid::from_u128(5))).unwrap();
    let p = disk.primary_header();
    let b = disk.backup_header();
    assert_eq!(p.signature, 0x5452415020494645);
    assert_eq!(p.revision, 0x00010000);
    assert_eq!(p.header_size, 92);
    assert_eq!(p.my_lba, 1);
    assert_eq!(p.alternate_lba, 999);
    assert_eq!(p.first_usable_lba, 34);
    assert_eq!(p.last_usable_lba, 966);
    assert_eq!(p.partition_array_start_lba, 2);
    assert_eq!(p.num_partition_entries, 0);
    assert_eq!(p.partition_entry_size, 128);
    assert_eq!(b.my_lba, 999);
    assert_eq!(b.alternate_lba, 1);
    assert_eq!(b.partition_array_start_lba, 967);
    assert_eq!(p.disk_guid.bytes, b.disk_guid.bytes);
    assert_eq!(p.disk_guid.bytes, Guid::from_u128(5).bytes);
}

#[test]
fn new_empty_rejects_bad_geometry() {
    assert_eq!(GptDisk::new_empty(256, 1000, None).unwrap_err(), GptError::InvalidGeometry);
    assert_eq!(GptDisk::new_empty(512, 67, None).unwrap_err(), GptError::InvalidGeometry);
    assert!(GptDisk::new_empty(512, 68, None).is_ok());
}

#[test]
fn partition_layout_with_sizes_100_and_50() {
    let mut disk = GptDisk::new_empty(512, 1000, None).unwrap();
    disk.create_partition(options(100)).unwrap();
    disk.create_partition(options(50)).unwrap();
    let p0 = disk.partition_at(0);
    let p1 = disk.partition_at(1);
    assert_eq!(p0.start_lba, 34);
    assert_eq!(p0.end_lba_incl, 133);
    assert_eq!(p1.start_lba, 135);
    assert_eq!(p1.end_lba_incl, 184);
    assert_eq!(disk.primary_header().num_partition_entries, 2);
    assert_eq!(disk.backup_header().num_partition_entries, 2);
}

#[test]
fn zero_size_request_occupies_one_lba() {
    let mut disk = GptDisk::new_empty(512, 1000, None).unwrap();
    disk.create_partition(options(0)).unwrap();
    let p = disk.partition_at(0);
    assert_eq!(p.start_lba, p.end_lba_incl);
    assert_eq!(p.size_in_lba, 1);
}

#[test]
fn oversized_partition_is_rejected() {
    let mut disk = GptDisk::new_empty(512, 1000, None).unwrap();
    // usable area is LBA 34..=966: 933 LBAs
    assert_eq!(disk.create_partition(options(934)).unwrap_err(), GptError::InsufficientSpace);
    assert_eq!(disk.partition_count(), 0);
    disk.create_partition(options(933)).unwrap();
    assert_eq!(disk.partition_count(), 1);
}

#[test]
fn full_table_is_rejected() {
    let mut disk = GptDisk::new_empty(512, 1000, None).unwrap();
    for _ in 0..128 {
        disk.create_partition(options(1)).unwrap();
    }
    assert_eq!(disk.create_partition(options(1)).unwrap_err(), GptError::TableFull);
    assert_eq!(disk.partition_count(), 128);
}

#[test]
fn padding_moves_the_next_partition() {
    let mut disk = GptDisk::new_empty(512, 1000, None).unwrap();
    disk.create_partition(options(10)).unwrap();
    let mut padded = options(10);
    padded.padding_lba = 5;
    disk.create_partition(padded).unwrap();
    let p0 = disk.partition_at(0);
    let p1 = disk.partition_at(1);
    assert_eq!(p0.end_lba_incl, 43);
    assert_eq!(p1.start_lba, 50);
}

#[test]
fn partition_iter_walks_in_order() {
    let mut disk = GptDisk::new_empty(512, 1000, None).unwrap();
    disk.create_partition(options(10)).unwrap();
    disk.create_partition(options(20)).unwrap();
    let mut iter = disk.partitions();
    let a = iter.next().unwrap();
    let b = iter.next().unwrap();
    assert_eq!(a.start_lba, 34);
    assert_eq!(b.start_lba, 45);
    assert!(iter.next().is_none());
}

#[test]
fn options_keep_given_unique_guid() {
    let o = options(3);
    assert_eq!(
        o.unique_guid.bytes,
        Guid::from_u128(0xA4A4A4A4_A4A4_A4A4_A4A4_A4A4A4A4A4A4).bytes,
    );
    assert_eq!(o.size_in_lba, 3);
    assert_eq!(o.padding_lba, 0);
}

#[test]
fn attribs_round_trip_raw_bits() {
    assert_eq!(*GptPartitionAttribs::zero().as_raw(), 0);
    assert_eq!(*GptPartitionAttribs::from_raw(0xDEAD_BEEF).as_raw(), 0xDEAD_BEEF);
}

#[test]
fn set_name_ascii_widens_and_pads() {
    let mut p = GptPartition {
        partition_type_guid: Guid::from_u128(0),
        unique_guid: Guid::from_u128(0),
        size_in_lba: 1,
        attributes: GptPartitionAttribs::zero(),
        partition_name: [7u16; 36],
        start_lba: 34,
        end_lba_incl: 34,
    };
    p.set_name_ascii(b"EFI");
    assert_eq!(p.partition_name[0], 'E' as u16);
    assert_eq!(p.partition_name[1], 'F' as u16);
    assert_eq!(p.partition_name[2], 'I' as u16);
    for k in 3..36 {
        assert_eq!(p.partition_name[k], 0);
    }
    p.set_name_ascii(&[b'x'; 50]);
    for k in 0..36 {
        assert_eq!(p.partition_name[k], b'x' as u16);
    }
}

#[test]
fn utf16_name_keeps_at_most_35_units() {
    let long: Vec<u16> = (1u16..=40).collect();
    let name = utf16_to_array_nul(&long);
    for k in 0..35 {
        assert_eq!(name[k], (k + 1) as u16);
    }
    assert_eq!(name[35], 0);
    let short = utf16_to_array_nul(&[65u16, 66]);
    assert_eq!(&short[0..3], &[65, 66, 0]);
}
