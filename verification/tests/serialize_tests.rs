use gptboot::gpt::{
    header_to_bytes, parse_gpt_header, partition_type_efi_system, CreatePartitionOptions, GptDisk,
    GptError, GptPartitionAttribs,
};
use gptboot::guid::Guid;
use gptboot::memdisk::MemDisk;

fn checksum(bytes: &[u8]) -> u32 {
    crc::Crc::<u32>::new(&crc::CRC_32_ISO_HDLC).checksum(bytes)
}

fn options(size_in_lba: u64, unique: u128) -> CreatePartitionOptions {
    CreatePartitionOptions::new(
        partition_type_efi_system(),
        Some(Guid::from_u128(unique)),
        size_in_lba,
        GptPartitionAttribs::zero(),
        [0u16; 36],
    )
}

fn serialized_disk(disk: &GptDisk) -> Vec<u8> {
    disk.serialize_to(MemDisk::new_fixed_size(0)).as_bytes().clone()
}

#[test]
fn refreshed_checksums_survive_reserialization() {
    let mut disk = GptDisk::new_empty(512, 1000, Some(Guid::from_u128(11))).unwrap();
    disk.create_partition(options(100, 21)).unwrap();
    disk.create_partition(options(50, 22)).unwrap();
    disk.update_crc();
    let image = serialized_disk(&disk);
    for header_lba in [1usize, 999] {
        let raw = &image[header_lba * 512..header_lba * 512 + 92];
        let parsed = parse_gpt_header(raw).unwrap();
        let mut seed = raw.to_vec();
        seed[16..20].copy_from_slice(&[0, 0, 0, 0]);
        assert_eq!(parsed.header_crc32, checksum(&seed));
        let array_lba = parsed.partition_array_start_lba as usize;
        let n = parsed.num_partition_entries as usize;
        let array = &image[array_lba * 512..array_lba * 512 + n * 128];
        assert_eq!(parsed.partition_array_crc32, checksum(array));
    }
}

#[test]
fn header_crc_matches_independent_digest() {
    let mut disk = GptDisk::new_empty(512, 1000, Some(Guid::from_u128(3))).unwrap();
    disk.create_partition(options(10, 31)).unwrap();
    disk.update_crc();
    let header = *disk.primary_header();
    let mut seed = header;
    seed.header_crc32 = 0;
    assert_eq!(header.header_crc32, checksum(&header_to_bytes(&seed)));
}

#[test]
fn reparsed_headers_mirror_each_other() {
    let mut disk = GptDisk::new_empty(512, 1000, None).unwrap();
    disk.create_partition(options(100, 41)).unwrap();
    disk.update_crc();
    let image = serialized_disk(&disk);
    let primary = parse_gpt_header(&image[512..604]).unwrap();
    let backup = parse_gpt_header(&image[999 * 512..999 * 512 + 92]).unwrap();
    assert_eq!(primary.my_lba, backup.alternate_lba);
    assert_eq!(primary.alternate_lba, backup.my_lba);
    assert_eq!(primary.my_lba, 1);
    assert_eq!(backup.my_lba, 999);
    assert_eq!(primary.disk_guid.bytes, backup.disk_guid.bytes);
}

#[test]
fn image_carries_protective_mbr() {
    let disk = GptDisk::new_empty(512, 1000, None).unwrap();
    let image = serialized_disk(&disk);
    for b in &image[0..446] {
        assert_eq!(*b, 0);
    }
    assert_eq!(image[446 + 4], 0xEE);
    assert_eq!(&image[446 + 8..446 + 12], &1u32.to_le_bytes());
    assert_eq!(&image[446 + 12..446 + 16], &999u32.to_le_bytes());
    assert_eq!(image[510], 0x55);
    assert_eq!(image[511], 0xAA);
}

#[test]
fn protective_mbr_saturates_past_32_bits() {
    let entry = gptboot::mbr::make_gpt_protective_partition_entry(0x1_0000_0000);
    assert_eq!(entry.size_in_lba, [0xFF, 0xFF, 0xFF, 0xFF]);
    let entry2 = gptboot::mbr::make_gpt_protective_partition_entry(0x2_0000_0000);
    assert_eq!(entry2.size_in_lba, [0xFF, 0xFF, 0xFF, 0xFF]);
    let small = gptboot::mbr::make_gpt_protective_partition_entry(1000);
    assert_eq!(small.size_in_lba, 999u32.to_le_bytes());
    assert_eq!(small.starting_lba, 1u32.to_le_bytes());
    assert_eq!(small.os_type, 0xEE);
}

#[test]
fn entry_bytes_hold_mixed_endian_guids() {
    let mut disk = GptDisk::new_empty(512, 1000, None).unwrap();
    disk.create_partition(options(10, 0xA4A4A4A4_A4A4_A4A4_A4A4_A4A4A4A4A4A4)).unwrap();
    disk.update_crc();
    let image = serialized_disk(&disk);
    let entry = &image[2 * 512..2 * 512 + 128];
    let type_mixed = partition_type_efi_system().to_mixed_bytes();
    assert_eq!(&entry[0..16], type_mixed.as_slice());
    let unique_mixed =
        Guid::from_u128(0xA4A4A4A4_A4A4_A4A4_A4A4_A4A4A4A4A4A4).to_mixed_bytes();
    assert_eq!(&entry[16..32], unique_mixed.as_slice());
    assert_eq!(&entry[32..40], &34u64.to_le_bytes());
    assert_eq!(&entry[40..48], &43u64.to_le_bytes());
}

#[test]
fn content_write_is_truncated_to_the_partition() {
    let mut disk = GptDisk::new_empty(512, 1000, None).unwrap();
    disk.create_partition(options(10, 51)).unwrap();
    disk.create_partition(options(10, 52)).unwrap();
    disk.update_crc();
    let p0 = disk.partition_at(0);
    let p1 = disk.partition_at(1);
    let mut writer = disk.writer(MemDisk::new_fixed_size(0));
    writer.write_protective_mbr();
    writer.write_gpt_header(true);
    writer.write_gpt_header(false);
    // Fill the second partition, then overflow the first: the overflow
    // must not reach the second partition's bytes.
    let fill = vec![0xAAu8; 10 * 512];
    writer.write_partition_content(&p1, &fill).unwrap();
    let over = vec![0xBBu8; 10 * 512 + 100];
    writer.write_partition_content(&p0, &over).unwrap();
    let image = writer.flush();
    let bytes = image.as_bytes();
    let p0_start = p0.start_lba as usize * 512;
    let p0_end = (p0.end_lba_incl as usize + 1) * 512;
    for b in &bytes[p0_start..p0_end] {
        assert_eq!(*b, 0xBB);
    }
    // The reserved LBA between the partitions is untouched.
    for b in &bytes[p0_end..p0_end + 512] {
        assert_eq!(*b, 0);
    }
    let p1_start = p1.start_lba as usize * 512;
    let p1_end = (p1.end_lba_incl as usize + 1) * 512;
    for b in &bytes[p1_start..p1_end] {
        assert_eq!(*b, 0xAA);
    }
}

#[test]
fn short_content_leaves_the_rest_of_the_partition() {
    let mut disk = GptDisk::new_empty(512, 1000, None).unwrap();
    disk.create_partition(options(4, 61)).unwrap();
    let p0 = disk.partition_at(0);
    let mut writer = disk.writer(MemDisk::new_fixed_size(0));
    writer.write_partition_content(&p0, b"boot").unwrap();
    let bytes = writer.flush().as_bytes().clone();
    let start = p0.start_lba as usize * 512;
    assert_eq!(&bytes[start..start + 4], b"boot");
    for b in &bytes[start + 4..(p0.end_lba_incl as usize + 1) * 512] {
        assert_eq!(*b, 0);
    }
}

#[test]
fn rewriting_with_shorter_content_zeroes_the_rest() {
    let mut disk = GptDisk::new_empty(512, 1000, None).unwrap();
    disk.create_partition(options(2, 71)).unwrap();
    let p0 = disk.partition_at(0);
    let mut writer = disk.writer(MemDisk::new_fixed_size(0));
    let full = vec![0xCCu8; 2 * 512];
    writer.write_partition_content(&p0, &full).unwrap();
    writer.write_partition_content(&p0, b"new").unwrap();
    let bytes = writer.flush().as_bytes().clone();
    let start = p0.start_lba as usize * 512;
    assert_eq!(&bytes[start..start + 3], b"new");
    for b in &bytes[start + 3..start + 2 * 512] {
        assert_eq!(*b, 0);
    }
}

#[test]
fn content_write_rejects_a_partition_off_the_disk() {
    let disk = GptDisk::new_empty(512, 1000, None).unwrap();
    let bogus = gptboot::gpt::GptPartition {
        partition_type_guid: Guid::from_u128(0),
        unique_guid: Guid::from_u128(0),
        size_in_lba: 1,
        attributes: GptPartitionAttribs::zero(),
        partition_name: [0u16; 36],
        start_lba: 2000,
        end_lba_incl: 2001,
    };
    let mut writer = disk.writer(MemDisk::new_fixed_size(0));
    assert_eq!(
        writer.write_partition_content(&bogus, b"x").unwrap_err(),
        GptError::InvalidGeometry,
    );
}

#[test]
fn writer_resizes_the_target_once() {
    let disk = GptDisk::new_empty(512, 100, None).unwrap();
    let mut writer = disk.writer(MemDisk::new_fixed_size(17));
    writer.write_protective_mbr();
    let image = writer.flush();
    assert_eq!(image.size(), 100 * 512);
}
