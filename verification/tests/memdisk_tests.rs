use gptboot::memdisk::{MemDisk, SeekPos};

#[test]
fn new_fixed_size_is_zeroed() {
    let d = MemDisk::new_fixed_size(8);
    assert_eq!(d.size(), 8);
    assert_eq!(d.cursor(), 0);
    assert_eq!(d.as_bytes().as_slice(), &[0u8; 8]);
}

#[test]
fn writes_and_reads_advance_the_cursor() {
    let mut d = MemDisk::new_fixed_size(8);
    assert_eq!(d.write(&[1, 2, 3]), 3);
    assert_eq!(d.cursor(), 3);
    d.seek(SeekPos::Start(1)).unwrap();
    let got = d.read(2);
    assert_eq!(got, vec![2, 3]);
    assert_eq!(d.cursor(), 3);
}

#[test]
fn writes_truncate_at_the_end() {
    let mut d = MemDisk::new_fixed_size(4);
    d.seek(SeekPos::Start(2)).unwrap();
    assert_eq!(d.write(&[9, 9, 9, 9]), 2);
    assert_eq!(d.as_bytes().as_slice(), &[0, 0, 9, 9]);
    assert_eq!(d.cursor(), 4);
    assert_eq!(d.write(&[7]), 0);
}

#[test]
fn reads_truncate_at_the_end() {
    let mut d = MemDisk::new_fixed_size(3);
    d.write(&[5, 6, 7]);
    d.seek(SeekPos::Start(2)).unwrap();
    assert_eq!(d.read(10), vec![7]);
    assert_eq!(d.read(10), Vec::<u8>::new());
}

#[test]
fn seek_clamps_and_rejects_negative_targets() {
    let mut d = MemDisk::new_fixed_size(10);
    assert_eq!(d.seek(SeekPos::Start(100)).unwrap(), 10);
    assert_eq!(d.seek(SeekPos::End(-3)).unwrap(), 7);
    assert_eq!(d.seek(SeekPos::Current(-2)).unwrap(), 5);
    assert_eq!(d.seek(SeekPos::Current(3)).unwrap(), 8);
    assert!(d.seek(SeekPos::Current(-9)).is_err());
    assert_eq!(d.cursor(), 8);
    assert!(d.seek(SeekPos::End(-11)).is_err());
    assert_eq!(d.seek(SeekPos::End(0)).unwrap(), 10);
}

#[test]
fn resize_truncates_or_zero_extends() {
    let mut d = MemDisk::new_fixed_size(4);
    d.write(&[1, 2, 3, 4]);
    d.resize(6);
    assert_eq!(d.as_bytes().as_slice(), &[1, 2, 3, 4, 0, 0]);
    assert_eq!(d.cursor(), 4);
    d.resize(2);
    assert_eq!(d.as_bytes().as_slice(), &[1, 2]);
    assert_eq!(d.cursor(), 2);
}
