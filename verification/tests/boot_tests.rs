use gptboot::acpi_status::{EXCEP_AML, EXCEP_CTL, EXCEP_ENV, EXCEP_PGM, EXCEP_TBL};
use gptboot::boot_alloc::BootAllocState;
use gptboot::devpath::{path_contains_signature, select_boot_volume, BootError};
use gptboot::guid::Guid;
use gptboot::kernel_alloc::KernelGlobalAlloc;
use gptboot::kernel_image::{elf64_entry_point, elf64_program_headers};

fn boot_guid() -> Guid {
    Guid::from_u128(0xA4A4A4A4_A4A4_A4A4_A4A4_A4A4A4A4A4A4)
}

fn hardware_node() -> Vec<u8> {
    vec![0x01, 0x00, 0x08, 0x00, 0, 0, 0, 0]
}

fn hard_drive_node(sig: &[u8]) -> Vec<u8> {
    let mut node = vec![0u8; 42];
    node[0] = 0x04;
    node[1] = 0x01;
    node[2] = 42;
    node[3] = 0;
    node[24..40].copy_from_slice(sig);
    node[41] = 0x02;
    node
}

fn end_node() -> Vec<u8> {
    vec![0x7F, 0xFF, 0x04, 0x00]
}

fn chain(nodes: &[Vec<u8>]) -> Vec<u8> {
    let mut path = Vec::new();
    for n in nodes {
        path.extend_from_slice(n);
    }
    path
}

#[test]
fn walker_finds_the_matching_node() {
    let sig = boot_guid().to_mixed_bytes();
    let path = chain(&[hardware_node(), hard_drive_node(&sig), end_node()]);
    assert!(path_contains_signature(&path, &sig));

    let mut wrong = sig.clone();
    wrong[5] ^= 1;
    let altered = chain(&[hardware_node(), hard_drive_node(&wrong), end_node()]);
    assert!(!path_contains_signature(&altered, &sig));
}

#[test]
fn walker_stops_at_the_end_node() {
    let sig = boot_guid().to_mixed_bytes();
    // The matching node sits after End: it must not be reached.
    let path = chain(&[hardware_node(), end_node(), hard_drive_node(&sig)]);
    assert!(!path_contains_signature(&path, &sig));
}

#[test]
fn walker_survives_malformed_chains() {
    let sig = boot_guid().to_mixed_bytes();
    assert!(!path_contains_signature(&[], &sig));
    assert!(!path_contains_signature(&[0x04, 0x01], &sig));
    // A node length of zero would never advance: the walk stops.
    let stuck = vec![0x04, 0x01, 0x00, 0x00, 0, 0, 0, 0];
    assert!(!path_contains_signature(&stuck, &sig));
    // A node reaching past the end of the buffer stops the walk.
    let overlong = vec![0x04, 0x01, 0xFF, 0x00, 0, 0];
    assert!(!path_contains_signature(&overlong, &sig));
    // A Media/HardDrive node too short to carry a signature does not match.
    let short_hd = chain(&[vec![0x04, 0x01, 0x08, 0x00, 0, 0, 0, 0], end_node()]);
    assert!(!path_contains_signature(&short_hd, &sig));
}

#[test]
fn wrong_signature_type_does_not_match() {
    let sig = boot_guid().to_mixed_bytes();
    let mut node = hard_drive_node(&sig);
    node[41] = 0x01;
    let path = chain(&[node, end_node()]);
    assert!(!path_contains_signature(&path, &sig));
}

#[test]
fn exactly_one_matching_volume_is_selected() {
    let target = boot_guid();
    let sig = target.to_mixed_bytes();
    let other = Guid::from_u128(7).to_mixed_bytes();
    let paths = vec![
        chain(&[hardware_node(), end_node()]),
        chain(&[hard_drive_node(&other), end_node()]),
        chain(&[hardware_node(), hard_drive_node(&sig), end_node()]),
    ];
    assert_eq!(select_boot_volume(&paths, &target).unwrap(), 2);
}

#[test]
fn no_matching_volume_is_a_discovery_error() {
    let target = boot_guid();
    let paths = vec![chain(&[hardware_node(), end_node()]), chain(&[end_node()])];
    assert_eq!(select_boot_volume(&paths, &target).unwrap_err(), BootError::NoBootPartition);
    assert_eq!(
        select_boot_volume(&Vec::new(), &target).unwrap_err(),
        BootError::NoBootPartition,
    );
}

#[test]
fn two_matching_volumes_are_ambiguous() {
    let target = boot_guid();
    let sig = target.to_mixed_bytes();
    let paths = vec![
        chain(&[hard_drive_node(&sig), end_node()]),
        chain(&[hard_drive_node(&sig), end_node()]),
    ];
    assert_eq!(
        select_boot_volume(&paths, &target).unwrap_err(),
        BootError::AmbiguousBootPartition,
    );
}

fn elf64_header(entry: u64) -> Vec<u8> {
    let mut image = vec![0u8; 64];
    image[0] = 0x7F;
    image[1] = b'E';
    image[2] = b'L';
    image[3] = b'F';
    image[4] = 2;
    image[24..32].copy_from_slice(&entry.to_le_bytes());
    image
}

#[test]
fn elf64_entry_is_read_from_the_header() {
    let image = elf64_header(0xFFFF_8000_0010_0000);
    assert_eq!(elf64_entry_point(&image).unwrap(), 0xFFFF_8000_0010_0000);
}

#[test]
fn non_elf64_images_are_rejected() {
    assert_eq!(elf64_entry_point(&[]).unwrap_err(), BootError::NotElf64);
    let mut class32 = elf64_header(0x1000);
    class32[4] = 1;
    assert_eq!(elf64_entry_point(&class32).unwrap_err(), BootError::NotElf64);
    let mut bad_magic = elf64_header(0x1000);
    bad_magic[0] = 0x7E;
    assert_eq!(elf64_entry_point(&bad_magic).unwrap_err(), BootError::NotElf64);
    let truncated = vec![0x7F, b'E', b'L', b'F', 2];
    assert_eq!(elf64_entry_point(&truncated).unwrap_err(), BootError::NotElf64);
}

#[test]
fn program_headers_are_parsed_in_table_order() {
    let mut image = elf64_header(0x1000);
    image[32..40].copy_from_slice(&64u64.to_le_bytes());
    image[54..56].copy_from_slice(&56u16.to_le_bytes());
    image[56..58].copy_from_slice(&2u16.to_le_bytes());
    let mut phdrs = vec![0u8; 2 * 56];
    phdrs[0..4].copy_from_slice(&1u32.to_le_bytes());
    phdrs[8..16].copy_from_slice(&0x200u64.to_le_bytes());
    phdrs[16..24].copy_from_slice(&0x40_0000u64.to_le_bytes());
    phdrs[32..40].copy_from_slice(&0x333u64.to_le_bytes());
    phdrs[40..48].copy_from_slice(&0x444u64.to_le_bytes());
    phdrs[56..60].copy_from_slice(&1u32.to_le_bytes());
    phdrs[56 + 16..56 + 24].copy_from_slice(&0x50_0000u64.to_le_bytes());
    image.extend_from_slice(&phdrs);
    let segs = elf64_program_headers(&image).unwrap();
    assert_eq!(segs.len(), 2);
    assert_eq!(segs[0].p_type, 1);
    assert_eq!(segs[0].offset, 0x200);
    assert_eq!(segs[0].vaddr, 0x40_0000);
    assert_eq!(segs[0].file_size, 0x333);
    assert_eq!(segs[0].mem_size, 0x444);
    assert_eq!(segs[1].vaddr, 0x50_0000);
}

#[test]
fn program_header_table_must_fit_the_image() {
    let mut image = elf64_header(0x1000);
    image[32..40].copy_from_slice(&64u64.to_le_bytes());
    image[54..56].copy_from_slice(&56u16.to_le_bytes());
    image[56..58].copy_from_slice(&4u16.to_le_bytes());
    assert_eq!(elf64_program_headers(&image).unwrap_err(), BootError::NotElf64);
}

#[test]
fn boot_alloc_fails_closed_outside_the_active_window() {
    let mut state = BootAllocState::new_uninit();
    assert!(!state.may_use_pool());
    state.init_boot_alloc();
    assert!(state.may_use_pool());
    state.exit_boot_alloc();
    assert!(!state.may_use_pool());
    state.init_boot_alloc();
    assert!(!state.may_use_pool());
}

#[test]
fn acpi_exception_codes_carry_their_class() {
    assert_eq!(EXCEP_ENV(0x0001), 0x0001);
    assert_eq!(EXCEP_PGM(0x0001), 0x1001);
    assert_eq!(EXCEP_TBL(0x0003), 0x2003);
    assert_eq!(EXCEP_AML(0x0021), 0x3021);
    assert_eq!(EXCEP_CTL(0x000C), 0x400C);
}

#[test]
fn kernel_alloc_builds() {
    let _alloc = KernelGlobalAlloc::new();
}
