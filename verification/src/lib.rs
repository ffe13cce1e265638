//! Building and rediscovering a GPT boot disk.
//!
//! The host side lays out a GUID Partition Table disk image byte by byte:
//! a protective MBR, mirrored primary/backup headers, a partition entry
//! array, and CRC32 checksums over exact byte layouts.  The firmware side
//! walks device-path byte chains to find the partition the builder wrote
//! and inspects a loaded kernel image's ELF header.

pub mod acpi_status;
pub mod boot_alloc;
pub mod checksum;
pub mod devpath;
pub mod firmware_types;
pub mod gpt;
pub mod guid;
pub mod kernel_alloc;
pub mod kernel_image;
pub mod mbr;
pub mod memdisk;
pub mod stream;
