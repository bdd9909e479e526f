//! A read-only FAT32 file system driver.
//!
//! The driver mounts a raw block device, finds the first FAT32 partition in
//! the master boot record and offers a path-addressed view of the files and
//! directories stored in it.
//!
//! The driver is verified: its contracts say, over the bytes that the block
//! device holds, what each function returns. Two things are taken on trust.
//! A block device keeps the promises of [`BlockDevice`], and the standard
//! library decodes UTF-8 and UTF-16 as `vfat::names` says.

pub mod bytes;
pub mod device;
pub mod mbr;
pub mod vfat;

pub use device::BlockDevice;
pub use mbr::{MasterBootRecord, PartitionEntry, CHS};
