//! The FAT32 volume: geometry, cluster chains, directories and files.

pub mod cache;
pub mod cluster;
pub mod dir;
pub mod ebpb;
pub mod entry;
pub mod error;
pub mod fat;
pub mod file;
pub mod long_name;
pub mod metadata;
pub mod names;
pub mod slot;
pub mod vfat;

pub use self::cache::{CachedDevice, Partition};
pub use self::cluster::Cluster;
pub use self::dir::Dir;
pub use self::ebpb::BiosParameterBlock;
pub use self::entry::Entry;
pub use self::error::Error;
pub use self::fat::{FatEntry, Status};
pub use self::file::{File, SeekFrom};
pub use self::metadata::{Attributes, Date, Metadata, Time, Timestamp};
pub use self::vfat::VFat;
