//! The errors of the driver.

use vstd::prelude::*;

verus! {

/// Why an operation on a volume failed.
#[derive(Debug)]
pub enum Error {
    /// The block device reported this error.
    Io(std::io::Error),
    /// The boot record or the parameter block does not end in its magic
    /// signature.
    BadSignature,
    /// The partition of this number (counted from zero) has a boot indicator
    /// that is neither 0x00 nor 0x80.
    UnknownBootIndicator(u8),
    /// The boot record names no FAT32 partition, or a path names an entry
    /// that does not exist.
    NotFound,
    /// An argument cannot be worked on: a name that is not UTF-8, a seek
    /// outside the file, a path component that is not supported, a reserved
    /// cluster number.
    InvalidInput,
    /// What the volume holds cannot be read as a file system: a chain that
    /// runs into a free, bad or reserved cluster, that never ends, that is
    /// too long to be held in memory or that is shorter than its file, or a
    /// sector size that the device cannot serve.
    Unreadable,
    /// The operation would write, and the driver only reads.
    ReadOnly,
}

/// The error of the driver that stands for an error of the boot record.
pub open spec fn from_mbr(e: crate::mbr::Error) -> Error {
    match e {
        crate::mbr::Error::Io(inner) => Error::Io(inner),
        crate::mbr::Error::UnknownBootIndicator(n) => Error::UnknownBootIndicator(n),
        crate::mbr::Error::BadSignature => Error::BadSignature,
    }
}

impl From<crate::mbr::Error> for Error {
    fn from(e: crate::mbr::Error) -> (r: Error) {
        match e {
            crate::mbr::Error::Io(inner) => Error::Io(inner),
            crate::mbr::Error::UnknownBootIndicator(n) => Error::UnknownBootIndicator(n),
            crate::mbr::Error::BadSignature => Error::BadSignature,
        }
    }
}

impl vstd::std_specs::convert::FromSpecImpl<crate::mbr::Error> for Error {
    open spec fn obeys_from_spec() -> bool {
        true
    }

    open spec fn from_spec(e: crate::mbr::Error) -> Error {
        from_mbr(e)
    }
}

} // verus!
