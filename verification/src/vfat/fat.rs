//! Entries of the file allocation table.

use vstd::prelude::*;
use crate::vfat::cluster::Cluster;

verus! {

/// What an entry of the table says about its cluster.
#[derive(Debug, Copy, Clone, PartialEq, Eq, Structural)]
pub enum Status {
    /// The cluster is free.
    Unused,
    /// The cluster is reserved.
    Reserved,
    /// The cluster holds data, and the chain goes on with the cluster named.
    Data(Cluster),
    /// The cluster is marked bad.
    Bad,
    /// The cluster is the last of its chain. The value is the marker found.
    Eoc(u32),
}

/// An entry of the file allocation table: 32 bits, of which the low 28 count.
#[derive(Debug, Copy, Clone, PartialEq, Eq, Structural)]
pub struct FatEntry(pub u32);

impl FatEntry {
    /// The low 28 bits of an entry.
    pub open spec fn low_bits(raw: u32) -> u32 {
        raw & 0x0FFF_FFFF
    }

    /// The status that the low 28 bits `low` stand for.
    pub open spec fn classify(low: u32) -> Status {
        if low == 0 {
            Status::Unused
        } else if low == 1 {
            Status::Reserved
        } else if low <= 0x0FFF_FFEF {
            Status::Data(Cluster(low))
        } else if low <= 0x0FFF_FFF6 {
            Status::Reserved
        } else if low == 0x0FFF_FFF7 {
            Status::Bad
        } else {
            Status::Eoc(low)
        }
    }

    /// The status of an entry.
    pub open spec fn status_of(raw: u32) -> Status {
        Self::classify(Self::low_bits(raw))
    }

    /// The status of the entry.
    pub fn status(&self) -> (r: Status)
        ensures
            r == Self::status_of(self.0),
            r matches Status::Data(next) ==> 2 <= next.0 <= 0x0FFF_FFEF,
            r matches Status::Eoc(marker) ==> 0x0FFF_FFF8 <= marker <= 0x0FFF_FFFF,
    {
        let raw: u32 = self.0;
        let low: u32 = raw & 0x0FFF_FFFF;
        assert(raw & 0x0FFF_FFFF <= 0x0FFF_FFFF) by (bit_vector);
        if low == 0 {
            Status::Unused
        } else if low == 1 {
            Status::Reserved
        } else if low <= 0x0FFF_FFEF {
            Status::Data(Cluster::from(low))
        } else if low <= 0x0FFF_FFF6 {
            Status::Reserved
        } else if low == 0x0FFF_FFF7 {
            Status::Bad
        } else {
            Status::Eoc(low)
        }
    }
}

} // verus!
