//! The master boot record: the partition table in the first sector of a
//! disk.

use vstd::prelude::*;
use crate::bytes::{bytes_at, le_u32, read_u32};
use crate::device::BlockDevice;

verus! {

/// A place on a disk, given as cylinder, head and sector.
#[derive(Copy, Clone, Debug, Default, PartialEq, Eq, Structural)]
pub struct CHS {
    pub head: u8,
    pub sector: u8,
    pub cylinder: u8,
}

/// An entry of the partition table.
#[derive(Copy, Clone, Debug, Default, PartialEq, Eq, Structural)]
pub struct PartitionEntry {
    pub boot_indicator: u8,
    pub start_chs: CHS,
    pub partition_type: u8,
    pub end_chs: CHS,
    pub relative_sector: u32,
    pub total_sectors: u32,
}

impl PartitionEntry {
    /// Whether the partition holds a FAT32 file system, by its type.
    pub open spec fn is_fat32(&self) -> bool {
        self.partition_type == 0x0B || self.partition_type == 0x0C
    }
}

/// The master boot record (MBR).
#[derive(Debug)]
pub struct MasterBootRecord {
    pub bootstrap: [u8; 436],
    pub disk_id: [u8; 10],
    pub partition_table: [PartitionEntry; 4],
    pub signature: [u8; 2],
}

/// Why a master boot record could not be read.
#[derive(Debug)]
pub enum Error {
    /// There was an I/O error while reading the MBR.
    Io(std::io::Error),
    /// The partition of this number (counted from zero) has a boot
    /// indicator that is neither 0x00 nor 0x80.
    UnknownBootIndicator(u8),
    /// The MBR does not end in its magic signature.
    BadSignature,
}

/// The first 512 bytes of a sector. Where the sector has fewer, zeros stand
/// for the rest.
pub open spec fn boot_image(sector: Seq<u8>) -> Seq<u8> {
    Seq::new(
        512,
        |i: int|
            if i < sector.len() {
                sector[i]
            } else {
                0u8
            },
    )
}

/// The entry of number `i` in the partition table of a boot sector.
pub open spec fn partition_at(sector: Seq<u8>, i: int) -> PartitionEntry {
    let at = 446 + 16 * i;
    PartitionEntry {
        boot_indicator: sector[at],
        start_chs: CHS { head: sector[at + 1], sector: sector[at + 2], cylinder: sector[at + 3] },
        partition_type: sector[at + 4],
        end_chs: CHS { head: sector[at + 5], sector: sector[at + 6], cylinder: sector[at + 7] },
        relative_sector: le_u32(sector, at + 8),
        total_sectors: le_u32(sector, at + 12),
    }
}

/// The partition table of a boot sector: its four entries.
pub open spec fn partition_table(sector: Seq<u8>) -> Seq<PartitionEntry> {
    Seq::new(4, |i: int| partition_at(sector, i))
}

/// Whether a boot indicator is one of the two that are known.
pub open spec fn known_indicator(indicator: u8) -> bool {
    indicator == 0x00 || indicator == 0x80
}

/// The number of the first entry from `from` on whose boot indicator is not
/// known, or 4 where there is none.
pub open spec fn first_unknown_indicator(table: Seq<PartitionEntry>, from: int) -> int
    decreases 4 - from,
{
    if from < 0 || from >= 4 || !known_indicator(table[from].boot_indicator) {
        from
    } else {
        first_unknown_indicator(table, from + 1)
    }
}

/// What is wrong with a boot sector, if anything: the signature is looked at
/// first, then the boot indicators in their order.
pub open spec fn defect(sector: Seq<u8>) -> Option<Error> {
    if sector[510] != 0x55 || sector[511] != 0xAA {
        Some(Error::BadSignature)
    } else if first_unknown_indicator(partition_table(sector), 0) < 4 {
        Some(Error::UnknownBootIndicator(first_unknown_indicator(partition_table(sector), 0) as u8))
    } else {
        None
    }
}

/// The number of the first entry from `from` on that is a FAT32 partition,
/// or 4 where there is none.
pub open spec fn first_fat32_from(table: Seq<PartitionEntry>, from: int) -> int
    decreases 4 - from,
{
    if from < 0 || from >= 4 || table[from].is_fat32() {
        from
    } else {
        first_fat32_from(table, from + 1)
    }
}

impl MasterBootRecord {
    /// Whether the record is what the 512 bytes of `sector` spell.
    pub open spec fn spells(&self, sector: Seq<u8>) -> bool {
        &&& self.bootstrap@ == sector.subrange(0, 436)
        &&& self.disk_id@ == sector.subrange(436, 446)
        &&& self.partition_table@ == partition_table(sector)
        &&& self.signature@ == sector.subrange(510, 512)
    }

    /// Reads the entry of number `i` in the partition table of `sector`.
    fn entry_at(sector: &[u8], i: usize) -> (r: PartitionEntry)
        requires
            sector@.len() == 512,
            i < 4,
        ensures
            r == partition_at(sector@, i as int),
    {
        let at: usize = 446 + 16 * i;
        PartitionEntry {
            boot_indicator: sector[at],
            start_chs: CHS { head: sector[at + 1], sector: sector[at + 2], cylinder: sector[at + 3] },
            partition_type: sector[at + 4],
            end_chs: CHS { head: sector[at + 5], sector: sector[at + 6], cylinder: sector[at + 7] },
            relative_sector: read_u32(sector, at + 8),
            total_sectors: read_u32(sector, at + 12),
        }
    }

    /// Reads the master boot record that the 512 bytes of `sector` spell.
    ///
    /// Fails with `BadSignature` where the sector does not end in 0x55 0xAA,
    /// and else with `UnknownBootIndicator(n)` for the first partition `n`
    /// whose boot indicator is neither 0x00 nor 0x80.
    pub fn parse(sector: &[u8]) -> (r: Result<MasterBootRecord, Error>)
        requires
            sector@.len() == 512,
        ensures
            match r {
                Ok(mbr) => defect(sector@) is None && mbr.spells(sector@),
                Err(e) => defect(sector@) == Some(e),
            },
    {
        if sector[510] != 0x55 || sector[511] != 0xAA {
            return Err(Error::BadSignature);
        }
        let partition_table: [PartitionEntry; 4] = [
            Self::entry_at(sector, 0),
            Self::entry_at(sector, 1),
            Self::entry_at(sector, 2),
            Self::entry_at(sector, 3),
        ];
        assert(partition_table@ =~= self::partition_table(sector@));
        let mut i: usize = 0;
        while i < 4
            invariant
                i <= 4,
                sector@[510] == 0x55,
                sector@[511] == 0xAA,
                partition_table@ == self::partition_table(sector@),
                first_unknown_indicator(partition_table@, 0) == first_unknown_indicator(
                    partition_table@,
                    i as int,
                ),
            decreases 4 - i,
        {
            let indicator: u8 = partition_table[i].boot_indicator;
            if indicator != 0x00 && indicator != 0x80 {
                return Err(Error::UnknownBootIndicator(i as u8));
            }
            i += 1;
        }
        let bootstrap: [u8; 436] = bytes_at(sector, 0, [0u8; 436]);
        let disk_id: [u8; 10] = bytes_at(sector, 436, [0u8; 10]);
        let signature: [u8; 2] = bytes_at(sector, 510, [0u8; 2]);
        Ok(
            MasterBootRecord {
                bootstrap: bootstrap,
                disk_id: disk_id,
                partition_table: partition_table,
                signature: signature,
            },
        )
    }

    /// Reads and returns the master boot record (MBR) from `device`: from
    /// the first 512 bytes of its first sector.
    ///
    /// Fails with `Io` where the device fails, and else as `parse` does.
    pub fn from<D: BlockDevice>(device: &mut D) -> (r: Result<MasterBootRecord, Error>)
        requires
            old(device).sector_size_spec() <= usize::MAX,
        ensures
            final(device).sector_size_spec() == old(device).sector_size_spec(),
            final(device).sectors() == old(device).sectors(),
            match r {
                Ok(mbr) => {
                    &&& defect(boot_image(old(device).sectors()[0])) is None
                    &&& mbr.spells(boot_image(old(device).sectors()[0]))
                },
                Err(e) => e is Io || defect(boot_image(old(device).sectors()[0])) == Some(e),
            },
    {
        let image: Vec<u8> = match read_boot_image(device, 0) {
            Ok(image) => image,
            Err(e) => {
                return Err(Error::Io(e));
            },
        };
        Self::parse(image.as_slice())
    }

    /// The first entry of the partition table that is a FAT32 partition:
    /// one of type 0x0B or 0x0C.
    pub fn first_fat32(&self) -> (r: Option<&PartitionEntry>)
        ensures
            match r {
                Some(entry) => {
                    &&& first_fat32_from(self.partition_table@, 0) < 4
                    &&& *entry == self.partition_table@[first_fat32_from(self.partition_table@, 0)]
                    &&& entry.is_fat32()
                },
                None => {
                    &&& first_fat32_from(self.partition_table@, 0) == 4
                    &&& forall|i: int| 0 <= i < 4 ==> !(#[trigger] self.partition_table@[i]).is_fat32()
                },
            },
    {
        let mut i: usize = 0;
        while i < 4
            invariant
                i <= 4,
                first_fat32_from(self.partition_table@, 0) == first_fat32_from(self.partition_table@, i as int),
                forall|j: int| 0 <= j < i ==> !(#[trigger] self.partition_table@[j]).is_fat32(),
            decreases 4 - i,
        {
            let p: &PartitionEntry = &self.partition_table[i];
            if p.partition_type == 0xB || p.partition_type == 0xC {
                return Some(p);
            }
            i += 1;
        }
        None
    }
}

/// Reads the first 512 bytes of the sector `n` of `device`. Where the
/// sectors of the device are smaller, zeros stand for the rest.
pub fn read_boot_image<D: BlockDevice>(device: &mut D, n: u64) -> (r: Result<Vec<u8>, std::io::Error>)
    requires
        old(device).sector_size_spec() <= usize::MAX,
    ensures
        final(device).sector_size_spec() == old(device).sector_size_spec(),
        final(device).sectors() == old(device).sectors(),
        r matches Ok(image) ==> image@ == boot_image(old(device).sectors()[n]),
{
    let size: usize = device.sector_size() as usize;
    let room: usize = if size < 512 {
        512
    } else {
        size
    };
    let mut buf: Vec<u8> = vec![0u8; room];
    let read = device.read_sector(n, buf.as_mut_slice());
    assert(read is Ok ==> boot_image(buf@) =~= boot_image(old(device).sectors()[n]));
    boot_image_of(read, buf)
}

/// Finishes the reading of a boot image after the device was asked for the
/// sector. `read` is what the device answered, and `buf` is the buffer that
/// it read into. Where the device read the sector, the first 512 bytes of
/// the buffer are given, with zeros for what a smaller buffer lacks. Where
/// the device failed, its error is handed on.
pub fn boot_image_of(read: Result<usize, std::io::Error>, buf: Vec<u8>) -> (r: Result<Vec<u8>, std::io::Error>)
    ensures
        match read {
            Ok(_) => r matches Ok(image) && image@ == boot_image(buf@),
            Err(e) => r == Err::<Vec<u8>, std::io::Error>(e),
        },
{
    match read {
        Ok(_) => {
            let mut image = buf;
            image.truncate(512);
            image.resize(512, 0u8);
            assert(image@ =~= boot_image(buf@));
            Ok(image)
        },
        Err(e) => Err(e),
    }
}

} // verus!
