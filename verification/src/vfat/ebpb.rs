//! The BIOS parameter block: the geometry of a FAT32 file system, in the
//! first sector of its partition.

use vstd::prelude::*;
use crate::bytes::{bytes_at, le_u16, le_u32, read_u16, read_u32};
use crate::device::BlockDevice;
use crate::mbr::{boot_image, read_boot_image};
use crate::vfat::error::Error;

verus! {

/// The BIOS parameter block with its FAT32 extension.
#[derive(Debug)]
pub struct BiosParameterBlock {
    pub jump_short_nop: [u8; 3],
    pub oem_id: [u8; 8],
    pub bytes_per_sector: u16,
    pub sectors_per_cluster: u8,
    pub num_reserved_sectors: u16,
    pub num_fat: u8,
    pub max_dir_entries: u16,
    pub total_logical_sectors: u16,
    pub media_desc_type: u8,
    pub sectors_per_fat: u16,
    pub sectors_per_track: u16,
    pub num_heads: u16,
    pub num_hidden_sectors: u32,
    pub total_logical_sectors_32: u32,
    pub sectors_per_fat_32: u32,
    pub flags: u16,
    pub fat_version: [u8; 2],
    pub root_cluster: u32,
    pub fsinfo_sector: u16,
    pub backup_boot_sector: u16,
    pub reserved: [u8; 12],
    pub drive_num: u8,
    pub win_nt_flag: u8,
    pub signature: u8,
    pub volumn_id: u32,
    pub volumn_label: [u8; 11],
    pub sys_id_str: [u8; 8],
    pub boot_code: [u8; 420],
    pub bootable_signature: u16,
}

/// The number of sectors in one table, as a parameter block gives it: the
/// 16-bit field where it is not zero, else the 32-bit field.
pub open spec fn sectors_per_fat_of(sector: Seq<u8>) -> u32 {
    if le_u16(sector, 22) != 0 {
        le_u16(sector, 22) as u32
    } else {
        le_u32(sector, 36)
    }
}

impl BiosParameterBlock {
    /// Whether the block is what the 512 bytes of `sector` spell. All
    /// numbers are stored low byte first.
    pub open spec fn spells(&self, sector: Seq<u8>) -> bool {
        &&& self.jump_short_nop@ == sector.subrange(0, 3)
        &&& self.oem_id@ == sector.subrange(3, 11)
        &&& self.bytes_per_sector == le_u16(sector, 11)
        &&& self.sectors_per_cluster == sector[13]
        &&& self.num_reserved_sectors == le_u16(sector, 14)
        &&& self.num_fat == sector[16]
        &&& self.max_dir_entries == le_u16(sector, 17)
        &&& self.total_logical_sectors == le_u16(sector, 19)
        &&& self.media_desc_type == sector[21]
        &&& self.sectors_per_fat == le_u16(sector, 22)
        &&& self.sectors_per_track == le_u16(sector, 24)
        &&& self.num_heads == le_u16(sector, 26)
        &&& self.num_hidden_sectors == le_u32(sector, 28)
        &&& self.total_logical_sectors_32 == le_u32(sector, 32)
        &&& self.sectors_per_fat_32 == le_u32(sector, 36)
        &&& self.flags == le_u16(sector, 40)
        &&& self.fat_version@ == sector.subrange(42, 44)
        &&& self.root_cluster == le_u32(sector, 44)
        &&& self.fsinfo_sector == le_u16(sector, 48)
        &&& self.backup_boot_sector == le_u16(sector, 50)
        &&& self.reserved@ == sector.subrange(52, 64)
        &&& self.drive_num == sector[64]
        &&& self.win_nt_flag == sector[65]
        &&& self.signature == sector[66]
        &&& self.volumn_id == le_u32(sector, 67)
        &&& self.volumn_label@ == sector.subrange(71, 82)
        &&& self.sys_id_str@ == sector.subrange(82, 90)
        &&& self.boot_code@ == sector.subrange(90, 510)
        &&& self.bootable_signature == le_u16(sector, 510)
    }

    /// The number of sectors in one table: the 16-bit field where it is not
    /// zero, else the 32-bit field.
    pub open spec fn sectors_per_fat_spec(&self) -> u32 {
        if self.sectors_per_fat != 0 {
            self.sectors_per_fat as u32
        } else {
            self.sectors_per_fat_32
        }
    }

    /// The number of sectors in the file system: the 16-bit field where it
    /// is not zero, else the 32-bit field.
    pub open spec fn total_logical_sectors_spec(&self) -> u32 {
        if self.total_logical_sectors != 0 {
            self.total_logical_sectors as u32
        } else {
            self.total_logical_sectors_32
        }
    }

    /// The number of sectors in one table.
    pub fn sectors_per_fat(&self) -> (r: u32)
        ensures
            r == self.sectors_per_fat_spec(),
    {
        if self.sectors_per_fat != 0 {
            self.sectors_per_fat as u32
        } else {
            self.sectors_per_fat_32
        }
    }

    /// The number of sectors in the file system.
    pub fn total_logical_sectors(&self) -> (r: u32)
        ensures
            r == self.total_logical_sectors_spec(),
    {
        if self.total_logical_sectors != 0 {
            self.total_logical_sectors as u32
        } else {
            self.total_logical_sectors_32
        }
    }

    /// Reads the parameter block that the 512 bytes of `sector` spell.
    ///
    /// Fails with `BadSignature` where the sector does not end in the
    /// number 0xAA55, and never else.
    pub fn parse(sector: &[u8]) -> (r: Result<BiosParameterBlock, Error>)
        requires
            sector@.len() == 512,
        ensures
            match r {
                Ok(bpb) => le_u16(sector@, 510) == 0xAA55 && bpb.spells(sector@),
                Err(e) => le_u16(sector@, 510) != 0xAA55 && e == Error::BadSignature,
            },
    {
        let bootable_signature: u16 = read_u16(sector, 510);
        if bootable_signature != 0xAA55 {
            return Err(Error::BadSignature);
        }
        Ok(
            BiosParameterBlock {
                jump_short_nop: bytes_at(sector, 0, [0u8; 3]),
                oem_id: bytes_at(sector, 3, [0u8; 8]),
                bytes_per_sector: read_u16(sector, 11),
                sectors_per_cluster: sector[13],
                num_reserved_sectors: read_u16(sector, 14),
                num_fat: sector[16],
                max_dir_entries: read_u16(sector, 17),
                total_logical_sectors: read_u16(sector, 19),
                media_desc_type: sector[21],
                sectors_per_fat: read_u16(sector, 22),
                sectors_per_track: read_u16(sector, 24),
                num_heads: read_u16(sector, 26),
                num_hidden_sectors: read_u32(sector, 28),
                total_logical_sectors_32: read_u32(sector, 32),
                sectors_per_fat_32: read_u32(sector, 36),
                flags: read_u16(sector, 40),
                fat_version: bytes_at(sector, 42, [0u8; 2]),
                root_cluster: read_u32(sector, 44),
                fsinfo_sector: read_u16(sector, 48),
                backup_boot_sector: read_u16(sector, 50),
                reserved: bytes_at(sector, 52, [0u8; 12]),
                drive_num: sector[64],
                win_nt_flag: sector[65],
                signature: sector[66],
                volumn_id: read_u32(sector, 67),
                volumn_label: bytes_at(sector, 71, [0u8; 11]),
                sys_id_str: bytes_at(sector, 82, [0u8; 8]),
                boot_code: bytes_at(sector, 90, [0u8; 420]),
                bootable_signature: bootable_signature,
            },
        )
    }

    /// Reads the FAT32 extended BIOS parameter block from sector `sector` of
    /// device `device`: from the first 512 bytes of that sector.
    ///
    /// Fails with `Io` where the device fails, and else as `parse` does.
    pub fn from<D: BlockDevice>(device: &mut D, sector: u64) -> (r: Result<BiosParameterBlock, Error>)
        requires
            old(device).sector_size_spec() <= usize::MAX,
        ensures
            final(device).sector_size_spec() == old(device).sector_size_spec(),
            final(device).sectors() == old(device).sectors(),
            match r {
                Ok(bpb) => {
                    &&& le_u16(boot_image(old(device).sectors()[sector]), 510) == 0xAA55
                    &&& bpb.spells(boot_image(old(device).sectors()[sector]))
                },
                Err(e) => e is Io || (le_u16(boot_image(old(device).sectors()[sector]), 510) != 0xAA55 && e
                    == Error::BadSignature),
            },
    {
        let image: Vec<u8> = match read_boot_image(device, sector) {
            Ok(image) => image,
            Err(e) => {
                return Err(Error::Io(e));
            },
        };
        Self::parse(image.as_slice())
    }
}

} // verus!
