use fat32::device::BlockDevice;
use fat32::mbr::{boot_image_of, read_boot_image, Error, MasterBootRecord};
use fat32::vfat::BiosParameterBlock;

struct Ram {
    data: Vec<u8>,
    sector_size: usize,
}

impl BlockDevice for Ram {
    fn sector_size(&self) -> u64 {
        self.sector_size as u64
    }

    fn read_sector(&mut self, n: u64, buf: &mut [u8]) -> Result<usize, std::io::Error> {
        let start = (n as usize) * self.sector_size;
        if start + self.sector_size > self.data.len() {
            return Err(std::io::Error::new(std::io::ErrorKind::UnexpectedEof, "no such sector"));
        }
        buf[..self.sector_size].copy_from_slice(&self.data[start..start + self.sector_size]);
        Ok(self.sector_size)
    }

    fn write_sector(&mut self, _n: u64, _buf: &[u8]) -> Result<usize, std::io::Error> {
        Err(std::io::Error::new(std::io::ErrorKind::PermissionDenied, "not written"))
    }
}

fn boot_sector(types: [u8; 4], indicators: [u8; 4]) -> Vec<u8> {
    let mut sector = vec![0u8; 512];
    for i in 0..436 {
        sector[i] = (i % 251) as u8;
    }
    for i in 0..10 {
        sector[436 + i] = 0xD0 + i as u8;
    }
    for i in 0..4 {
        let at = 446 + 16 * i;
        sector[at] = indicators[i];
        sector[at + 1] = 1 + i as u8;
        sector[at + 2] = 2 + i as u8;
        sector[at + 3] = 3 + i as u8;
        sector[at + 4] = types[i];
        sector[at + 5] = 5 + i as u8;
        sector[at + 6] = 6 + i as u8;
        sector[at + 7] = 7 + i as u8;
        sector[at + 8..at + 12].copy_from_slice(&(0x0102_0300u32 + i as u32).to_le_bytes());
        sector[at + 12..at + 16].copy_from_slice(&(0x0A0B_0C00u32 + i as u32).to_le_bytes());
    }
    sector[510] = 0x55;
    sector[511] = 0xAA;
    sector
}

#[test]
fn mbr_fields_are_read() {
    let sector = boot_sector([0x07, 0x0C, 0x0B, 0x00], [0x80, 0x00, 0x00, 0x00]);
    let mbr = MasterBootRecord::parse(&sector).ok().unwrap();
    assert_eq!(&mbr.bootstrap[..], &sector[..436]);
    assert_eq!(&mbr.disk_id[..], &sector[436..446]);
    assert_eq!(mbr.signature, [0x55, 0xAA]);
    let second = mbr.partition_table[1];
    assert_eq!(second.boot_indicator, 0x00);
    assert_eq!(second.start_chs.head, 2);
    assert_eq!(second.start_chs.sector, 3);
    assert_eq!(second.start_chs.cylinder, 4);
    assert_eq!(second.partition_type, 0x0C);
    assert_eq!(second.end_chs.head, 6);
    assert_eq!(second.end_chs.sector, 7);
    assert_eq!(second.end_chs.cylinder, 8);
    assert_eq!(second.relative_sector, 0x0102_0301);
    assert_eq!(second.total_sectors, 0x0A0B_0C01);
    assert_eq!(mbr.partition_table[0].boot_indicator, 0x80);
    assert_eq!(mbr.partition_table[3].relative_sector, 0x0102_0303);
}

#[test]
fn mbr_signature_failure() {
    let mut sector = boot_sector([0x0C, 0, 0, 0], [0, 0, 0, 0]);
    sector[510] = 0x00;
    sector[511] = 0x00;
    assert!(matches!(MasterBootRecord::parse(&sector), Err(Error::BadSignature)));
    let mut device = Ram { data: sector, sector_size: 512 };
    assert!(matches!(MasterBootRecord::from(&mut device), Err(Error::BadSignature)));
}

#[test]
fn mbr_signature_is_checked_byte_by_byte() {
    let mut sector = boot_sector([0x0C, 0, 0, 0], [0, 0, 0, 0]);
    sector[510] = 0xAA;
    sector[511] = 0x55;
    assert!(matches!(MasterBootRecord::parse(&sector), Err(Error::BadSignature)));
    let mut half = boot_sector([0x0C, 0, 0, 0], [0, 0, 0, 0]);
    half[511] = 0x00;
    assert!(matches!(MasterBootRecord::parse(&half), Err(Error::BadSignature)));
}

#[test]
fn mbr_boot_flag_failure() {
    let sector = boot_sector([0x0C, 0, 0, 0], [0x00, 0x80, 0x7F, 0x00]);
    assert!(matches!(MasterBootRecord::parse(&sector), Err(Error::UnknownBootIndicator(2))));
}

#[test]
fn mbr_reports_the_first_bad_boot_flag() {
    let sector = boot_sector([0x0C, 0, 0, 0], [0x01, 0x80, 0x7F, 0x02]);
    assert!(matches!(MasterBootRecord::parse(&sector), Err(Error::UnknownBootIndicator(0))));
    let last = boot_sector([0x0C, 0, 0, 0], [0x00, 0x80, 0x00, 0x81]);
    assert!(matches!(MasterBootRecord::parse(&last), Err(Error::UnknownBootIndicator(3))));
}

#[test]
fn mbr_signature_is_looked_at_before_the_boot_flags() {
    let mut sector = boot_sector([0x0C, 0, 0, 0], [0x7F, 0, 0, 0]);
    sector[511] = 0;
    assert!(matches!(MasterBootRecord::parse(&sector), Err(Error::BadSignature)));
}

#[test]
fn mbr_partition_selection() {
    let sector = boot_sector([0x07, 0x0C, 0x0B, 0x00], [0, 0, 0, 0]);
    let mbr = MasterBootRecord::parse(&sector).ok().unwrap();
    let found = mbr.first_fat32().unwrap();
    assert_eq!(found.partition_type, 0x0C);
    assert_eq!(found.relative_sector, 0x0102_0301);
    assert!(std::ptr::eq(found, &mbr.partition_table[1]));
}

#[test]
fn mbr_partition_of_type_0b_is_fat32() {
    let sector = boot_sector([0x07, 0x83, 0x00, 0x0B], [0, 0, 0, 0]);
    let mbr = MasterBootRecord::parse(&sector).ok().unwrap();
    let found = mbr.first_fat32().unwrap();
    assert_eq!(found.partition_type, 0x0B);
    assert_eq!(found.relative_sector, 0x0102_0303);
}

#[test]
fn mbr_without_fat32_partition() {
    let sector = boot_sector([0x07, 0x83, 0x00, 0x0E], [0, 0, 0, 0]);
    let mbr = MasterBootRecord::parse(&sector).ok().unwrap();
    assert!(mbr.first_fat32().is_none());
}

#[test]
fn mbr_is_read_from_the_first_sector() {
    let mut data = boot_sector([0x0B, 0, 0, 0], [0x80, 0, 0, 0]);
    data.extend_from_slice(&[0xEEu8; 512]);
    let mut device = Ram { data: data, sector_size: 512 };
    let mbr = MasterBootRecord::from(&mut device).ok().unwrap();
    assert_eq!(mbr.partition_table[0].partition_type, 0x0B);
    assert_eq!(mbr.first_fat32().unwrap().relative_sector, 0x0102_0300);
}

#[test]
fn mbr_is_the_front_of_a_larger_sector() {
    let mut data = boot_sector([0x00, 0x0B, 0, 0], [0, 0, 0, 0]);
    data.extend_from_slice(&[0x11u8; 512]);
    let mut device = Ram { data: data, sector_size: 1024 };
    let mbr = MasterBootRecord::from(&mut device).ok().unwrap();
    assert_eq!(mbr.first_fat32().unwrap().relative_sector, 0x0102_0301);
}

#[test]
fn mbr_of_a_smaller_sector_is_padded_with_zeros() {
    let data = boot_sector([0x0B, 0, 0, 0], [0, 0, 0, 0]);
    let mut device = Ram { data: data, sector_size: 256 };
    assert!(matches!(MasterBootRecord::from(&mut device), Err(Error::BadSignature)));
}

#[test]
fn mbr_device_failure_is_handed_on() {
    let mut device = Ram { data: vec![0u8; 100], sector_size: 512 };
    match MasterBootRecord::from(&mut device) {
        Err(Error::Io(inner)) => assert_eq!(inner.kind(), std::io::ErrorKind::UnexpectedEof),
        _ => panic!("the read of a missing sector did not fail"),
    }
}

fn parameter_block() -> Vec<u8> {
    let mut sector = vec![0u8; 512];
    for i in 0..512 {
        sector[i] = (i % 199) as u8;
    }
    sector[11..13].copy_from_slice(&512u16.to_le_bytes());
    sector[13] = 8;
    sector[14..16].copy_from_slice(&32u16.to_le_bytes());
    sector[16] = 2;
    sector[19..21].copy_from_slice(&0u16.to_le_bytes());
    sector[22..24].copy_from_slice(&0u16.to_le_bytes());
    sector[32..36].copy_from_slice(&0x0012_3456u32.to_le_bytes());
    sector[36..40].copy_from_slice(&1008u32.to_le_bytes());
    sector[44..48].copy_from_slice(&2u32.to_le_bytes());
    sector[510] = 0x55;
    sector[511] = 0xAA;
    sector
}

#[test]
fn parameter_block_fields_are_read() {
    let sector = parameter_block();
    let bpb = BiosParameterBlock::parse(&sector).ok().unwrap();
    assert_eq!(&bpb.jump_short_nop[..], &sector[0..3]);
    assert_eq!(&bpb.oem_id[..], &sector[3..11]);
    assert_eq!(bpb.bytes_per_sector, 512);
    assert_eq!(bpb.sectors_per_cluster, 8);
    assert_eq!(bpb.num_reserved_sectors, 32);
    assert_eq!(bpb.num_fat, 2);
    assert_eq!(bpb.max_dir_entries, u16::from_le_bytes([sector[17], sector[18]]));
    assert_eq!(bpb.media_desc_type, sector[21]);
    assert_eq!(bpb.sectors_per_track, u16::from_le_bytes([sector[24], sector[25]]));
    assert_eq!(bpb.num_heads, u16::from_le_bytes([sector[26], sector[27]]));
    assert_eq!(bpb.num_hidden_sectors, u32::from_le_bytes([sector[28], sector[29], sector[30], sector[31]]));
    assert_eq!(bpb.total_logical_sectors_32, 0x0012_3456);
    assert_eq!(bpb.sectors_per_fat_32, 1008);
    assert_eq!(bpb.flags, u16::from_le_bytes([sector[40], sector[41]]));
    assert_eq!(&bpb.fat_version[..], &sector[42..44]);
    assert_eq!(bpb.root_cluster, 2);
    assert_eq!(bpb.fsinfo_sector, u16::from_le_bytes([sector[48], sector[49]]));
    assert_eq!(bpb.backup_boot_sector, u16::from_le_bytes([sector[50], sector[51]]));
    assert_eq!(&bpb.reserved[..], &sector[52..64]);
    assert_eq!(bpb.drive_num, sector[64]);
    assert_eq!(bpb.win_nt_flag, sector[65]);
    assert_eq!(bpb.signature, sector[66]);
    assert_eq!(bpb.volumn_id, u32::from_le_bytes([sector[67], sector[68], sector[69], sector[70]]));
    assert_eq!(&bpb.volumn_label[..], &sector[71..82]);
    assert_eq!(&bpb.sys_id_str[..], &sector[82..90]);
    assert_eq!(&bpb.boot_code[..], &sector[90..510]);
    assert_eq!(bpb.bootable_signature, 0xAA55);
}

#[test]
fn parameter_block_prefers_the_16_bit_fields() {
    let mut sector = parameter_block();
    let wide = BiosParameterBlock::parse(&sector).ok().unwrap();
    assert_eq!(wide.sectors_per_fat(), 1008);
    assert_eq!(wide.total_logical_sectors(), 0x0012_3456);
    sector[22..24].copy_from_slice(&9u16.to_le_bytes());
    sector[19..21].copy_from_slice(&4000u16.to_le_bytes());
    let narrow = BiosParameterBlock::parse(&sector).ok().unwrap();
    assert_eq!(narrow.sectors_per_fat(), 9);
    assert_eq!(narrow.total_logical_sectors(), 4000);
}

#[test]
fn parameter_block_signature_failure() {
    let mut sector = parameter_block();
    sector[510] = 0xAA;
    sector[511] = 0x55;
    assert!(matches!(BiosParameterBlock::parse(&sector), Err(fat32::vfat::Error::BadSignature)));
}

#[test]
fn parameter_block_is_read_from_its_sector() {
    let mut data = vec![0u8; 1024];
    data.extend_from_slice(&parameter_block());
    let mut device = Ram { data: data, sector_size: 512 };
    let bpb = BiosParameterBlock::from(&mut device, 2).ok().unwrap();
    assert_eq!(bpb.sectors_per_cluster, 8);
    assert!(matches!(BiosParameterBlock::from(&mut device, 1), Err(fat32::vfat::Error::BadSignature)));
    assert!(matches!(BiosParameterBlock::from(&mut device, 3), Err(fat32::vfat::Error::Io(_))));
}

#[test]
fn boot_image_is_the_front_of_the_buffer() {
    let mut buf = vec![0u8; 700];
    for i in 0..700 {
        buf[i] = (i % 97) as u8;
    }
    let image = boot_image_of(Ok(700), buf.clone()).ok().unwrap();
    assert_eq!(image.len(), 512);
    assert_eq!(&image[..], &buf[..512]);
    let exact = boot_image_of(Ok(512), buf[..512].to_vec()).ok().unwrap();
    assert_eq!(&exact[..], &buf[..512]);
}

#[test]
fn boot_image_of_a_small_buffer_is_padded_with_zeros() {
    let image = boot_image_of(Ok(3), vec![5u8, 6, 7]).ok().unwrap();
    assert_eq!(image.len(), 512);
    assert_eq!(&image[..3], &[5, 6, 7]);
    assert!(image[3..].iter().all(|&byte| byte == 0));
}

#[test]
fn boot_image_after_a_failure() {
    let failure = std::io::Error::new(std::io::ErrorKind::TimedOut, "late");
    match boot_image_of(Err(failure), vec![1u8; 512]) {
        Err(e) => assert_eq!(e.kind(), std::io::ErrorKind::TimedOut),
        Ok(_) => panic!("a failed read was taken for a sector"),
    }
}

#[test]
fn boot_image_is_read_from_the_device() {
    let mut data = vec![0x11u8; 512];
    data.extend_from_slice(&[0x22u8; 512]);
    let mut device = Ram { data: data, sector_size: 512 };
    let image = read_boot_image(&mut device, 1).ok().unwrap();
    assert_eq!(image, vec![0x22u8; 512]);
    assert!(read_boot_image(&mut device, 2).is_err());
    let mut wide = Ram { data: vec![0x33u8; 2048], sector_size: 1024 };
    assert_eq!(read_boot_image(&mut wide, 1).ok().unwrap(), vec![0x33u8; 512]);
    let mut narrow = Ram { data: vec![0x44u8; 512], sector_size: 128 };
    let padded = read_boot_image(&mut narrow, 3).ok().unwrap();
    assert_eq!(&padded[..128], &[0x44u8; 128][..]);
    assert!(padded[128..].iter().all(|&byte| byte == 0));
}
