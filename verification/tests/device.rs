use fat32::device::{append_sector, BlockDevice, MemoryDevice};
use fat32::vfat::{Cluster, Error, VFat};

fn numbered(sectors: usize, sector_size: usize) -> Vec<u8> {
    let mut data = Vec::new();
    for n in 0..sectors {
        for i in 0..sector_size {
            data.push((n * 32 + i % 32) as u8);
        }
    }
    data
}

#[test]
fn memory_device_reads_whole_sectors() {
    let mut device = MemoryDevice::new(numbered(4, 512), 512);
    assert_eq!(device.sector_size(), 512);
    let mut buf = vec![0xEEu8; 600];
    assert_eq!(device.read_sector(2, &mut buf).ok(), Some(512));
    assert_eq!(&buf[..512], &numbered(4, 512)[1024..1536]);
    assert!(buf[512..].iter().all(|&byte| byte == 0xEE));
    assert_eq!(device.read_sector(0, &mut buf).ok(), Some(512));
    assert_eq!(&buf[..512], &numbered(4, 512)[..512]);
}

#[test]
fn memory_device_refuses_sectors_it_does_not_hold() {
    let mut data = numbered(2, 512);
    data.extend_from_slice(&[1u8; 100]);
    let mut device = MemoryDevice::new(data, 512);
    let mut buf = vec![0u8; 512];
    assert!(device.read_sector(1, &mut buf).is_ok());
    assert!(device.read_sector(2, &mut buf).is_err());
    assert!(device.read_sector(u64::MAX, &mut buf).is_err());
    assert!(device.write_sector(2, &buf).is_err());
}

#[test]
fn memory_device_writes_one_sector() {
    let mut device = MemoryDevice::new(numbered(3, 256), 256);
    let fresh = vec![0x5Au8; 300];
    assert_eq!(device.write_sector(1, &fresh).ok(), Some(256));
    let mut buf = vec![0u8; 256];
    assert_eq!(device.read_sector(1, &mut buf).ok(), Some(256));
    assert!(buf.iter().all(|&byte| byte == 0x5A));
    let mut expected = numbered(3, 256);
    for i in 256..512 {
        expected[i] = 0x5A;
    }
    assert_eq!(device.into_inner(), expected);
}

#[test]
fn memory_device_appends_a_sector() {
    let mut device = MemoryDevice::new(numbered(3, 128), 128);
    let mut bytes = vec![9u8];
    assert_eq!(device.read_all_sector(1, &mut bytes).ok(), Some(128));
    assert_eq!(bytes.len(), 129);
    assert_eq!(&bytes[1..], &numbered(3, 128)[128..256]);
    assert!(device.read_all_sector(3, &mut bytes).is_err());
    assert_eq!(bytes.len(), 129);
}

fn small_volume() -> Vec<u8> {
    let mut data = vec![0u8; 8 * 512];
    data[446 + 4] = 0x0B;
    data[446 + 8..446 + 12].copy_from_slice(&1u32.to_le_bytes());
    data[510] = 0x55;
    data[511] = 0xAA;
    data[512 + 11..512 + 13].copy_from_slice(&512u16.to_le_bytes());
    data[512 + 13] = 1;
    data[512 + 14..512 + 16].copy_from_slice(&1u16.to_le_bytes());
    data[512 + 16] = 1;
    data[512 + 36..512 + 40].copy_from_slice(&1u32.to_le_bytes());
    data[512 + 44..512 + 48].copy_from_slice(&2u32.to_le_bytes());
    data[512 + 510] = 0x55;
    data[512 + 511] = 0xAA;
    data[1024 + 8..1024 + 12].copy_from_slice(&3u32.to_le_bytes());
    data[1024 + 12..1024 + 16].copy_from_slice(&0x0FFF_FFFFu32.to_le_bytes());
    for i in 0..512 {
        data[3 * 512 + i] = 0xA0;
        data[4 * 512 + i] = 0xB0;
    }
    data
}

#[test]
fn volume_on_a_memory_device() {
    let mut vfat = VFat::from(MemoryDevice::new(small_volume(), 512)).ok().unwrap();
    assert_eq!(vfat.fat_start_sector, 2);
    assert_eq!(vfat.data_start_sector, 3);
    let mut buf = Vec::new();
    assert_eq!(vfat.read_chain(Cluster::from(2), &mut buf).ok(), Some(1024));
    assert!(buf[..512].iter().all(|&byte| byte == 0xA0));
    assert!(buf[512..].iter().all(|&byte| byte == 0xB0));
}

#[test]
fn boot_record_does_not_fit_in_a_small_sector() {
    let mounted = VFat::from(MemoryDevice::new(small_volume(), 128));
    assert!(matches!(mounted, Err(Error::BadSignature)));
}

#[test]
fn append_sector_after_a_read() {
    let mut bytes = vec![1u8, 2];
    let done = append_sector(Ok(3), vec![7u8, 8, 9], &mut bytes);
    assert_eq!(done.ok(), Some(3));
    assert_eq!(bytes, vec![1, 2, 7, 8, 9]);
}

#[test]
fn append_sector_after_a_failure() {
    let mut bytes = vec![1u8, 2];
    let failure = std::io::Error::new(std::io::ErrorKind::TimedOut, "late");
    match append_sector(Err(failure), vec![7u8, 8, 9], &mut bytes) {
        Err(e) => assert_eq!(e.kind(), std::io::ErrorKind::TimedOut),
        Ok(_) => panic!("a failed read was taken for a sector"),
    }
    assert_eq!(bytes, vec![1, 2]);
}
