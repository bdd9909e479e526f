use fat32::device::MemoryDevice;
use fat32::vfat::vfat::{next_component, Component};
use fat32::vfat::{BiosParameterBlock, Cluster, Error, File, Metadata, SeekFrom, VFat};

fn file(size: u32) -> File {
    File::new(String::from("data.bin"), Cluster::from(9), Metadata::default(), size)
}

#[test]
fn new_file_is_read_from_its_start() {
    let f = file(40);
    assert_eq!(f.name(), "data.bin");
    assert_eq!(f.first_cluster(), Cluster::from(9));
    assert_eq!(f.size(), 40);
    assert_eq!(f.position(), 0);
    assert_eq!(*f.metadata(), Metadata::default());
}

#[test]
fn read_from_copies_what_the_buffer_has_room_for() {
    let chain: Vec<u8> = (0..32u8).collect();
    let mut f = file(10);
    let mut buf = [0xEEu8; 4];
    assert_eq!(f.read_from(&chain, &mut buf).ok(), Some(4));
    assert_eq!(buf, [0, 1, 2, 3]);
    assert_eq!(f.position(), 4);
    assert_eq!(f.read_from(&chain, &mut buf).ok(), Some(4));
    assert_eq!(buf, [4, 5, 6, 7]);
    assert_eq!(f.read_from(&chain, &mut buf).ok(), Some(2));
    assert_eq!(buf, [8, 9, 6, 7]);
    assert_eq!(f.position(), 10);
    assert_eq!(f.read_from(&chain, &mut buf).ok(), Some(0));
    assert_eq!(buf, [8, 9, 6, 7]);
}

#[test]
fn read_from_stops_at_the_size_of_the_file() {
    let chain: Vec<u8> = (0..32u8).collect();
    let mut f = file(10);
    let mut buf = [0xEEu8; 16];
    assert_eq!(f.read_from(&chain, &mut buf).ok(), Some(10));
    assert_eq!(&buf[..10], &chain[..10]);
    assert!(buf[10..].iter().all(|&byte| byte == 0xEE));
}

#[test]
fn read_from_a_chain_that_is_too_short() {
    let chain: Vec<u8> = (0..8u8).collect();
    let mut f = file(10);
    let mut buf = [0xEEu8; 16];
    assert!(matches!(f.read_from(&chain, &mut buf), Err(Error::Unreadable)));
    assert_eq!(f.position(), 0);
    assert!(buf.iter().all(|&byte| byte == 0xEE));
    let mut small = [0u8; 8];
    assert_eq!(f.read_from(&chain, &mut small).ok(), Some(8));
    assert!(matches!(f.read_from(&chain, &mut small), Err(Error::Unreadable)));
    assert_eq!(f.seek(SeekFrom::Start(10)).ok(), Some(10));
    assert!(matches!(f.read_from(&chain, &mut small), Err(Error::Unreadable)));
    assert_eq!(f.seek(SeekFrom::Start(8)).ok(), Some(8));
    let mut none: [u8; 0] = [];
    assert_eq!(f.read_from(&chain, &mut none).ok(), Some(0));
}

#[test]
fn path_components_are_told_apart() {
    assert_eq!(next_component(b"name/rest", 0), (Component::Normal, 4));
    assert_eq!(next_component(b"/a/bcd", 3), (Component::Normal, 6));
    assert_eq!(next_component(b"a", 0), (Component::Normal, 1));
    assert_eq!(next_component(b"..", 0), (Component::Unsupported, 2));
    assert_eq!(next_component(b"/a/../b", 3), (Component::Unsupported, 5));
    assert_eq!(next_component(b".", 0), (Component::Unsupported, 1));
    assert_eq!(next_component(b"./a", 0), (Component::Unsupported, 1));
    assert_eq!(next_component(b"/./a", 1), (Component::Current, 2));
    assert_eq!(next_component(b"a/.", 2), (Component::Current, 3));
    assert_eq!(next_component(b"...", 0), (Component::Normal, 3));
    assert_eq!(next_component(b".a", 0), (Component::Normal, 2));
    assert_eq!(next_component(b"a..", 0), (Component::Normal, 3));
}

fn parameter_block(bytes_per_sector: u16) -> BiosParameterBlock {
    let mut sector = vec![0u8; 512];
    sector[11..13].copy_from_slice(&bytes_per_sector.to_le_bytes());
    sector[13] = 4;
    sector[14..16].copy_from_slice(&32u16.to_le_bytes());
    sector[16] = 2;
    sector[36..40].copy_from_slice(&100u32.to_le_bytes());
    sector[44..48].copy_from_slice(&7u32.to_le_bytes());
    sector[510] = 0x55;
    sector[511] = 0xAA;
    BiosParameterBlock::parse(&sector).ok().unwrap()
}

#[test]
fn volume_geometry_from_the_parameter_block() {
    let vfat = VFat::new(MemoryDevice::new(Vec::new(), 512), 63, &parameter_block(1024)).ok().unwrap();
    assert_eq!(vfat.bytes_per_sector, 1024);
    assert_eq!(vfat.sectors_per_cluster, 4);
    assert_eq!(vfat.sectors_per_fat, 100);
    assert_eq!(vfat.fat_start_sector, 63 + 32);
    assert_eq!(vfat.data_start_sector, 63 + 32 + 200);
    assert_eq!(vfat.root_dir_cluster, Cluster::from(7));
    assert_eq!(vfat.cluster_sector(Cluster::from(2)), 295);
    assert_eq!(vfat.cluster_sector(Cluster::from(12)), 295 + 40);
    assert_eq!(vfat.device.partition_info().start, 63);
    assert_eq!(vfat.device.sector_size(), 1024);
}

#[test]
fn volume_geometry_that_the_device_cannot_serve() {
    for &(physical, logical) in &[(512usize, 256u16), (512, 0), (512, 768), (4096, 512), (3, 512), (1, 2)] {
        let made = VFat::new(MemoryDevice::new(Vec::new(), physical), 1, &parameter_block(logical));
        assert!(matches!(made, Err(Error::Unreadable)));
    }
    assert!(VFat::new(MemoryDevice::new(Vec::new(), 1), 1, &parameter_block(4)).is_ok());
    assert!(VFat::new(MemoryDevice::new(Vec::new(), 4096), 1, &parameter_block(4096)).is_ok());
}

#[test]
fn clusters_lie_in_the_data_region() {
    let vfat = VFat::new(MemoryDevice::new(Vec::new(), 512), 63, &parameter_block(512)).ok().unwrap();
    let total_data_sectors: u64 = 4003;
    let clusters = total_data_sectors / vfat.sectors_per_cluster as u64;
    for cluster in 2..2 + clusters {
        let first = vfat.cluster_sector(Cluster::from(cluster as u32));
        assert!(first >= vfat.data_start_sector);
        assert!(first + vfat.sectors_per_cluster as u64 <= vfat.data_start_sector + total_data_sectors);
    }
    assert_eq!(vfat.cluster_sector(Cluster::from(2)), vfat.data_start_sector);
    assert_eq!(vfat.cluster_sector(Cluster::from(1001)), vfat.data_start_sector + 3996);
}
