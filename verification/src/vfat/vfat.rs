//! The volume: its geometry, the file allocation table and cluster chains.

use vstd::prelude::*;
use vstd::slice::slice_subrange;
use crate::bytes::{le_u16, le_u32, read_u32};
use crate::device::BlockDevice;
use crate::mbr::{boot_image, defect, first_fat32_from, partition_table, MasterBootRecord};
use crate::vfat::cache::{logical_sectors, span, CachedDevice, Partition};
use crate::vfat::ebpb::{sectors_per_fat_of, BiosParameterBlock};
use crate::vfat::error::from_mbr;
use crate::vfat::cluster::Cluster;
use crate::vfat::dir::{Dir, DirView};
use crate::vfat::entry::{Entry, EntryView};
use crate::vfat::file::File;
use crate::vfat::metadata::{Attributes, Date, Metadata, Time, Timestamp};
use crate::vfat::error::Error;
use crate::vfat::fat::{FatEntry, Status};

verus! {

/// The largest number of clusters that a chain can have: the number of
/// clusters that an entry of the table can name. A chain that goes on after
/// that many clusters runs in a circle.
pub const MAX_CHAIN_CLUSTERS: u32 = 0x0FFF_FFEE;

/// A mounted volume: the cached device and the geometry of the file system.
#[derive(Debug)]
pub struct VFat<D: BlockDevice> {
    pub device: CachedDevice<D>,
    pub bytes_per_sector: u16,
    pub sectors_per_cluster: u8,
    pub sectors_per_fat: u32,
    pub fat_start_sector: u64,
    pub data_start_sector: u64,
    pub root_dir_cluster: Cluster,
}

/// What a volume is, as contracts see it: the bytes of its sectors and its
/// geometry.
pub struct Volume {
    pub sectors: Map<u64, Seq<u8>>,
    pub bytes_per_sector: u16,
    pub sectors_per_cluster: u8,
    pub sectors_per_fat: u32,
    pub fat_start_sector: u64,
    pub data_start_sector: u64,
    pub root_dir_cluster: u32,
}

/// The first sector of the cluster `cluster` in a data region that begins at
/// `data_start`.
pub open spec fn cluster_sector(data_start: int, sectors_per_cluster: int, cluster: int) -> int {
    data_start + (cluster - 2) * sectors_per_cluster
}

/// Every cluster of a volume lies in its data region: from cluster 2 on, a
/// cluster that the data region has room for begins at or after the start of
/// the region and ends at or before its end.
pub proof fn lemma_cluster_in_data_region(
    data_start: int,
    sectors_per_cluster: int,
    total_data_sectors: int,
    cluster: int,
)
    requires
        sectors_per_cluster > 0,
        total_data_sectors >= 0,
        2 <= cluster < 2 + total_data_sectors / sectors_per_cluster,
    ensures
        data_start <= cluster_sector(data_start, sectors_per_cluster, cluster),
        cluster_sector(data_start, sectors_per_cluster, cluster) < data_start + total_data_sectors,
        cluster_sector(data_start, sectors_per_cluster, cluster) + sectors_per_cluster <= data_start
            + total_data_sectors,
{
    let index = cluster - 2;
    let count = total_data_sectors / sectors_per_cluster;
    assert(index * sectors_per_cluster >= 0) by (nonlinear_arith)
        requires
            index >= 0,
            sectors_per_cluster > 0,
    ;
    assert((index + 1) * sectors_per_cluster <= count * sectors_per_cluster) by (nonlinear_arith)
        requires
            index + 1 <= count,
            sectors_per_cluster > 0,
    ;
    assert((index + 1) * sectors_per_cluster == index * sectors_per_cluster + sectors_per_cluster)
        by (nonlinear_arith);
    assert(count * sectors_per_cluster <= total_data_sectors) by (nonlinear_arith)
        requires
            count == total_data_sectors / sectors_per_cluster,
            sectors_per_cluster > 0,
            total_data_sectors >= 0,
    ;
}

/// Whether the driver can work with sectors of `bytes_per_sector` bytes on a
/// device whose sectors have `physical` bytes: a sector of the file system
/// is a whole number of sectors of the device, and holds an entry of the
/// table at least.
pub open spec fn supported(physical: u64, bytes_per_sector: u16) -> bool {
    &&& physical > 0
    &&& bytes_per_sector >= 4
    &&& bytes_per_sector as int >= physical as int
    &&& bytes_per_sector as int % physical as int == 0
}

/// The volume of the partition that begins at the sector `start` and has
/// the parameter block `ebpb`, on a device that holds `sectors` in sectors of
/// `physical` bytes, or `Unreadable` where the sector sizes do not fit.
pub open spec fn volume_of(sectors: Map<u64, Seq<u8>>, physical: u64, start: u64, ebpb: &BiosParameterBlock) -> Result<
    Volume,
    Error,
> {
    let fat_start = start as int + ebpb.num_reserved_sectors as int;
    if !supported(physical, ebpb.bytes_per_sector) {
        Err(Error::Unreadable)
    } else {
        Ok(
            Volume {
                sectors: logical_sectors(
                    sectors,
                    Partition { start: start, sector_size: ebpb.bytes_per_sector as u64 },
                    physical,
                ),
                bytes_per_sector: ebpb.bytes_per_sector,
                sectors_per_cluster: ebpb.sectors_per_cluster,
                sectors_per_fat: ebpb.sectors_per_fat_spec(),
                fat_start_sector: fat_start as u64,
                data_start_sector: (fat_start + ebpb.num_fat as int * ebpb.sectors_per_fat_spec() as int) as u64,
                root_dir_cluster: ebpb.root_cluster,
            },
        )
    }
}

/// The volume that mounting a device gives, or why it cannot be mounted.
///
/// The boot record is read from the first sector. The first FAT32 partition
/// that it names is taken, and the parameter block is read from the first
/// sector of that partition. The table begins after the reserved sectors,
/// and the data region after the tables.
pub open spec fn mount(sectors: Map<u64, Seq<u8>>, physical: u64) -> Result<Volume, Error> {
    let mbr = boot_image(sectors[0]);
    let index = first_fat32_from(partition_table(mbr), 0);
    let start = partition_table(mbr)[index].relative_sector as u64;
    let bpb = boot_image(sectors[start]);
    let fat_start = start as int + le_u16(bpb, 14) as int;
    if defect(mbr) is Some {
        Err(from_mbr(defect(mbr).unwrap()))
    } else if index >= 4 {
        Err(Error::NotFound)
    } else if le_u16(bpb, 510) != 0xAA55 {
        Err(Error::BadSignature)
    } else if !supported(physical, le_u16(bpb, 11)) {
        Err(Error::Unreadable)
    } else {
        Ok(
            Volume {
                sectors: logical_sectors(
                    sectors,
                    Partition { start: start, sector_size: le_u16(bpb, 11) as u64 },
                    physical,
                ),
                bytes_per_sector: le_u16(bpb, 11),
                sectors_per_cluster: bpb[13],
                sectors_per_fat: sectors_per_fat_of(bpb),
                fat_start_sector: fat_start as u64,
                data_start_sector: (fat_start + bpb[16] as int * sectors_per_fat_of(bpb) as int) as u64,
                root_dir_cluster: le_u32(bpb, 44),
            },
        )
    }
}

/// Where the path component that begins at `from` ends: at the next slash,
/// or at the end of the path.
pub open spec fn component_end(path: Seq<u8>, from: int) -> int
    decreases path.len() - from,
{
    if from < 0 || from >= path.len() || path[from] == 0x2F {
        from
    } else {
        component_end(path, from + 1)
    }
}

/// A component ends at or behind the place where it begins, and inside the
/// path.
pub proof fn lemma_component_end(path: Seq<u8>, from: int)
    requires
        0 <= from <= path.len(),
    ensures
        from <= component_end(path, from) <= path.len(),
        from < path.len() && path[from] != 0x2F ==> from < component_end(path, from),
    decreases path.len() - from,
{
    if from < path.len() && path[from] != 0x2F {
        lemma_component_end(path, from + 1);
    }
}

/// Whether a path component is `.`, the directory itself.
pub open spec fn is_current(name: Seq<u8>) -> bool {
    name.len() == 1 && name[0] == 0x2E
}

/// Whether a path component is `..`, the directory above.
pub open spec fn is_parent(name: Seq<u8>) -> bool {
    name.len() == 2 && name[0] == 0x2E && name[1] == 0x2E
}

/// What a component of a path asks for.
#[derive(Debug, Copy, Clone, PartialEq, Eq, Structural)]
pub enum Component {
    /// The component `.` behind the start of the path: the directory come
    /// to so far.
    Current,
    /// The component `..`, or the component `.` at the very start of the
    /// path: neither is supported.
    Unsupported,
    /// Any other component: the name of an entry.
    Normal,
}

/// What the component that begins at `from` asks for.
pub open spec fn component_kind(path: Seq<u8>, from: int) -> Component {
    let name = path.subrange(from, component_end(path, from));
    if is_parent(name) || (is_current(name) && from == 0) {
        Component::Unsupported
    } else if is_current(name) {
        Component::Current
    } else {
        Component::Normal
    }
}

/// Reads the component of `path` that begins at `from`: what it asks for,
/// and where it ends.
pub fn next_component(path: &[u8], from: usize) -> (r: (Component, usize))
    requires
        from < path@.len(),
        path@[from as int] != 0x2F,
    ensures
        r.0 == component_kind(path@, from as int),
        r.1 == component_end(path@, from as int),
        from < r.1 <= path@.len(),
{
    let len: usize = path.len();
    let mut end: usize = from;
    while end < len && path[end] != 0x2F
        invariant
            from <= end <= len,
            len == path@.len(),
            component_end(path@, from as int) == component_end(path@, end as int),
        decreases len - end,
    {
        end += 1;
    }
    proof {
        lemma_component_end(path@, from as int);
    }
    let size: usize = end - from;
    let kind = if size == 2 && path[from] == 0x2E && path[from + 1] == 0x2E {
        Component::Unsupported
    } else if size == 1 && path[from] == 0x2E {
        if from == 0 {
            Component::Unsupported
        } else {
            Component::Current
        }
    } else {
        Component::Normal
    };
    (kind, end)
}

/// Where the first component of `path` from `from` on begins that names an
/// entry, or nothing where the path ends, or comes to a component that is
/// not supported, before it names one.
pub open spec fn first_name(path: Seq<u8>, from: int) -> Option<int>
    decreases path.len() - from,
    when 0 <= from
    via first_name_decreases
{
    if from >= path.len() {
        None
    } else if path[from] == 0x2F {
        first_name(path, from + 1)
    } else {
        match component_kind(path, from) {
            Component::Unsupported => None,
            Component::Current => first_name(path, component_end(path, from)),
            Component::Normal => Some(from),
        }
    }
}

#[via_fn]
proof fn first_name_decreases(path: Seq<u8>, from: int) {
    if from < path.len() {
        lemma_component_end(path, from);
    }
}

/// The metadata of an entry of which nothing is recorded.
pub open spec fn no_metadata() -> Metadata {
    Metadata {
        attr: Attributes(0),
        ctime: Timestamp { time: Time(0), date: Date(0) },
        atime: Timestamp { time: Time(0), date: Date(0) },
        mtime: Timestamp { time: Time(0), date: Date(0) },
        size: 0,
    }
}

/// Puts `front` before what a chain gives.
pub open spec fn after(front: Seq<u32>, rest: Result<Seq<u32>, Error>) -> Result<Seq<u32>, Error> {
    match rest {
        Ok(clusters) => Ok(front + clusters),
        Err(e) => Err(e),
    }
}

impl Volume {
    /// The number of bytes in a cluster.
    pub open spec fn cluster_size(self) -> int {
        self.bytes_per_sector as int * self.sectors_per_cluster as int
    }

    /// The first sector of a cluster.
    pub open spec fn cluster_sector(self, cluster: u32) -> int {
        cluster_sector(self.data_start_sector as int, self.sectors_per_cluster as int, cluster as int)
    }

    /// The bytes of a cluster.
    pub open spec fn cluster_bytes(self, cluster: u32) -> Seq<u8> {
        span(self.sectors, self.cluster_sector(cluster), self.sectors_per_cluster as int)
    }

    /// The number of sectors that a read from a cluster takes: the sectors
    /// that the cluster has from its sector `offset` on, or the whole
    /// sectors that a buffer of `room` bytes holds, whichever is less.
    pub open spec fn sectors_to_read(self, offset: int, room: int) -> int {
        vstd::math::min(
            vstd::math::max(self.sectors_per_cluster as int - offset, 0),
            room / self.bytes_per_sector as int,
        )
    }

    /// The number of table entries in a sector.
    pub open spec fn entries_per_sector(self) -> int {
        self.bytes_per_sector as int / 4
    }

    /// The sector that holds the table entry of a cluster.
    pub open spec fn fat_sector(self, cluster: u32) -> int {
        self.fat_start_sector + cluster as int / self.entries_per_sector()
    }

    /// The table entry of a cluster: the 32-bit word at the cluster's place
    /// in the table.
    pub open spec fn fat_entry(self, cluster: u32) -> u32 {
        le_u32(self.sectors[self.fat_sector(cluster) as u64], 4 * (cluster as int % self.entries_per_sector()))
    }

    /// The clusters of the chain that begins at `start`, in their order.
    ///
    /// A chain goes from cluster to cluster as the table says and ends at
    /// the cluster whose entry is an end-of-chain marker. It is unreadable
    /// where it comes to a cluster whose entry is free, reserved or bad, or
    /// where it has not ended after `fuel` clusters. A chain cannot begin at
    /// a reserved cluster.
    pub open spec fn chain(self, start: u32, fuel: nat) -> Result<Seq<u32>, Error>
        decreases fuel,
    {
        if start < 2 {
            Err(Error::InvalidInput)
        } else if fuel == 0 {
            Err(Error::Unreadable)
        } else {
            match FatEntry::status_of(self.fat_entry(start)) {
                Status::Data(next) => after(seq![start], self.chain(next.0, (fuel - 1) as nat)),
                Status::Eoc(_) => Ok(seq![start]),
                _ => Err(Error::Unreadable),
            }
        }
    }

    /// The bytes of the given clusters, one cluster after the other.
    pub open spec fn clusters_bytes(self, clusters: Seq<u32>) -> Seq<u8>
        decreases clusters.len(),
    {
        if clusters.len() == 0 {
            Seq::empty()
        } else {
            self.clusters_bytes(clusters.drop_last()) + self.cluster_bytes(clusters.last())
        }
    }

    /// What reading the chain from `start` gives when `room` more bytes can
    /// be held: the bytes of its clusters, or why it cannot be read. A chain
    /// of more bytes than there is room for is unreadable.
    pub open spec fn read_chain(self, start: u32, room: int) -> Result<Seq<u8>, Error> {
        match self.chain(start, MAX_CHAIN_CLUSTERS as nat) {
            Ok(clusters) => if clusters.len() * self.cluster_size() <= room {
                Ok(self.clusters_bytes(clusters))
            } else {
                Err(Error::Unreadable)
            },
            Err(e) => Err(e),
        }
    }
}

/// A chain that can be read begins with the cluster it was begun at, and a
/// chain that begins at a cluster of the data region fails only as unreadable.
pub proof fn lemma_chain_begins(volume: Volume, start: u32, fuel: nat)
    requires
        start >= 2,
    ensures
        match volume.chain(start, fuel) {
            Ok(clusters) => clusters.len() >= 1 && clusters[0] == start,
            Err(e) => e == Error::Unreadable,
        },
    decreases fuel,
{
    if fuel > 0 {
        match FatEntry::status_of(volume.fat_entry(start)) {
            Status::Data(next) => {
                let raw = volume.fat_entry(start);
                assert(raw & 0x0FFF_FFFF <= 0x0FFF_FFFF) by (bit_vector);
                lemma_chain_begins(volume, next.0, (fuel - 1) as nat);
            },
            _ => {},
        }
    }
}

/// The bytes of some clusters and one more are the bytes of the clusters and
/// then the bytes of the one.
pub proof fn lemma_clusters_bytes_push(volume: Volume, clusters: Seq<u32>, cluster: u32)
    ensures
        volume.clusters_bytes(clusters.push(cluster)) == volume.clusters_bytes(clusters) + volume.cluster_bytes(
            cluster,
        ),
{
    assert(clusters.push(cluster).drop_last() =~= clusters);
}

impl Volume {
    /// The root directory: it is named `/` and begins at the root cluster.
    pub open spec fn root(self) -> EntryView {
        EntryView::Dir(DirView { name: "/"@, first_cluster: self.root_dir_cluster, metadata: no_metadata() })
    }

    /// The entry that the rest of `path` from `from` on leads to, begun at
    /// `entry`.
    ///
    /// Components are set apart by slashes, and a component that is empty
    /// is passed over. A component `..` is not supported, nor is `.` at the
    /// very start of the path; `.` elsewhere is passed over. Any other
    /// component is looked up in the entry come to so far, which has to be a
    /// directory.
    pub open spec fn resolve(self, entry: EntryView, path: Seq<u8>, from: int) -> Result<EntryView, Error>
        decreases path.len() - from,
        when 0 <= from
        via Self::resolve_decreases
    {
        let end = component_end(path, from);
        if from >= path.len() {
            Ok(entry)
        } else if path[from] == 0x2F {
            self.resolve(entry, path, from + 1)
        } else {
            match component_kind(path, from) {
                Component::Unsupported => Err(Error::InvalidInput),
                Component::Current => self.resolve(entry, path, end),
                Component::Normal => match entry {
                    EntryView::Dir(dir) => match self.find(dir.first_cluster, path.subrange(from, end)) {
                        Ok(next) => self.resolve(next, path, end),
                        Err(e) => Err(e),
                    },
                    EntryView::File(_) => Err(Error::NotFound),
                },
            }
        }
    }

    #[via_fn]
    proof fn resolve_decreases(self, entry: EntryView, path: Seq<u8>, from: int) {
        if from < path.len() {
            lemma_component_end(path, from);
        }
    }

    /// The entry that `path` leads to from the root directory.
    pub open spec fn open(self, path: Seq<u8>) -> Result<EntryView, Error> {
        self.resolve(self.root(), path, 0)
    }

    /// Whether the device is asked when `path` is opened: the path names an
    /// entry before it ends or comes to a component that is not supported,
    /// the first name is UTF-8, and the root directory begins at a cluster
    /// of the data region. Where this does not hold, the path is resolved
    /// without a look at the volume.
    pub open spec fn open_reads(self, path: Seq<u8>) -> bool {
        match first_name(path, 0) {
            Some(at) => self.root_dir_cluster >= 2 && vstd::utf8::valid_utf8(
                path.subrange(at, component_end(path, at)),
            ),
            None => false,
        }
    }
}

impl<D: BlockDevice> View for VFat<D> {
    type V = Volume;

    open spec fn view(&self) -> Volume {
        Volume {
            sectors: self.device@,
            bytes_per_sector: self.bytes_per_sector,
            sectors_per_cluster: self.sectors_per_cluster,
            sectors_per_fat: self.sectors_per_fat,
            fat_start_sector: self.fat_start_sector,
            data_start_sector: self.data_start_sector,
            root_dir_cluster: self.root_dir_cluster.0,
        }
    }
}

/// Copies `src` into `dst` from the place `at` on.
fn copy_into(dst: &mut [u8], at: usize, src: &[u8])
    requires
        at + src@.len() <= old(dst)@.len(),
    ensures
        final(dst)@ == old(dst)@.take(at as int) + src@ + old(dst)@.skip(at + src@.len()),
{
    let len: usize = src.len();
    let room: usize = dst.len();
    let mut i: usize = 0;
    while i < len
        invariant
            i <= len,
            len == src@.len(),
            room == dst@.len(),
            at + len <= dst@.len(),
            dst@.len() <= usize::MAX,
            dst@.len() == old(dst)@.len(),
            dst@ == old(dst)@.take(at as int) + src@.take(i as int) + old(dst)@.skip(at + i),
        decreases len - i,
    {
        dst[at + i] = src[i];
        assert(dst@ =~= old(dst)@.take(at as int) + src@.take(i as int + 1) + old(dst)@.skip(at + i + 1));
        i += 1;
    }
    assert(src@.take(len as int) =~= src@);
}

impl<D: BlockDevice> VFat<D> {
    /// The geometry fits the cached device: the logical sectors of the cache
    /// are the sectors of the file system, the table and the data region lie
    /// inside the partition, and every sector of them can be addressed.
    pub open spec fn wf(&self) -> bool {
        &&& self.device.wf()
        &&& self.device.partition().sector_size == self.bytes_per_sector
        &&& self.bytes_per_sector >= 4
        &&& self.device.partition().start <= self.fat_start_sector
        &&& self.fat_start_sector <= self.data_start_sector
        &&& self.data_start_sector <= 0x400_0000_0000
    }

    /// Every sector of the table and of the data region can be addressed.
    proof fn lemma_addressable(&self, sector: u64)
        requires
            self.wf(),
            self.device.partition().start <= sector <= 0x800_0000_0000,
        ensures
            self.device.addressable(sector),
            self.device.sector_len(sector) == self.bytes_per_sector,
    {
        self.device.lemma_sizes();
        let partition = self.device.partition();
        let physical = self.device.physical_sector_size();
        let factor = partition.sector_size as int / physical as int;
        let offset = sector - partition.start;
        assert(0 < factor <= 0xFFFF) by (nonlinear_arith)
            requires
                0 < physical <= partition.sector_size,
                partition.sector_size <= 0xFFFF,
                factor == partition.sector_size as int / physical as int,
        ;
        assert(0 <= offset * factor <= 0x800_0000_0000 * 0xFFFF) by (nonlinear_arith)
            requires
                0 <= offset <= 0x800_0000_0000,
                0 < factor <= 0xFFFF,
        ;
    }

    /// Mounts the first FAT32 partition of `device`.
    ///
    /// Fails with `Io` where the device fails, and else with what `mount`
    /// says: `BadSignature` or `UnknownBootIndicator` for a boot record that
    /// is not valid, `NotFound` where it names no FAT32 partition,
    /// `BadSignature` for a parameter block that is not valid, `Unreadable`
    /// for a sector size that the device cannot serve.
    pub fn from(device: D) -> (r: Result<VFat<D>, Error>)
        requires
            device.sector_size_spec() <= usize::MAX,
        ensures
            match r {
                Ok(vfat) => {
                    &&& vfat.wf()
                    &&& mount(device.sectors(), device.sector_size_spec()) == Ok::<Volume, Error>(vfat@)
                    &&& forall|sector: u64| !vfat.device.is_cached(sector)
                },
                Err(e) => e is Io || mount(device.sectors(), device.sector_size_spec()) == Err::<Volume, Error>(
                    e,
                ),
            },
    {
        let mut device = device;
        let mbr: MasterBootRecord = match MasterBootRecord::from(&mut device) {
            Ok(mbr) => mbr,
            Err(e) => {
                return Err(Error::from(e));
            },
        };
        let bpb_start: u32 = match mbr.first_fat32() {
            Some(partition) => partition.relative_sector,
            None => {
                return Err(Error::NotFound);
            },
        };
        let ebpb: BiosParameterBlock = BiosParameterBlock::from(&mut device, bpb_start as u64)?;
        Self::new(device, bpb_start, &ebpb)
    }

    /// The volume of the partition that begins at the sector `start` of
    /// `device` and has the parameter block `ebpb`. Nothing is read from the
    /// device.
    ///
    /// The table begins after the reserved sectors of the partition, and the
    /// data region after the tables. Fails with `Unreadable` where the
    /// sectors of the file system are not a whole number of sectors of the
    /// device, or are too small to hold an entry of the table, and never
    /// else.
    pub fn new(device: D, start: u32, ebpb: &BiosParameterBlock) -> (r: Result<VFat<D>, Error>)
        requires
            device.sector_size_spec() <= usize::MAX,
        ensures
            match r {
                Ok(vfat) => {
                    &&& vfat.wf()
                    &&& volume_of(device.sectors(), device.sector_size_spec(), start as u64, ebpb) == Ok::<
                        Volume,
                        Error,
                    >(vfat@)
                    &&& forall|sector: u64| !vfat.device.is_cached(sector)
                },
                Err(e) => volume_of(device.sectors(), device.sector_size_spec(), start as u64, ebpb) == Err::<
                    Volume,
                    Error,
                >(e),
            },
    {
        let start: u64 = start as u64;
        let physical: u64 = device.sector_size();
        let bytes_per_sector: u16 = ebpb.bytes_per_sector;
        if physical == 0 || bytes_per_sector < 4 || (bytes_per_sector as u64) < physical || bytes_per_sector as u64
            % physical != 0 {
            return Err(Error::Unreadable);
        }
        let sectors_per_fat: u32 = ebpb.sectors_per_fat();
        let fat_start_sector: u64 = start + ebpb.num_reserved_sectors as u64;
        assert(0 <= (ebpb.num_fat as u64) * (sectors_per_fat as u64) <= 0xFF * 0xFFFF_FFFF) by (nonlinear_arith)
            requires
                0 <= ebpb.num_fat <= 0xFF,
                0 <= sectors_per_fat <= 0xFFFF_FFFF,
        ;
        let data_start_sector: u64 = fat_start_sector + (ebpb.num_fat as u64) * (sectors_per_fat as u64);
        let dev = CachedDevice::new(device, Partition { start: start, sector_size: bytes_per_sector as u64 });
        Ok(
            VFat {
                device: dev,
                bytes_per_sector: bytes_per_sector,
                sectors_per_cluster: ebpb.sectors_per_cluster,
                sectors_per_fat: sectors_per_fat,
                fat_start_sector: fat_start_sector,
                data_start_sector: data_start_sector,
                root_dir_cluster: Cluster::from(ebpb.root_cluster),
            },
        )
    }

    /// The first sector of a cluster.
    pub fn cluster_sector(&self, cluster: Cluster) -> (r: u64)
        requires
            self.wf(),
            cluster.0 >= 2,
        ensures
            r == self@.cluster_sector(cluster.0),
            self.data_start_sector <= r <= 0x500_0000_0000,
    {
        let index: u64 = (cluster.0 - 2) as u64;
        let per_cluster: u64 = self.sectors_per_cluster as u64;
        assert(0 <= index * per_cluster <= 0xFFFF_FFFF * 0xFF) by (nonlinear_arith)
            requires
                0 <= index <= 0xFFFF_FFFF,
                0 <= per_cluster <= 0xFF,
        ;
        index * per_cluster + self.data_start_sector
    }

    /// Reads from the cluster `cluster`, from its sector of number `offset`
    /// on, into the front of `buf`: whole sectors, until the cluster ends or
    /// `buf` has no room for another sector. Returns the number of bytes
    /// read.
    ///
    /// Fails with `InvalidInput` for a reserved cluster, and for no other.
    /// Where no sector is to be read, because the cluster has none from
    /// `offset` on or `buf` has no room for one, nothing is read and the
    /// result is zero. Else the read fails only where the device fails, and
    /// not at all where the cache holds every sector that is to be read.
    pub fn read_cluster(&mut self, cluster: Cluster, offset: usize, buf: &mut [u8]) -> (r: Result<usize, Error>)
        requires
            old(self).wf(),
        ensures
            final(self).wf(),
            final(self)@ == old(self)@,
            final(self).device.keeps_cache_of(&old(self).device),
            final(buf)@.len() == old(buf)@.len(),
            cluster.0 < 2 ==> (r matches Err(Error::InvalidInput)) && final(buf)@ == old(buf)@,
            cluster.0 >= 2 && (offset >= old(self).sectors_per_cluster || old(buf)@.len() < old(
                self,
            ).bytes_per_sector) ==> r == Ok::<usize, Error>(0) && final(buf)@ == old(buf)@,
            cluster.0 >= 2 && (forall|sector: u64|
                old(self)@.cluster_sector(cluster.0) + offset <= sector < old(self)@.cluster_sector(cluster.0)
                    + offset + old(self)@.sectors_to_read(offset as int, old(buf)@.len() as int)
                    ==> #[trigger] old(self).device.is_cached(sector)) ==> r is Ok,
            cluster.0 >= 2 ==> match r {
                Ok(read) => {
                    let count = old(self)@.sectors_to_read(offset as int, old(buf)@.len() as int);
                    &&& read == count * old(self).bytes_per_sector
                    &&& final(buf)@ == span(
                        old(self)@.sectors,
                        old(self)@.cluster_sector(cluster.0) + offset,
                        count,
                    ) + old(buf)@.skip(read as int)
                },
                Err(e) => e is Io,
            },
    {
        if cluster.0 < 2 {
            return Err(Error::InvalidInput);
        }
        let per_cluster: usize = self.sectors_per_cluster as usize;
        let sector_size: usize = self.bytes_per_sector as usize;
        let can_read: usize = buf.len() / sector_size;
        let left: usize = if offset < per_cluster {
            per_cluster - offset
        } else {
            0
        };
        let count: usize = if left < can_read {
            left
        } else {
            can_read
        };
        assert(count == self@.sectors_to_read(offset as int, buf@.len() as int));
        if count == 0 {
            assert(buf@ =~= span(self@.sectors, self@.cluster_sector(cluster.0) + offset, 0) + buf@.skip(0));
            assert(0 == 0 * self.bytes_per_sector) by (nonlinear_arith);
            assert(buf@.skip(0) =~= buf@);
            return Ok(0);
        }
        assert(buf@.len() >= sector_size) by (nonlinear_arith)
            requires
                count >= 1,
                count <= buf@.len() as int / sector_size as int,
                sector_size > 0,
        ;
        let first: u64 = self.cluster_sector(cluster) + offset as u64;
        let ghost sectors = self@.sectors;
        let ghost all_cached = forall|sector: u64|
            first <= sector < first + count ==> #[trigger] self.device.is_cached(sector);
        let mut read: usize = 0;
        let mut i: usize = 0;
        while i < count
            invariant
                i <= count,
                count <= 255,
                cluster.0 >= 2,
                offset < old(self).sectors_per_cluster,
                old(buf)@.len() >= old(self).bytes_per_sector,
                count == old(self)@.sectors_to_read(offset as int, old(buf)@.len() as int),
                first == old(self)@.cluster_sector(cluster.0) + offset,
                all_cached == (forall|sector: u64|
                    first <= sector < first + count ==> #[trigger] old(self).device.is_cached(sector)),
                all_cached ==> forall|sector: u64|
                    first <= sector < first + count ==> #[trigger] self.device.is_cached(sector),
                self.device.keeps_cache_of(&old(self).device),
                buf@.len() <= usize::MAX,
                count <= buf@.len() as int / sector_size as int,
                sector_size == self.bytes_per_sector,
                self.data_start_sector <= first,
                first + count <= 0x500_0000_0100,
                self.wf(),
                self@ == old(self)@,
                sectors == self@.sectors,
                buf@.len() == old(buf)@.len(),
                read == i * sector_size,
                buf@ == span(sectors, first as int, i as int) + old(buf)@.skip(read as int),
            decreases count - i,
        {
            proof {
                self.lemma_addressable((first + i as u64) as u64);
                assert(i * sector_size + sector_size == (i + 1) * sector_size) by (nonlinear_arith);
                assert((i + 1) * sector_size <= count * sector_size) by (nonlinear_arith)
                    requires
                        i + 1 <= count,
                        sector_size >= 0,
                ;
                assert(count * sector_size <= buf@.len()) by (nonlinear_arith)
                    requires
                        count <= buf@.len() as int / sector_size as int,
                        sector_size > 0,
                ;
            }
            let sector = self.device.get(first + i as u64)?;
            copy_into(buf, read, sector);
            assert(buf@ =~= span(sectors, first as int, i as int + 1) + old(buf)@.skip(read + sector_size));
            read += sector_size;
            i += 1;
        }
        Ok(read)
    }

    /// Reads the table entry of a cluster.
    ///
    /// Fails only where the device fails, and not at all where the cache
    /// holds the sector of the entry.
    pub fn fat_entry(&mut self, cluster: Cluster) -> (r: Result<FatEntry, Error>)
        requires
            old(self).wf(),
        ensures
            final(self).wf(),
            final(self)@ == old(self)@,
            final(self).device.keeps_cache_of(&old(self).device),
            old(self).device.is_cached(old(self)@.fat_sector(cluster.0) as u64) ==> r is Ok,
            match r {
                Ok(entry) => entry.0 == old(self)@.fat_entry(cluster.0),
                Err(e) => e is Io,
            },
    {
        let entries_per_sector: u32 = self.bytes_per_sector as u32 / 4;
        let nth_sec_in_fat: u32 = cluster.0 / entries_per_sector;
        let index_in_sector: u32 = cluster.0 % entries_per_sector;
        let number: u64 = nth_sec_in_fat as u64 + self.fat_start_sector;
        proof {
            self.lemma_addressable(number);
        }
        let sector = self.device.get(number)?;
        Ok(FatEntry(read_u32(sector, (index_in_sector * 4) as usize)))
    }

    /// Appends the bytes of the chain that begins at `start` to `buf`,
    /// cluster by cluster, and returns the number of bytes appended: the
    /// number of clusters of the chain times the size of a cluster.
    ///
    /// Fails with what `Volume::read_chain` says, or where the device fails.
    /// Two failures come before anything is read and leave `buf` as it was:
    /// `InvalidInput` for a chain that is to begin at a reserved cluster, and
    /// for no other, and `Unreadable` where `buf` has no room for one more
    /// cluster. Whatever happens, `buf` begins with what it held.
    pub fn read_chain(&mut self, start: Cluster, buf: &mut Vec<u8>) -> (r: Result<usize, Error>)
        requires
            old(self).wf(),
        ensures
            final(self).wf(),
            final(self)@ == old(self)@,
            final(self).device.keeps_cache_of(&old(self).device),
            old(buf)@.len() <= final(buf)@.len(),
            final(buf)@.take(old(buf)@.len() as int) == old(buf)@,
            start.0 < 2 ==> (r matches Err(Error::InvalidInput)) && final(buf)@ == old(buf)@,
            (r matches Err(Error::InvalidInput)) ==> start.0 < 2,
            start.0 >= 2 && old(buf)@.len() + old(self)@.cluster_size() > usize::MAX ==> (r matches Err(
                Error::Unreadable,
            )) && final(buf)@ == old(buf)@,
            match r {
                Ok(read) => {
                    &&& old(self)@.chain(start.0, MAX_CHAIN_CLUSTERS as nat) matches Ok(clusters)
                    &&& old(self)@.read_chain(start.0, usize::MAX - old(buf)@.len()) == Ok::<Seq<u8>, Error>(
                        old(self)@.clusters_bytes(clusters),
                    )
                    &&& final(buf)@ == old(buf)@ + old(self)@.clusters_bytes(clusters)
                    &&& read == clusters.len() * old(self)@.cluster_size()
                    &&& final(buf)@.len() == old(buf)@.len() + read
                },
                Err(e) => e is Io || old(self)@.read_chain(start.0, usize::MAX - old(buf)@.len()) == Err::<
                    Seq<u8>,
                    Error,
                >(e),
            },
    {
        if start.0 < 2 {
            assert(buf@.take(buf@.len() as int) =~= buf@);
            return Err(Error::InvalidInput);
        }
        let sector_size: usize = self.bytes_per_sector as usize;
        let per_cluster: usize = self.sectors_per_cluster as usize;
        assert(0 <= sector_size * per_cluster <= 0xFFFF * 0xFF) by (nonlinear_arith)
            requires
                0 <= sector_size <= 0xFFFF,
                0 <= per_cluster <= 0xFF,
        ;
        let cluster_size: usize = sector_size * per_cluster;
        let ghost volume = self@;
        let ghost room = usize::MAX - buf@.len();
        let ghost mut visited: Seq<u32> = Seq::empty();
        let mut cur_cluster: Cluster = start;
        let mut read: usize = 0;
        let mut steps: u32 = 0;
        assert(after(visited, volume.chain(cur_cluster.0, MAX_CHAIN_CLUSTERS as nat)) == volume.chain(
            start.0,
            MAX_CHAIN_CLUSTERS as nat,
        )) by {
            match volume.chain(start.0, MAX_CHAIN_CLUSTERS as nat) {
                Ok(clusters) => {
                    assert(visited + clusters =~= clusters);
                },
                Err(_) => {},
            }
        }
        loop
            invariant
                self.wf(),
                self@ == old(self)@,
                volume == old(self)@,
                room == usize::MAX - old(buf)@.len(),
                sector_size == self.bytes_per_sector,
                per_cluster == self.sectors_per_cluster,
                cluster_size == sector_size * per_cluster,
                cluster_size == volume.cluster_size(),
                cur_cluster.0 >= 2,
                start.0 >= 2,
                self.device.keeps_cache_of(&old(self).device),
                steps <= MAX_CHAIN_CLUSTERS,
                visited.len() == steps,
                steps > 0 ==> old(buf)@.len() + cluster_size <= usize::MAX,
                volume.chain(start.0, MAX_CHAIN_CLUSTERS as nat) == after(
                    visited,
                    volume.chain(cur_cluster.0, (MAX_CHAIN_CLUSTERS - steps) as nat),
                ),
                buf@ == old(buf)@ + volume.clusters_bytes(visited),
                read == visited.len() * cluster_size,
                buf@.len() == old(buf)@.len() + read,
            decreases MAX_CHAIN_CLUSTERS - steps,
        {
            proof {
                lemma_chain_begins(volume, cur_cluster.0, (MAX_CHAIN_CLUSTERS - steps) as nat);
            }
            assert(buf@.take(old(buf)@.len() as int) =~= old(buf)@);
            assert(steps == 0 ==> buf@ =~= old(buf)@);
            if steps == MAX_CHAIN_CLUSTERS {
                return Err(Error::Unreadable);
            }
            let buflen: usize = buf.len();
            if buflen > usize::MAX - cluster_size {
                proof {
                    match volume.chain(cur_cluster.0, (MAX_CHAIN_CLUSTERS - steps) as nat) {
                        Ok(rest) => {
                            assert((visited + rest).len() * cluster_size >= (visited.len() + 1) * cluster_size)
                                by (nonlinear_arith)
                                requires
                                    (visited + rest).len() >= visited.len() + 1,
                                    cluster_size >= 0,
                            ;
                            assert((visited.len() + 1) * cluster_size == visited.len() * cluster_size
                                + cluster_size) by (nonlinear_arith);
                        },
                        Err(_) => {},
                    }
                }
                return Err(Error::Unreadable);
            }
            let mut cluster: Vec<u8> = vec![0u8; cluster_size];
            proof {
                assert((sector_size * per_cluster) as int / sector_size as int == per_cluster)
                    by (nonlinear_arith)
                    requires
                        sector_size > 0,
                        per_cluster >= 0,
                ;
                assert(per_cluster * sector_size == sector_size * per_cluster) by (nonlinear_arith);
            }
            let got: usize = self.read_cluster(cur_cluster, 0, cluster.as_mut_slice())?;
            assert(got == cluster_size);
            assert(cluster@ =~= volume.cluster_bytes(cur_cluster.0));
            buf.append(&mut cluster);
            proof {
                lemma_clusters_bytes_push(volume, visited, cur_cluster.0);
                assert((visited.len() + 1) * cluster_size == visited.len() * cluster_size + cluster_size)
                    by (nonlinear_arith);
                assert(buf@ =~= old(buf)@ + volume.clusters_bytes(visited.push(cur_cluster.0)));
            }
            read += cluster_size;
            assert(buf@.take(old(buf)@.len() as int) =~= old(buf)@);
            let entry: FatEntry = self.fat_entry(cur_cluster)?;
            match entry.status() {
                Status::Data(next_cluster) => {
                    proof {
                        match volume.chain(next_cluster.0, (MAX_CHAIN_CLUSTERS - steps - 1) as nat) {
                            Ok(rest) => {
                                assert(visited + (seq![cur_cluster.0] + rest) =~= visited.push(cur_cluster.0)
                                    + rest);
                            },
                            Err(_) => {},
                        }
                        visited = visited.push(cur_cluster.0);
                    }
                    cur_cluster = next_cluster;
                    steps += 1;
                },
                Status::Eoc(_) => {
                    proof {
                        assert(visited + seq![cur_cluster.0] =~= visited.push(cur_cluster.0));
                    }
                    return Ok(read);
                },
                _ => {
                    return Err(Error::Unreadable);
                },
            }
        }
    }

    /// Opens the entry that `path` names, from the root directory on.
    ///
    /// Fails with `InvalidInput` for a component that is not supported or
    /// not UTF-8, with `NotFound` where a component names no entry or is
    /// looked up in a file, and where a directory cannot be read or the
    /// device fails. The device can fail only where it is asked: a path
    /// that names no entry, such as `/`, gives the root directory, and a
    /// path that begins with `.` or `..` gives `InvalidInput`, whatever the
    /// device does.
    pub fn open(&mut self, path: &[u8]) -> (r: Result<Entry, Error>)
        requires
            old(self).wf(),
        ensures
            final(self).wf(),
            final(self)@ == old(self)@,
            final(self).device.keeps_cache_of(&old(self).device),
            (r matches Err(Error::Io(_))) ==> old(self)@.open_reads(path@),
            match r {
                Ok(entry) => old(self)@.open(path@) == Ok::<EntryView, Error>(entry@),
                Err(e) => e is Io || old(self)@.open(path@) == Err::<EntryView, Error>(e),
            },
    {
        let mut cur_dir: Entry = Entry::Dir(Dir::root(self));
        let len: usize = path.len();
        let mut at: usize = 0;
        let ghost mut asked: bool = false;
        while at < len
            invariant
                self.wf(),
                self@ == old(self)@,
                self.device.keeps_cache_of(&old(self).device),
                at <= len,
                len == path@.len(),
                old(self)@.open(path@) == old(self)@.resolve(cur_dir@, path@, at as int),
                !asked ==> cur_dir@ == old(self)@.root() && first_name(path@, 0) == first_name(path@, at as int),
                asked ==> old(self)@.open_reads(path@),
            decreases len - at,
        {
            if path[at] == 0x2F {
                at += 1;
            } else {
                let (kind, end) = next_component(path, at);
                match kind {
                    Component::Unsupported => {
                        return Err(Error::InvalidInput);
                    },
                    Component::Current => {},
                    Component::Normal => {
                        let name: &[u8] = slice_subrange(path, at, end);
                        let next: Entry = match cur_dir.as_dir() {
                            Some(dir) => dir.find(self, name)?,
                            None => {
                                return Err(Error::NotFound);
                            },
                        };
                        proof {
                            asked = true;
                        }
                        cur_dir = next;
                    },
                }
                at = end;
            }
        }
        Ok(cur_dir)
    }

    /// Creating a file is not supported: fails with `ReadOnly`.
    pub fn create_file(&self, _path: &[u8]) -> (r: Result<File, Error>)
        ensures
            r matches Err(Error::ReadOnly),
    {
        Err(Error::ReadOnly)
    }

    /// Creating a directory is not supported: fails with `ReadOnly`.
    pub fn create_dir(&self, _path: &[u8], _parents: bool) -> (r: Result<Dir, Error>)
        ensures
            r matches Err(Error::ReadOnly),
    {
        Err(Error::ReadOnly)
    }

    /// Renaming an entry is not supported: fails with `ReadOnly`.
    pub fn rename(&self, _from: &[u8], _to: &[u8]) -> (r: Result<(), Error>)
        ensures
            r matches Err(Error::ReadOnly),
    {
        Err(Error::ReadOnly)
    }

    /// Removing an entry is not supported: fails with `ReadOnly`.
    pub fn remove(&self, _path: &[u8], _children: bool) -> (r: Result<(), Error>)
        ensures
            r matches Err(Error::ReadOnly),
    {
        Err(Error::ReadOnly)
    }
}

} // verus!
