//! The sector cache: logical sectors of a partition, read once from the
//! physical sectors of the device and kept in memory.

use vstd::prelude::*;
use std::collections::HashMap;
use crate::device::BlockDevice;
use crate::vfat::error::Error;

verus! {

broadcast use vstd::std_specs::hash::group_hash_axioms;

/// Where a partition begins and how large its logical sectors are.
#[derive(Debug, Copy, Clone, PartialEq, Eq, Structural)]
pub struct Partition {
    /// The physical sector where the partition begins.
    pub start: u64,
    /// The size, in bytes, of a logical sector in the partition.
    pub sector_size: u64,
}

/// The physical sectors that the sector `virt` is made of: the number of the
/// first and how many there are.
///
/// Before the partition, and where logical and physical sectors have one
/// size, a sector is one physical sector of the same number. Inside the
/// partition a logical sector is `logical / physical` physical sectors, and
/// the logical sector at the start of the partition begins at the physical
/// sector of the same number.
pub open spec fn physical_range(partition: Partition, physical: u64, virt: u64) -> (int, int) {
    if physical == partition.sector_size || virt < partition.start {
        (virt as int, 1)
    } else {
        let factor = partition.sector_size as int / physical as int;
        (partition.start + (virt - partition.start) * factor, factor)
    }
}

/// The bytes of `count` sectors in a row, from sector `first` on.
pub open spec fn span(sectors: Map<u64, Seq<u8>>, first: int, count: int) -> Seq<u8>
    decreases count,
{
    if count <= 0 {
        Seq::empty()
    } else {
        span(sectors, first, count - 1) + sectors[(first + count - 1) as u64]
    }
}

/// The logical sectors of a partition on a device that holds `sectors` in
/// physical sectors of `physical` bytes: each is made of the bytes of its
/// physical sectors.
pub open spec fn logical_sectors(sectors: Map<u64, Seq<u8>>, partition: Partition, physical: u64) -> Map<
    u64,
    Seq<u8>,
> {
    Map::new(
        |virt: u64| true,
        |virt: u64|
            span(
                sectors,
                physical_range(partition, physical, virt).0,
                physical_range(partition, physical, virt).1,
            ),
    )
}

/// A sector as the cache holds it.
#[derive(Debug, Default)]
struct CacheEntry {
    data: Vec<u8>,
    dirty: bool,
}

/// A block device seen through a cache, in the logical sectors of a
/// partition.
///
/// A sector is read from the device when it is first asked for, and is kept
/// from then on. To its user the cached device is a map from sector numbers
/// to bytes: its view. The view of a sector that is not yet in the cache is
/// what the device holds for it.
#[derive(Debug)]
pub struct CachedDevice<D: BlockDevice> {
    device: D,
    /// The place in `entries` of each cached sector.
    index: HashMap<u64, usize>,
    /// The cached sectors. They stand in a vector, and the map holds their
    /// places, so that a sector can be handed out for writing: vstd says
    /// what indexing a vector for writing does, and says nothing of
    /// `HashMap::get_mut`.
    entries: Vec<CacheEntry>,
    partition: Partition,
}

impl<D: BlockDevice> View for CachedDevice<D> {
    type V = Map<u64, Seq<u8>>;

    closed spec fn view(&self) -> Map<u64, Seq<u8>> {
        Map::new(|virt: u64| true, |virt: u64| self.sector(virt))
    }
}

impl<D: BlockDevice> CachedDevice<D> {
    /// The partition that the logical sectors belong to.
    pub closed spec fn partition(&self) -> Partition {
        self.partition
    }

    /// The size of a sector of the device.
    pub closed spec fn physical_sector_size(&self) -> u64 {
        self.device.sector_size_spec()
    }

    /// What the device holds.
    pub closed spec fn device_sectors(&self) -> Map<u64, Seq<u8>> {
        self.device.sectors()
    }

    /// Whether the sector is in the cache.
    pub closed spec fn is_cached(&self, virt: u64) -> bool {
        self.index@.contains_key(virt)
    }

    /// Whether the sector is marked as written to.
    pub closed spec fn is_dirty(&self, virt: u64) -> bool {
        self.index@.contains_key(virt) && self.entries@[self.index@[virt] as int].dirty
    }

    /// The bytes of the sector: what the cache holds for it, or what the
    /// device holds where the sector is not in the cache.
    pub closed spec fn sector(&self, virt: u64) -> Seq<u8> {
        if self.index@.contains_key(virt) {
            self.entries@[self.index@[virt] as int].data@
        } else {
            let range = physical_range(self.partition, self.device.sector_size_spec(), virt);
            span(self.device.sectors(), range.0, range.1)
        }
    }

    /// The size in bytes of the sector `virt`: that of a physical sector
    /// before the partition, that of a logical sector inside it.
    pub open spec fn sector_len(&self, virt: u64) -> int {
        if virt < self.partition().start {
            self.physical_sector_size() as int
        } else {
            self.partition().sector_size as int
        }
    }

    /// Whether the physical sectors that `virt` is made of have numbers that
    /// fit in 64 bits.
    pub open spec fn addressable(&self, virt: u64) -> bool {
        let range = physical_range(self.partition(), self.physical_sector_size(), virt);
        range.0 + range.1 - 1 <= u64::MAX
    }

    /// The sizes fit together and every cached sector has its size.
    pub closed spec fn wf(&self) -> bool {
        &&& 0 < self.device.sector_size_spec() <= self.partition.sector_size
        &&& self.partition.sector_size % self.device.sector_size_spec() == 0
        &&& self.partition.sector_size <= usize::MAX
        &&& forall|virt: u64| #[trigger]
            self.index@.contains_key(virt) ==> {
                &&& self.index@[virt] < self.entries@.len()
                &&& self.entries@[self.index@[virt] as int].data@.len() == self.sector_len(virt)
            }
        &&& forall|a: u64, b: u64|
            self.index@.contains_key(a) && self.index@.contains_key(b) && a != b ==> self.index@[a]
                != self.index@[b]
    }

    /// Whether `self` and `other` are one volume: the same partition on a
    /// device of the same sector size, with the same bytes in every sector.
    pub open spec fn same_volume(&self, other: &Self) -> bool {
        &&& self@ == other@
        &&& self.partition() == other.partition()
        &&& self.physical_sector_size() == other.physical_sector_size()
    }

    /// Whether everything that is cached or dirty in `other` is so in `self`.
    pub open spec fn keeps_cache_of(&self, other: &Self) -> bool {
        &&& forall|virt: u64| other.is_cached(virt) ==> self.is_cached(virt)
        &&& forall|virt: u64| self.is_dirty(virt) == other.is_dirty(virt)
    }

    /// What a well-formed cached device promises of its sizes.
    pub proof fn lemma_sizes(&self)
        requires
            self.wf(),
        ensures
            0 < self.physical_sector_size() <= self.partition().sector_size,
            self.partition().sector_size % self.physical_sector_size() == 0,
            self.partition().sector_size <= usize::MAX,
    {
    }

    /// A cache over `device` for the partition `partition`, with nothing in
    /// it yet.
    ///
    /// The logical sectors of the partition must be as large as the sectors
    /// of the device, or a whole number of times larger.
    pub fn new(device: D, partition: Partition) -> (r: CachedDevice<D>)
        requires
            0 < device.sector_size_spec() <= partition.sector_size,
            partition.sector_size % device.sector_size_spec() == 0,
            partition.sector_size <= usize::MAX,
        ensures
            r.wf(),
            r.partition() == partition,
            r.physical_sector_size() == device.sector_size_spec(),
            r.device_sectors() == device.sectors(),
            r@ == logical_sectors(device.sectors(), partition, device.sector_size_spec()),
            forall|virt: u64| !r.is_cached(virt),
            forall|virt: u64| !r.is_dirty(virt),
    {
        let r = CachedDevice { device: device, index: HashMap::new(), entries: Vec::new(), partition: partition };
        assert(r@ =~= logical_sectors(device.sectors(), partition, device.sector_size_spec()));
        r
    }

    /// The partition that the logical sectors belong to.
    pub fn partition_info(&self) -> (r: Partition)
        ensures
            r == self.partition(),
    {
        self.partition
    }

    /// The size in bytes of a logical sector.
    pub fn sector_size(&self) -> (r: u64)
        ensures
            r == self.partition().sector_size,
    {
        self.partition.sector_size
    }

    /// Maps a request for the sector `virt` to the physical sector that it
    /// begins at and the number of physical sectors that it is made of.
    fn virtual_to_physical(&self, virt: u64) -> (r: (u64, u64))
        requires
            self.wf(),
            self.addressable(virt),
        ensures
            r.0 == physical_range(self.partition(), self.physical_sector_size(), virt).0,
            r.1 == physical_range(self.partition(), self.physical_sector_size(), virt).1,
            r.1 >= 1,
            r.1 * self.physical_sector_size() == self.sector_len(virt),
    {
        let physical: u64 = self.device.sector_size();
        if physical == self.partition.sector_size {
            (virt, 1)
        } else if virt < self.partition.start {
            (virt, 1)
        } else {
            let factor: u64 = self.partition.sector_size / physical;
            let logical_offset: u64 = virt - self.partition.start;
            assert(factor >= 1 && factor * physical == self.partition.sector_size) by (nonlinear_arith)
                requires
                    0 < physical <= self.partition.sector_size,
                    self.partition.sector_size % physical == 0,
                    factor == self.partition.sector_size / physical,
            ;
            assert(logical_offset * factor >= 0) by (nonlinear_arith)
                requires
                    logical_offset >= 0,
                    factor >= 0,
            ;
            let physical_offset: u64 = logical_offset * factor;
            let physical_sector: u64 = self.partition.start + physical_offset;
            (physical_sector, factor)
        }
    }

    /// Reads the sector `sector` from the device.
    fn read_entry_from_dev(&mut self, sector: u64) -> (r: Result<CacheEntry, Error>)
        requires
            old(self).wf(),
            old(self).addressable(sector),
        ensures
            final(self).wf(),
            final(self).same_volume(old(self)),
            final(self).keeps_cache_of(old(self)),
            forall|virt: u64| final(self).is_cached(virt) == old(self).is_cached(virt),
            match r {
                Ok(entry) => {
                    &&& !entry.dirty
                    &&& entry.data@.len() == old(self).sector_len(sector)
                    &&& !old(self).is_cached(sector) ==> entry.data@ == old(self)@[sector]
                },
                Err(e) => e is Io,
            },
    {
        let (first, count) = self.virtual_to_physical(sector);
        let mut data: Vec<u8> = Vec::new();
        let mut i: u64 = 0;
        let ghost sectors = self.device.sectors();
        let ghost physical = self.device.sector_size_spec();
        while i < count
            invariant
                i <= count,
                first + count - 1 <= u64::MAX,
                old(self).wf(),
                physical == old(self).device.sector_size_spec(),
                sectors == old(self).device.sectors(),
                physical == self.device.sector_size_spec(),
                physical <= usize::MAX,
                sectors == self.device.sectors(),
                self.index == old(self).index,
                self.entries == old(self).entries,
                self.partition == old(self).partition,
                data@ == span(sectors, first as int, i as int),
                data@.len() == i * physical,
            decreases count - i,
        {
            match self.device.read_all_sector(first + i, &mut data) {
                Ok(_) => {},
                Err(e) => {
                    assert(self@ =~= old(self)@);
                    return Err(Error::Io(e));
                },
            }
            assert((i + 1) * physical == i * physical + physical) by (nonlinear_arith);
            i += 1;
        }
        assert(self@ =~= old(self)@);
        Ok(CacheEntry { data: data, dirty: false })
    }

    /// Makes sure that the sector is in the cache, and returns the place of
    /// its entry.
    fn load(&mut self, sector: u64) -> (r: Result<usize, Error>)
        requires
            old(self).wf(),
            old(self).addressable(sector),
        ensures
            final(self).wf(),
            final(self).same_volume(old(self)),
            final(self).keeps_cache_of(old(self)),
            old(self).is_cached(sector) ==> r is Ok,
            match r {
                Ok(at) => {
                    &&& final(self).is_cached(sector)
                    &&& final(self).index@[sector] == at
                    &&& at < final(self).entries@.len()
                },
                Err(e) => e is Io,
            },
    {
        let known: Option<usize> = match self.index.get(&sector) {
            Some(at) => Some(*at),
            None => None,
        };
        match known {
            Some(at) => Ok(at),
            None => {
                let entry = self.read_entry_from_dev(sector)?;
                let at: usize = self.entries.len();
                let ghost before = *self;
                self.entries.push(entry);
                self.index.insert(sector, at);
                assert(self@ =~= before@);
                Ok(at)
            },
        }
    }

    /// Returns the cached sector `sector`. If the sector is not in the cache
    /// yet, it is first read from the device.
    ///
    /// Fails only where the device fails, and never for a sector that is in
    /// the cache.
    pub fn get(&mut self, sector: u64) -> (r: Result<&[u8], Error>)
        requires
            old(self).wf(),
            old(self).addressable(sector),
        ensures
            final(self).wf(),
            final(self).same_volume(old(self)),
            final(self).keeps_cache_of(old(self)),
            old(self).is_cached(sector) ==> r is Ok,
            match r {
                Ok(bytes) => {
                    &&& final(self).is_cached(sector)
                    &&& bytes@ == old(self)@[sector]
                    &&& bytes@.len() == old(self).sector_len(sector)
                },
                Err(e) => e is Io,
            },
    {
        let at: usize = self.load(sector)?;
        Ok(self.entries[at].data.as_slice())
    }

    /// Returns the cached sector `sector` to be written to, and marks it
    /// dirty. If the sector is not in the cache yet, it is first read from
    /// the device.
    ///
    /// What is written shows in the view of the cached device; nothing is
    /// written to the device itself.
    pub fn get_mut(&mut self, sector: u64) -> (r: Result<&mut [u8], Error>)
        requires
            old(self).wf(),
            old(self).addressable(sector),
        ensures
            final(self).partition() == old(self).partition(),
            final(self).physical_sector_size() == old(self).physical_sector_size(),
            forall|virt: u64| old(self).is_cached(virt) ==> final(self).is_cached(virt),
            forall|virt: u64| virt != sector ==> final(self).is_dirty(virt) == old(self).is_dirty(virt),
            old(self).is_cached(sector) ==> r is Ok,
            match r {
                Ok(bytes) => {
                    &&& bytes@ == old(self)@[sector]
                    &&& bytes@.len() == old(self).sector_len(sector)
                    &&& final(self)@ == old(self)@.insert(sector, final(bytes)@)
                    &&& final(self).is_cached(sector)
                    &&& final(self).is_dirty(sector)
                    &&& final(bytes)@.len() == bytes@.len() ==> final(self).wf()
                },
                Err(e) => {
                    &&& e is Io
                    &&& final(self).wf()
                    &&& final(self)@ == old(self)@
                    &&& final(self).is_dirty(sector) == old(self).is_dirty(sector)
                },
            },
    {
        let at: usize = self.load(sector)?;
        assert forall|virt: u64| virt != sector && #[trigger] self.index@.contains_key(virt) implies self.index@[virt]
            != at by {}
        self.entries[at].dirty = true;
        Ok(self.entries[at].data.as_mut_slice())
    }

    /// Copies the sector `n` into the front of `buf`: as many bytes as the
    /// sector has, or as `buf` has room for. Returns the number of bytes
    /// copied.
    pub fn read_sector(&mut self, n: u64, buf: &mut [u8]) -> (r: Result<usize, Error>)
        requires
            old(self).wf(),
            old(self).addressable(n),
        ensures
            final(self).wf(),
            final(self).same_volume(old(self)),
            final(self).keeps_cache_of(old(self)),
            final(buf)@.len() == old(buf)@.len(),
            old(self).is_cached(n) ==> r is Ok,
            match r {
                Ok(len) => {
                    &&& len == vstd::math::min(old(self).sector_len(n), old(buf)@.len() as int)
                    &&& final(buf)@ == old(self)@[n].take(len as int) + old(buf)@.skip(len as int)
                },
                Err(e) => e is Io && final(buf)@ == old(buf)@,
            },
    {
        let sector = self.get(n)?;
        let len: usize = if sector.len() < buf.len() {
            sector.len()
        } else {
            buf.len()
        };
        let mut i: usize = 0;
        while i < len
            invariant
                i <= len,
                len <= sector@.len(),
                len <= buf@.len(),
                buf@.len() == old(buf)@.len(),
                buf@ == sector@.take(i as int) + old(buf)@.skip(i as int),
            decreases len - i,
        {
            buf[i] = sector[i];
            assert(buf@ =~= sector@.take(i as int + 1) + old(buf)@.skip(i as int + 1));
            i += 1;
        }
        Ok(len)
    }

    /// Overwrites the sector `n` in the cache with the front of `buf`, and
    /// marks it dirty. Returns the number of bytes written: the size of the
    /// sector. A `buf` that is smaller than a logical sector is refused with
    /// `InvalidInput`.
    pub fn write_sector(&mut self, n: u64, buf: &[u8]) -> (r: Result<usize, Error>)
        requires
            old(self).wf(),
            old(self).addressable(n),
        ensures
            final(self).wf(),
            final(self).partition() == old(self).partition(),
            final(self).physical_sector_size() == old(self).physical_sector_size(),
            forall|virt: u64| old(self).is_cached(virt) ==> final(self).is_cached(virt),
            forall|virt: u64| virt != n ==> final(self).is_dirty(virt) == old(self).is_dirty(virt),
            buf@.len() < old(self).partition().sector_size ==> {
                &&& r matches Err(Error::InvalidInput)
                &&& final(self)@ == old(self)@
                &&& final(self).is_dirty(n) == old(self).is_dirty(n)
            },
            buf@.len() >= old(self).partition().sector_size ==> match r {
                Ok(len) => {
                    &&& len == old(self).sector_len(n)
                    &&& final(self)@ == old(self)@.insert(n, buf@.take(len as int))
                    &&& final(self).is_dirty(n)
                },
                Err(e) => {
                    &&& e is Io
                    &&& !old(self).is_cached(n)
                    &&& final(self)@ == old(self)@
                    &&& final(self).is_dirty(n) == old(self).is_dirty(n)
                },
            },
    {
        proof {
            self.lemma_sizes();
        }
        if buf.len() < self.sector_size() as usize {
            return Err(Error::InvalidInput);
        }
        let sector = self.get_mut(n)?;
        let len: usize = sector.len();
        let mut i: usize = 0;
        while i < len
            invariant
                i <= len,
                len == sector@.len(),
                len <= buf@.len(),
                forall|j: int| 0 <= j < i ==> sector@[j] == buf@[j],
            decreases len - i,
        {
            sector[i] = buf[i];
            i += 1;
        }
        assert(sector@ =~= buf@.take(len as int));
        Ok(len)
    }
}

} // verus!
