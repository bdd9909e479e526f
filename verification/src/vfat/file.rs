//! Files: a starting cluster, a size and a position to read from.

use vstd::prelude::*;
use crate::device::BlockDevice;
use crate::vfat::cluster::Cluster;
use crate::vfat::error::Error;
use crate::vfat::metadata::Metadata;
use crate::vfat::vfat::VFat;

verus! {

/// Where a seek is counted from.
#[derive(Debug, Copy, Clone, PartialEq, Eq, Structural)]
pub enum SeekFrom {
    /// So many bytes after the start of the file.
    Start(u64),
    /// So many bytes after the end of the file, or before it where the
    /// number is negative.
    End(i64),
    /// So many bytes after the current position, or before it where the
    /// number is negative.
    Current(i64),
}

/// A file of a volume. The position never lies beyond the end of the file.
#[derive(Debug)]
pub struct File {
    name: String,
    first_cluster: Cluster,
    metadata: Metadata,
    size: u32,
    file_ptr: u32,
}

/// What a file is, as contracts see it.
pub struct FileView {
    pub name: Seq<char>,
    pub first_cluster: u32,
    pub metadata: Metadata,
    pub size: u32,
    pub position: u32,
}

impl View for File {
    type V = FileView;

    closed spec fn view(&self) -> FileView {
        FileView {
            name: self.name@,
            first_cluster: self.first_cluster.0,
            metadata: self.metadata,
            size: self.size,
            position: self.file_ptr,
        }
    }
}

/// The byte that a seek aims at, counted from the start of the file.
pub open spec fn seek_target(size: u32, position: u32, pos: SeekFrom) -> int {
    match pos {
        SeekFrom::Start(n) => n as int,
        SeekFrom::End(n) => size as int + n as int,
        SeekFrom::Current(n) => position as int + n as int,
    }
}

/// The number of bytes that a read gives: what the file has left after the
/// position, or what the buffer has room for, whichever is less.
pub open spec fn read_len(size: u32, position: u32, room: nat) -> int {
    vstd::math::min(size as int - position as int, room as int)
}

/// Whether a seek stays inside the file. The end of the file is inside.
pub open spec fn seek_allowed(size: u32, position: u32, pos: SeekFrom) -> bool {
    0 <= seek_target(size, position, pos) <= size as int
}

/// A seek to the end of the file is allowed, and a seek to the byte after it
/// is not, whatever the size and the position are.
pub proof fn lemma_seek_end_of_file(size: u32, position: u32)
    ensures
        seek_allowed(size, position, SeekFrom::Start(size as u64)),
        seek_target(size, position, SeekFrom::Start(size as u64)) == size,
        !seek_allowed(size, position, SeekFrom::Start((size as u64 + 1) as u64)),
{
}

impl File {
    #[verifier::type_invariant]
    spec fn position_in_file(&self) -> bool {
        self.file_ptr <= self.size
    }

    /// A file of the given name, first cluster and size, to be read from its
    /// start.
    pub fn new(name: String, first_cluster: Cluster, metadata: Metadata, file_sz: u32) -> (r: File)
        ensures
            r@ == (FileView {
                name: name@,
                first_cluster: first_cluster.0,
                metadata: metadata,
                size: file_sz,
                position: 0,
            }),
    {
        File { name: name, first_cluster: first_cluster, metadata: metadata, file_ptr: 0, size: file_sz }
    }

    pub fn name(&self) -> (r: &String)
        ensures
            r@ == self@.name,
    {
        &self.name
    }

    pub fn metadata(&self) -> (r: &Metadata)
        ensures
            *r == self@.metadata,
    {
        &self.metadata
    }

    /// The cluster that the file begins in.
    pub fn first_cluster(&self) -> (r: Cluster)
        ensures
            r.0 == self@.first_cluster,
    {
        self.first_cluster
    }

    /// The size of the file in bytes.
    pub fn size(&self) -> (r: u64)
        ensures
            r == self@.size,
    {
        self.size as u64
    }

    /// The position that the next read starts from.
    pub fn position(&self) -> (r: u64)
        ensures
            r == self@.position,
            r <= self@.size,
    {
        proof {
            use_type_invariant(self);
        }
        self.file_ptr as u64
    }

    /// Moves the position to the byte that `pos` names and returns it. A
    /// seek to a byte before the start or after the end of the file fails
    /// with `InvalidInput` and leaves the position where it was.
    pub fn seek(&mut self, pos: SeekFrom) -> (r: Result<u64, Error>)
        ensures
            final(self)@.name == old(self)@.name,
            final(self)@.first_cluster == old(self)@.first_cluster,
            final(self)@.metadata == old(self)@.metadata,
            final(self)@.size == old(self)@.size,
            seek_allowed(old(self)@.size, old(self)@.position, pos) ==> {
                &&& r matches Ok(at)
                &&& at == seek_target(old(self)@.size, old(self)@.position, pos)
                &&& final(self)@.position == at
            },
            !seek_allowed(old(self)@.size, old(self)@.position, pos) ==> {
                &&& r matches Err(Error::InvalidInput)
                &&& final(self)@.position == old(self)@.position
            },
    {
        let target: i128 = match pos {
            SeekFrom::Start(n) => n as i128,
            SeekFrom::End(n) => self.size as i128 + n as i128,
            SeekFrom::Current(n) => self.file_ptr as i128 + n as i128,
        };
        if target < 0 || target > self.size as i128 {
            Err(Error::InvalidInput)
        } else {
            self.file_ptr = target as u32;
            Ok(target as u64)
        }
    }

    /// Reads from the position on into the front of `buf`, as many bytes as
    /// the file has left or as `buf` has room for, and moves the position
    /// behind them. Returns the number of bytes read. A file of size zero
    /// is read without a look at the volume.
    ///
    /// Fails where the chain of the file cannot be read or the device fails,
    /// and with `Unreadable` where the chain holds fewer bytes than the file
    /// is to have. A file that has bytes and is to begin at a reserved
    /// cluster, and no other, fails with `InvalidInput`, and nothing is read
    /// for it. On failure nothing is changed.
    pub fn read<D: BlockDevice>(&mut self, vfat: &mut VFat<D>, buf: &mut [u8]) -> (r: Result<usize, Error>)
        requires
            old(vfat).wf(),
        ensures
            final(vfat).wf(),
            final(vfat)@ == old(vfat)@,
            final(vfat).device.keeps_cache_of(&old(vfat).device),
            final(buf)@.len() == old(buf)@.len(),
            (old(self)@.size > 0 && old(self)@.first_cluster < 2) <==> (r matches Err(Error::InvalidInput)),
            final(self)@.name == old(self)@.name,
            final(self)@.first_cluster == old(self)@.first_cluster,
            final(self)@.metadata == old(self)@.metadata,
            final(self)@.size == old(self)@.size,
            old(self)@.size == 0 ==> {
                &&& r matches Ok(n)
                &&& n == 0
                &&& final(self)@ == old(self)@
                &&& final(buf)@ == old(buf)@
            },
            old(self)@.size > 0 ==> match r {
                Ok(n) => {
                    &&& old(vfat)@.read_chain(old(self)@.first_cluster, usize::MAX as int) matches Ok(bytes)
                    &&& n == read_len(old(self)@.size, old(self)@.position, old(buf)@.len())
                    &&& old(self)@.position + n <= bytes.len()
                    &&& final(buf)@ == bytes.subrange(old(self)@.position as int, old(self)@.position + n) + old(
                        buf,
                    )@.skip(n as int)
                    &&& final(self)@.position == old(self)@.position + n
                },
                Err(e) => {
                    &&& final(self)@ == old(self)@
                    &&& final(buf)@ == old(buf)@
                    &&& e is Io || match old(vfat)@.read_chain(old(self)@.first_cluster, usize::MAX as int) {
                        Ok(bytes) => e == Error::Unreadable && bytes.len() < old(self)@.position + read_len(
                            old(self)@.size,
                            old(self)@.position,
                            old(buf)@.len(),
                        ),
                        Err(why) => why == e,
                    }
                },
            },
    {
        proof {
            use_type_invariant(&*self);
        }
        if self.size == 0 {
            return Ok(0);
        }
        let mut v: Vec<u8> = Vec::new();
        let _read: usize = vfat.read_chain(self.first_cluster, &mut v)?;
        assert(v@ =~= old(vfat)@.read_chain(self.first_cluster.0, usize::MAX as int)->Ok_0);
        self.read_from(v.as_slice(), buf)
    }

    /// Reads from the bytes of the file's chain, `chain`: copies from the
    /// position on into the front of `buf`, as many bytes as the file has
    /// left or as `buf` has room for, and moves the position behind them.
    /// Returns the number of bytes read.
    ///
    /// Fails with `Unreadable` where the chain holds fewer bytes than are to
    /// be read, and changes nothing then.
    pub fn read_from(&mut self, chain: &[u8], buf: &mut [u8]) -> (r: Result<usize, Error>)
        ensures
            final(buf)@.len() == old(buf)@.len(),
            final(self)@.name == old(self)@.name,
            final(self)@.first_cluster == old(self)@.first_cluster,
            final(self)@.metadata == old(self)@.metadata,
            final(self)@.size == old(self)@.size,
            old(self)@.position + read_len(old(self)@.size, old(self)@.position, old(buf)@.len()) <= chain@.len()
                ==> {
                &&& r matches Ok(n)
                &&& n == read_len(old(self)@.size, old(self)@.position, old(buf)@.len())
                &&& final(buf)@ == chain@.subrange(old(self)@.position as int, old(self)@.position + n) + old(
                    buf,
                )@.skip(n as int)
                &&& final(self)@.position == old(self)@.position + n
            },
            old(self)@.position + read_len(old(self)@.size, old(self)@.position, old(buf)@.len()) > chain@.len()
                ==> {
                &&& r matches Err(Error::Unreadable)
                &&& final(self)@ == old(self)@
                &&& final(buf)@ == old(buf)@
            },
    {
        proof {
            use_type_invariant(&*self);
        }
        let file_left: usize = (self.size - self.file_ptr) as usize;
        let can_read: usize = if file_left < buf.len() {
            file_left
        } else {
            buf.len()
        };
        let start: usize = self.file_ptr as usize;
        if chain.len() < start || chain.len() - start < can_read {
            return Err(Error::Unreadable);
        }
        let mut i: usize = 0;
        while i < can_read
            invariant
                i <= can_read,
                can_read <= buf@.len(),
                start + can_read <= chain@.len(),
                chain@.len() <= usize::MAX,
                buf@.len() == old(buf)@.len(),
                buf@ == chain@.subrange(start as int, start + i) + old(buf)@.skip(i as int),
            decreases can_read - i,
        {
            buf[i] = chain[start + i];
            assert(buf@ =~= chain@.subrange(start as int, start + i + 1) + old(buf)@.skip(i as int + 1));
            i += 1;
        }
        self.file_ptr = self.file_ptr + can_read as u32;
        Ok(can_read)
    }

    /// Writing is not supported: fails with `ReadOnly` and changes nothing.
    pub fn write(&mut self, _buf: &[u8]) -> (r: Result<usize, Error>)
        ensures
            r matches Err(Error::ReadOnly),
            final(self)@ == old(self)@,
    {
        Err(Error::ReadOnly)
    }

    /// Writing is not supported: fails with `ReadOnly` and changes nothing.
    pub fn flush(&mut self) -> (r: Result<(), Error>)
        ensures
            r matches Err(Error::ReadOnly),
            final(self)@ == old(self)@,
    {
        Err(Error::ReadOnly)
    }

    /// Writing is not supported: fails with `ReadOnly` and changes nothing.
    pub fn sync(&mut self) -> (r: Result<(), Error>)
        ensures
            r matches Err(Error::ReadOnly),
            final(self)@ == old(self)@,
    {
        Err(Error::ReadOnly)
    }
}

} // verus!
