//! The block device that a volume is read from.

use vstd::prelude::*;

verus! {

/// An error of the underlying device, as `std::io` reports it. The driver
/// never looks inside: it hands the error on to its caller.
#[verifier::external_type_specification]
#[verifier::external_body]
pub struct ExIoError(std::io::Error);

/// A device that is read and written in whole sectors.
///
/// A device is described by the size of its sectors and by the bytes that
/// each sector holds. An implementation promises that reading changes
/// neither, that a sector that was read has exactly `sector_size()` bytes,
/// and that what a read hands out are the bytes of that sector. The driver
/// keeps sectors in memory once they were read, and relies on this.
///
/// An implementation written in verified code says what the device holds by
/// giving `sector_size_spec` and `sectors` a body of its own, as
/// `MemoryDevice` does, and is held to these promises. Of any other
/// implementation they are believed.
pub trait BlockDevice {
    /// The size of a sector in bytes.
    open spec fn sector_size_spec(&self) -> u64 {
        arbitrary()
    }

    /// The bytes of each sector, by sector number.
    open spec fn sectors(&self) -> Map<u64, Seq<u8>> {
        arbitrary()
    }

    /// The size of a sector in bytes.
    fn sector_size(&self) -> (r: u64)
        ensures
            r == self.sector_size_spec(),
    ;

    /// Reads sector `n` into the front of `buf`, which has room for a whole
    /// sector. Returns the number of bytes read: the size of a sector.
    fn read_sector(&mut self, n: u64, buf: &mut [u8]) -> (r: Result<usize, std::io::Error>)
        requires
            old(buf)@.len() >= old(self).sector_size_spec(),
        ensures
            final(self).sector_size_spec() == old(self).sector_size_spec(),
            final(self).sectors() == old(self).sectors(),
            final(buf)@.len() == old(buf)@.len(),
            r matches Ok(k) ==> {
                &&& k == old(self).sector_size_spec()
                &&& old(self).sectors()[n].len() == k
                &&& final(buf)@ == old(self).sectors()[n] + old(buf)@.skip(k as int)
            },
    ;

    /// Appends sector `n` to `vec`. Returns the number of bytes appended: the
    /// size of a sector. When the read fails, `vec` is left as it was.
    fn read_all_sector(&mut self, n: u64, vec: &mut Vec<u8>) -> (r: Result<usize, std::io::Error>)
        requires
            old(self).sector_size_spec() <= usize::MAX,
        ensures
            final(self).sector_size_spec() == old(self).sector_size_spec(),
            final(self).sectors() == old(self).sectors(),
            match r {
                Ok(k) => {
                    &&& k == old(self).sector_size_spec()
                    &&& old(self).sectors()[n].len() == k
                    &&& final(vec)@ == old(vec)@ + old(self).sectors()[n]
                },
                Err(_) => final(vec)@ == old(vec)@,
            },
    {
        let size: usize = self.sector_size() as usize;
        let mut sector: Vec<u8> = vec![0u8; size];
        let read = self.read_sector(n, sector.as_mut_slice());
        assert(read is Ok ==> sector@ =~= old(self).sectors()[n]);
        append_sector(read, sector, vec)
    }

    /// Overwrites sector `n` with the front of `buf`, which holds a whole
    /// sector at least. Returns the number of bytes written: the size of a
    /// sector.
    fn write_sector(&mut self, n: u64, buf: &[u8]) -> (r: Result<usize, std::io::Error>)
        requires
            buf@.len() >= old(self).sector_size_spec(),
        ensures
            final(self).sector_size_spec() == old(self).sector_size_spec(),
            r matches Ok(k) ==> {
                &&& k == old(self).sector_size_spec()
                &&& final(self).sectors() == old(self).sectors().insert(n, buf@.take(k as int))
            },
    ;
}

/// Finishes the appending of a sector after the device was asked for it.
/// `read` is what the device answered, and `sector` is the buffer that it
/// read into. Where the device read the sector, the buffer is appended to
/// `vec` and the answer is handed on. Where the device failed, its error is
/// handed on and `vec` is left as it was.
pub fn append_sector(read: Result<usize, std::io::Error>, sector: Vec<u8>, vec: &mut Vec<u8>) -> (r: Result<
    usize,
    std::io::Error,
>)
    ensures
        r == read,
        match read {
            Ok(_) => final(vec)@ == old(vec)@ + sector@,
            Err(_) => final(vec)@ == old(vec)@,
        },
{
    match read {
        Ok(k) => {
            let mut sector = sector;
            vec.append(&mut sector);
            Ok(k)
        },
        Err(e) => Err(e),
    }
}

/// Makes the error with which a device in memory refuses a sector that it
/// does not have, with `std::io::Error::new`. Nothing is claimed of the
/// error.
#[verifier::external_body]
fn no_such_sector() -> std::io::Error {
    std::io::Error::new(std::io::ErrorKind::UnexpectedEof, "no such sector")
}

/// The bytes of the sector `n` of a device that holds `bytes` in sectors of
/// `size` bytes. A sector that the device does not hold as a whole has no
/// bytes.
pub open spec fn sector_of(bytes: Seq<u8>, size: int, n: int) -> Seq<u8> {
    if (n + 1) * size <= bytes.len() {
        bytes.subrange(n * size, (n + 1) * size)
    } else {
        Seq::empty()
    }
}

/// A block device that is held in memory.
#[derive(Debug)]
pub struct MemoryDevice {
    data: Vec<u8>,
    sector_size: usize,
}

impl MemoryDevice {
    #[verifier::type_invariant]
    spec fn sectors_have_bytes(&self) -> bool {
        self.sector_size > 0
    }

    /// The bytes that the device holds, sector after sector.
    pub closed spec fn bytes(&self) -> Seq<u8> {
        self.data@
    }

    /// The size of a sector in bytes.
    pub closed spec fn size(&self) -> usize {
        self.sector_size
    }

    /// A device that holds `data` in sectors of `sector_size` bytes.
    pub fn new(data: Vec<u8>, sector_size: usize) -> (r: MemoryDevice)
        requires
            sector_size > 0,
        ensures
            r.bytes() == data@,
            r.size() == sector_size,
    {
        MemoryDevice { data: data, sector_size: sector_size }
    }

    /// The bytes that the device holds.
    pub fn into_inner(self) -> (r: Vec<u8>)
        ensures
            r@ == self.bytes(),
    {
        self.data
    }

    /// Where the sector `n` begins in the bytes of the device, or nothing
    /// where the device does not hold the sector as a whole.
    fn start_of(&self, n: u64) -> (r: Option<usize>)
        ensures
            match r {
                Some(start) => {
                    &&& start == n * self.sector_size
                    &&& (n + 1) * self.sector_size <= self.data@.len()
                    &&& start + self.sector_size <= self.data@.len()
                },
                None => (n + 1) * self.sector_size > self.data@.len(),
            },
            self.data@.len() <= usize::MAX,
    {
        let size: u128 = self.sector_size as u128;
        assert(0 <= (n as u128) * size <= 0xFFFF_FFFF_FFFF_FFFF * 0xFFFF_FFFF_FFFF_FFFF) by (nonlinear_arith)
            requires
                0 <= n <= 0xFFFF_FFFF_FFFF_FFFF,
                0 <= size <= 0xFFFF_FFFF_FFFF_FFFF,
        ;
        assert((n + 1) * self.sector_size == n * self.sector_size + self.sector_size) by (nonlinear_arith);
        let start: u128 = (n as u128) * size;
        if start + size > self.data.len() as u128 {
            None
        } else {
            Some(start as usize)
        }
    }
}

impl BlockDevice for MemoryDevice {
    open spec fn sector_size_spec(&self) -> u64 {
        self.size() as u64
    }

    open spec fn sectors(&self) -> Map<u64, Seq<u8>> {
        Map::new(|n: u64| true, |n: u64| sector_of(self.bytes(), self.size() as int, n as int))
    }

    fn sector_size(&self) -> (r: u64) {
        self.sector_size as u64
    }

    /// Reads the sector `n`. Fails for a sector that the device does not
    /// hold as a whole, and for no other.
    fn read_sector(&mut self, n: u64, buf: &mut [u8]) -> (r: Result<usize, std::io::Error>)
        ensures
            r is Ok <==> (n + 1) * old(self).size() <= old(self).bytes().len(),
            final(self).bytes() == old(self).bytes(),
    {
        proof {
            use_type_invariant(&*self);
        }
        let size: usize = self.sector_size;
        let start: usize = match self.start_of(n) {
            Some(start) => start,
            None => {
                return Err(no_such_sector());
            },
        };
        assert((n + 1) * size == n * size + size) by (nonlinear_arith);
        let mut i: usize = 0;
        while i < size
            invariant
                i <= size,
                size <= buf@.len(),
                start + size <= self.data@.len(),
                self.data@.len() <= usize::MAX,
                buf@.len() == old(buf)@.len(),
                *self == *old(self),
                size == self.sector_size,
                start == n * size,
                (n + 1) * size <= self.data@.len(),
                start + size == (n + 1) * size,
                buf@ == self.data@.subrange(start as int, start + i) + old(buf)@.skip(i as int),
            decreases size - i,
        {
            buf[i] = self.data[start + i];
            assert(buf@ =~= self.data@.subrange(start as int, start + i + 1) + old(buf)@.skip(i as int + 1));
            i += 1;
        }
        Ok(size)
    }

    /// Overwrites the sector `n`. Fails for a sector that the device does
    /// not hold as a whole, and for no other, and changes nothing then.
    fn write_sector(&mut self, n: u64, buf: &[u8]) -> (r: Result<usize, std::io::Error>)
        ensures
            r is Ok <==> (n + 1) * old(self).size() <= old(self).bytes().len(),
            r is Err ==> final(self).bytes() == old(self).bytes(),
            final(self).bytes().len() == old(self).bytes().len(),
    {
        proof {
            use_type_invariant(&*self);
        }
        let size: usize = self.sector_size;
        let start: usize = match self.start_of(n) {
            Some(start) => start,
            None => {
                return Err(no_such_sector());
            },
        };
        let mut i: usize = 0;
        while i < size
            invariant
                i <= size,
                size <= buf@.len(),
                size == self.sector_size,
                size > 0,
                start == n * size,
                (n + 1) * size <= self.data@.len(),
                start + size <= self.data@.len(),
                self.data@.len() == old(self).data@.len(),
                self.data@.len() <= usize::MAX,
                self.sector_size == old(self).sector_size,
                forall|j: int| 0 <= j < self.data@.len() ==> self.data@[j] == if start <= j < start + i {
                    buf@[j - start]
                } else {
                    old(self).data@[j]
                },
            decreases size - i,
        {
            self.data[start + i] = buf[i];
            i += 1;
        }
        proof {
            let before = old(self).data@;
            let after = self.data@;
            assert forall|m: u64| true implies #[trigger] self.sectors()[m] == old(self).sectors().insert(
                n,
                buf@.take(size as int),
            )[m] by {
                assert((m + 1) * size == m * size + size) by (nonlinear_arith);
                assert((n + 1) * size == n * size + size) by (nonlinear_arith);
                if m == n {
                    assert(after.subrange(start as int, start + size) =~= buf@.take(size as int));
                } else if (m + 1) * size <= after.len() {
                    if m < n {
                        assert((m + 1) * size <= n * size) by (nonlinear_arith)
                            requires
                                m + 1 <= n,
                                size > 0,
                        ;
                    } else {
                        assert(m * size >= (n + 1) * size) by (nonlinear_arith)
                            requires
                                m >= n + 1,
                                size > 0,
                        ;
                    }
                    assert(after.subrange(m * size, (m + 1) * size) =~= before.subrange(m * size, (m + 1) * size));
                }
            }
            assert(self.sectors() =~= old(self).sectors().insert(n, buf@.take(size as int)));
        }
        Ok(size)
    }
}

} // verus!
