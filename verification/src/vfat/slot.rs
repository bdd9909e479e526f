//! The 32-byte slots of a directory: short entries, slots of long names,
//! and the markers for a deleted slot and for the end of the directory.

use vstd::prelude::*;
use vstd::utf8::{decode_utf8, encode_utf8, valid_utf8};
use crate::bytes::{le_u16, le_u32, read_u16, read_u32};
use crate::vfat::cluster::Cluster;
use crate::vfat::dir::{Dir, DirView};
use crate::vfat::entry::{Entry, EntryView};
use crate::vfat::file::{File, FileView};
use crate::vfat::metadata::{Attributes, Date, Metadata, Time, Timestamp};

verus! {

/// The number of bytes of `bytes` that are left when the spaces at its end
/// are taken away.
pub open spec fn trimmed_len(bytes: Seq<u8>) -> int
    decreases bytes.len(),
{
    if bytes.len() == 0 || bytes.last() != 0x20 {
        bytes.len() as int
    } else {
        trimmed_len(bytes.drop_last())
    }
}

/// `bytes` without the spaces at its end.
pub open spec fn trim_spaces(bytes: Seq<u8>) -> Seq<u8> {
    bytes.take(trimmed_len(bytes))
}

/// The trimmed length is a length of a prefix, and the prefix of that length
/// does not end in a space.
pub proof fn lemma_trimmed_len(bytes: Seq<u8>)
    ensures
        0 <= trimmed_len(bytes) <= bytes.len(),
        trimmed_len(bytes) > 0 ==> bytes[trimmed_len(bytes) - 1] != 0x20,
        forall|i: int| trimmed_len(bytes) <= i < bytes.len() ==> bytes[i] == 0x20,
    decreases bytes.len(),
{
    if bytes.len() == 0 || bytes.last() != 0x20 {
    } else {
        let front = bytes.drop_last();
        lemma_trimmed_len(front);
        assert forall|i: int| trimmed_len(bytes) <= i < bytes.len() implies bytes[i] == 0x20 by {
            if i < front.len() {
                assert(front[i] == bytes[i]);
            }
        }
    }
}

/// What a slot of a short (8.3) entry holds, as contracts see it.
pub struct RegularView {
    pub name: Seq<u8>,
    pub ext: Seq<u8>,
    pub attr: u8,
    pub win_nt_reserved: u8,
    pub ctime_tenth_sec: u8,
    pub ctime: u16,
    pub cdate: u16,
    pub adate: u16,
    pub cluster_num_hi: u16,
    pub mtime: u16,
    pub mdate: u16,
    pub cluster_num_lo: u16,
    pub file_sz: u32,
}

impl RegularView {
    /// The record that the 32 bytes of `slot` spell.
    pub open spec fn of(slot: Seq<u8>) -> RegularView {
        RegularView {
            name: slot.subrange(0, 8),
            ext: slot.subrange(8, 11),
            attr: slot[11],
            win_nt_reserved: slot[12],
            ctime_tenth_sec: slot[13],
            ctime: le_u16(slot, 14),
            cdate: le_u16(slot, 16),
            adate: le_u16(slot, 18),
            cluster_num_hi: le_u16(slot, 20),
            mtime: le_u16(slot, 22),
            mdate: le_u16(slot, 24),
            cluster_num_lo: le_u16(slot, 26),
            file_sz: le_u32(slot, 28),
        }
    }

    /// The metadata of the entry. No time of day is kept for the last
    /// access, only a date.
    pub open spec fn metadata(self) -> Metadata {
        Metadata {
            attr: Attributes(self.attr),
            ctime: Timestamp { time: Time(self.ctime), date: Date(self.cdate) },
            atime: Timestamp { time: Time(0), date: Date(self.adate) },
            mtime: Timestamp { time: Time(self.mtime), date: Date(self.mdate) },
            size: self.file_sz,
        }
    }

    /// The number of the first cluster: the high half and the low half put
    /// together.
    pub open spec fn first_cluster(self) -> u32 {
        (self.cluster_num_hi as int * 65536 + self.cluster_num_lo as int) as u32
    }

    /// Whether the entry is a directory.
    pub open spec fn is_dir(self) -> bool {
        Attributes::has(self.attr, 0x10)
    }

    /// The bytes of the short name: the name without the spaces at its end,
    /// then, where the extension is more than spaces, a dot and the
    /// extension without the spaces at its end.
    pub open spec fn short_name(self) -> Seq<u8> {
        let base = trim_spaces(self.name);
        let ext = trim_spaces(self.ext);
        if ext.len() > 0 {
            base + seq![0x2Eu8] + ext
        } else {
            base
        }
    }

    /// The entry of the given name that the record stands for: a directory
    /// where the directory bit is set, else a file to be read from its start.
    /// A directory has no size.
    pub open spec fn entry(self, name: Seq<char>) -> EntryView {
        if self.is_dir() {
            EntryView::Dir(
                DirView {
                    name: name,
                    first_cluster: self.first_cluster(),
                    metadata: Metadata {
                        attr: self.metadata().attr,
                        ctime: self.metadata().ctime,
                        atime: self.metadata().atime,
                        mtime: self.metadata().mtime,
                        size: 0,
                    },
                },
            )
        } else {
            EntryView::File(
                FileView {
                    name: name,
                    first_cluster: self.first_cluster(),
                    metadata: self.metadata(),
                    size: self.file_sz,
                    position: 0,
                },
            )
        }
    }
}

/// The short name of an entry never ends in a space, and trimming it again
/// changes nothing. Where the short name is UTF-8, the same holds of the
/// bytes of the text that it is decoded to: they are the short name.
pub proof fn lemma_short_name_trimmed(entry: RegularView)
    ensures
        entry.short_name().len() > 0 ==> entry.short_name().last() != 0x20,
        trim_spaces(entry.short_name()) == entry.short_name(),
        valid_utf8(entry.short_name()) ==> encode_utf8(decode_utf8(entry.short_name())) == entry.short_name(),
{
    if valid_utf8(entry.short_name()) {
        vstd::utf8::decode_utf8_encode_utf8(entry.short_name());
    }
    lemma_trimmed_len(entry.name);
    lemma_trimmed_len(entry.ext);
    let name = entry.short_name();
    lemma_trimmed_len(name);
    if name.len() > 0 {
        let base = trim_spaces(entry.name);
        let ext = trim_spaces(entry.ext);
        if ext.len() > 0 {
            assert(name.last() == ext.last());
        } else {
            assert(name.last() == base.last());
        }
        assert(trimmed_len(name) == name.len());
    }
    assert(trim_spaces(name) =~= name);
}

/// A slot of a short (8.3) entry.
#[derive(Copy, Clone, Debug)]
pub struct VFatRegularDirEntry {
    pub name: [u8; 8],
    pub ext: [u8; 3],
    pub attr: Attributes,
    pub win_nt_reserved: u8,
    pub ctime_tenth_sec: u8,
    pub ctime: Time,
    pub cdate: Date,
    pub adate: Date,
    pub cluster_num_hi: u16,
    pub mtime: Time,
    pub mdate: Date,
    pub cluster_num_lo: u16,
    pub file_sz: u32,
}

impl View for VFatRegularDirEntry {
    type V = RegularView;

    open spec fn view(&self) -> RegularView {
        RegularView {
            name: self.name@,
            ext: self.ext@,
            attr: self.attr.0,
            win_nt_reserved: self.win_nt_reserved,
            ctime_tenth_sec: self.ctime_tenth_sec,
            ctime: self.ctime.0,
            cdate: self.cdate.0,
            adate: self.adate.0,
            cluster_num_hi: self.cluster_num_hi,
            mtime: self.mtime.0,
            mdate: self.mdate.0,
            cluster_num_lo: self.cluster_num_lo,
            file_sz: self.file_sz,
        }
    }
}

/// Takes the spaces at the end of `bytes` away and appends what is left to
/// `out`.
fn push_trimmed(out: &mut Vec<u8>, bytes: &[u8])
    ensures
        final(out)@ == old(out)@ + trim_spaces(bytes@),
{
    let mut end: usize = bytes.len();
    assert(bytes@.take(end as int) =~= bytes@);
    while end > 0 && bytes[end - 1] == 0x20
        invariant
            end <= bytes@.len(),
            trimmed_len(bytes@) == trimmed_len(bytes@.take(end as int)),
        decreases end,
    {
        assert(bytes@.take(end as int).drop_last() =~= bytes@.take(end as int - 1));
        end -= 1;
    }
    assert(trimmed_len(bytes@) == end);
    let mut i: usize = 0;
    while i < end
        invariant
            i <= end <= bytes@.len(),
            out@ == old(out)@ + bytes@.take(i as int),
        decreases end - i,
    {
        out.push(bytes[i]);
        assert(bytes@.take(i as int + 1) =~= bytes@.take(i as int).push(bytes@[i as int]));
        i += 1;
    }
}

impl VFatRegularDirEntry {
    /// Reads the record that the 32 bytes of `slot` spell.
    pub fn from_bytes(slot: &[u8]) -> (r: VFatRegularDirEntry)
        requires
            slot@.len() == 32,
        ensures
            r@ == RegularView::of(slot@),
    {
        let name: [u8; 8] = [slot[0], slot[1], slot[2], slot[3], slot[4], slot[5], slot[6], slot[7]];
        let ext: [u8; 3] = [slot[8], slot[9], slot[10]];
        assert(name@ =~= slot@.subrange(0, 8));
        assert(ext@ =~= slot@.subrange(8, 11));
        VFatRegularDirEntry {
            name: name,
            ext: ext,
            attr: Attributes(slot[11]),
            win_nt_reserved: slot[12],
            ctime_tenth_sec: slot[13],
            ctime: Time(read_u16(slot, 14)),
            cdate: Date(read_u16(slot, 16)),
            adate: Date(read_u16(slot, 18)),
            cluster_num_hi: read_u16(slot, 20),
            mtime: Time(read_u16(slot, 22)),
            mdate: Date(read_u16(slot, 24)),
            cluster_num_lo: read_u16(slot, 26),
            file_sz: read_u32(slot, 28),
        }
    }

    /// The metadata of the entry.
    pub fn metadata(&self) -> (r: Metadata)
        ensures
            r == self@.metadata(),
    {
        Metadata {
            attr: self.attr,
            ctime: Timestamp { time: self.ctime, date: self.cdate },
            atime: Timestamp { time: Time(0), date: self.adate },
            mtime: Timestamp { time: self.mtime, date: self.mdate },
            size: self.file_sz,
        }
    }

    /// The first cluster of the entry.
    pub fn first_cluster(&self) -> (r: Cluster)
        ensures
            r.0 == self@.first_cluster(),
    {
        let high: u32 = self.cluster_num_hi as u32;
        let low: u32 = self.cluster_num_lo as u32;
        Cluster::from(high * 65536 + low)
    }

    /// The bytes of the short name.
    pub fn short_name(&self) -> (r: Vec<u8>)
        ensures
            r@ == self@.short_name(),
    {
        let mut out: Vec<u8> = Vec::new();
        push_trimmed(&mut out, self.name.as_slice());
        let mut ext: Vec<u8> = Vec::new();
        push_trimmed(&mut ext, self.ext.as_slice());
        if ext.len() > 0 {
            out.push(0x2E);
            out.append(&mut ext);
        }
        out
    }

    /// The entry of the given name that the record stands for.
    pub fn entry(&self, name: String) -> (r: Entry)
        ensures
            r@ == self@.entry(name@),
    {
        if self.attr.directory() {
            let all: Metadata = self.metadata();
            Entry::Dir(
                Dir {
                    name: name,
                    first_cluster: self.first_cluster(),
                    metadata: Metadata {
                        attr: all.attr,
                        ctime: all.ctime,
                        atime: all.atime,
                        mtime: all.mtime,
                        size: 0,
                    },
                },
            )
        } else {
            Entry::File(File::new(name, self.first_cluster(), self.metadata(), self.file_sz))
        }
    }
}

/// What a slot of a long file name holds, as contracts see it.
pub struct LfnView {
    pub seq: u8,
    pub chars1: Seq<u16>,
    pub attr: u8,
    pub lfn_type: u8,
    pub checksum: u8,
    pub chars2: Seq<u16>,
    pub zero: u16,
    pub chars3: Seq<u16>,
}

/// A buffer for a long name with nothing in it: 403 code units, all zero.
pub open spec fn empty_lfn() -> Seq<u16> {
    Seq::new(403, |p: int| 0u16)
}

impl LfnView {
    /// The record that the 32 bytes of `slot` spell.
    pub open spec fn of(slot: Seq<u8>) -> LfnView {
        LfnView {
            seq: slot[0],
            chars1: Seq::new(5, |k: int| le_u16(slot, 1 + 2 * k)),
            attr: slot[11],
            lfn_type: slot[12],
            checksum: slot[13],
            chars2: Seq::new(6, |k: int| le_u16(slot, 14 + 2 * k)),
            zero: le_u16(slot, 26),
            chars3: Seq::new(2, |k: int| le_u16(slot, 28 + 2 * k)),
        }
    }

    /// The place of the slot in its name, counted from one: the low five
    /// bits of the sequence byte. A slot of place zero has no place.
    pub open spec fn index(self) -> int {
        (self.seq & 0x1F) as int
    }

    /// The 13 code units of the slot, in their order.
    pub open spec fn units(self) -> Seq<u16> {
        self.chars1 + self.chars2 + self.chars3
    }

    /// The buffer after the slot was stored in it: the 13 code units of the
    /// slot stand at the slot's place and replace what stood there, and the
    /// rest is as it was. A slot without a place changes nothing.
    pub open spec fn stored(self, buffer: Seq<u16>) -> Seq<u16> {
        if self.index() == 0 {
            buffer
        } else {
            let at = (self.index() - 1) * 13;
            Seq::new(
                buffer.len(),
                |p: int|
                    if at <= p < at + 13 {
                        self.units()[p - at]
                    } else {
                        buffer[p]
                    },
            )
        }
    }

    /// What is known of a long name after the slot was seen: `None` as long
    /// as no slot with a place was seen, else the buffer.
    pub open spec fn seen(self, before: Option<Seq<u16>>) -> Option<Seq<u16>> {
        if self.index() == 0 {
            before
        } else {
            Some(
                self.stored(
                    match before {
                        Some(buffer) => buffer,
                        None => empty_lfn(),
                    },
                ),
            )
        }
    }
}

/// A slot of a long file name.
#[derive(Copy, Clone, Debug)]
pub struct VFatLfnDirEntry {
    pub seq: u8,
    pub chars1: [u16; 5],
    pub attr: Attributes,
    pub lfn_type: u8,
    pub checksum: u8,
    pub chars2: [u16; 6],
    pub zero: u16,
    pub chars3: [u16; 2],
}

impl View for VFatLfnDirEntry {
    type V = LfnView;

    open spec fn view(&self) -> LfnView {
        LfnView {
            seq: self.seq,
            chars1: self.chars1@,
            attr: self.attr.0,
            lfn_type: self.lfn_type,
            checksum: self.checksum,
            chars2: self.chars2@,
            zero: self.zero,
            chars3: self.chars3@,
        }
    }
}

impl VFatLfnDirEntry {
    /// Reads the record that the 32 bytes of `slot` spell.
    pub fn from_bytes(slot: &[u8]) -> (r: VFatLfnDirEntry)
        requires
            slot@.len() == 32,
        ensures
            r@ == LfnView::of(slot@),
    {
        let chars1: [u16; 5] = [
            read_u16(slot, 1),
            read_u16(slot, 3),
            read_u16(slot, 5),
            read_u16(slot, 7),
            read_u16(slot, 9),
        ];
        let chars2: [u16; 6] = [
            read_u16(slot, 14),
            read_u16(slot, 16),
            read_u16(slot, 18),
            read_u16(slot, 20),
            read_u16(slot, 22),
            read_u16(slot, 24),
        ];
        let chars3: [u16; 2] = [read_u16(slot, 28), read_u16(slot, 30)];
        assert(chars1@ =~= LfnView::of(slot@).chars1);
        assert(chars2@ =~= LfnView::of(slot@).chars2);
        assert(chars3@ =~= LfnView::of(slot@).chars3);
        VFatLfnDirEntry {
            seq: slot[0],
            chars1: chars1,
            attr: Attributes(slot[11]),
            lfn_type: slot[12],
            checksum: slot[13],
            chars2: chars2,
            zero: read_u16(slot, 26),
            chars3: chars3,
        }
    }

    /// The place of the slot in its name, counted from one.
    pub fn index(&self) -> (r: usize)
        ensures
            r == self@.index(),
            r <= 31,
    {
        let seq: u8 = self.seq;
        assert(seq & 0x1F <= 31) by (bit_vector);
        (seq & 0x1F) as usize
    }

    /// Stores the code units of the slot at the slot's place in `buffer`.
    pub fn store(&self, buffer: &mut Vec<u16>)
        requires
            old(buffer)@.len() == 403,
        ensures
            final(buffer)@ == self@.stored(old(buffer)@),
    {
        let index: usize = self.index();
        if index == 0 {
            return ;
        }
        let at: usize = (index - 1) * 13;
        let ghost units = self@.units();
        let mut k: usize = 0;
        while k < 13
            invariant
                k <= 13,
                at + 13 <= 403,
                buffer@.len() == 403,
                units == self@.units(),
                units.len() == 13,
                self.chars1@.len() == 5,
                self.chars2@.len() == 6,
                self.chars3@.len() == 2,
                forall|p: int| 0 <= p < 403 ==> buffer@[p] == if at <= p < at + k {
                    units[p - at]
                } else {
                    old(buffer)@[p]
                },
            decreases 13 - k,
        {
            let unit: u16 = if k < 5 {
                self.chars1[k]
            } else if k < 11 {
                self.chars2[k - 5]
            } else {
                self.chars3[k - 11]
            };
            buffer[at + k] = unit;
            k += 1;
        }
        assert(buffer@ =~= self@.stored(old(buffer)@));
    }
}

/// What a slot holds when only its first byte and its attributes are looked
/// at, as contracts see it.
pub struct UnknownView {
    pub seq: u8,
    pub reserved1: Seq<u8>,
    pub attr: u8,
    pub reserved2: Seq<u8>,
}

impl UnknownView {
    /// The record that the 32 bytes of `slot` spell.
    pub open spec fn of(slot: Seq<u8>) -> UnknownView {
        UnknownView {
            seq: slot[0],
            reserved1: slot.subrange(1, 11),
            attr: slot[11],
            reserved2: slot.subrange(12, 32),
        }
    }
}

/// A slot of which only the first byte and the attributes are looked at.
#[derive(Copy, Clone, Debug)]
pub struct VFatUnknownDirEntry {
    pub seq: u8,
    pub reserved1: [u8; 10],
    pub attr: Attributes,
    pub reserved2: [u8; 20],
}

impl View for VFatUnknownDirEntry {
    type V = UnknownView;

    open spec fn view(&self) -> UnknownView {
        UnknownView {
            seq: self.seq,
            reserved1: self.reserved1@,
            attr: self.attr.0,
            reserved2: self.reserved2@,
        }
    }
}

impl VFatUnknownDirEntry {
    /// Reads the record that the 32 bytes of `slot` spell.
    pub fn from_bytes(slot: &[u8]) -> (r: VFatUnknownDirEntry)
        requires
            slot@.len() == 32,
        ensures
            r@ == UnknownView::of(slot@),
    {
        let reserved1: [u8; 10] = [
            slot[1],
            slot[2],
            slot[3],
            slot[4],
            slot[5],
            slot[6],
            slot[7],
            slot[8],
            slot[9],
            slot[10],
        ];
        let reserved2: [u8; 20] = [
            slot[12],
            slot[13],
            slot[14],
            slot[15],
            slot[16],
            slot[17],
            slot[18],
            slot[19],
            slot[20],
            slot[21],
            slot[22],
            slot[23],
            slot[24],
            slot[25],
            slot[26],
            slot[27],
            slot[28],
            slot[29],
            slot[30],
            slot[31],
        ];
        assert(reserved1@ =~= slot@.subrange(1, 11));
        assert(reserved2@ =~= slot@.subrange(12, 32));
        VFatUnknownDirEntry {
            seq: slot[0],
            reserved1: reserved1,
            attr: Attributes(slot[11]),
            reserved2: reserved2,
        }
    }
}

/// What kind of slot the 32 bytes of `slot` are.
pub enum SlotKind {
    /// The first byte is 0x00: the directory ends here.
    End,
    /// The first byte is 0xE5: the slot was deleted.
    Deleted,
    /// The attributes are 0x0F: a slot of a long file name.
    LongFilename,
    /// Anything else: a short entry.
    Regular,
}

/// The kind of a slot, from its first byte and its attributes.
pub open spec fn slot_kind(slot: Seq<u8>) -> SlotKind {
    if slot[0] == 0x00 {
        SlotKind::End
    } else if slot[0] == 0xE5 {
        SlotKind::Deleted
    } else if slot[11] == 0x0F {
        SlotKind::LongFilename
    } else {
        SlotKind::Regular
    }
}

/// A slot of a directory, read as what its first byte and its attributes say
/// that it is.
#[derive(Copy, Clone, Debug)]
pub enum VFatDirEntry {
    /// The end of the directory or a deleted slot.
    Unknown(VFatUnknownDirEntry),
    /// A short entry.
    Regular(VFatRegularDirEntry),
    /// A slot of a long file name.
    LongFilename(VFatLfnDirEntry),
}

impl VFatDirEntry {
    /// Reads a slot: looks at the first byte and the attributes, and reads
    /// the record of that kind.
    pub fn from_bytes(slot: &[u8]) -> (r: VFatDirEntry)
        requires
            slot@.len() == 32,
        ensures
            match r {
                VFatDirEntry::Unknown(e) => {
                    &&& slot_kind(slot@) is End || slot_kind(slot@) is Deleted
                    &&& e@ == UnknownView::of(slot@)
                },
                VFatDirEntry::LongFilename(e) => {
                    &&& slot_kind(slot@) is LongFilename
                    &&& e@ == LfnView::of(slot@)
                },
                VFatDirEntry::Regular(e) => {
                    &&& slot_kind(slot@) is Regular
                    &&& e@ == RegularView::of(slot@)
                },
            },
    {
        let unknown = VFatUnknownDirEntry::from_bytes(slot);
        if unknown.seq == 0x00 || unknown.seq == 0xE5 {
            VFatDirEntry::Unknown(unknown)
        } else if unknown.attr.lfn() {
            VFatDirEntry::LongFilename(VFatLfnDirEntry::from_bytes(slot))
        } else {
            VFatDirEntry::Regular(VFatRegularDirEntry::from_bytes(slot))
        }
    }
}

} // verus!
