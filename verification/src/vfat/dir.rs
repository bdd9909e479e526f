//! Directories: their entries, given out one by one, and lookup by name.

use vstd::prelude::*;
use vstd::slice::slice_subrange;
use vstd::string::StringExecFns;
use vstd::utf8::{decode_utf8, encode_utf8, valid_utf8};
use crate::device::BlockDevice;
use crate::vfat::cluster::Cluster;
use crate::vfat::entry::{Entry, EntryView};
use crate::vfat::error::Error;
use crate::vfat::metadata::{Attributes, Date, Metadata, Time, Timestamp};
use crate::vfat::names::{
    decode_utf16, decode_utf8_text, eq_ignore_ascii_case, lemma_same_name_any_case, lemma_utf8_any_case,
    lower_case, same_name, upper_case, utf16_decoded,
};
use crate::vfat::slot::{
    empty_lfn, slot_kind, LfnView, RegularView, SlotKind, VFatDirEntry, VFatRegularDirEntry,
};
use crate::vfat::vfat::{no_metadata, VFat, Volume};

verus! {

/// A directory of a volume.
#[derive(Debug)]
pub struct Dir {
    pub name: String,
    pub first_cluster: Cluster,
    pub metadata: Metadata,
}

/// What a directory is, as contracts see it.
pub struct DirView {
    pub name: Seq<char>,
    pub first_cluster: u32,
    pub metadata: Metadata,
}

impl View for Dir {
    type V = DirView;

    open spec fn view(&self) -> DirView {
        DirView { name: self.name@, first_cluster: self.first_cluster.0, metadata: self.metadata }
    }
}

impl Dir {
    pub fn name(&self) -> (r: &String)
        ensures
            r@ == self@.name,
    {
        &self.name
    }

    pub fn metadata(&self) -> (r: &Metadata)
        ensures
            *r == self@.metadata,
    {
        &self.metadata
    }
}

/// Where a long name ends in its buffer: at the first code unit from `from`
/// on that is 0x0000 or 0xFFFF, or at the end of the buffer.
pub open spec fn name_end(units: Seq<u16>, from: int) -> int
    decreases units.len() - from,
{
    if from < 0 || from >= units.len() || units[from] == 0x0000 || units[from] == 0xFFFF {
        from
    } else {
        name_end(units, from + 1)
    }
}

/// The code units of a long name: the buffer up to where the name ends.
pub open spec fn long_name_units(units: Seq<u16>) -> Seq<u16> {
    units.take(name_end(units, 0))
}

/// The number of code units of the long name in `units`.
pub fn long_name_len(units: &[u16]) -> (r: usize)
    ensures
        r == name_end(units@, 0),
        r <= units@.len(),
{
    let mut i: usize = 0;
    while i < units.len() && units[i] != 0x0000 && units[i] != 0xFFFF
        invariant
            i <= units@.len(),
            name_end(units@, 0) == name_end(units@, i as int),
        decreases units@.len() - i,
    {
        i += 1;
    }
    i
}

/// The name of a short entry that follows the long-name slots seen so far:
/// the long name where there were any, else the short name. `None` where the
/// name cannot be decoded.
pub open spec fn entry_name(entry: RegularView, lfn: Option<Seq<u16>>) -> Option<Seq<char>> {
    match lfn {
        Some(units) => utf16_decoded(long_name_units(units)),
        None => if valid_utf8(entry.short_name()) {
            Some(decode_utf8(entry.short_name()))
        } else {
            None
        },
    }
}

/// The number of whole slots in `buf`.
pub open spec fn slot_count(buf: Seq<u8>) -> int {
    buf.len() as int / 32
}

/// The slot of number `i` in `buf`.
pub open spec fn slot_at(buf: Seq<u8>, i: int) -> Seq<u8> {
    buf.subrange(32 * i, 32 * i + 32)
}

/// The next entry of a directory and the slot to go on from.
///
/// `buf` holds the slots of the directory, `pos` is the slot to begin at, and
/// `lfn` is what the long-name slots before `pos` have given so far. The
/// directory ends at a slot that begins with 0x00, or with its last slot.
/// Deleted slots are passed over. A long-name slot is stored by its place. A
/// short entry is given out under the long name that stands before it, or
/// under its short name. A short entry whose name cannot be decoded is
/// passed over, and with it the long-name slots before it.
pub open spec fn next_entry(buf: Seq<u8>, pos: int, lfn: Option<Seq<u16>>) -> (Option<EntryView>, int)
    decreases slot_count(buf) - pos,
{
    if pos < 0 || pos >= slot_count(buf) {
        (None, pos)
    } else {
        let slot = slot_at(buf, pos);
        match slot_kind(slot) {
            SlotKind::End => (None, pos),
            SlotKind::Deleted => next_entry(buf, pos + 1, lfn),
            SlotKind::LongFilename => next_entry(buf, pos + 1, LfnView::of(slot).seen(lfn)),
            SlotKind::Regular => match entry_name(RegularView::of(slot), lfn) {
                Some(name) => (Some(RegularView::of(slot).entry(name)), pos + 1),
                None => next_entry(buf, pos + 1, None),
            },
        }
    }
}

/// The entries of a directory from slot `pos` on, in their order.
pub open spec fn entries_from(buf: Seq<u8>, pos: int) -> Seq<EntryView>
    decreases slot_count(buf) - pos,
    when 0 <= pos
    via entries_from_decreases
{
    match next_entry(buf, pos, None) {
        (Some(entry), next) => seq![entry] + entries_from(buf, next),
        (None, _) => Seq::empty(),
    }
}

#[via_fn]
proof fn entries_from_decreases(buf: Seq<u8>, pos: int) {
    lemma_next_entry_moves(buf, pos, None);
}

/// Where an entry is given out, the slot to go on from lies behind the slot
/// begun at, and not behind the end of the directory.
pub proof fn lemma_next_entry_moves(buf: Seq<u8>, pos: int, lfn: Option<Seq<u16>>)
    requires
        0 <= pos,
    ensures
        next_entry(buf, pos, lfn).0 is Some ==> pos < next_entry(buf, pos, lfn).1 <= slot_count(buf),
        next_entry(buf, pos, lfn).0 is None ==> pos <= next_entry(buf, pos, lfn).1,
    decreases slot_count(buf) - pos,
{
    if pos < slot_count(buf) {
        let slot = slot_at(buf, pos);
        match slot_kind(slot) {
            SlotKind::End => {},
            SlotKind::Deleted => {
                lemma_next_entry_moves(buf, pos + 1, lfn);
            },
            SlotKind::LongFilename => {
                lemma_next_entry_moves(buf, pos + 1, LfnView::of(slot).seen(lfn));
            },
            SlotKind::Regular => {
                if entry_name(RegularView::of(slot), lfn) is None {
                    lemma_next_entry_moves(buf, pos + 1, None);
                }
            },
        }
    }
}

/// The entries of a directory, given out one by one.
#[derive(Debug)]
pub struct VFatDirEntryIter {
    buf: Vec<u8>,
    pos: usize,
}

impl VFatDirEntryIter {
    /// The bytes of the directory.
    pub closed spec fn slots(&self) -> Seq<u8> {
        self.buf@
    }

    /// The slot that the next entry is looked for from.
    pub closed spec fn cursor(&self) -> int {
        self.pos as int
    }

    /// The entries still to come.
    pub open spec fn remaining(&self) -> Seq<EntryView> {
        entries_from(self.slots(), self.cursor())
    }

    /// The entries of the directory whose bytes are `buf`, from the first.
    pub fn new(buf: Vec<u8>) -> (r: VFatDirEntryIter)
        ensures
            r.slots() == buf@,
            r.cursor() == 0,
    {
        VFatDirEntryIter { buf: buf, pos: 0 }
    }

    /// The name of the short entry `entry` after the long-name slots seen so
    /// far, or nothing where the name cannot be decoded.
    fn name_of(entry: &VFatRegularDirEntry, has_lfn: bool, lfn: &Vec<u16>) -> (r: Option<String>)
        ensures
            match r {
                Some(name) => entry_name(entry@, if has_lfn { Some(lfn@) } else { None }) == Some(name@),
                None => entry_name(entry@, if has_lfn { Some(lfn@) } else { None }) is None,
            },
    {
        if has_lfn {
            let len: usize = long_name_len(lfn.as_slice());
            decode_utf16(slice_subrange(lfn.as_slice(), 0, len))
        } else {
            let bytes: Vec<u8> = entry.short_name();
            match decode_utf8_text(bytes.as_slice()) {
                Some(text) => Some(String::from_str(text)),
                None => None,
            }
        }
    }

    /// Gives out the next entry of the directory, or nothing when the
    /// directory has ended.
    pub fn next(&mut self) -> (r: Option<Entry>)
        ensures
            final(self).slots() == old(self).slots(),
            final(self).cursor() == next_entry(old(self).slots(), old(self).cursor(), None).1,
            match r {
                Some(entry) => next_entry(old(self).slots(), old(self).cursor(), None).0 == Some(entry@),
                None => next_entry(old(self).slots(), old(self).cursor(), None).0 is None,
            },
    {
        let mut lfn: Vec<u16> = vec![0u16; 403];
        let mut has_lfn: bool = false;
        assert(lfn@ =~= empty_lfn());
        let count: usize = self.buf.len() / 32;
        while self.pos < count
            invariant
                self.buf@ == old(self).buf@,
                count == slot_count(self.buf@),
                self.buf@.len() <= usize::MAX,
                lfn@.len() == 403,
                !has_lfn ==> lfn@ == empty_lfn(),
                next_entry(old(self).slots(), old(self).cursor(), None) == next_entry(
                    self.buf@,
                    self.pos as int,
                    if has_lfn {
                        Some(lfn@)
                    } else {
                        None
                    },
                ),
            decreases count - self.pos,
        {
            let start: usize = 32 * self.pos;
            let slot = slice_subrange(self.buf.as_slice(), start, start + 32);
            match VFatDirEntry::from_bytes(slot) {
                VFatDirEntry::Unknown(e) => {
                    if e.seq == 0x00 {
                        return None;
                    }
                    self.pos += 1;
                },
                VFatDirEntry::LongFilename(e) => {
                    if e.index() != 0 {
                        e.store(&mut lfn);
                        has_lfn = true;
                    }
                    self.pos += 1;
                },
                VFatDirEntry::Regular(e) => {
                    self.pos += 1;
                    match Self::name_of(&e, has_lfn, &lfn) {
                        Some(name) => {
                            return Some(e.entry(name));
                        },
                        None => {
                            lfn = vec![0u16; 403];
                            has_lfn = false;
                            assert(lfn@ =~= empty_lfn());
                        },
                    }
                },
            }
        }
        None
    }
}

/// The first of `entries` whose name is `name` but for the case of ASCII
/// letters, if there is one. Names are compared as UTF-8.
pub open spec fn find_in(entries: Seq<EntryView>, name: Seq<u8>) -> Option<EntryView>
    decreases entries.len(),
{
    if entries.len() == 0 {
        None
    } else if same_name(encode_utf8(entries[0].name()), name) {
        Some(entries[0])
    } else {
        find_in(entries.drop_first(), name)
    }
}

/// Looking a name up gives the same whether the name is written in upper
/// case, in lower case or as it is.
pub proof fn lemma_find_in_any_case(entries: Seq<EntryView>, name: Seq<u8>)
    ensures
        find_in(entries, upper_case(name)) == find_in(entries, name),
        find_in(entries, lower_case(name)) == find_in(entries, name),
    decreases entries.len(),
{
    if entries.len() > 0 {
        lemma_same_name_any_case(encode_utf8(entries[0].name()), name);
        lemma_find_in_any_case(entries.drop_first(), name);
    }
}

/// An entry is found under its own name, unless an entry before it has the
/// same name but for the case of ASCII letters.
pub proof fn lemma_find_in_own_name(entries: Seq<EntryView>, i: int)
    requires
        0 <= i < entries.len(),
        forall|j: int|
            0 <= j < i ==> !same_name(
                encode_utf8((#[trigger] entries[j]).name()),
                encode_utf8(entries[i].name()),
            ),
    ensures
        find_in(entries, encode_utf8(entries[i].name())) == Some(entries[i]),
    decreases i,
{
    if i > 0 {
        assert(!same_name(encode_utf8(entries[0].name()), encode_utf8(entries[i].name())));
        let rest = entries.drop_first();
        assert forall|j: int| 0 <= j < i - 1 implies !same_name(
            encode_utf8((#[trigger] rest[j]).name()),
            encode_utf8(rest[i - 1].name()),
        ) by {
            assert(rest[j] == entries[j + 1]);
        }
        lemma_find_in_own_name(rest, i - 1);
    }
}

/// Lookup is case-insensitive for ASCII letters: an entry of a directory is
/// found under its name in upper case and under its name in lower case.
///
/// This holds of the first entry of each name: where two entries have the
/// same name but for the case of ASCII letters, the lookup gives the first.
pub proof fn lemma_find_case_insensitive(volume: Volume, cluster: u32, i: int)
    requires
        volume.entries(cluster) is Ok,
        0 <= i < volume.entries(cluster)->Ok_0.len(),
        forall|j: int|
            0 <= j < i ==> !same_name(
                encode_utf8((#[trigger] volume.entries(cluster)->Ok_0[j]).name()),
                encode_utf8(volume.entries(cluster)->Ok_0[i].name()),
            ),
    ensures
        volume.find(cluster, upper_case(encode_utf8(volume.entries(cluster)->Ok_0[i].name()))) == Ok::<
            EntryView,
            Error,
        >(volume.entries(cluster)->Ok_0[i]),
        volume.find(cluster, lower_case(encode_utf8(volume.entries(cluster)->Ok_0[i].name()))) == Ok::<
            EntryView,
            Error,
        >(volume.entries(cluster)->Ok_0[i]),
        volume.find(cluster, encode_utf8(volume.entries(cluster)->Ok_0[i].name())) == Ok::<EntryView, Error>(
            volume.entries(cluster)->Ok_0[i],
        ),
{
    let entries = volume.entries(cluster)->Ok_0;
    let name = encode_utf8(entries[i].name());
    vstd::utf8::encode_utf8_valid_utf8(entries[i].name());
    lemma_utf8_any_case(name);
    lemma_find_in_own_name(entries, i);
    lemma_find_in_any_case(entries, name);
}

impl Volume {
    /// The entries of the directory that begins at the cluster `cluster`, or
    /// why the directory cannot be read.
    pub open spec fn entries(self, cluster: u32) -> Result<Seq<EntryView>, Error> {
        match self.read_chain(cluster, usize::MAX as int) {
            Ok(bytes) => Ok(entries_from(bytes, 0)),
            Err(e) => Err(e),
        }
    }

    /// The entry named `name` in the directory that begins at the cluster
    /// `cluster`, or why there is none: `InvalidInput` for a name that is
    /// not UTF-8, what reading the directory fails with, `NotFound` where no
    /// entry has the name.
    pub open spec fn find(self, cluster: u32, name: Seq<u8>) -> Result<EntryView, Error> {
        if !valid_utf8(name) {
            Err(Error::InvalidInput)
        } else {
            match self.entries(cluster) {
                Ok(entries) => match find_in(entries, name) {
                    Some(entry) => Ok(entry),
                    None => Err(Error::NotFound),
                },
                Err(e) => Err(e),
            }
        }
    }
}

impl Dir {
    /// The root directory of a volume: it is named `/`, begins at the root
    /// cluster and has empty metadata.
    pub fn root<D: BlockDevice>(vfat: &VFat<D>) -> (r: Dir)
        ensures
            r@.name == "/"@,
            r@.first_cluster == vfat@.root_dir_cluster,
            r@.metadata == no_metadata(),
            EntryView::Dir(r@) == vfat@.root(),
    {
        let none = Timestamp { time: Time(0), date: Date(0) };
        Dir {
            name: String::from_str("/"),
            first_cluster: vfat.root_dir_cluster,
            metadata: Metadata { attr: Attributes(0), ctime: none, atime: none, mtime: none, size: 0 },
        }
    }

    /// Reads the directory and returns its entries, to be given out one by
    /// one from the first.
    ///
    /// Fails where the chain of the directory cannot be read, or where the
    /// device fails. For a directory that is to begin at a reserved cluster,
    /// and for no other, it fails with `InvalidInput`, and reads nothing.
    pub fn entries<D: BlockDevice>(&self, vfat: &mut VFat<D>) -> (r: Result<VFatDirEntryIter, Error>)
        requires
            old(vfat).wf(),
        ensures
            final(vfat).wf(),
            final(vfat)@ == old(vfat)@,
            final(vfat).device.keeps_cache_of(&old(vfat).device),
            self@.first_cluster < 2 <==> (r matches Err(Error::InvalidInput)),
            match r {
                Ok(iter) => {
                    &&& old(vfat)@.read_chain(self@.first_cluster, usize::MAX as int) == Ok::<Seq<u8>, Error>(
                        iter.slots(),
                    )
                    &&& iter.cursor() == 0
                    &&& old(vfat)@.entries(self@.first_cluster) == Ok::<Seq<EntryView>, Error>(iter.remaining())
                },
                Err(e) => e is Io || old(vfat)@.entries(self@.first_cluster) == Err::<Seq<EntryView>, Error>(e),
            },
    {
        let mut buf: Vec<u8> = Vec::new();
        match vfat.read_chain(self.first_cluster, &mut buf) {
            Ok(_) => {
                assert(buf@ =~= old(vfat)@.clusters_bytes(
                    old(vfat)@.chain(self@.first_cluster, crate::vfat::vfat::MAX_CHAIN_CLUSTERS as nat)->Ok_0,
                ));
                Ok(VFatDirEntryIter::new(buf))
            },
            Err(e) => Err(e),
        }
    }

    /// Finds the entry named `name` in `self` and returns it. Comparison is
    /// case-insensitive for ASCII letters, and the first entry that matches
    /// is returned.
    ///
    /// Fails with `InvalidInput` where `name` is not UTF-8 or the directory
    /// is to begin at a reserved cluster, and nowhere else: nothing is read
    /// then. Fails with `NotFound` where no entry has the name, and where the
    /// directory cannot be read or the device fails.
    pub fn find<D: BlockDevice>(&self, vfat: &mut VFat<D>, name: &[u8]) -> (r: Result<Entry, Error>)
        requires
            old(vfat).wf(),
        ensures
            final(vfat).wf(),
            final(vfat)@ == old(vfat)@,
            final(vfat).device.keeps_cache_of(&old(vfat).device),
            (!valid_utf8(name@) || self@.first_cluster < 2) <==> (r matches Err(Error::InvalidInput)),
            match r {
                Ok(entry) => old(vfat)@.find(self@.first_cluster, name@) == Ok::<EntryView, Error>(entry@),
                Err(e) => e is Io || old(vfat)@.find(self@.first_cluster, name@) == Err::<EntryView, Error>(e),
            },
    {
        if decode_utf8_text(name).is_none() {
            return Err(Error::InvalidInput);
        }
        let mut iter: VFatDirEntryIter = self.entries(vfat)?;
        let ghost all = iter.remaining();
        loop
            invariant
                vfat.wf(),
                vfat@ == old(vfat)@,
                vfat.device.keeps_cache_of(&old(vfat).device),
                valid_utf8(name@),
                self@.first_cluster >= 2,
                old(vfat)@.entries(self@.first_cluster) == Ok::<Seq<EntryView>, Error>(all),
                0 <= iter.cursor(),
                find_in(all, name@) == find_in(iter.remaining(), name@),
            decreases slot_count(iter.slots()) - iter.cursor(),
        {
            proof {
                lemma_next_entry_moves(iter.slots(), iter.cursor(), None);
            }
            let ghost before = iter.remaining();
            match iter.next() {
                Some(entry) => {
                    assert(before.drop_first() =~= iter.remaining());
                    if eq_ignore_ascii_case(entry.name().as_str().as_bytes(), name) {
                        return Ok(entry);
                    }
                },
                None => {
                    return Err(Error::NotFound);
                },
            }
        }
    }
}

} // verus!
