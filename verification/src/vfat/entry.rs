//! Entries of a directory: files and directories.

use vstd::prelude::*;
use crate::vfat::dir::{Dir, DirView};
use crate::vfat::file::{File, FileView};
use crate::vfat::metadata::Metadata;

verus! {

/// An entry of a directory.
#[derive(Debug)]
pub enum Entry {
    File(File),
    Dir(Dir),
}

/// What an entry is, as contracts see it.
pub enum EntryView {
    File(FileView),
    Dir(DirView),
}

impl EntryView {
    /// The name of the entry.
    pub open spec fn name(self) -> Seq<char> {
        match self {
            EntryView::File(f) => f.name,
            EntryView::Dir(d) => d.name,
        }
    }

    /// The metadata of the entry.
    pub open spec fn metadata(self) -> Metadata {
        match self {
            EntryView::File(f) => f.metadata,
            EntryView::Dir(d) => d.metadata,
        }
    }
}

impl View for Entry {
    type V = EntryView;

    open spec fn view(&self) -> EntryView {
        match self {
            Entry::File(f) => EntryView::File(f@),
            Entry::Dir(d) => EntryView::Dir(d@),
        }
    }
}

impl Entry {
    /// The name of the file or directory.
    pub fn name(&self) -> (r: &String)
        ensures
            r@ == self@.name(),
    {
        match self {
            Entry::File(f) => f.name(),
            Entry::Dir(d) => d.name(),
        }
    }

    /// The metadata of the file or directory.
    pub fn metadata(&self) -> (r: &Metadata)
        ensures
            *r == self@.metadata(),
    {
        match self {
            Entry::File(f) => f.metadata(),
            Entry::Dir(d) => d.metadata(),
        }
    }

    /// The file, where the entry is one.
    pub fn as_file(&self) -> (r: Option<&File>)
        ensures
            r == match self {
                Entry::File(f) => Some(f),
                Entry::Dir(_) => None,
            },
    {
        match self {
            Entry::File(f) => Some(f),
            Entry::Dir(_) => None,
        }
    }

    /// The directory, where the entry is one.
    pub fn as_dir(&self) -> (r: Option<&Dir>)
        ensures
            r == match self {
                Entry::Dir(d) => Some(d),
                Entry::File(_) => None,
            },
    {
        match self {
            Entry::Dir(d) => Some(d),
            Entry::File(_) => None,
        }
    }

    /// The file, where the entry is one.
    pub fn into_file(self) -> (r: Option<File>)
        ensures
            r == match self {
                Entry::File(f) => Some(f),
                Entry::Dir(_) => None,
            },
    {
        match self {
            Entry::File(f) => Some(f),
            Entry::Dir(_) => None,
        }
    }

    /// The directory, where the entry is one.
    pub fn into_dir(self) -> (r: Option<Dir>)
        ensures
            r == match self {
                Entry::Dir(d) => Some(d),
                Entry::File(_) => None,
            },
    {
        match self {
            Entry::Dir(d) => Some(d),
            Entry::File(_) => None,
        }
    }
}

} // verus!
