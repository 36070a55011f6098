//! One row of a directory listing.
//!
//! Names stay byte strings from end to end; only [`FileEntry::display_name`]
//! turns one into text, and only to draw it.
use crate::text::{copy_bytes, lossy, shown};
use crate::time::Timestamp;
use vstd::prelude::*;

verus! {

/// What an entry itself is, never what a symbolic link points at: a link is
/// always [`EntryKind::Other`].
#[derive(Debug, Clone, Copy, PartialEq, Eq, Structural)]
pub enum EntryKind {
    File,
    Directory,
    Other,
}

/// The permission bits of a mode.
pub open spec fn permission_bits(mode: Option<u32>) -> Option<u32> {
    match mode {
        Some(m) => Some(m & 0xFFF),
        None => None,
    }
}

/// The permission bits of a mode.
pub fn permissions_of(mode: Option<u32>) -> (r: Option<u32>)
    ensures
        r == permission_bits(mode),
{
    match mode {
        Some(m) => Some(m & 0xFFF),
        None => None,
    }
}

/// One row of a directory listing. The parameter is the representation of the
/// name: bytes in memory, a sequence of bytes in contracts.
#[derive(Debug, PartialEq, Eq)]
pub struct FileEntry<N = Vec<u8>> {
    pub name: N,
    pub kind: EntryKind,
    pub size: u64,
    pub modified: Option<Timestamp>,
    /// Whether the entry itself is a symbolic link.
    pub is_symlink: bool,
    /// The Unix permission bits, where the backend reports them.
    pub mode: Option<u32>,
}

impl View for FileEntry {
    type V = FileEntry<Seq<u8>>;

    open spec fn view(&self) -> FileEntry<Seq<u8>> {
        FileEntry {
            name: self.name@,
            kind: self.kind,
            size: self.size,
            modified: self.modified,
            is_symlink: self.is_symlink,
            mode: self.mode,
        }
    }
}

/// The views of a listing.
pub open spec fn entries(v: Seq<FileEntry>) -> Seq<FileEntry<Seq<u8>>> {
    Seq::new(v.len(), |i: int| v[i]@)
}

impl Clone for FileEntry {
    fn clone(&self) -> (r: Self)
        ensures
            r@ == self@,
    {
        FileEntry {
            name: copy_bytes(self.name.as_slice()),
            kind: self.kind,
            size: self.size,
            modified: self.modified,
            is_symlink: self.is_symlink,
            mode: self.mode,
        }
    }
}

/// Clones a listing.
pub fn copy_entries(v: &Vec<FileEntry>) -> (r: Vec<FileEntry>)
    ensures
        entries(r@) == entries(v@),
{
    let mut out: Vec<FileEntry> = Vec::new();
    for i in 0..v.len()
        invariant
            out@.len() == i,
            forall|j: int| 0 <= j < i ==> (#[trigger] out@[j])@ == v@[j]@,
    {
        out.push(v[i].clone());
    }
    assert(entries(out@) =~= entries(v@));
    out
}

impl FileEntry {
    /// The name as text, with replacement characters where it is not UTF-8.
    pub fn display_name(&self) -> (r: String)
        ensures
            r@ == shown(self@.name),
    {
        lossy(self.name.as_slice())
    }
}

} // verus!
