//! What the project browser shows of the file system.
use vstd::prelude::*;
use core::cmp::Ordering;
use crate::text::chars_of;

verus! {

/// A file or folder of the project tree; folders list their children.
#[derive(Debug)]
pub struct FileNode {
    pub name: String,
    pub path: String,
    pub is_directory: bool,
    pub children: Option<Vec<FileNode>>,
    pub size: Option<u64>,
    pub modified: Option<String>,
}

/// A change under the watched folder, with the tree as it now stands.
#[derive(Debug)]
pub struct FileSystemEvent {
    pub event_type: String,
    pub path: String,
    pub tree: FileNode,
}

/// The paths a watcher event touched and its kind.
#[derive(Debug, Clone, PartialEq)]
pub struct FsEvent {
    pub paths: Vec<String>,
    pub kind: String,
}

/// Facts about one file.
#[derive(Debug, Clone, PartialEq)]
pub struct FileInfo {
    pub name: String,
    pub path: String,
    pub size: u64,
    pub is_file: bool,
    pub modified: Option<u64>,
}

/// How many leading bytes of a file are checked before showing it as text.
pub const TEXT_PROBE_LEN: usize = 1024;

/// A file whose first bytes hold a zero byte is binary and is not shown as text.
pub fn looks_binary(head: &[u8]) -> (r: bool)
    ensures
        r == exists|i: int| 0 <= i < head@.len() && head@[i] == 0,
{
    let mut i: usize = 0;
    while i < head.len()
        invariant
            0 <= i <= head@.len(),
            forall|j: int| 0 <= j < i ==> head@[j] != 0,
        decreases head@.len() - i,
    {
        if head[i] == 0 {
            return true;
        }
        i = i + 1;
    }
    false
}

/// The order of two texts, character by character, a prefix first.
pub open spec fn text_order(a: Seq<char>, b: Seq<char>) -> Ordering
    decreases a.len(),
{
    if a.len() == 0 {
        if b.len() == 0 {
            Ordering::Equal
        } else {
            Ordering::Less
        }
    } else if b.len() == 0 {
        Ordering::Greater
    } else if a[0] < b[0] {
        Ordering::Less
    } else if a[0] > b[0] {
        Ordering::Greater
    } else {
        text_order(a.drop_first(), b.drop_first())
    }
}

/// How the browser lists two entries: folders before files, then by name.
pub open spec fn listing_order(a_dir: bool, a_name: Seq<char>, b_dir: bool, b_name: Seq<char>) -> Ordering {
    if a_dir && !b_dir {
        Ordering::Less
    } else if !a_dir && b_dir {
        Ordering::Greater
    } else {
        text_order(a_name, b_name)
    }
}

/// Compares two entries of a folder listing: folders first, then by name.
pub fn compare_entries(a: &FileNode, b: &FileNode) -> (r: Ordering)
    ensures
        r == listing_order(a.is_directory, a.name@, b.is_directory, b.name@),
{
    if a.is_directory && !b.is_directory {
        return Ordering::Less;
    }
    if !a.is_directory && b.is_directory {
        return Ordering::Greater;
    }
    let x = chars_of(a.name.as_str());
    let y = chars_of(b.name.as_str());
    let mut i: usize = 0;
    assert(x@.subrange(0, x@.len() as int) =~= x@);
    assert(y@.subrange(0, y@.len() as int) =~= y@);
    while i < x.len() && i < y.len() && x[i] == y[i]
        invariant
            0 <= i <= x@.len(),
            i <= y@.len(),
            text_order(x@, y@) == text_order(x@.subrange(i as int, x@.len() as int), y@.subrange(i as int, y@.len() as int)),
        decreases x@.len() - i,
    {
        assert(x@.subrange(i as int, x@.len() as int).drop_first() =~= x@.subrange(i + 1, x@.len() as int));
        assert(y@.subrange(i as int, y@.len() as int).drop_first() =~= y@.subrange(i + 1, y@.len() as int));
        i = i + 1;
    }
    let ghost xs = x@.subrange(i as int, x@.len() as int);
    let ghost ys = y@.subrange(i as int, y@.len() as int);
    if i < x.len() {
        assert(xs[0] == x@[i as int]);
    }
    if i < y.len() {
        assert(ys[0] == y@[i as int]);
    }
    if i == x.len() {
        if i == y.len() {
            Ordering::Equal
        } else {
            Ordering::Less
        }
    } else if i == y.len() {
        Ordering::Greater
    } else if x[i] < y[i] {
        Ordering::Less
    } else {
        Ordering::Greater
    }
}

} // verus!
