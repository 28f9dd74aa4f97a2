//! The browsable view of a directory: which of its entries are offered at
//! all — subdirectories, and files of a supported container format.

use vstd::prelude::*;
use vstd::utf8::encode_utf8;
use crate::container::spec_supported_container_name;
use crate::container::Container;

verus! {

/// One entry of a directory listing, as offered to a browsing user.
#[derive(Debug, PartialEq, Eq)]
pub struct DirEntry {
    /// Whether it is itself a directory.
    pub is_directory: bool,
    /// The file or directory name.
    pub name: String,
    /// When it was last modified, written in RFC 3339 form.
    pub last_modified: String,
}

impl Clone for DirEntry {
    /// A clone carries the same fields.
    fn clone(&self) -> (r: Self)
        ensures
            r == *self,
    {
        DirEntry {
            is_directory: self.is_directory,
            name: self.name.clone(),
            last_modified: self.last_modified.clone(),
        }
    }
}

/// Whether a listing entry is offered: directories always, files only with
/// a supported container suffix.
pub open spec fn spec_offered(is_directory: bool, name: Seq<char>) -> bool {
    is_directory || spec_supported_container_name(encode_utf8(name))
}

/// Keeps the entries of a directory listing that can be opened: every
/// subdirectory, and every file whose suffix names a supported container
/// format, in listing order.
pub fn filter_listing(entries: Vec<DirEntry>) -> (r: Vec<DirEntry>)
    ensures
        r@ == entries@.filter(
            |e: DirEntry| spec_offered(e.is_directory, e.name@),
        ),
{
    let ghost pred = |e: DirEntry| spec_offered(e.is_directory, e.name@);
    let mut kept: Vec<DirEntry> = Vec::new();
    let mut i: usize = 0;
    while i < entries.len()
        invariant
            0 <= i <= entries@.len(),
            kept@ == entries@.take(i as int).filter(pred),
            pred == (|e: DirEntry| spec_offered(e.is_directory, e.name@)),
        decreases entries@.len() - i,
    {
        proof {
            reveal(Seq::filter);
            assert(entries@.take(i + 1).drop_last() =~= entries@.take(i as int));
            assert(entries@.take(i + 1).last() == entries@[i as int]);
        }
        let entry = &entries[i];
        if entry.is_directory || Container::is_supported_format(entry.name.as_str()) {
            kept.push(entry.clone());
        }
        i = i + 1;
    }
    proof {
        assert(entries@.take(entries@.len() as int) =~= entries@);
    }
    kept
}

} // verus!
