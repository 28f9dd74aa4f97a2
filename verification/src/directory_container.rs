//! A container over a filesystem directory: the entry list is the directory's
//! image files in natural order, and loading an entry is a plain file read.

use vstd::prelude::*;
use crate::entries::{entries_from_listing, find_entry, has_name, image_cname_pred};
use crate::error::Error;
use crate::image::Image;
use crate::natural::{name_views, natural_sorted};
use crate::resize::make_thumbnail;

verus! {

/// Relies on `fs_err::read_dir`, `DirEntry::file_name` and
/// `DirEntry::file_type`: the names in a directory, each with whether it is
/// itself a directory. What comes back depends on the filesystem, so nothing
/// is promised of the listing itself.
#[verifier::external_body]
fn fs_list_dir(path: &String) -> (r: Result<Vec<(String, bool)>, Error>)
    ensures
        r matches Err(e) ==> e is Io,
{
    let mut out = Vec::new();
    for entry in fs_err::read_dir(path.as_str()).map_err(|e| Error::Io(e.to_string()))? {
        let entry = entry.map_err(|e| Error::Io(e.to_string()))?;
        let name = entry
            .file_name()
            .into_string()
            .map_err(|_| Error::Io(String::from("file name is not valid UTF-8")))?;
        let is_dir = entry.file_type().map_err(|e| Error::Io(e.to_string()))?.is_dir();
        out.push((name, is_dir));
    }
    Ok(out)
}

/// Relies on `fs_err::read`: the bytes of one file. What comes back depends
/// on the disk, so nothing is promised of the bytes themselves.
#[verifier::external_body]
fn fs_read_file(path: &String) -> (r: Result<Vec<u8>, Error>)
    ensures
        r matches Err(e) ==> e is Io,
{
    fs_err::read(path.as_str()).map_err(|e| Error::Io(e.to_string()))
}

/// Joins a directory path and a file name with a single separator.
pub fn join_path(dir: &String, name: &String) -> (r: String)
    ensures
        r@ == dir@ + "/"@ + name@,
{
    let joined = dir.clone().concat("/");
    joined.concat(name.as_str())
}

/// A directory on the filesystem, with the image files it held at
/// construction in natural order.
#[derive(Debug)]
pub struct DirectoryContainer {
    path: String,
    entries: Vec<String>,
}

impl DirectoryContainer {
    /// The directory path.
    pub closed spec fn spec_path(self) -> Seq<char> {
        self.path@
    }

    /// The entry list.
    pub closed spec fn spec_entries(self) -> Seq<String> {
        self.entries@
    }

    /// Every entry bears an image suffix and the list is naturally sorted.
    pub open spec fn wf(self) -> bool {
        &&& natural_sorted(self.spec_entries())
        &&& forall|i: int|
            0 <= i < self.spec_entries().len() ==> image_cname_pred()(
                name_views(self.spec_entries())[i],
            )
    }

    /// Opens a directory: the entries are, exactly, the listing's
    /// non-directory names with a supported image suffix, naturally sorted
    /// (`entries_from_listing` carries the exact contract; what the listing
    /// holds depends on the filesystem). Fails exactly where the directory
    /// cannot be listed.
    pub fn new(path: &String) -> (r: Result<DirectoryContainer, Error>)
        ensures
            r matches Ok(c) ==> c.wf() && c.spec_path() == path@,
            r matches Err(e) ==> e is Io,
    {
        let listing = match fs_list_dir(path) {
            Ok(l) => l,
            Err(e) => {
                return Err(e);
            },
        };
        let entries = entries_from_listing(listing, false);
        Ok(DirectoryContainer { path: path.clone(), entries })
    }

    /// The ordered entry list.
    pub fn get_entries(&self) -> (r: &Vec<String>)
        ensures
            r@ == self.spec_entries(),
    {
        &self.entries
    }

    /// Loads one entry at full fidelity by reading its file and probing the
    /// bytes. `EntryNotFound` comes exactly on identifiers absent from the
    /// entry list; an unreadable file gives `Io`, undecodable bytes `Decode`.
    pub fn get_image(&self, entry: &String) -> (r: Result<Image, Error>)
        ensures
            (r matches Err(e) && e is EntryNotFound) <==> !has_name(self.spec_entries(), entry@),
            r matches Ok(img) ==> img.wf(),
            r matches Err(e) ==> e is EntryNotFound || e is Io || e is Decode,
    {
        if find_entry(&self.entries, entry).is_none() {
            return Err(Error::EntryNotFound(entry.clone()));
        }
        let file_path = join_path(&self.path, entry);
        let data = match fs_read_file(&file_path) {
            Ok(d) => d,
            Err(e) => {
                return Err(e);
            },
        };
        Image::new(data)
    }

    /// Loads one entry as a thumbnail fitted into the thumbnail square.
    /// Failure modes are those of `get_image`.
    pub fn get_thumbnail(&self, entry: &String) -> (r: Result<Image, Error>)
        ensures
            !has_name(self.spec_entries(), entry@) ==> (r matches Err(e) && e is EntryNotFound),
            r matches Ok(img) ==> img.wf() && img.width <= crate::resize::THUMBNAIL_SIZE
                && img.height <= crate::resize::THUMBNAIL_SIZE,
            r matches Err(e) ==> e is EntryNotFound || e is Io || e is Decode,
    {
        let full = self.get_image(entry)?;
        if full.width == 0 || full.height == 0 {
            return Err(Error::Decode(String::from_str("image has no pixels")));
        }
        make_thumbnail(&full.data, full.width, full.height)
    }
}

} // verus!
