//! A container over a RAR archive. RAR's native reader is strictly
//! sequential: every load walks the archive from the start, comparing each
//! header's name against the requested entry, and extracts the match.

use vstd::prelude::*;
use crate::entries::{entries_from_listing, find_entry, has_name, image_cname_pred};
use crate::error::Error;
use crate::image::Image;
use crate::natural::{name_views, natural_sorted};
use crate::resize::make_thumbnail;

verus! {

/// A RAR archive opened for processing, stopped before a header. Holds
/// `unrar::OpenArchive` in `Process` mode, which Verus cannot take in a
/// signature because the crate keeps its `OpenMode` and `Cursor` traits
/// private.
#[verifier::external_body]
pub struct RarCursor {
    inner: unrar::OpenArchive<unrar::Process, unrar::CursorBeforeHeader>,
}

/// A RAR archive stopped at one entry's header, before its payload.
#[verifier::external_body]
pub struct RarEntry {
    inner: unrar::OpenArchive<unrar::Process, unrar::CursorBeforeFile>,
}

/// Whether a name holds no NUL character.
pub open spec fn spec_nul_free(s: Seq<char>) -> bool {
    forall|i: int| 0 <= i < s.len() ==> s[i] != '\u{0}'
}

/// Whether the name holds no NUL character.
fn nul_free(s: &String) -> (r: bool)
    ensures
        r == spec_nul_free(s@),
{
    let n = s.as_str().unicode_len();
    let mut i: usize = 0;
    while i < n
        invariant
            0 <= i <= n == s@.len(),
            forall|k: int| 0 <= k < i ==> s@[k] != '\u{0}',
        decreases n - i,
    {
        if s.as_str().get_char(i) == '\u{0}' {
            return false;
        }
        i = i + 1;
    }
    true
}

/// Relies on `unrar::Archive::open_for_processing`: opens the archive at
/// `path` for a sequential walk. The path must hold no NUL character, on
/// which the crate's path conversion panics. What comes back depends on the
/// disk, so nothing is promised but the error kind.
#[verifier::external_body]
fn rar_open(path: &String) -> (r: Result<RarCursor, Error>)
    requires
        spec_nul_free(path@),
    ensures
        r matches Err(e) ==> e is Io,
{
    let inner = unrar::Archive::new(path.as_str())
        .open_for_processing()
        .map_err(|e| Error::Io(e.to_string()))?;
    Ok(RarCursor { inner })
}

/// Relies on `unrar::OpenArchive::read_header`: advances to the next entry
/// header, `None` at the end of the archive.
#[verifier::external_body]
fn rar_next(cursor: RarCursor) -> (r: Result<Option<RarEntry>, Error>)
    ensures
        r matches Err(e) ==> e is Io,
{
    match cursor.inner.read_header().map_err(|e| Error::Io(e.to_string()))? {
        Some(inner) => Ok(Some(RarEntry { inner })),
        None => Ok(None),
    }
}

/// Relies on `unrar::FileHeader`'s `filename`: the current entry's name.
#[verifier::external_body]
fn rar_entry_name(entry: &RarEntry) -> (r: String)
{
    entry.inner.entry().filename.to_string_lossy().to_string()
}

/// Relies on `unrar::OpenArchive::skip`: passes over the current entry's
/// payload.
#[verifier::external_body]
fn rar_skip(entry: RarEntry) -> (r: Result<RarCursor, Error>)
    ensures
        r matches Err(e) ==> e is Io,
{
    let inner = entry.inner.skip().map_err(|e| Error::Io(e.to_string()))?;
    Ok(RarCursor { inner })
}

/// Relies on `unrar::OpenArchive::read`: extracts the current entry's bytes
/// and closes the archive.
#[verifier::external_body]
fn rar_read(entry: RarEntry) -> (r: Result<Vec<u8>, Error>)
    ensures
        r matches Err(e) ==> e is Io,
{
    let (data, rest) = entry.inner.read().map_err(|e| Error::Io(e.to_string()))?;
    drop(rest);
    Ok(data)
}

/// Relies on `unrar::Archive::open_for_listing` and the listing iterator:
/// the archive's entry names, each with whether it is a plain file. The
/// path must hold no NUL character, on which the crate's path conversion
/// panics.
#[verifier::external_body]
fn rar_list(path: &String) -> (r: Result<Vec<(String, bool)>, Error>)
    requires
        spec_nul_free(path@),
    ensures
        r matches Err(e) ==> e is Io,
{
    let archive = unrar::Archive::new(path.as_str())
        .open_for_listing()
        .map_err(|e| Error::Io(e.to_string()))?;
    let mut out = Vec::new();
    for header in archive {
        let header = header.map_err(|e| Error::Io(e.to_string()))?;
        let name = header.filename.to_string_lossy().to_string();
        out.push((name, header.is_file()));
    }
    Ok(out)
}

/// A RAR archive on disk, with the image files it listed at construction in
/// natural order.
#[derive(Debug)]
pub struct RarContainer {
    path: String,
    entries: Vec<String>,
}

impl RarContainer {
    /// The archive path.
    pub closed spec fn spec_path(self) -> Seq<char> {
        self.path@
    }

    /// The entry list.
    pub closed spec fn spec_entries(self) -> Seq<String> {
        self.entries@
    }

    /// The path holds no NUL character, every entry bears an image suffix,
    /// and the list is naturally sorted.
    pub open spec fn wf(self) -> bool {
        &&& spec_nul_free(self.spec_path())
        &&& natural_sorted(self.spec_entries())
        &&& forall|i: int|
            0 <= i < self.spec_entries().len() ==> image_cname_pred()(
                name_views(self.spec_entries())[i],
            )
    }

    /// Opens a RAR archive: the entries are, exactly, the listing's plain
    /// files with a supported image suffix, naturally sorted
    /// (`entries_from_listing` carries the exact contract; what the listing
    /// holds depends on the archive on disk). Fails exactly where the path
    /// holds a NUL character or the archive cannot be opened or walked.
    pub fn new(path: &String) -> (r: Result<RarContainer, Error>)
        ensures
            r matches Ok(c) ==> c.wf() && c.spec_path() == path@,
            r matches Err(e) ==> e is Io,
            !spec_nul_free(path@) ==> r is Err,
    {
        if !nul_free(path) {
            return Err(Error::Io(String::from_str("path holds a NUL character")));
        }
        let listing = match rar_list(path) {
            Ok(l) => l,
            Err(e) => {
                return Err(e);
            },
        };
        let entries = entries_from_listing(listing, true);
        Ok(RarContainer { path: path.clone(), entries })
    }

    /// The ordered entry list.
    pub fn get_entries(&self) -> (r: &Vec<String>)
        ensures
            r@ == self.spec_entries(),
    {
        &self.entries
    }

    /// Loads one entry at full fidelity: walks the archive from the start,
    /// compares each header's name, extracts the match and probes its bytes.
    /// `EntryNotFound` comes on identifiers absent from the entry list, and
    /// on a listed name that the walk no longer finds.
    pub fn get_image(&self, entry: &String) -> (r: Result<Image, Error>)
        requires
            self.wf(),
        ensures
            !has_name(self.spec_entries(), entry@) ==> (r matches Err(e) && e is EntryNotFound),
            r matches Ok(img) ==> img.wf(),
            r matches Err(e) ==> e is EntryNotFound || e is Io || e is Decode,
    {
        match find_entry(&self.entries, entry) {
            None => {
                return Err(Error::EntryNotFound(entry.clone()));
            },
            Some(i) => {
                proof {
                    assert(self.spec_entries()[i as int]@ == entry@);
                }
            },
        }
        let mut cursor = match rar_open(&self.path) {
            Ok(c) => c,
            Err(e) => {
                return Err(e);
            },
        };
        let mut fuel: usize = usize::MAX;
        while fuel > 0
            invariant
                has_name(self.spec_entries(), entry@),
            decreases fuel,
        {
            let stepped = match rar_next(cursor) {
                Ok(s) => s,
                Err(e) => {
                    return Err(e);
                },
            };
            let header = match stepped {
                Some(h) => h,
                None => {
                    return Err(Error::EntryNotFound(entry.clone()));
                },
            };
            let name = rar_entry_name(&header);
            if name == *entry {
                let data = match rar_read(header) {
                    Ok(d) => d,
                    Err(e) => {
                        return Err(e);
                    },
                };
                return Image::new(data);
            }
            cursor = match rar_skip(header) {
                Ok(c) => c,
                Err(e) => {
                    return Err(e);
                },
            };
            fuel = fuel - 1;
        }
        Err(Error::EntryNotFound(entry.clone()))
    }

    /// Loads one entry as a thumbnail fitted into the thumbnail square.
    /// Failure modes are those of `get_image`.
    pub fn get_thumbnail(&self, entry: &String) -> (r: Result<Image, Error>)
        requires
            self.wf(),
        ensures
            !has_name(self.spec_entries(), entry@) ==> (r matches Err(e) && e is EntryNotFound),
            r matches Ok(img) ==> img.wf() && img.width <= crate::resize::THUMBNAIL_SIZE
                && img.height <= crate::resize::THUMBNAIL_SIZE,
            r matches Err(e) ==> e is EntryNotFound || e is Io || e is Decode,
    {
        let full = self.get_image(entry)?;
        if full.width == 0 || full.height == 0 {
            return Err(Error::Decode(String::from_str("image has no pixels")));
        }
        make_thumbnail(&full.data, full.width, full.height)
    }
}

} // verus!
