//! A container over a ZIP archive held in memory: the whole archive is read
//! once, and every entry access opens a fresh cursor over the same bytes.

use std::io::Read;
use vstd::prelude::*;
use vstd::utf8::encode_utf8;
use crate::entries::{filter_image_names, find_entry, has_name, image_cname_pred};
use crate::error::Error;
use crate::image::{image_dims, Image};
use crate::natural::{name_views, natural_sorted};
use crate::resize::{filter_code, jpeg_resized, make_thumbnail, thumb_dims, ResizeFilter,
    THUMBNAIL_JPEG_QUALITY};

verus! {

/// The file and directory names stored in a ZIP archive, in archive order;
/// `None` where the bytes parse as no ZIP archive. A function of the bytes
/// alone.
pub uninterp spec fn zip_names_of(archive: Seq<u8>) -> Option<Seq<Seq<char>>>;

/// What extracting the named member from the archive yields; `None` where
/// the archive cannot be opened, the name is absent, or the member cannot be
/// decompressed. A function of the bytes and the name alone.
pub uninterp spec fn zip_member_of(archive: Seq<u8>, name: Seq<char>) -> Option<Seq<u8>>;

/// Relies on `zip::ZipArchive::new` and `file_names`: the names stored in
/// the archive, which depend on the archive bytes alone.
#[verifier::external_body]
fn zip_list_names(archive: &Vec<u8>) -> (r: Result<Vec<String>, Error>)
    ensures
        r matches Ok(names) ==> zip_names_of(archive@) == Some(name_views(names@)),
        r is Ok <==> zip_names_of(archive@) is Some,
        r matches Err(e) ==> e is Decode,
{
    let cursor = std::io::Cursor::new(archive.as_slice());
    let za = zip::ZipArchive::new(cursor).map_err(|e| Error::Decode(e.to_string()))?;
    Ok(za.file_names().map(|s| s.to_string()).collect())
}

/// Relies on `zip::ZipArchive::by_name` and `Read::read_to_end`: the named
/// member's decompressed bytes, which depend on the archive bytes and the
/// name alone.
#[verifier::external_body]
fn zip_read_member(archive: &Vec<u8>, name: &String) -> (r: Result<Vec<u8>, Error>)
    ensures
        r matches Ok(d) ==> zip_member_of(archive@, name@) == Some(d@),
        r is Ok <==> zip_member_of(archive@, name@) is Some,
        r matches Err(e) ==> e is Decode,
{
    let cursor = std::io::Cursor::new(archive.as_slice());
    let mut za = zip::ZipArchive::new(cursor).map_err(|e| Error::Decode(e.to_string()))?;
    let mut file = za.by_name(name.as_str()).map_err(|e| Error::Decode(e.to_string()))?;
    let mut buffer = Vec::new();
    file.read_to_end(&mut buffer).map_err(|e| Error::Decode(e.to_string()))?;
    Ok(buffer)
}

/// A ZIP archive read wholly into memory, with the image entries it holds in
/// natural order.
#[derive(Debug)]
pub struct ZipContainer {
    archive: Vec<u8>,
    entries: Vec<String>,
}

impl ZipContainer {
    /// The archive bytes.
    pub closed spec fn spec_archive(self) -> Seq<u8> {
        self.archive@
    }

    /// The entry list.
    pub closed spec fn spec_entries(self) -> Seq<String> {
        self.entries@
    }

    /// The entry list holds exactly the archive's image names, naturally
    /// sorted.
    pub open spec fn wf(self) -> bool {
        &&& zip_names_of(self.spec_archive()) is Some
        &&& natural_sorted(self.spec_entries())
    }

    /// Builds a container over the bytes of a ZIP archive: its entries are
    /// the stored names with a supported image suffix, naturally sorted.
    /// Fails exactly where the bytes parse as no ZIP archive.
    pub fn from_bytes(archive: Vec<u8>) -> (r: Result<ZipContainer, Error>)
        ensures
            r is Ok <==> zip_names_of(archive@) is Some,
            r matches Ok(c) ==> c.wf() && c.spec_archive() == archive@ && name_views(
                c.spec_entries(),
            ).to_multiset() == zip_names_of(archive@).unwrap().filter(
                image_cname_pred(),
            ).to_multiset(),
            r matches Err(e) ==> e is Decode,
    {
        let names = match zip_list_names(&archive) {
            Ok(names) => names,
            Err(e) => {
                return Err(e);
            },
        };
        let entries = filter_image_names(names);
        Ok(ZipContainer { archive, entries })
    }

    /// The ordered entry list.
    pub fn get_entries(&self) -> (r: &Vec<String>)
        ensures
            r@ == self.spec_entries(),
    {
        &self.entries
    }

    /// Loads one entry at full fidelity: the member is extracted and probed.
    /// An absent identifier gives `EntryNotFound`; a member that cannot be
    /// extracted or decoded gives `Decode`.
    pub fn get_image(&self, entry: &String) -> (r: Result<Image, Error>)
        ensures
            !has_name(self.spec_entries(), entry@) ==> (r matches Err(e) && e is EntryNotFound),
            r matches Ok(img) ==> img.wf() && zip_member_of(self.spec_archive(), entry@) == Some(
                img.data@,
            ),
            r is Ok ==> has_name(self.spec_entries(), entry@) && image_dims(
                zip_member_of(self.spec_archive(), entry@).unwrap(),
            ) == Some((r.unwrap().width, r.unwrap().height)),
            has_name(self.spec_entries(), entry@) ==> (r is Ok <==> zip_member_of(
                self.spec_archive(),
                entry@,
            ) is Some && image_dims(zip_member_of(self.spec_archive(), entry@).unwrap()) is Some),
            r matches Err(e) ==> e is EntryNotFound || e is Decode,
    {
        if find_entry(&self.entries, entry).is_none() {
            return Err(Error::EntryNotFound(entry.clone()));
        }
        let data = match zip_read_member(&self.archive, entry) {
            Ok(d) => d,
            Err(e) => {
                return Err(e);
            },
        };
        Image::new(data)
    }

    /// What the thumbnail of the member named `name` re-encodes to: the
    /// member's bytes fitted into the thumbnail square at thumbnail quality;
    /// `None` where the member is absent, undecodable, without pixels, or
    /// unencodable.
    pub open spec fn spec_thumbnail_of(self, name: Seq<char>) -> Option<Seq<u8>> {
        match zip_member_of(self.spec_archive(), name) {
            Some(d) => match image_dims(d) {
                Some(dims) => if dims.0 > 0 && dims.1 > 0 {
                    jpeg_resized(
                        d,
                        thumb_dims(dims.0, dims.1).0,
                        thumb_dims(dims.0, dims.1).1,
                        filter_code(ResizeFilter::Nearest),
                        THUMBNAIL_JPEG_QUALITY,
                    )
                } else {
                    None
                },
                None => None,
            },
            None => None,
        }
    }

    /// Loads one entry as a thumbnail: the member's image, fitted into the
    /// thumbnail square with its aspect ratio kept. Succeeds exactly where
    /// the entry is listed and `spec_thumbnail_of` names its bytes.
    pub fn get_thumbnail(&self, entry: &String) -> (r: Result<Image, Error>)
        ensures
            !has_name(self.spec_entries(), entry@) ==> (r matches Err(e) && e is EntryNotFound),
            r matches Ok(img) ==> img.wf() && img.width <= crate::resize::THUMBNAIL_SIZE
                && img.height <= crate::resize::THUMBNAIL_SIZE,
            r matches Ok(img) ==> (match image_dims(
                zip_member_of(self.spec_archive(), entry@).unwrap(),
            ) {
                Some(d) => (img.width, img.height) == crate::resize::thumb_dims(d.0, d.1),
                None => false,
            }),
            r is Ok <==> has_name(self.spec_entries(), entry@) && self.spec_thumbnail_of(
                entry@,
            ) is Some,
            r matches Ok(img) ==> Some(img.data@) == self.spec_thumbnail_of(entry@),
            r matches Err(e) ==> e is EntryNotFound || e is Decode,
    {
        let full = self.get_image(entry)?;
        if full.width == 0 || full.height == 0 {
            return Err(Error::Decode(String::from_str("image has no pixels")));
        }
        make_thumbnail(&full.data, full.width, full.height)
    }
}

} // verus!
