//! The container abstraction: one closed set of variants over the five
//! content sources, each exposing an ordered entry list and per-entry image
//! retrieval under one contract.

use vstd::prelude::*;
use vstd::utf8::encode_utf8;
use crate::directory_container::DirectoryContainer;
use crate::entries::has_name;
use crate::epub_container::EpubContainer;
use crate::error::Error;
use crate::image::Image;
use crate::natural::has_suffix_fold;
use crate::natural::has_suffix;
use crate::pdf_container::PdfContainer;
use crate::rar_container::RarContainer;
use crate::zip_container::{zip_member_of, ZipContainer};

verus! {

/// A readable content source: a directory of images or an archive of one of
/// the supported formats.
pub enum Container {
    Directory(DirectoryContainer),
    Zip(ZipContainer),
    Rar(RarContainer),
    Pdf(PdfContainer),
    Epub(EpubContainer),
}

/// Whether the file name ends in one of the supported container suffixes,
/// case-insensitively.
pub open spec fn spec_supported_container_name(name: Seq<u8>) -> bool {
    ||| has_suffix_fold(name, seq![46u8, 112u8, 100u8, 102u8])  // .pdf
    ||| has_suffix_fold(name, seq![46u8, 114u8, 97u8, 114u8])  // .rar
    ||| has_suffix_fold(name, seq![46u8, 122u8, 105u8, 112u8])  // .zip
    ||| has_suffix_fold(name, seq![46u8, 101u8, 112u8, 117u8, 98u8])  // .epub
}

impl Container {
    /// The variants' own invariants.
    pub open spec fn wf(self) -> bool {
        match self {
            Container::Directory(c) => c.wf(),
            Container::Zip(c) => c.wf(),
            Container::Rar(c) => c.wf(),
            Container::Pdf(c) => c.wf(),
            Container::Epub(_) => true,
        }
    }

    /// The ordered entry list, as the variant computed it at construction.
    pub open spec fn spec_entries(self) -> Seq<String> {
        match self {
            Container::Directory(c) => c.spec_entries(),
            Container::Zip(c) => c.spec_entries(),
            Container::Rar(c) => c.spec_entries(),
            Container::Pdf(c) => c.spec_entries(),
            Container::Epub(c) => c.spec_entries(),
        }
    }

    /// The ordered entry list.
    pub fn get_entries(&self) -> (r: &Vec<String>)
        ensures
            r@ == self.spec_entries(),
    {
        match self {
            Container::Directory(c) => c.get_entries(),
            Container::Zip(c) => c.get_entries(),
            Container::Rar(c) => c.get_entries(),
            Container::Pdf(c) => c.get_entries(),
            Container::Epub(c) => c.get_entries(),
        }
    }

    /// Loads one entry at full fidelity. An identifier absent from the entry
    /// list gives `EntryNotFound` on every variant; a successful load is an
    /// image whose stated dimensions match its bytes. For the in-memory ZIP
    /// variant, success is decided: the load succeeds exactly where the
    /// entry is listed and its member extracts and decodes.
    pub fn get_image(&self, entry: &String) -> (r: Result<Image, Error>)
        requires
            self.wf(),
        ensures
            !has_name(self.spec_entries(), entry@) ==> (r matches Err(e) && e is EntryNotFound),
            r matches Ok(img) ==> img.wf(),
            r matches Err(e) ==> e is EntryNotFound || e is Io || e is Decode
                || e is NativeBinding,
            self matches Container::Zip(z) ==> (r is Ok <==> has_name(z.spec_entries(), entry@)
                && zip_member_of(z.spec_archive(), entry@) is Some && crate::image::image_dims(
                zip_member_of(z.spec_archive(), entry@).unwrap(),
            ) is Some),
            self matches Container::Zip(z) ==> (r matches Ok(img) ==> zip_member_of(
                z.spec_archive(),
                entry@,
            ) == Some(img.data@)),
    {
        match self {
            Container::Directory(c) => c.get_image(entry),
            Container::Zip(c) => c.get_image(entry),
            Container::Rar(c) => c.get_image(entry),
            Container::Pdf(c) => c.get_image(entry),
            Container::Epub(c) => c.get_image(entry),
        }
    }

    /// Loads one entry as a thumbnail fitted into the thumbnail square,
    /// re-encoded as a low-quality JPEG. Failure modes are those of
    /// `get_image`.
    pub fn get_thumbnail(&self, entry: &String) -> (r: Result<Image, Error>)
        requires
            self.wf(),
        ensures
            !has_name(self.spec_entries(), entry@) ==> (r matches Err(e) && e is EntryNotFound),
            r matches Ok(img) ==> img.wf() && img.width <= crate::resize::THUMBNAIL_SIZE
                && img.height <= crate::resize::THUMBNAIL_SIZE,
            r matches Err(e) ==> e is EntryNotFound || e is Io || e is Decode
                || e is NativeBinding,
    {
        match self {
            Container::Directory(c) => c.get_thumbnail(entry),
            Container::Zip(c) => c.get_thumbnail(entry),
            Container::Rar(c) => c.get_thumbnail(entry),
            Container::Pdf(c) => c.get_thumbnail(entry),
            Container::Epub(c) => c.get_thumbnail(entry),
        }
    }

    /// Whether the source is a filesystem directory.
    pub fn is_directory(&self) -> (r: bool)
        ensures
            r == (self is Directory),
    {
        match self {
            Container::Directory(_) => true,
            _ => false,
        }
    }

    /// Whether the file name bears a supported container suffix (`.pdf`,
    /// `.rar`, `.zip`, `.epub`); the check is case-insensitive. Directories
    /// are supported implicitly and are not matched by suffix.
    pub fn is_supported_format(filename: &str) -> (r: bool)
        ensures
            r == spec_supported_container_name(encode_utf8(filename@)),
    {
        let b = filename.as_bytes_vec();
        let r = has_suffix(&b, &vec![46u8, 112u8, 100u8, 102u8]) || has_suffix(
            &b,
            &vec![46u8, 114u8, 97u8, 114u8],
        ) || has_suffix(&b, &vec![46u8, 122u8, 105u8, 112u8]) || has_suffix(
            &b,
            &vec![46u8, 101u8, 112u8, 117u8, 98u8],
        );
        r
    }
}

/// Which container variant a path should be opened as.
#[derive(Debug, Clone, Copy, PartialEq, Eq, Structural)]
pub enum ContainerKind {
    Directory,
    Zip,
    Rar,
    Pdf,
    Epub,
}

/// Picks the container variant for a path: a directory is opened as a
/// directory container, a file by its suffix, case-insensitively; any other
/// suffix is an unsupported container.
pub fn classify_path(filename: &str, is_dir: bool) -> (r: Result<ContainerKind, Error>)
    ensures
        is_dir ==> r == Ok::<ContainerKind, Error>(ContainerKind::Directory),
        !is_dir && has_suffix_fold(encode_utf8(filename@), seq![46u8, 122u8, 105u8, 112u8]) ==> r
            == Ok::<ContainerKind, Error>(ContainerKind::Zip),
        !is_dir && has_suffix_fold(encode_utf8(filename@), seq![46u8, 112u8, 100u8, 102u8]) ==> r
            == Ok::<ContainerKind, Error>(ContainerKind::Pdf),
        !is_dir && has_suffix_fold(encode_utf8(filename@), seq![46u8, 114u8, 97u8, 114u8]) ==> r
            == Ok::<ContainerKind, Error>(ContainerKind::Rar),
        !is_dir && has_suffix_fold(encode_utf8(filename@), seq![46u8, 101u8, 112u8, 117u8, 98u8])
            ==> r == Ok::<ContainerKind, Error>(ContainerKind::Epub),
        r is Err <==> !is_dir && !spec_supported_container_name(encode_utf8(filename@)),
        r matches Err(e) ==> e is UnsupportedContainer,
{
    if is_dir {
        return Ok(ContainerKind::Directory);
    }
    let b = filename.as_bytes_vec();
    let ghost e = encode_utf8(filename@);
    let ghost zs = seq![46u8, 122u8, 105u8, 112u8];
    let ghost ps = seq![46u8, 112u8, 100u8, 102u8];
    let ghost rs = seq![46u8, 114u8, 97u8, 114u8];
    let ghost es = seq![46u8, 101u8, 112u8, 117u8, 98u8];
    if has_suffix(&b, &vec![46u8, 122u8, 105u8, 112u8]) {
        proof {
            if has_suffix_fold(e, ps) {
                lemma_suffix_last(e, zs, ps);
            }
            if has_suffix_fold(e, rs) {
                lemma_suffix_last(e, zs, rs);
            }
            if has_suffix_fold(e, es) {
                lemma_suffix_last(e, zs, es);
            }
        }
        Ok(ContainerKind::Zip)
    } else if has_suffix(&b, &vec![46u8, 112u8, 100u8, 102u8]) {
        proof {
            if has_suffix_fold(e, rs) {
                lemma_suffix_last(e, ps, rs);
            }
            if has_suffix_fold(e, es) {
                lemma_suffix_last(e, ps, es);
            }
        }
        Ok(ContainerKind::Pdf)
    } else if has_suffix(&b, &vec![46u8, 114u8, 97u8, 114u8]) {
        proof {
            if has_suffix_fold(e, es) {
                lemma_suffix_last(e, rs, es);
            }
        }
        Ok(ContainerKind::Rar)
    } else if has_suffix(&b, &vec![46u8, 101u8, 112u8, 117u8, 98u8]) {
        Ok(ContainerKind::Epub)
    } else {
        Err(Error::UnsupportedContainer(String::from_str(filename)))
    }
}

/// Two case-folded suffixes of one name end in the same byte.
proof fn lemma_suffix_last(s: Seq<u8>, a: Seq<u8>, b: Seq<u8>)
    requires
        a.len() > 0,
        b.len() > 0,
        has_suffix_fold(s, a),
        has_suffix_fold(s, b),
    ensures
        a.last() == b.last(),
{
    assert(crate::natural::fold_byte(s[s.len() - a.len() + (a.len() - 1)]) == a[a.len() - 1]);
    assert(crate::natural::fold_byte(s[s.len() - b.len() + (b.len() - 1)]) == b[b.len() - 1]);
}

/// How many workers the preloading pool is given: half the visible
/// processors, at least one.
pub fn worker_count(cpus: usize) -> (r: usize)
    ensures
        r == if cpus / 2 >= 1 {
            cpus / 2
        } else {
            1usize
        },
{
    let half = cpus / 2;
    if half >= 1 {
        half
    } else {
        1
    }
}

} // verus!
