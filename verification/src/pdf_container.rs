//! A container over a PDF document held in memory. Entries are page indices
//! zero-padded to a minimum of four digits; loading an entry binds the
//! rendering engine afresh, renders the page at the configured height and
//! re-encodes it as PNG. The engine binding is not safe to share between threads or calls, so
//! every call constructs and tears down its own.

use image::ImageEncoder;
use pdfium_render::prelude::{Pdfium, PdfRenderConfig};
use vstd::prelude::*;
use crate::entries::{find_entry, has_name};
use crate::error::Error;
use crate::image::{image_dims, Image};
use crate::resize::make_thumbnail;

verus! {

/// The engine handle of `pdfium_render`, opaque to the library.
#[verifier::external_type_specification]
#[verifier::external_body]
pub struct ExPdfium(pdfium_render::prelude::Pdfium);

/// Relies on `Pdfium::bind_to_library` / `bind_to_system_library`: binds the
/// rendering library found at `library_path`, or the system one. What comes
/// back depends on what is installed, so nothing is promised but the error
/// kind.
#[verifier::external_body]
fn pdf_bind(library_path: &Option<String>) -> (r: Result<pdfium_render::prelude::Pdfium, Error>)
    ensures
        r matches Err(e) ==> e is NativeBinding,
{
    let bindings = match library_path {
        Some(p) => Pdfium::bind_to_library(Pdfium::pdfium_platform_library_name_at_path(p.as_str())),
        None => Pdfium::bind_to_system_library(),
    };
    Ok(Pdfium::new(bindings.map_err(|e| Error::NativeBinding(e.to_string()))?))
}

/// Relies on `Pdfium::load_pdf_from_byte_slice` and `PdfPages::len`: how
/// many pages the document has.
#[verifier::external_body]
fn pdf_page_count(engine: &pdfium_render::prelude::Pdfium, bytes: &Vec<u8>) -> (r: Result<
    i32,
    Error,
>)
    ensures
        r matches Err(e) ==> e is Decode,
{
    let document = engine
        .load_pdf_from_byte_slice(bytes.as_slice(), None)
        .map_err(|e| Error::Decode(e.to_string()))?;
    Ok(document.pages().len())
}

/// A decoded bitmap of the `image` crate, opaque to the library.
#[verifier::external_type_specification]
#[verifier::external_body]
pub struct ExDynamicImage(image::DynamicImage);

/// Relies on `PdfPage::render_with_config` and `PdfBitmap::as_image`:
/// renders one page at the target height into a bitmap. What comes back
/// depends on the engine, so nothing is promised but the error kind.
#[verifier::external_body]
fn pdf_render_page(
    engine: &pdfium_render::prelude::Pdfium,
    bytes: &Vec<u8>,
    index: i32,
    target_height: i32,
) -> (r: Result<image::DynamicImage, Error>)
    ensures
        r matches Err(e) ==> e is Decode,
{
    let document = engine
        .load_pdf_from_byte_slice(bytes.as_slice(), None)
        .map_err(|e| Error::Decode(e.to_string()))?;
    let page = document.pages().get(index).map_err(|e| Error::Decode(e.to_string()))?;
    let config = PdfRenderConfig::new().set_target_height(target_height);
    let bitmap = page.render_with_config(&config).map_err(|e| Error::Decode(e.to_string()))?;
    bitmap.as_image().map_err(|e| Error::Decode(e.to_string()))
}

/// Relies on `image`'s `PngEncoder`: encodes a bitmap as a PNG whose stated
/// dimensions are the bitmap's own.
#[verifier::external_body]
fn png_encode_image(img: &image::DynamicImage) -> (r: Result<(Vec<u8>, u32, u32), Error>)
    ensures
        r matches Ok(out) ==> image_dims(out.0@) == Some((out.1, out.2)),
        r matches Err(e) ==> e is Decode,
{
    let mut buffer = Vec::new();
    image::codecs::png::PngEncoder::new(&mut buffer)
        .write_image(img.as_bytes(), img.width(), img.height(), img.color().into())
        .map_err(|e| Error::Decode(e.to_string()))?;
    Ok((buffer, img.width(), img.height()))
}

/// The one-character name of a decimal digit.
pub open spec fn spec_digit(d: int) -> Seq<char> {
    if d == 0 {
        "0"@
    } else if d == 1 {
        "1"@
    } else if d == 2 {
        "2"@
    } else if d == 3 {
        "3"@
    } else if d == 4 {
        "4"@
    } else if d == 5 {
        "5"@
    } else if d == 6 {
        "6"@
    } else if d == 7 {
        "7"@
    } else if d == 8 {
        "8"@
    } else {
        "9"@
    }
}

/// A page index written as four decimal digits, zero-padded.
pub open spec fn spec_pad4(n: int) -> Seq<char> {
    spec_digit(n / 1000 % 10) + spec_digit(n / 100 % 10) + spec_digit(n / 10 % 10) + spec_digit(
        n % 10,
    )
}

/// The name of one decimal digit.
fn digit_str(d: u16) -> (r: &'static str)
    requires
        d < 10,
    ensures
        r@ == spec_digit(d as int),
{
    if d == 0 {
        "0"
    } else if d == 1 {
        "1"
    } else if d == 2 {
        "2"
    } else if d == 3 {
        "3"
    } else if d == 4 {
        "4"
    } else if d == 5 {
        "5"
    } else if d == 6 {
        "6"
    } else if d == 7 {
        "7"
    } else if d == 8 {
        "8"
    } else {
        "9"
    }
}

/// A page index written in decimal, zero-padded to a minimum of four
/// digits: four digits up to 9999, the plain five digits beyond.
pub open spec fn spec_page_name(n: int) -> Seq<char> {
    if n < 10000 {
        spec_pad4(n)
    } else {
        spec_digit(n / 10000 % 10) + spec_pad4(n % 10000)
    }
}

/// Writes a page index as decimal digits, zero-padded to a minimum of four.
pub fn pad_page(n: u16) -> (r: String)
    ensures
        r@ == spec_page_name(n as int),
{
    if n < 10000 {
        pad4(n)
    } else {
        let mut s = String::from_str(digit_str(n / 10000 % 10));
        let tail = pad4(n % 10000);
        s.append(tail.as_str());
        s
    }
}

/// The entry names of a document with `count` pages: one name per page, the
/// page's index zero-padded to a minimum of four digits.
fn page_names(count: u16) -> (r: Vec<String>)
    ensures
        r@.len() == count as int,
        forall|i: int| 0 <= i < count as int ==> (#[trigger] r@[i])@ == spec_page_name(i),
{
    let mut entries: Vec<String> = Vec::new();
    let mut i: u16 = 0;
    while i < count
        invariant
            i <= count,
            entries@.len() == i as int,
            forall|k: int| 0 <= k < i as int ==> (#[trigger] entries@[k])@ == spec_page_name(k),
        decreases count - i,
    {
        entries.push(pad_page(i));
        i = i + 1;
    }
    entries
}

/// Writes a page index as four decimal digits, zero-padded.
pub fn pad4(n: u16) -> (r: String)
    requires
        n < 10000,
    ensures
        r@ == spec_pad4(n as int),
{
    let mut s = String::new();
    s.append(digit_str(n / 1000 % 10));
    s.append(digit_str(n / 100 % 10));
    s.append(digit_str(n / 10 % 10));
    s.append(digit_str(n % 10));
    s
}

/// A PDF document read wholly into memory, its pages as entries.
#[derive(Debug)]
pub struct PdfContainer {
    pdf: Vec<u8>,
    entries: Vec<String>,
    render_height: i32,
    library_path: Option<String>,
}

impl PdfContainer {
    /// The document bytes.
    pub closed spec fn spec_pdf(self) -> Seq<u8> {
        self.pdf@
    }

    /// The entry list.
    pub closed spec fn spec_entries(self) -> Seq<String> {
        self.entries@
    }

    /// The target height pages are rendered at.
    pub closed spec fn spec_render_height(self) -> i32 {
        self.render_height
    }

    /// Entry `i` is page `i`'s index, zero-padded to a minimum of four
    /// digits; the page count fits the index range.
    pub open spec fn wf(self) -> bool {
        &&& self.spec_entries().len() <= 65535
        &&& forall|i: int|
            0 <= i < self.spec_entries().len() ==> (#[trigger] self.spec_entries()[i])@
                == spec_page_name(i)
    }

    /// Opens a PDF document from its bytes: one entry per page, named by the
    /// zero-padded page index. Requires binding the rendering engine; fails
    /// with `NativeBinding` where no engine library can be bound and with
    /// `Decode` where the bytes parse as no PDF.
    pub fn from_bytes(pdf: Vec<u8>, render_height: i32, library_path: Option<String>) -> (r:
        Result<PdfContainer, Error>)
        ensures
            r matches Ok(c) ==> c.wf() && c.spec_pdf() == pdf@ && c.spec_render_height()
                == render_height,
            r matches Err(e) ==> e is NativeBinding || e is Decode,
    {
        let engine = match pdf_bind(&library_path) {
            Ok(p) => p,
            Err(e) => {
                return Err(e);
            },
        };
        let count = match pdf_page_count(&engine, &pdf) {
            Ok(c) => c,
            Err(e) => {
                return Err(e);
            },
        };
        if count < 0 || count > 65535 {
            return Err(Error::Decode(String::from_str("page count out of range")));
        }
        let entries = page_names(count as u16);
        Ok(PdfContainer { pdf, entries, render_height, library_path })
    }

    /// The ordered entry list.
    pub fn get_entries(&self) -> (r: &Vec<String>)
        ensures
            r@ == self.spec_entries(),
    {
        &self.entries
    }

    /// Renders one page at full fidelity. The entry must name a page;
    /// `EntryNotFound` comes exactly on identifiers absent from the entry
    /// list.
    pub fn get_image(&self, entry: &String) -> (r: Result<Image, Error>)
        requires
            self.wf(),
        ensures
            (r matches Err(e) && e is EntryNotFound) <==> !has_name(self.spec_entries(), entry@),
            r matches Ok(img) ==> img.wf(),
            r matches Err(e) ==> e is EntryNotFound || e is NativeBinding || e is Decode,
    {
        let index = match find_entry(&self.entries, entry) {
            None => {
                return Err(Error::EntryNotFound(entry.clone()));
            },
            Some(i) => i,
        };
        proof {
            assert(self.spec_entries()[index as int]@ == entry@);
        }
        let engine = match pdf_bind(&self.library_path) {
            Ok(p) => p,
            Err(e) => {
                return Err(e);
            },
        };
        let bitmap = match pdf_render_page(&engine, &self.pdf, index as i32, self.render_height) {
            Ok(b) => b,
            Err(e) => {
                return Err(e);
            },
        };
        let encoded = match png_encode_image(&bitmap) {
            Ok(out) => out,
            Err(e) => {
                return Err(e);
            },
        };
        Ok(Image { data: encoded.0, width: encoded.1, height: encoded.2 })
    }

    /// Renders one page as a thumbnail fitted into the thumbnail square.
    /// Failure modes are those of `get_image`.
    pub fn get_thumbnail(&self, entry: &String) -> (r: Result<Image, Error>)
        requires
            self.wf(),
        ensures
            !has_name(self.spec_entries(), entry@) ==> (r matches Err(e) && e is EntryNotFound),
            r matches Ok(img) ==> img.wf() && img.width <= crate::resize::THUMBNAIL_SIZE
                && img.height <= crate::resize::THUMBNAIL_SIZE,
            r matches Err(e) ==> e is EntryNotFound || e is NativeBinding || e is Decode,
    {
        let full = self.get_image(entry)?;
        if full.width == 0 || full.height == 0 {
            return Err(Error::Decode(String::from_str("page has no pixels")));
        }
        make_thumbnail(&full.data, full.width, full.height)
    }
}

} // verus!
