//! The decoded raster image value: encoded bytes together with the pixel
//! dimensions that those bytes decode to.

use vstd::prelude::*;
use crate::error::Error;
use crate::natural::{has_suffix_fold, has_suffix};

verus! {

/// The dimensions that the `image` crate reads from an encoded image, `None`
/// where the bytes decode as no supported image; a function of the bytes
/// alone.
pub uninterp spec fn image_dims(data: Seq<u8>) -> Option<(u32, u32)>;

/// Relies on `image::ImageReader` with a guessed format and
/// `into_dimensions`: the dimensions probed from the encoded bytes, which
/// depend on the bytes alone.
#[verifier::external_body]
fn probe_dimensions(data: &Vec<u8>) -> (r: Result<(u32, u32), Error>)
    ensures
        r matches Ok(d) ==> image_dims(data@) == Some(d),
        r is Err ==> image_dims(data@) is None,
        r matches Err(e) ==> e is Decode,
{
    let cursor = std::io::Cursor::new(data);
    let reader = image::ImageReader::new(cursor)
        .with_guessed_format()
        .map_err(|e| Error::Decode(e.to_string()))?;
    reader
        .into_dimensions()
        .map_err(|e| Error::Decode(e.to_string()))
}

/// The mathematical value of an [`Image`]: its bytes and stated dimensions.
#[verifier::ext_equal]
pub struct ImageView {
    pub data: Seq<u8>,
    pub width: u32,
    pub height: u32,
}

/// A decoded (or re-encoded) raster image: encoded bytes plus the width and
/// height they decode to.
#[derive(Debug)]
pub struct Image {
    /// Encoded bytes of the image.
    pub data: Vec<u8>,
    /// Width in pixels of what `data` decodes to.
    pub width: u32,
    /// Height in pixels of what `data` decodes to.
    pub height: u32,
}

impl View for Image {
    type V = ImageView;

    open spec fn view(&self) -> ImageView {
        ImageView { data: self.data@, width: self.width, height: self.height }
    }
}

impl Image {
    /// The stated dimensions match what the bytes decode to.
    pub open spec fn wf(self) -> bool {
        image_dims(self.data@) == Some((self.width, self.height))
    }

    /// Builds an image value from encoded bytes, probing the dimensions from
    /// the bytes; fails exactly where the bytes decode as no image.
    pub fn new(data: Vec<u8>) -> (r: Result<Image, Error>)
        ensures
            r matches Ok(img) ==> img.wf() && img.data@ == data@ && image_dims(data@) == Some(
                (img.width, img.height),
            ),
            r is Ok <==> image_dims(data@) is Some,
            r matches Err(e) ==> e is Decode,
    {
        match probe_dimensions(&data) {
            Ok(d) => Ok(Image { data, width: d.0, height: d.1 }),
            Err(e) => Err(e),
        }
    }

    /// Whether the file name ends in one of the supported raster image
    /// suffixes, case-insensitively.
    pub open spec fn spec_supported_image_name(name: Seq<u8>) -> bool {
        ||| has_suffix_fold(name, seq![46u8, 97u8, 112u8, 110u8, 103u8])  // .apng
        ||| has_suffix_fold(name, seq![46u8, 103u8, 105u8, 102u8])  // .gif
        ||| has_suffix_fold(name, seq![46u8, 106u8, 112u8, 103u8])  // .jpg
        ||| has_suffix_fold(name, seq![46u8, 106u8, 112u8, 101u8, 103u8])  // .jpeg
        ||| has_suffix_fold(name, seq![46u8, 106u8, 112u8, 101u8])  // .jpe
        ||| has_suffix_fold(name, seq![46u8, 106u8, 105u8, 102u8])  // .jif
        ||| has_suffix_fold(name, seq![46u8, 106u8, 102u8, 105u8, 102u8])  // .jfif
        ||| has_suffix_fold(name, seq![46u8, 112u8, 110u8, 103u8])  // .png
        ||| has_suffix_fold(name, seq![46u8, 115u8, 118u8, 103u8])  // .svg
        ||| has_suffix_fold(name, seq![46u8, 119u8, 101u8, 98u8, 112u8])  // .webp
    }

    /// Whether the file extension is a supported raster image format; the
    /// check is case-insensitive.
    pub fn is_supported_format(filename: &str) -> (r: bool)
        ensures
            r == Image::spec_supported_image_name(vstd::utf8::encode_utf8(filename@)),
    {
        let b = filename.as_bytes_vec();
        let r = has_suffix(&b, &vec![46u8, 97u8, 112u8, 110u8, 103u8]) || has_suffix(
            &b,
            &vec![46u8, 103u8, 105u8, 102u8],
        ) || has_suffix(&b, &vec![46u8, 106u8, 112u8, 103u8]) || has_suffix(
            &b,
            &vec![46u8, 106u8, 112u8, 101u8, 103u8],
        ) || has_suffix(&b, &vec![46u8, 106u8, 112u8, 101u8]) || has_suffix(
            &b,
            &vec![46u8, 106u8, 105u8, 102u8],
        ) || has_suffix(&b, &vec![46u8, 106u8, 102u8, 105u8, 102u8]) || has_suffix(
            &b,
            &vec![46u8, 112u8, 110u8, 103u8],
        ) || has_suffix(&b, &vec![46u8, 115u8, 118u8, 103u8]) || has_suffix(
            &b,
            &vec![46u8, 119u8, 101u8, 98u8, 112u8],
        );
        r
    }

    /// Big-endian wire form of the image: four bytes of width, four bytes of
    /// height, then the encoded bytes.
    pub open spec fn spec_wire(self) -> Seq<u8> {
        be32(self.width) + be32(self.height) + self.data@
    }

    /// Serializes the image for transfer: `[width][height][data]`, both
    /// dimensions as four big-endian bytes.
    pub fn to_wire_bytes(&self) -> (r: Vec<u8>)
        ensures
            r@ == self.spec_wire(),
            r@.len() == 8 + self.data@.len(),
    {
        let mut out: Vec<u8> = Vec::new();
        push_be32(&mut out, self.width);
        push_be32(&mut out, self.height);
        let mut k: usize = 0;
        while k < self.data.len()
            invariant
                0 <= k <= self.data@.len(),
                out@ == be32(self.width) + be32(self.height) + self.data@.take(k as int),
            decreases self.data@.len() - k,
        {
            let b = self.data[k];
            out.push(b);
            proof {
                assert(be32(self.width) + be32(self.height) + self.data@.take(k + 1) =~= (be32(
                    self.width,
                ) + be32(self.height) + self.data@.take(k as int)).push(self.data@[k as int]));
            }
            k = k + 1;
        }
        proof {
            assert(self.data@.take(self.data@.len() as int) =~= self.data@);
        }
        out
    }
}

impl Clone for Image {
    /// A clone carries the same bytes and the same dimensions.
    fn clone(&self) -> (r: Self)
        ensures
            r.data@ == self.data@,
            r.width == self.width,
            r.height == self.height,
            r@ == self@,
    {
        let data = clone_bytes(&self.data);
        Image { data, width: self.width, height: self.height }
    }
}

/// Byte-for-byte copy of a byte vector.
fn clone_bytes(v: &Vec<u8>) -> (r: Vec<u8>)
    ensures
        r@ == v@,
{
    let mut out: Vec<u8> = Vec::new();
    let mut k: usize = 0;
    while k < v.len()
        invariant
            0 <= k <= v@.len(),
            out@ == v@.take(k as int),
        decreases v@.len() - k,
    {
        out.push(v[k]);
        proof {
            assert(v@.take(k + 1) =~= v@.take(k as int).push(v@[k as int]));
        }
        k = k + 1;
    }
    proof {
        assert(v@.take(v@.len() as int) =~= v@);
    }
    out
}

/// The four big-endian bytes of a 32-bit value.
pub open spec fn be32(x: u32) -> Seq<u8> {
    seq![
        (x / 0x1000000) as u8,
        ((x / 0x10000) % 0x100) as u8,
        ((x / 0x100) % 0x100) as u8,
        (x % 0x100) as u8,
    ]
}

/// Appends the four big-endian bytes of `x`.
fn push_be32(out: &mut Vec<u8>, x: u32)
    ensures
        final(out)@ == old(out)@ + be32(x),
{
    let ghost before = out@;
    out.push((x / 0x1000000) as u8);
    out.push(((x / 0x10000) % 0x100) as u8);
    out.push(((x / 0x100) % 0x100) as u8);
    out.push((x % 0x100) as u8);
    proof {
        assert(out@ =~= before + be32(x));
    }
}

} // verus!
