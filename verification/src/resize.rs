//! Resizing and re-encoding of loaded images: the resize policy applied by
//! the loader, and the fixed square bound used for thumbnails.

use vstd::prelude::*;
use crate::error::Error;
use crate::image::{image_dims, Image};
verus! {

/// Side of the square that thumbnails are fitted into, in pixels.
pub const THUMBNAIL_SIZE: u32 = 300;

/// JPEG quality used when the loader re-encodes a resized image.
pub const RESIZE_JPEG_QUALITY: u8 = 80;

/// JPEG quality used for thumbnails, kept low to make them small.
pub const THUMBNAIL_JPEG_QUALITY: u8 = 10;

/// The sampling filter applied when an image is resized.
#[derive(Debug, Clone, Copy, PartialEq, Eq, Structural)]
pub enum ResizeFilter {
    Nearest,
    Triangle,
    CatmullRom,
    Gaussian,
    Lanczos3,
}

/// The resize policy the loader applies to every loaded image: a height
/// bound (0 = unlimited) and the filter used to reach it.
#[derive(Debug, Clone, Copy, PartialEq, Eq, Structural)]
pub struct ResizePolicy {
    /// Greatest allowed height in pixels; 0 disables resizing.
    pub max_height: u32,
    /// Filter used when resizing.
    pub filter: ResizeFilter,
}

/// The filter named by a lower-case method name; any unknown name falls back
/// to `Triangle`.
pub open spec fn spec_filter_from_name(n: Seq<char>) -> ResizeFilter {
    if n == "nearest"@ {
        ResizeFilter::Nearest
    } else if n == "catmullrom"@ {
        ResizeFilter::CatmullRom
    } else if n == "gaussian"@ {
        ResizeFilter::Gaussian
    } else if n == "lanczos3"@ {
        ResizeFilter::Lanczos3
    } else {
        ResizeFilter::Triangle
    }
}

impl ResizeFilter {
    /// Parses a filter from its lower-case name; any unknown name falls back
    /// to `Triangle`.
    pub fn from_name(name: &str) -> (r: ResizeFilter)
        ensures
            r == spec_filter_from_name(name@),
    {
        let s = String::from_str(name);
        if s == String::from_str("nearest") {
            ResizeFilter::Nearest
        } else if s == String::from_str("catmullrom") {
            ResizeFilter::CatmullRom
        } else if s == String::from_str("gaussian") {
            ResizeFilter::Gaussian
        } else if s == String::from_str("lanczos3") {
            ResizeFilter::Lanczos3
        } else {
            ResizeFilter::Triangle
        }
    }
}

/// A stable code for each filter, so that a named result over plain values
/// can speak of the filter an encode was made with.
pub open spec fn filter_code(f: ResizeFilter) -> u8 {
    match f {
        ResizeFilter::Nearest => 0u8,
        ResizeFilter::Triangle => 1u8,
        ResizeFilter::CatmullRom => 2u8,
        ResizeFilter::Gaussian => 3u8,
        ResizeFilter::Lanczos3 => 4u8,
    }
}

/// Whether an image of height `h` must be resized under the bound `max_h`.
pub open spec fn needs_resize(h: u32, max_h: u32) -> bool {
    max_h != 0 && h > max_h
}

/// Width that keeps the aspect ratio when the height is scaled from `h` down
/// to `max_h`, rounded to the nearest pixel and clamped into `1..=w`.
pub open spec fn scaled_width(w: u32, h: u32, max_h: u32) -> u32
    recommends
        h > 0,
{
    let exact = ((w as int) * (max_h as int) + (h as int) / 2) / (h as int);
    let capped = if exact > w { w as int } else { exact };
    if capped < 1 {
        1u32
    } else {
        capped as u32
    }
}

/// Computes `scaled_width` in 64-bit arithmetic.
pub fn scaled_width_of(w: u32, h: u32, max_h: u32) -> (r: u32)
    requires
        h > 0,
    ensures
        r == scaled_width(w, h, max_h),
        r >= 1,
{
    proof {
        assert((w as int) * (max_h as int) <= 0xFFFF_FFFF * 0xFFFF_FFFF) by (nonlinear_arith)
            requires
                w <= 0xFFFF_FFFFu32 && max_h <= 0xFFFF_FFFFu32,
        ;
    }
    let n: u64 = (w as u64) * (max_h as u64) + (h as u64) / 2;
    let q: u64 = n / (h as u64);
    let c: u64 = if q > w as u64 {
        w as u64
    } else {
        q
    };
    if c < 1 {
        1
    } else {
        c as u32
    }
}

/// Dimensions that fit `w` by `h` into the thumbnail square while keeping the
/// aspect ratio: the larger side becomes `THUMBNAIL_SIZE`.
pub open spec fn thumb_dims(w: u32, h: u32) -> (u32, u32)
    recommends
        w > 0 && h > 0,
{
    if w >= h {
        (THUMBNAIL_SIZE, scaled_side(h, w))
    } else {
        (scaled_side(w, h), THUMBNAIL_SIZE)
    }
}

/// The shorter side scaled by `THUMBNAIL_SIZE / longer`, rounded, clamped
/// into `1..=THUMBNAIL_SIZE`.
pub open spec fn scaled_side(shorter: u32, longer: u32) -> u32
    recommends
        longer > 0,
{
    let exact = ((shorter as int) * (THUMBNAIL_SIZE as int) + (longer as int) / 2) / (longer
        as int);
    if exact < 1 {
        1u32
    } else if exact > THUMBNAIL_SIZE {
        THUMBNAIL_SIZE
    } else {
        exact as u32
    }
}

/// Computes `scaled_side` in 64-bit arithmetic.
fn scaled_side_of(shorter: u32, longer: u32) -> (r: u32)
    requires
        longer > 0,
    ensures
        r == scaled_side(shorter, longer),
{
    proof {
        assert((shorter as int) * (THUMBNAIL_SIZE as int) <= 0xFFFF_FFFF * 0xFFFF_FFFF)
            by (nonlinear_arith)
            requires
                shorter <= 0xFFFF_FFFFu32 && THUMBNAIL_SIZE <= 0xFFFF_FFFFu32,
        ;
    }
    let n: u64 = (shorter as u64) * (THUMBNAIL_SIZE as u64) + (longer as u64) / 2;
    let q: u64 = n / (longer as u64);
    if q < 1 {
        1
    } else if q > THUMBNAIL_SIZE as u64 {
        THUMBNAIL_SIZE
    } else {
        q as u32
    }
}

/// Computes `thumb_dims`.
pub fn thumb_dims_of(w: u32, h: u32) -> (r: (u32, u32))
    requires
        w > 0,
        h > 0,
    ensures
        r == thumb_dims(w, h),
        r.0 >= 1 && r.1 >= 1,
{
    if w >= h {
        (THUMBNAIL_SIZE, scaled_side_of(h, w))
    } else {
        (scaled_side_of(w, h), THUMBNAIL_SIZE)
    }
}

/// What decoding `data`, resizing it to exactly `nw` by `nh` with the
/// filter of code `filter`, and re-encoding it as a JPEG of that quality
/// yields; `None` where the bytes decode as no image or the result cannot
/// be encoded. A function of the arguments alone.
pub uninterp spec fn jpeg_resized(data: Seq<u8>, nw: u32, nh: u32, filter: u8, quality: u8) -> Option<
    Seq<u8>,
>;

/// The sampling-filter choice of the `image` crate, opaque to the library.
#[verifier::external_type_specification]
#[verifier::external_body]
pub struct ExFilterType(image::imageops::FilterType);

/// Relies on `image::imageops::FilterType`: the crate's filter of the same
/// name as ours.
#[verifier::external_body]
fn filter_type_of(filter: ResizeFilter) -> (r: image::imageops::FilterType) {
    match filter {
        ResizeFilter::Nearest => image::imageops::FilterType::Nearest,
        ResizeFilter::Triangle => image::imageops::FilterType::Triangle,
        ResizeFilter::CatmullRom => image::imageops::FilterType::CatmullRom,
        ResizeFilter::Gaussian => image::imageops::FilterType::Gaussian,
        ResizeFilter::Lanczos3 => image::imageops::FilterType::Lanczos3,
    }
}

/// Relies on `image`'s `ImageReader`, `DynamicImage::resize_exact` and
/// `JpegEncoder`: decodes `data`, resizes it to exactly `nw` by `nh` with
/// `filter`, and re-encodes it as a JPEG of that quality — the bytes the
/// name `jpeg_resized` stands for, whose stated dimensions are `nw` by
/// `nh`; it fails exactly where that name is `None`.
#[verifier::external_body]
fn resize_encode_jpeg(data: &Vec<u8>, nw: u32, nh: u32, filter: ResizeFilter, quality: u8) -> (r:
    Result<Vec<u8>, Error>)
    requires
        nw >= 1,
        nh >= 1,
    ensures
        r matches Ok(d) ==> Some(d@) == jpeg_resized(data@, nw, nh, filter_code(filter), quality)
            && image_dims(d@) == Some((nw, nh)),
        r is Ok <==> jpeg_resized(data@, nw, nh, filter_code(filter), quality) is Some,
        r matches Err(e) ==> e is Decode,
{
    let ft = filter_type_of(filter);
    let cursor = std::io::Cursor::new(data);
    let img = image::ImageReader::new(cursor)
        .with_guessed_format()
        .map_err(|e| Error::Decode(e.to_string()))?
        .decode()
        .map_err(|e| Error::Decode(e.to_string()))?;
    let resized = img.resize_exact(nw, nh, ft);
    let mut buffer = Vec::new();
    let mut encoder = image::codecs::jpeg::JpegEncoder::new_with_quality(&mut buffer, quality);
    encoder.encode_image(&resized).map_err(|e| Error::Decode(e.to_string()))?;
    Ok(buffer)
}

/// Applies the resize policy to a loaded image: images within the height
/// bound pass through unchanged; taller ones are resized to the bound with
/// the policy's filter and re-encoded as a JPEG.
pub fn apply_policy(img: Image, policy: &ResizePolicy) -> (r: Result<Image, Error>)
    ensures
        !needs_resize(img.height, policy.max_height) ==> (r matches Ok(out) && out.data@
            == img.data@ && out.width == img.width && out.height == img.height),
        needs_resize(img.height, policy.max_height) ==> (r is Ok <==> jpeg_resized(
            img.data@,
            scaled_width(img.width, img.height, policy.max_height),
            policy.max_height,
            filter_code(policy.filter),
            RESIZE_JPEG_QUALITY,
        ) is Some),
        needs_resize(img.height, policy.max_height) ==> (r matches Ok(out) ==> out.wf()
            && out.height == policy.max_height && out.width == scaled_width(
            img.width,
            img.height,
            policy.max_height,
        ) && Some(out.data@) == jpeg_resized(
            img.data@,
            scaled_width(img.width, img.height, policy.max_height),
            policy.max_height,
            filter_code(policy.filter),
            RESIZE_JPEG_QUALITY,
        )),
        r matches Err(e) ==> e is Decode && needs_resize(img.height, policy.max_height),
{
    if policy.max_height != 0 && img.height > policy.max_height {
        let nw = scaled_width_of(img.width, img.height, policy.max_height);
        let nh = policy.max_height;
        match resize_encode_jpeg(&img.data, nw, nh, policy.filter, RESIZE_JPEG_QUALITY) {
            Ok(d) => Ok(Image { data: d, width: nw, height: nh }),
            Err(e) => Err(e),
        }
    } else {
        Ok(img)
    }
}

/// Renders an image's thumbnail: the source is decoded, fitted into the
/// thumbnail square and re-encoded as a low-quality JPEG.
pub fn make_thumbnail(data: &Vec<u8>, w: u32, h: u32) -> (r: Result<Image, Error>)
    requires
        w > 0,
        h > 0,
    ensures
        r matches Ok(out) ==> out.wf() && (out.width, out.height) == thumb_dims(w, h)
            && out.width <= THUMBNAIL_SIZE && out.height <= THUMBNAIL_SIZE && Some(out.data@)
            == jpeg_resized(
            data@,
            thumb_dims(w, h).0,
            thumb_dims(w, h).1,
            filter_code(ResizeFilter::Nearest),
            THUMBNAIL_JPEG_QUALITY,
        ),
        r is Ok <==> jpeg_resized(
            data@,
            thumb_dims(w, h).0,
            thumb_dims(w, h).1,
            filter_code(ResizeFilter::Nearest),
            THUMBNAIL_JPEG_QUALITY,
        ) is Some,
        r matches Err(e) ==> e is Decode,
{
    let dims = thumb_dims_of(w, h);
    match resize_encode_jpeg(data, dims.0, dims.1, ResizeFilter::Nearest, THUMBNAIL_JPEG_QUALITY) {
        Ok(d) => Ok(Image { data: d, width: dims.0, height: dims.1 }),
        Err(e) => Err(e),
    }
}

} // verus!
