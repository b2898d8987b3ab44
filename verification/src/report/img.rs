//! The images of cards: large ones are made smaller before they are put in a page.

use crate::report::card::{opt_image, ImageRefV};
use crate::report::html::Embedded;
use crate::schema::ImageRef;
use crate::strs::{same, split, split_on, views};
use vstd::prelude::*;

pub mod laws;

verus! {

/// How wide an image in a page may be.
pub const MAX_WIDTH: u32 = 720;

/// How many bytes an image may have to be kept as it is.
pub const KEEP_UNDER: usize = 122880;

/// The quality of an image that was made smaller.
pub const QUALITY: u8 = 78;

/// What stands behind the last dot of the path of an image; `jpg` where there is no image.
pub open spec fn extension_of(i: Option<ImageRefV>) -> Seq<char> {
    match i {
        Some(r) => split_on(r.path, '.').last(),
        None => "jpg"@,
    }
}

pub fn ext_of(i: &Option<ImageRef>) -> (r: String)
    ensures
        r@ == extension_of(opt_image(*i)),
{
    match i {
        Some(x) => {
            let parts = split(x.path.as_str(), '.');
            proof {
                crate::strs::lemma_split_on_len(x.path@, '.');
                assert(views(parts@).len() == parts@.len());
                assert(views(parts@).last() == parts@[parts@.len() - 1]@);
            }
            parts[parts.len() - 1].clone()
        },
        None => "jpg".to_owned(),
    }
}

/// The kind of an image by its extension.
pub open spec fn mime_of(ext: Seq<char>) -> Seq<char> {
    if ext == "png"@ {
        "image/png"@
    } else if ext == "webp"@ {
        "image/webp"@
    } else if ext == "gif"@ {
        "image/gif"@
    } else {
        "image/jpeg"@
    }
}

pub fn mime(ext: &str) -> (r: &'static str)
    ensures
        r@ == mime_of(ext@),
{
    if same(ext, "png") {
        "image/png"
    } else if same(ext, "webp") {
        "image/webp"
    } else if same(ext, "gif") {
        "image/gif"
    } else {
        "image/jpeg"
    }
}

/// Names the width and the height of the image that `image::load_from_memory` makes of bytes, where
/// it makes one.
pub uninterp spec fn image_size(bytes: Seq<u8>) -> Option<(u32, u32)>;

/// How an image is made again for a page.
#[derive(Debug, Clone, Copy, PartialEq, Eq, Structural)]
pub struct Plan {
    pub width: u32,
    pub quality: u8,
}

/// How an image of so many bytes and of a size is made again: not at all where it is small or does
/// not read, else no wider than the cap.
pub open spec fn plan_of(len: nat, size: Option<(u32, u32)>) -> Option<Plan> {
    match size {
        Some((w, _)) => if len < KEEP_UNDER || w == 0 {
            None
        } else {
            Some(
                Plan {
                    width: if w > MAX_WIDTH {
                        MAX_WIDTH
                    } else {
                        w
                    },
                    quality: QUALITY,
                },
            )
        },
        None => None,
    }
}

pub fn plan(len: usize, size: Option<(u32, u32)>) -> (r: Option<Plan>)
    ensures
        r == plan_of(len as nat, size),
{
    match size {
        Some((w, _)) => if len < KEEP_UNDER || w == 0 {
            None
        } else {
            Some(
                Plan {
                    width: if w > MAX_WIDTH {
                        MAX_WIDTH
                    } else {
                        w
                    },
                    quality: QUALITY,
                },
            )
        },
        None => None,
    }
}

/// Whether an image that is made so wide is surely within the 65535 pixels to a side of JPEG.
pub open spec fn fits_jpeg(size: (u32, u32), width: u32) -> bool {
    0 < size.1 && size.1 * width <= 65534 * size.0
}

/// Whether an image that is made so wide is surely higher than JPEG allows.
pub open spec fn is_too_high(size: (u32, u32), width: u32) -> bool {
    size.1 * width >= 65536 * size.0
}

/// Reads an image with `image::load_from_memory` and tells its `DynamicImage::width` and `height`:
/// whether it reads, and its size, depend on the bytes alone.
#[verifier::external_body]
fn measured(bytes: &Vec<u8>) -> (r: Option<(u32, u32)>)
    ensures
        r == image_size(bytes@),
{
    image::load_from_memory(bytes).ok().map(|img| (img.width(), img.height()))
}

/// Makes an image again: reads it with `image::load_from_memory`, gives it a width with
/// `DynamicImage::resize`, which keeps its shape, and writes it with a `JpegEncoder` of a quality.
/// What is written reads as an image of that width. It is written unless a side is outside of what
/// JPEG allows. Nothing is said of the pixels: the decoder of JPEG chooses how to compute them by
/// the instructions that the processor has.
#[verifier::external_body]
fn reencoded(bytes: &Vec<u8>, width: u32, quality: u8) -> (r: Option<Vec<u8>>)
    requires
        plan_of(bytes@.len(), image_size(bytes@)) == Some(Plan { width, quality }),
    ensures
        r matches Some(b) ==> (image_size(b@) matches Some(size) && size.0 == width),
        fits_jpeg(image_size(bytes@)->0, width) ==> r is Some,
        is_too_high(image_size(bytes@)->0, width) ==> r is None,
{
    let img = image::load_from_memory(bytes).ok()?;
    let img = img.resize(width, u32::MAX, image::imageops::FilterType::Triangle);
    let mut out = std::io::Cursor::new(Vec::new());
    let enc = image::codecs::jpeg::JpegEncoder::new_with_quality(&mut out, quality);
    img.to_rgb8().write_with_encoder(enc).ok()?;
    Some(out.into_inner())
}

fn copy_bytes(v: &Vec<u8>) -> (r: Vec<u8>)
    ensures
        r@ == v@,
{
    let mut out: Vec<u8> = Vec::new();
    let mut i: usize = 0;
    while i < v.len()
        invariant
            i <= v@.len(),
            out@ == v@.take(i as int),
        decreases v.len() - i,
    {
        assert(v@.take(i + 1) =~= v@.take(i as int).push(v@[i as int]));
        out.push(v[i]);
        i += 1;
    }
    assert(v@.take(i as int) =~= v@);
    out
}

/// Whether an image in a page is the one that is in the cache.
pub open spec fn is_kept(e: Embedded, bytes: Seq<u8>, ext: Seq<char>) -> bool {
    e.mime@ == mime_of(ext) && e.bytes@ == bytes
}

/// Whether an image in a page is a JPEG of a width.
pub open spec fn is_remade(e: Embedded, width: u32) -> bool {
    e.mime@ == "image/jpeg"@ && (image_size(e.bytes@) matches Some(size) && size.0 == width)
}

/// Chooses between an image and a smaller one, where that could be made.
pub fn chosen(bytes: &Vec<u8>, ext: &str, smaller: Option<Vec<u8>>) -> (r: Embedded)
    ensures
        match smaller {
            Some(b) => r.mime@ == "image/jpeg"@ && r.bytes@ == b@,
            None => is_kept(r, bytes@, ext@),
        },
{
    match smaller {
        Some(b) => Embedded { mime: "image/jpeg".to_owned(), bytes: b },
        None => Embedded { mime: mime(ext).to_owned(), bytes: copy_bytes(bytes) },
    }
}

/// Prepares an image for a page. A small one, and one that does not read, is kept as it is; any
/// other is made again, no wider than the cap, where JPEG can hold it.
pub fn card_image(bytes: &Vec<u8>, ext: &str) -> (r: Embedded)
    ensures
        match plan_of(bytes@.len(), image_size(bytes@)) {
            None => is_kept(r, bytes@, ext@),
            Some(p) => {
                let size = image_size(bytes@)->0;
                &&& fits_jpeg(size, p.width) ==> is_remade(r, p.width)
                &&& is_too_high(size, p.width) ==> is_kept(r, bytes@, ext@)
                &&& is_kept(r, bytes@, ext@) || is_remade(r, p.width)
            },
        },
{
    match plan(bytes.len(), measured(bytes)) {
        Some(p) => chosen(bytes, ext, reencoded(bytes, p.width, p.quality)),
        None => chosen(bytes, ext, None),
    }
}

} // verus!
