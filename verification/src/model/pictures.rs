//! Pictures, as the `image` crate reads and resizes them.
use crate::model::thumbs::{ThumbHandle, ThumbView, is_picture};
use vstd::prelude::*;

verus! {

/// A picture of the `image` crate.
#[verifier::external_type_specification]
#[verifier::external_body]
pub struct ExDynamicImage(image::DynamicImage);

/// What a picture holds.
pub struct PictureModel {
    pub width: u32,
    pub height: u32,
    /// Whether it holds the samples of its pixels and no more.
    pub whole: bool,
    /// The samples, with their kind and their color space.
    pub samples: Seq<u8>,
}

/// The largest side that a picture is resized to.
pub const MAX_SIDE: u32 = 0x1_0000;

/// The most pixels that a picture has.
pub const MAX_PIXELS: u64 = 0x2000_0000;

/// What a picture of the `image` crate holds.
pub uninterp spec fn picture_held(p: image::DynamicImage) -> PictureModel;

/// The picture that the `image` crate reads from the bytes of a file with a
/// name, or the message that says why there is none.
pub uninterp spec fn picture_in(bytes: Seq<u8>, name: Seq<char>) -> Result<
    PictureModel,
    Seq<char>,
>;

/// What the `image` crate makes of a picture that is to fit into a square.
pub uninterp spec fn picture_fitted(p: PictureModel, max: u32) -> PictureModel;

/// The pixels that the `image` crate gives for a picture.
pub uninterp spec fn picture_pixels(p: PictureModel) -> ThumbView;

/// `ImageReader::decode` on bytes in memory, in the format that
/// `ImageFormat::from_path` finds in a file name: the picture or the displayed
/// error. What the formats make of the bytes is left to the name `picture_in`.
/// By its default limit of 512 MiB the reader gives no picture of more than
/// [`MAX_PIXELS`] pixels, and what it gives has exactly its samples.
#[verifier::external_body]
fn decode_picture(bytes: &[u8], name: &str) -> (r: Result<image::DynamicImage, String>)
    ensures
        (match r {
            Ok(p) => Ok(picture_held(p)),
            Err(m) => Err(m@),
        }) == picture_in(bytes@, name@),
        r matches Ok(p) ==> picture_held(p).whole && picture_held(p).width
            * picture_held(p).height <= MAX_PIXELS,
{
    let mut reader = image::ImageReader::new(std::io::Cursor::new(bytes));
    reader.set_format(image::ImageFormat::from_path(name).map_err(|e| e.to_string())?);
    reader.decode().map_err(|e| e.to_string())
}

/// Whether a side of `new` pixels is what a side of `old` pixels becomes when
/// `longest` pixels become `max`, up to rounding; no side vanishes.
pub open spec fn is_scaled(new: u32, old: u32, longest: u32, max: u32) -> bool {
    new == 1 || -longest <= new * longest - old * max <= longest
}

/// Whether a picture has been fitted into a square: no side is longer than
/// its side, and the aspect is preserved.
pub open spec fn is_fitted(old: PictureModel, new: PictureModel, max: u32) -> bool {
    let longest = if old.width < old.height {
        old.height
    } else {
        old.width
    };
    &&& 1 <= new.width <= max
    &&& 1 <= new.height <= max
    &&& old.width > 0 && old.height > 0 ==> {
        &&& new.width == max || new.height == max
        &&& is_scaled(new.width, old.width, longest, max)
        &&& is_scaled(new.height, old.height, longest, max)
    }
}

/// `DynamicImage::resize` with the triangle filter, into a square: the largest
/// picture of the same aspect that fits. What its samples are is left to the
/// name `picture_fitted`. The bounds keep the number of samples in range.
#[verifier::external_body]
fn fit_picture(p: &image::DynamicImage, max: u32) -> (r: image::DynamicImage)
    requires
        max <= MAX_SIDE,
        picture_held(*p).width * picture_held(*p).height <= MAX_PIXELS,
    ensures
        picture_held(r) == picture_fitted(picture_held(*p), max),
        picture_held(*p).whole ==> picture_held(r).whole,
        max > 0 ==> is_fitted(picture_held(*p), picture_held(r), max),
{
    p.resize(max, max, image::imageops::FilterType::Triangle)
}

/// `DynamicImage::to_rgba8`: the pixels of a picture, four bytes each, with
/// the sides of the picture. Which bytes they are is left to the name
/// `picture_pixels`.
#[verifier::external_body]
fn picture_rgba(p: &image::DynamicImage) -> (r: ThumbHandle)
    requires
        picture_held(*p).whole,
    ensures
        r@ == picture_pixels(picture_held(*p)),
        is_picture(r@),
        r.width == picture_held(*p).width,
        r.height == picture_held(*p).height,
{
    let rgba = p.to_rgba8();
    let (width, height) = rgba.dimensions();
    ThumbHandle { width, height, rgba: rgba.into_raw() }
}

/// The pixels in the bytes of a file, as they are.
pub open spec fn shown_picture(bytes: Seq<u8>, name: Seq<char>) -> Result<ThumbView, Seq<char>> {
    match picture_in(bytes, name) {
        Ok(p) => Ok(picture_pixels(p)),
        Err(m) => Err(m),
    }
}

/// The pixels of a thumbnail of what is in the bytes of a file.
pub open spec fn small_picture(bytes: Seq<u8>, name: Seq<char>, max: u32) -> Result<
    ThumbView,
    Seq<char>,
> {
    match picture_in(bytes, name) {
        Ok(p) => Ok(picture_pixels(picture_fitted(p, max))),
        Err(m) => Err(m),
    }
}

/// The view of pixels or an error.
pub open spec fn thumb_result(r: Result<ThumbHandle, String>) -> Result<ThumbView, Seq<char>> {
    match r {
        Ok(t) => Ok(t@),
        Err(m) => Err(m@),
    }
}

/// Reads the pixels of a picture as they are. The name tells the format.
pub fn read_picture(bytes: &[u8], name: &str) -> (r: Result<ThumbHandle, String>)
    ensures
        thumb_result(r) == shown_picture(bytes@, name@),
        r matches Ok(t) ==> is_picture(t@),
{
    match decode_picture(bytes, name) {
        Ok(p) => Ok(picture_rgba(&p)),
        Err(m) => Err(m),
    }
}

/// Makes a thumbnail of a picture, no longer than `max` on its longest side
/// and with its aspect preserved. The name tells the format.
pub fn make_thumbnail(bytes: &[u8], name: &str, max: u32) -> (r: Result<ThumbHandle, String>)
    requires
        max <= MAX_SIDE,
    ensures
        thumb_result(r) == small_picture(bytes@, name@, max),
        r matches Ok(t) ==> is_picture(t@),
        r matches Ok(t) ==> max > 0 ==> (picture_in(bytes@, name@) matches Ok(p) && is_fitted(
            p,
            PictureModel { width: t.width, height: t.height, ..p },
            max,
        )),
{
    match decode_picture(bytes, name) {
        Ok(p) => Ok(picture_rgba(&fit_picture(&p, max))),
        Err(m) => Err(m),
    }
}

} // verus!
