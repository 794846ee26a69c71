//! PNG encoding and decoding of clipboard images through the `image` crate.
use vstd::prelude::*;

verus! {

/// An RGBA image of the `image` crate (`image::RgbaImage`). `image::ImageBuffer`
/// cannot be declared as an outside type here (its `Pixel` bound is an outside
/// trait), so the image is held here, opaque, and described by [`rgba_contents`].
#[verifier::external_body]
pub struct RgbaBuffer {
    inner: image::RgbaImage,
}

/// What an RGBA image holds: its width, its height and its subpixel buffer.
pub uninterp spec fn rgba_contents(img: RgbaBuffer) -> (u32, u32, Seq<u8>);

/// The PNG file that the `image` crate writes for an RGBA image of the given
/// width, height and subpixel buffer.
pub uninterp spec fn png_encoding(width: u32, height: u32, samples: Seq<u8>) -> Seq<u8>;

/// The RGBA image (width, height, subpixels) that the `image` crate decodes from an
/// encoded image file, or `None` when it cannot decode it.
pub uninterp spec fn decoded_rgba8(data: Seq<u8>) -> Option<(u32, u32, Seq<u8>)>;

/// `image::ImageBuffer::from_raw` for RGBA pixels: the buffer becomes the image when
/// it holds at least four subpixels for each of the `width * height` pixels, the
/// product computed with overflow checks in `usize`; otherwise there is no image.
#[verifier::external_body]
pub(crate) fn rgba_from_raw(width: u32, height: u32, buf: Vec<u8>) -> (img: Option<RgbaBuffer>)
    ensures
        img is Some ==> 4 * width * height <= buf@.len(),
        4 * width <= usize::MAX && 4 * width * height <= buf@.len() ==> img is Some,
        img matches Some(i) ==> rgba_contents(i) == (width, height, buf@),
{
    match image::RgbaImage::from_raw(width, height, buf) {
        Some(inner) => Some(RgbaBuffer { inner }),
        None => None,
    }
}

/// `image::ImageBuffer::write_to` in PNG format, into an in-memory buffer: when it
/// succeeds, the buffer holds the image's PNG encoding. The `png` encoder refuses
/// an image of zero width or zero height (its header check) and, writing 8-bit RGBA
/// into memory, nothing else.
#[verifier::external_body]
pub(crate) fn rgba_write_png(img: &RgbaBuffer) -> (png: Option<Vec<u8>>)
    ensures
        png is None <==> rgba_contents(*img).0 == 0 || rgba_contents(*img).1 == 0,
        png matches Some(b) ==> b@ == png_encoding(
            rgba_contents(*img).0,
            rgba_contents(*img).1,
            rgba_contents(*img).2,
        ),
{
    let mut cursor = std::io::Cursor::new(Vec::new());
    match img.inner.write_to(&mut cursor, image::ImageFormat::Png) {
        Ok(()) => Some(cursor.into_inner()),
        Err(_) => None,
    }
}

/// `image::load_from_memory`, with the decoded image converted to an RGBA image
/// (`DynamicImage::to_rgba8`, the conversion of the result to the type held here):
/// there is an image exactly when the data decodes, and it is the decoded image.
#[verifier::external_body]
pub(crate) fn rgba_load_from_memory(data: &[u8]) -> (img: Option<RgbaBuffer>)
    ensures
        img is Some <==> decoded_rgba8(data@) is Some,
        img matches Some(i) ==> decoded_rgba8(data@) == Some(rgba_contents(i)),
{
    match image::load_from_memory(data) {
        Ok(dynamic) => Some(RgbaBuffer { inner: dynamic.to_rgba8() }),
        Err(_) => None,
    }
}

/// `image::ImageBuffer::dimensions`: the image's width and height.
#[verifier::external_body]
pub(crate) fn rgba_dimensions(img: &RgbaBuffer) -> (wh: (u32, u32))
    ensures
        wh == (rgba_contents(*img).0, rgba_contents(*img).1),
{
    img.inner.dimensions()
}

/// `image::ImageBuffer::into_raw`: the image's subpixel buffer.
#[verifier::external_body]
pub(crate) fn rgba_into_raw(img: RgbaBuffer) -> (buf: Vec<u8>)
    ensures
        buf@ == rgba_contents(img).2,
{
    img.inner.into_raw()
}

} // verus!
