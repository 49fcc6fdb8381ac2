//! Images, and how one is painted over another.
use vstd::prelude::*;
use image::DynamicImage;

verus! {

/// An image of the `image` crate.
#[verifier::external_type_specification]
#[verifier::external_body]
pub struct ExDynamicImage(DynamicImage);

/// A colour: red, green, blue and alpha.
pub type Rgba = (u8, u8, u8, u8);

/// The pixels of an image, by column and row, each as a colour of eight bits.
pub uninterp spec fn image_pixels(image: DynamicImage) -> Map<(int, int), (u8, u8, u8, u8)>;

/// The width and the height of an image, and whether it stores its pixels as
/// colours of eight bits with alpha.
pub uninterp spec fn image_layout(image: DynamicImage) -> (int, int, bool);

/// `(x, y)` is a pixel of an image of this size.
pub open spec fn in_image(width: int, height: int, pixel: (int, int)) -> bool {
    0 <= pixel.0 < width && 0 <= pixel.1 < height
}

/// The pixels of an image that is transparent all over.
pub open spec fn transparent(width: int, height: int) -> Map<(int, int), Rgba> {
    Map::new(|p: (int, int)| in_image(width, height, p), |p: (int, int)| (0u8, 0u8, 0u8, 0u8))
}

/// The pixels of `bottom` after those of `top` have been painted over them, with
/// the upper left corner of `top` at `(x, y)`; what lies outside of `bottom` is cut
/// off.
pub open spec fn painted(
    bottom: Map<(int, int), Rgba>,
    top: Map<(int, int), Rgba>,
    x: int,
    y: int,
) -> Map<(int, int), Rgba> {
    Map::new(
        |p: (int, int)| bottom.contains_key(p),
        |p: (int, int)|
            if top.contains_key((p.0 - x, p.1 - y)) {
                top[(p.0 - x, p.1 - y)]
            } else {
                bottom[p]
            },
    )
}

/// The pixels that rows of bytes hold, `channels` bytes for each pixel; without a
/// fourth byte a pixel is opaque.
pub open spec fn pixels_of(data: Seq<u8>, width: int, height: int, channels: int) -> Map<
    (int, int),
    Rgba,
> {
    Map::new(
        |p: (int, int)| in_image(width, height, p),
        |p: (int, int)|
            {
                let i = (p.1 * width + p.0) * channels;
                (
                    data[i],
                    data[i + 1],
                    data[i + 2],
                    if channels == 4 {
                        data[i + 3]
                    } else {
                        255u8
                    },
                )
            },
    )
}

/// `DynamicImage::new_rgba8` makes an image of the given size whose bytes are all
/// zero. It panics where the image has more bytes than memory can be addressed.
#[verifier::external_body]
pub(crate) fn new_rgba8(width: u32, height: u32) -> (res: DynamicImage)
    requires
        4 * width <= usize::MAX,
        4 * width * height <= isize::MAX,
    ensures
        image_layout(res) == (width as int, height as int, true),
        image_pixels(res) == transparent(width as int, height as int),
{
    DynamicImage::new_rgba8(width, height)
}

/// `image::imageops::replace` sets each pixel of `bottom` over which `top` lies,
/// when its upper left corner is put at `(x, y)`, to that of `top`, and leaves the
/// others. Where `bottom` stores other than colours of eight bits with alpha, they
/// would be converted on the way.
#[verifier::external_body]
pub(crate) fn replace(bottom: &mut DynamicImage, top: &DynamicImage, x: i64, y: i64)
    requires
        image_layout(*old(bottom)).2,
    ensures
        image_layout(*final(bottom)) == image_layout(*old(bottom)),
        image_pixels(*final(bottom)) == painted(
            image_pixels(*old(bottom)),
            image_pixels(*top),
            x as int,
            y as int,
        ),
{
    image::imageops::replace(bottom, top, x, y);
}

/// `ImageBuffer::from_raw`, for pixels of four bytes, takes the bytes as rows of
/// pixels, from the top to the bottom. It gives nothing where there are too few of
/// them, or where the length of a row, and with it that of the image, is beyond the
/// address space.
#[verifier::external_body]
pub(crate) fn image_from_rgba8(width: u32, height: u32, data: Vec<u8>) -> (res: Option<
    DynamicImage,
>)
    ensures
        res is Some <==> (4 * width <= usize::MAX && 4 * width * height <= data@.len()),
        res matches Some(image) ==> image_layout(image) == (width as int, height as int, true),
        res matches Some(image) ==> image_pixels(image) == pixels_of(
            data@,
            width as int,
            height as int,
            4,
        ),
{
    image::RgbaImage::from_raw(width, height, data).map(DynamicImage::ImageRgba8)
}

/// `ImageBuffer::from_raw`, for pixels of three bytes, likewise.
#[verifier::external_body]
pub(crate) fn image_from_rgb8(width: u32, height: u32, data: Vec<u8>) -> (res: Option<
    DynamicImage,
>)
    ensures
        res is Some <==> (3 * width <= usize::MAX && 3 * width * height <= data@.len()),
        res matches Some(image) ==> image_layout(image) == (width as int, height as int, false),
        res matches Some(image) ==> image_pixels(image) == pixels_of(
            data@,
            width as int,
            height as int,
            3,
        ),
{
    image::RgbImage::from_raw(width, height, data).map(DynamicImage::ImageRgb8)
}

/// What is painted last lies on top: painting the same image at the same place a
/// second time changes nothing.
pub proof fn law_painting_is_idempotent(
    bottom: Map<(int, int), Rgba>,
    top: Map<(int, int), Rgba>,
    x: int,
    y: int,
)
    ensures
        painted(painted(bottom, top, x, y), top, x, y) == painted(bottom, top, x, y),
{
    assert(painted(painted(bottom, top, x, y), top, x, y) =~= painted(bottom, top, x, y));
}

/// The bytes of a frame are its pixels, row by row from the top, each from left to
/// right; a pixel of three bytes is opaque.
pub proof fn law_bytes_are_pixels(
    data: Seq<u8>,
    width: int,
    height: int,
    channels: int,
    x: int,
    y: int,
)
    requires
        channels == 3 || channels == 4,
    ensures
        ({
            let pixels = pixels_of(data, width, height, channels);
            let first = channels * (x + width * y);
            &&& pixels.contains_key((x, y)) <==> 0 <= x < width && 0 <= y < height
            &&& pixels.contains_key((x, y)) ==> {
                &&& pixels[(x, y)].0 == data[first]
                &&& pixels[(x, y)].1 == data[first + 1]
                &&& pixels[(x, y)].2 == data[first + 2]
                &&& channels == 4 ==> pixels[(x, y)].3 == data[first + 3]
                &&& channels == 3 ==> pixels[(x, y)].3 == 255
            }
        }),
{
    assert((y * width + x) * channels == channels * (x + width * y)) by (nonlinear_arith);
}

} // verus!
