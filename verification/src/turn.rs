//! Turning of captured images, as their outputs are turned.
use crate::canvas::{image_layout, image_pixels, in_image, pixels_of, Rgba};
use crate::error::{fails_with, ErrorView, WayshotError};
use crate::output::Transform;
use crate::region::Size;
use crate::screencopy::FrameCopy;
use image::DynamicImage;
use vstd::prelude::*;

verus! {

/// The pixels of an image of the given size after left and right have been
/// exchanged.
pub open spec fn mirrored(pixels: Map<(int, int), Rgba>, width: int, height: int) -> Map<
    (int, int),
    Rgba,
> {
    Map::new(
        |p: (int, int)| in_image(width, height, p),
        |p: (int, int)| pixels[(width - 1 - p.0, p.1)],
    )
}

/// The pixels of an image of the given size after a quarter turn clockwise.
pub open spec fn rotated_90(pixels: Map<(int, int), Rgba>, width: int, height: int) -> Map<
    (int, int),
    Rgba,
> {
    Map::new(
        |p: (int, int)| in_image(height, width, p),
        |p: (int, int)| pixels[(p.1, height - 1 - p.0)],
    )
}

/// The pixels of an image of the given size after half a turn.
pub open spec fn rotated_180(pixels: Map<(int, int), Rgba>, width: int, height: int) -> Map<
    (int, int),
    Rgba,
> {
    Map::new(
        |p: (int, int)| in_image(width, height, p),
        |p: (int, int)| pixels[(width - 1 - p.0, height - 1 - p.1)],
    )
}

/// The pixels of an image of the given size after a quarter turn counterclockwise.
pub open spec fn rotated_270(pixels: Map<(int, int), Rgba>, width: int, height: int) -> Map<
    (int, int),
    Rgba,
> {
    Map::new(
        |p: (int, int)| in_image(height, width, p),
        |p: (int, int)| pixels[(width - 1 - p.1, p.0)],
    )
}

/// The pixels of an image of the given size after a transform: it is mirrored
/// first, where the transform does so, and then rotated.
pub open spec fn turned(
    pixels: Map<(int, int), Rgba>,
    width: int,
    height: int,
    transform: Transform,
) -> Map<(int, int), Rgba> {
    match transform {
        Transform::Normal => pixels,
        Transform::_90 => rotated_90(pixels, width, height),
        Transform::_180 => rotated_180(pixels, width, height),
        Transform::_270 => rotated_270(pixels, width, height),
        Transform::Flipped => mirrored(pixels, width, height),
        Transform::Flipped90 => rotated_90(mirrored(pixels, width, height), width, height),
        Transform::Flipped180 => rotated_180(mirrored(pixels, width, height), width, height),
        Transform::Flipped270 => rotated_270(mirrored(pixels, width, height), width, height),
    }
}

/// `DynamicImage::fliph` makes an image of the same size and layout, with left and
/// right exchanged.
#[verifier::external_body]
fn mirror(image: &DynamicImage) -> (res: DynamicImage)
    ensures
        image_layout(res) == image_layout(*image),
        image_pixels(res) == mirrored(
            image_pixels(*image),
            image_layout(*image).0,
            image_layout(*image).1,
        ),
{
    image.fliph()
}

/// `DynamicImage::rotate90` makes an image of the same layout, turned by a quarter
/// clockwise. It panics where a row of the new image, at up to four values for each
/// pixel, is beyond the address space.
#[verifier::external_body]
fn rotate_90(image: &DynamicImage) -> (res: DynamicImage)
    requires
        4 * image_layout(*image).1 <= usize::MAX,
    ensures
        image_layout(res) == (
            image_layout(*image).1,
            image_layout(*image).0,
            image_layout(*image).2,
        ),
        image_pixels(res) == rotated_90(
            image_pixels(*image),
            image_layout(*image).0,
            image_layout(*image).1,
        ),
{
    image.rotate90()
}

/// `DynamicImage::rotate180` makes an image of the same size and layout, turned by
/// half a turn.
#[verifier::external_body]
fn rotate_180(image: &DynamicImage) -> (res: DynamicImage)
    ensures
        image_layout(res) == image_layout(*image),
        image_pixels(res) == rotated_180(
            image_pixels(*image),
            image_layout(*image).0,
            image_layout(*image).1,
        ),
{
    image.rotate180()
}

/// `DynamicImage::rotate270` makes an image of the same layout, turned by a quarter
/// counterclockwise. It panics as `DynamicImage::rotate90` does.
#[verifier::external_body]
fn rotate_270(image: &DynamicImage) -> (res: DynamicImage)
    requires
        4 * image_layout(*image).1 <= usize::MAX,
    ensures
        image_layout(res) == (
            image_layout(*image).1,
            image_layout(*image).0,
            image_layout(*image).2,
        ),
        image_pixels(res) == rotated_270(
            image_pixels(*image),
            image_layout(*image).0,
            image_layout(*image).1,
        ),
{
    image.rotate270()
}

impl FrameCopy {
    /// The frame as an image, turned as it is shown. The image has the frame's
    /// physical size.
    pub fn to_turned_image(&self) -> (res: Result<DynamicImage, WayshotError>)
        requires
            self.complete() && self.transform.swaps_sides() ==> 4 * self.frame_format.size.height
                <= usize::MAX,
        ensures
            !self.complete() ==> fails_with(res, ErrorView::BufferTooSmall),
            self.complete() ==> (res matches Ok(image) && {
                let size = self.frame_format.size;
                let shown = self.transform.rotated_size(size);
                &&& image_layout(image) == (
                    shown.width as int,
                    shown.height as int,
                    self.frame_color_type is Rgba8,
                )
                &&& image_pixels(image) == turned(
                    pixels_of(
                        self.frame_data@,
                        size.width as int,
                        size.height as int,
                        self.frame_color_type.channels(),
                    ),
                    size.width as int,
                    size.height as int,
                    self.transform,
                )
            }),
    {
        let image = match self.to_image() {
            Ok(image) => image,
            Err(error) => return Err(error),
        };
        let image = match self.transform {
            Transform::Flipped
            | Transform::Flipped90
            | Transform::Flipped180
            | Transform::Flipped270 => mirror(&image),
            _ => image,
        };
        match self.transform {
            Transform::Normal | Transform::Flipped => Ok(image),
            Transform::_90 | Transform::Flipped90 => Ok(rotate_90(&image)),
            Transform::_180 | Transform::Flipped180 => Ok(rotate_180(&image)),
            Transform::_270 | Transform::Flipped270 => Ok(rotate_270(&image)),
        }
    }
}

/// Where a pixel of the turned image comes from. A quarter turn clockwise makes the
/// first row the last column, and half a turn the first row the last one, read
/// backwards; mirroring exchanges left and right, before the turn. The size of the
/// image does not matter for that.
///
/// `(x, y)` is a pixel of the turned image of a frame of the given size.
pub proof fn law_turning_moves_pixels(
    pixels: Map<(int, int), Rgba>,
    width: u32,
    height: u32,
    transform: Transform,
    x: int,
    y: int,
)
    requires
        forall|p: (int, int)| #[trigger]
            pixels.contains_key(p) <==> (0 <= p.0 < width && 0 <= p.1 < height),
    ensures
        ({
            let w = width as int;
            let h = height as int;
            let out = turned(pixels, w, h, transform);
            let quarter = transform == Transform::_90 || transform == Transform::_270 || transform
                == Transform::Flipped90 || transform == Transform::Flipped270;
            &&& out.contains_key((x, y)) <==> if quarter {
                0 <= x < h && 0 <= y < w
            } else {
                0 <= x < w && 0 <= y < h
            }
            &&& out.contains_key((x, y)) ==> out[(x, y)] == match transform {
                Transform::Normal => pixels[(x, y)],
                Transform::_90 => pixels[(y, h - 1 - x)],
                Transform::_180 => pixels[(w - 1 - x, h - 1 - y)],
                Transform::_270 => pixels[(w - 1 - y, x)],
                Transform::Flipped => pixels[(w - 1 - x, y)],
                Transform::Flipped90 => pixels[(w - 1 - y, h - 1 - x)],
                Transform::Flipped180 => pixels[(x, h - 1 - y)],
                Transform::Flipped270 => pixels[(y, x)],
            }
        }),
{
}

/// The corners of the frame go where the transform says: the upper left one to the
/// upper right after a quarter turn clockwise, to the lower right after half a turn,
/// and to the lower left after a quarter turn counterclockwise. Mirrored, it is the
/// upper right corner that goes there.
pub proof fn law_corner_is_turned(
    pixels: Map<(int, int), Rgba>,
    width: u32,
    height: u32,
    transform: Transform,
)
    requires
        width > 0,
        height > 0,
        forall|p: (int, int)| #[trigger]
            pixels.contains_key(p) <==> (0 <= p.0 < width && 0 <= p.1 < height),
    ensures
        ({
            let out = turned(pixels, width as int, height as int, transform);
            let size = transform.rotated_size(Size { width, height });
            let right = size.width - 1;
            let bottom = size.height - 1;
            match transform {
                Transform::Normal => out[(0, 0)] == pixels[(0, 0)],
                Transform::_90 => out[(right, 0)] == pixels[(0, 0)],
                Transform::_180 => out[(right, bottom)] == pixels[(0, 0)],
                Transform::_270 => out[(0, bottom)] == pixels[(0, 0)],
                Transform::Flipped => out[(0, 0)] == pixels[(width - 1, 0)],
                Transform::Flipped90 => out[(right, 0)] == pixels[(width - 1, 0)],
                Transform::Flipped180 => out[(right, bottom)] == pixels[(width - 1, 0)],
                Transform::Flipped270 => out[(0, bottom)] == pixels[(width - 1, 0)],
            }
        }),
{
}

/// Turning moves pixels and loses none: each turn has one that undoes it.
pub proof fn law_turns_are_undone(pixels: Map<(int, int), Rgba>, width: int, height: int)
    requires
        forall|p: (int, int)| #[trigger] pixels.contains_key(p) <==> in_image(width, height, p),
    ensures
        mirrored(mirrored(pixels, width, height), width, height) == pixels,
        rotated_180(rotated_180(pixels, width, height), width, height) == pixels,
        rotated_270(rotated_90(pixels, width, height), height, width) == pixels,
        rotated_90(rotated_270(pixels, width, height), height, width) == pixels,
{
    assert(mirrored(mirrored(pixels, width, height), width, height) =~= pixels);
    assert(rotated_180(rotated_180(pixels, width, height), width, height) =~= pixels);
    assert(rotated_270(rotated_90(pixels, width, height), height, width) =~= pixels);
    assert(rotated_90(rotated_270(pixels, width, height), height, width) =~= pixels);
}

} // verus!
