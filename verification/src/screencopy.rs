//! Frames and their pixel formats.
use crate::canvas::{
    image_from_rgb8, image_from_rgba8, image_layout, image_pixels, law_bytes_are_pixels, pixels_of,
};
use crate::convert::{converter_for, create_converter, Converter};
use crate::error::{fails_with, ErrorView, WayshotError};
use crate::output::{OutputInfo, Transform};
use crate::region::{EmbeddedRegion, LogicalRegion, Size};
use crate::wire::{modifier_high, modifier_low, to_signed, wrapped};
use drm_fourcc::DrmFourcc;
use image::DynamicImage;
use vstd::prelude::*;

verus! {

/// A pixel format of a shared memory buffer.
#[derive(Debug, Clone, Copy, PartialEq, Eq, Structural)]
pub enum Format {
    Argb8888,
    Xrgb8888,
    Bgr888,
    Xbgr8888,
    Xrgb2101010,
    Xbgr2101010,
    Abgr2101010,
    /// Any other format, by its code.
    Other(u32),
}

impl Format {
    /// The code of the format in the protocol.
    pub open spec fn wire_code(self) -> u32 {
        match self {
            Format::Argb8888 => 0,
            Format::Xrgb8888 => 1,
            Format::Bgr888 => 0x3432_4742,
            Format::Xbgr8888 => 0x3432_4258,
            Format::Xrgb2101010 => 0x3033_5258,
            Format::Xbgr2101010 => 0x3033_4258,
            Format::Abgr2101010 => 0x3033_4241,
            Format::Other(code) => code,
        }
    }

    /// A format with a name is not given by its code.
    pub open spec fn wf(self) -> bool {
        self matches Format::Other(code) ==> {
            &&& code > 1
            &&& code != 0x3432_4742
            &&& code != 0x3432_4258
            &&& code != 0x3033_5258
            &&& code != 0x3033_4258
            &&& code != 0x3033_4241
        }
    }

    pub fn code(self) -> (res: u32)
        ensures
            res == self.wire_code(),
    {
        match self {
            Format::Argb8888 => 0,
            Format::Xrgb8888 => 1,
            Format::Bgr888 => 0x3432_4742,
            Format::Xbgr8888 => 0x3432_4258,
            Format::Xrgb2101010 => 0x3033_5258,
            Format::Xbgr2101010 => 0x3033_4258,
            Format::Abgr2101010 => 0x3033_4241,
            Format::Other(code) => code,
        }
    }

    /// The format that has the code `code` in the protocol.
    pub fn from_code(code: u32) -> (res: Self)
        ensures
            res.wf(),
            res.wire_code() == code,
    {
        match code {
            0 => Format::Argb8888,
            1 => Format::Xrgb8888,
            0x3432_4742 => Format::Bgr888,
            0x3432_4258 => Format::Xbgr8888,
            0x3033_5258 => Format::Xrgb2101010,
            0x3033_4258 => Format::Xbgr2101010,
            0x3033_4241 => Format::Abgr2101010,
            _ => Format::Other(code),
        }
    }

    /// Frames of an output can be read in this format.
    pub open spec fn readable(self) -> bool {
        !(self is Other)
    }

    /// Frames of a window can be read in this format.
    pub open spec fn readable_for_windows(self) -> bool {
        self.readable() && !(self is Xrgb2101010) && !(self is Bgr888)
    }

    pub fn is_readable(self) -> (res: bool)
        ensures
            res == self.readable(),
    {
        matches!(
            self,
            Format::Xbgr2101010
            | Format::Xrgb2101010
            | Format::Abgr2101010
            | Format::Argb8888
            | Format::Xrgb8888
            | Format::Xbgr8888
            | Format::Bgr888
        )
    }

    pub fn is_readable_for_windows(self) -> (res: bool)
        ensures
            res == self.readable_for_windows(),
    {
        matches!(
            self,
            Format::Xbgr2101010
            | Format::Abgr2101010
            | Format::Argb8888
            | Format::Xrgb8888
            | Format::Xbgr8888
        )
    }
}

/// The layout of the pixels of an image.
#[derive(Debug, Clone, Copy, PartialEq, Eq, Structural)]
pub enum ColorType {
    Rgb8,
    Rgba8,
}

/// A shared memory buffer that the compositor accepts for a frame.
#[derive(Debug, Clone, Copy, PartialEq, Eq, Structural)]
pub struct FrameFormat {
    pub format: Format,
    pub size: Size,
    /// The number of bytes in a row.
    pub stride: u32,
}

impl FrameFormat {
    /// The number of bytes in a frame.
    pub fn byte_size(&self) -> (res: u64)
        ensures
            res == self.stride * self.size.height,
    {
        proof {
            assert(self.stride * self.size.height <= 0xffff_ffff * 0xffff_ffff)
                by (nonlinear_arith)
                requires
                    self.stride <= 0xffff_ffff,
                    self.size.height <= 0xffff_ffff,
            ;
        }
        self.stride as u64 * self.size.height as u64
    }
}

/// A DMA-BUF that the compositor accepts for a frame.
#[derive(Debug, Clone, Copy, PartialEq, Eq, Structural)]
pub struct DMAFrameFormat {
    /// The code of the pixel format.
    pub format: u32,
    pub size: Size,
}

/// The buffer that a capture session asks for.
#[derive(Debug, Clone, Copy, PartialEq, Eq, Structural)]
pub struct FrameInfo {
    pub format: Format,
    pub size: Size,
    pub stride: u32,
}

impl FrameInfo {
    /// What is assumed until the compositor has spoken.
    pub fn placeholder() -> (res: Self)
        ensures
            res == (FrameInfo {
                format: Format::Xrgb8888,
                size: Size { width: 0, height: 0 },
                stride: 0,
            }),
    {
        FrameInfo { format: Format::Xrgb8888, size: Size { width: 0, height: 0 }, stride: 0 }
    }

    /// The number of bytes in a frame.
    pub fn byte_size(&self) -> (res: u32)
        requires
            self.stride * self.size.height <= u32::MAX,
        ensures
            res == self.stride * self.size.height,
    {
        self.stride * self.size.height
    }
}

/// A format and its code stand for each other: no two formats share a code.
pub proof fn law_codes_are_distinct(a: Format, b: Format)
    requires
        a.wf(),
        b.wf(),
        a.wire_code() == b.wire_code(),
    ensures
        a == b,
{
}

/// Frames are copied by the screencopy manager, which the compositor may lack.
pub fn require_screencopy(available: bool) -> (res: Result<(), WayshotError>)
    ensures
        available ==> res is Ok,
        !available ==> fails_with(
            res,
            ErrorView::ProtocolNotFound("ZwlrScreencopy Manager not found"@),
        ),
{
    if available {
        Ok(())
    } else {
        Err(WayshotError::ProtocolNotFound("ZwlrScreencopy Manager not found".to_owned()))
    }
}

/// The request by which the compositor is asked to copy a frame.
#[derive(Debug, Clone, Copy, PartialEq, Eq, Structural)]
pub enum CaptureRequest {
    /// Of a whole output.
    Output { cursor_overlay: i32 },
    /// Of a part of an output, in its coordinates.
    Region { cursor_overlay: i32, x: i32, y: i32, width: i32, height: i32 },
}

/// Asks for a region, or for the whole output where none is given.
pub fn capture_request(
    cursor_overlay: i32,
    capture_region: Option<EmbeddedRegion>,
) -> (res: CaptureRequest)
    ensures
        match capture_region {
            None => res == (CaptureRequest::Output { cursor_overlay }),
            Some(region) => res == (CaptureRequest::Region {
                cursor_overlay,
                x: region.inner.position.x,
                y: region.inner.position.y,
                width: wrapped(region.inner.size.width as int) as i32,
                height: wrapped(region.inner.size.height as int) as i32,
            }),
        },
{
    match capture_region {
        Some(region) => CaptureRequest::Region {
            cursor_overlay,
            x: region.inner.position.x,
            y: region.inner.position.y,
            width: to_signed(region.inner.size.width),
            height: to_signed(region.inner.size.height),
        },
        None => CaptureRequest::Output { cursor_overlay },
    }
}

/// The shared memory that a frame is copied into: a pool, and a buffer at its
/// start.
#[derive(Debug, Clone, Copy, PartialEq, Eq, Structural)]
pub struct ShmBuffer {
    pub pool_size: i32,
    pub width: i32,
    pub height: i32,
    pub stride: i32,
    pub format: Format,
}

impl FrameFormat {
    /// The shared memory for a frame of this format. The size of a pool is a
    /// signed number, so that a frame may be too large for one.
    pub fn shm_buffer(&self) -> (res: Result<ShmBuffer, WayshotError>)
        ensures
            self.stride * self.size.height > i32::MAX ==> fails_with(
                res,
                ErrorView::BufferTooSmall,
            ),
            self.stride * self.size.height <= i32::MAX ==> res == Ok::<ShmBuffer, WayshotError>(
                ShmBuffer {
                    pool_size: (self.stride * self.size.height) as i32,
                    width: wrapped(self.size.width as int) as i32,
                    height: wrapped(self.size.height as int) as i32,
                    stride: wrapped(self.stride as int) as i32,
                    format: self.format,
                },
            ),
    {
        let bytes: u64 = self.byte_size();
        if bytes > 0x7fff_ffff {
            return Err(WayshotError::BufferTooSmall);
        }
        Ok(
            ShmBuffer {
                pool_size: bytes as i32,
                width: to_signed(self.size.width),
                height: to_signed(self.size.height),
                stride: to_signed(self.stride),
                format: self.format,
            },
        )
    }
}

/// The DMA-BUF that a frame is copied into: one plane, at the start of the buffer.
#[derive(Debug, Clone, Copy, PartialEq, Eq, Structural)]
pub struct DmabufBuffer {
    pub stride: u32,
    pub modifier_high: u32,
    pub modifier_low: u32,
    pub width: i32,
    pub height: i32,
    pub format: u32,
}

/// The code is that of a pixel format which the `drm-fourcc` crate knows.
pub uninterp spec fn fourcc_known(code: u32) -> bool;

/// `DrmFourcc::try_from` looks a code up among those of the known pixel formats,
/// and gives the format that has this code, where there is one. The type is what the
/// `gbm` crate re-exports as its `Format`; it is taken from the crate that defines it,
/// so that the library does not need the native GBM.
#[verifier::external_body]
fn find_fourcc(code: u32) -> (res: Option<u32>)
    ensures
        res is Some <==> fourcc_known(code),
        res matches Some(found) ==> found == code,
{
    DrmFourcc::try_from(code).ok().map(|format| format as u32)
}

impl DMAFrameFormat {
    /// The code of the pixel format, where it is a known one.
    pub fn fourcc(&self) -> (res: Result<u32, WayshotError>)
        ensures
            fourcc_known(self.format) ==> res == Ok::<u32, WayshotError>(self.format),
            !fourcc_known(self.format) ==> fails_with(
                res,
                ErrorView::UnrecognizedFourcc(self.format),
            ),
    {
        match find_fourcc(self.format) {
            Some(code) => Ok(code),
            None => Err(WayshotError::UnrecognizedFourcc(self.format)),
        }
    }

    /// The parameters of a DMA-BUF for a frame of this format.
    pub fn dmabuf_buffer(&self, stride: u32, modifier: u64) -> (res: DmabufBuffer)
        ensures
            res.stride == stride,
            res.modifier_high == modifier / 0x1_0000_0000,
            res.modifier_low == modifier % 0x1_0000_0000,
            res.width == wrapped(self.size.width as int),
            res.height == wrapped(self.size.height as int),
            res.format == self.format,
    {
        DmabufBuffer {
            stride,
            modifier_high: modifier_high(modifier),
            modifier_low: modifier_low(modifier),
            width: to_signed(self.size.width),
            height: to_signed(self.size.height),
            format: self.format,
        }
    }
}

/// A copied frame.
#[derive(Debug)]
pub struct FrameCopy {
    pub frame_format: FrameFormat,
    pub frame_color_type: ColorType,
    /// The pixels, as `frame_color_type` says.
    pub frame_data: Vec<u8>,
    pub transform: Transform,
    /// What the frame shows.
    pub logical_region: LogicalRegion,
    /// The size of the frame, turned as it is shown.
    pub physical_size: Size,
}

impl ColorType {
    /// The number of bytes of a pixel.
    pub open spec fn channels(self) -> int {
        match self {
            ColorType::Rgb8 => 3,
            ColorType::Rgba8 => 4,
        }
    }
}

impl FrameCopy {
    /// The frame was copied from an output, or from a region of it, in the given
    /// format and as `frame_data`, and its pixels were converted.
    pub open spec fn is_of<O>(
        self,
        frame_format: FrameFormat,
        frame_data: Seq<u8>,
        converter: Converter,
        output_info: OutputInfo<O>,
        capture_region: Option<EmbeddedRegion>,
    ) -> bool {
        &&& self.frame_format == frame_format
        &&& self.frame_color_type == converter.color_type()
        &&& self.frame_data@ == converter.converted(frame_data)
        &&& self.transform == output_info.transform
        &&& self.physical_size == output_info.transform.rotated_size(frame_format.size)
        &&& match capture_region {
            None => self.logical_region == output_info.logical_region,
            Some(region) => self.logical_region.inner == region.in_logical_space(),
        }
    }

    /// The frame that the compositor copied, as `frame_data`, of an output or of a
    /// region of it. The pixels are converted; without a conversion for their
    /// format the frame is refused.
    pub fn new<O>(
        frame_format: FrameFormat,
        frame_data: Vec<u8>,
        output_info: &OutputInfo<O>,
        capture_region: Option<EmbeddedRegion>,
    ) -> (res: Result<Self, WayshotError>)
        requires
            converter_for(frame_format.format) is Some ==> (capture_region matches Some(region)
                ==> region.position_fits()),
        ensures
            converter_for(frame_format.format) is None ==> fails_with(
                res,
                ErrorView::NoSupportedBufferFormat,
            ),
            converter_for(frame_format.format) matches Some(converter) ==> (res matches Ok(copy)
                && copy.is_of(frame_format, frame_data@, converter, *output_info, capture_region)),
    {
        let mut frame_data = frame_data;
        let frame_color_type = match create_converter(frame_format.format) {
            Some(converter) => converter.convert_inplace(&mut frame_data),
            None => return Err(WayshotError::NoSupportedBufferFormat),
        };
        let logical_region = match capture_region {
            Some(region) => region.logical(),
            None => output_info.logical_region,
        };
        Ok(
            FrameCopy {
                frame_format,
                frame_color_type,
                frame_data,
                transform: output_info.transform,
                logical_region,
                physical_size: output_info.transform.rotate_size(frame_format.size),
            },
        )
    }

    /// The frame has as many bytes as its size and its layout ask for.
    pub open spec fn complete(self) -> bool {
        let row = self.frame_color_type.channels() * self.frame_format.size.width;
        &&& row <= usize::MAX
        &&& row * self.frame_format.size.height <= self.frame_data@.len()
    }

    /// `image` has the size, the layout and the pixels of the frame: it is neither
    /// turned nor scaled.
    pub open spec fn is_shown_by(self, image: DynamicImage) -> bool {
        let size = self.frame_format.size;
        &&& image_layout(image) == (
            size.width as int,
            size.height as int,
            self.frame_color_type is Rgba8,
        )
        &&& image_pixels(image) == pixels_of(
            self.frame_data@,
            size.width as int,
            size.height as int,
            self.frame_color_type.channels(),
        )
    }

    /// The frame as an image, not turned yet.
    pub fn to_image(&self) -> (res: Result<DynamicImage, WayshotError>)
        ensures
            !self.complete() ==> fails_with(res, ErrorView::BufferTooSmall),
            self.complete() ==> (res matches Ok(image) && self.is_shown_by(image)),
    {
        let Size { width, height } = self.frame_format.size;
        let mut data: Vec<u8> = Vec::new();
        data.extend_from_slice(self.frame_data.as_slice());
        assert(data@ =~= self.frame_data@);
        let image = match self.frame_color_type {
            ColorType::Rgb8 => image_from_rgb8(width, height, data),
            ColorType::Rgba8 => image_from_rgba8(width, height, data),
        };
        match image {
            Some(image) => Ok(image),
            None => Err(WayshotError::BufferTooSmall),
        }
    }
}

/// The two halves of a modifier give it back.
pub proof fn law_modifier_round_trip(buffer: DmabufBuffer, modifier: u64)
    requires
        buffer.modifier_high == modifier / 0x1_0000_0000,
        buffer.modifier_low == modifier % 0x1_0000_0000,
    ensures
        buffer.modifier_high * 0x1_0000_0000 + buffer.modifier_low == modifier,
{
}

/// The code of a format spells its name: four characters, the first in the lowest byte.
/// The two oldest formats are counted instead, and a format without a name is its code.
pub proof fn law_codes_spell_names(code: u32)
    ensures
        Format::Argb8888.wire_code() == 0,
        Format::Xrgb8888.wire_code() == 1,
        Format::Bgr888.wire_code() == spelled('B', 'G', '2', '4'),
        Format::Xbgr8888.wire_code() == spelled('X', 'B', '2', '4'),
        Format::Xrgb2101010.wire_code() == spelled('X', 'R', '3', '0'),
        Format::Xbgr2101010.wire_code() == spelled('X', 'B', '3', '0'),
        Format::Abgr2101010.wire_code() == spelled('A', 'B', '3', '0'),
        Format::Other(code).wire_code() == code,
{
}

/// Four characters as a little-endian number.
pub open spec fn spelled(a: char, b: char, c: char, d: char) -> int {
    a as int + 0x100 * (b as int) + 0x1_0000 * (c as int) + 0x100_0000 * (d as int)
}

/// A frame is complete exactly if it has as many bytes as pixels of its layout make up
/// its size: three for each pixel, or four with alpha. A row beyond the address space
/// cannot be there.
pub proof fn law_complete_frames_have_all_bytes(copy: FrameCopy)
    ensures
        ({
            let n: int = if copy.frame_color_type == ColorType::Rgba8 {
                4
            } else {
                3
            };
            let size = copy.frame_format.size;
            copy.complete() <==> {
                &&& n * size.width <= usize::MAX
                &&& n * size.width * size.height <= copy.frame_data@.len()
            }
        }),
{
}

/// The image of a frame has the frame's bytes at their places: the rows from the top, and
/// the pixels of a row from the left, neither turned nor scaled.
pub proof fn law_image_has_the_frames_bytes(copy: FrameCopy, image: DynamicImage, x: int, y: int)
    requires
        copy.is_shown_by(image),
        0 <= x < copy.frame_format.size.width,
        0 <= y < copy.frame_format.size.height,
    ensures
        ({
            let data = copy.frame_data@;
            let pixel = image_pixels(image)[(x, y)];
            let place = x + copy.frame_format.size.width * y;
            &&& image_layout(image).0 == copy.frame_format.size.width
            &&& image_layout(image).1 == copy.frame_format.size.height
            &&& image_layout(image).2 <==> copy.frame_color_type == ColorType::Rgba8
            &&& image_pixels(image).contains_key((x, y))
            &&& copy.frame_color_type == ColorType::Rgba8 ==> pixel == (
                data[4 * place],
                data[4 * place + 1],
                data[4 * place + 2],
                data[4 * place + 3],
            )
            &&& copy.frame_color_type == ColorType::Rgb8 ==> pixel == (
                data[3 * place],
                data[3 * place + 1],
                data[3 * place + 2],
                255u8,
            )
        }),
{
    law_bytes_are_pixels(
        copy.frame_data@,
        copy.frame_format.size.width as int,
        copy.frame_format.size.height as int,
        copy.frame_color_type.channels(),
        x,
        y,
    );
}

/// A copied frame says where it comes from: it keeps the format, and the transform of the
/// output; it shows the output, or the region of it, in the compositor's space; and it
/// has as many bytes as were copied.
pub proof fn law_copy_knows_its_output<O>(
    copy: FrameCopy,
    frame_format: FrameFormat,
    frame_data: Seq<u8>,
    converter: Converter,
    output_info: OutputInfo<O>,
    capture_region: Option<EmbeddedRegion>,
)
    requires
        copy.is_of(frame_format, frame_data, converter, output_info, capture_region),
        capture_region matches Some(region) ==> region.position_fits(),
    ensures
        copy.frame_format == frame_format,
        copy.transform == output_info.transform,
        copy.frame_data@ == converter.converted(frame_data),
        copy.frame_data@.len() == frame_data.len(),
        copy.frame_color_type == converter.color_type(),
        capture_region is None ==> copy.logical_region == output_info.logical_region,
        capture_region matches Some(region) ==> {
            let shown = copy.logical_region.inner;
            &&& shown.size == region.inner.size
            &&& shown.position.x == region.relative_to.inner.position.x + region.inner.position.x
            &&& shown.position.y == region.relative_to.inner.position.y + region.inner.position.y
        },
        ({
            let t = output_info.transform;
            let quarter = t == Transform::_90 || t == Transform::_270 || t == Transform::Flipped90
                || t == Transform::Flipped270;
            &&& quarter ==> copy.physical_size.width == frame_format.size.height
                && copy.physical_size.height == frame_format.size.width
            &&& !quarter ==> copy.physical_size == frame_format.size
        }),
{
}

} // verus!
