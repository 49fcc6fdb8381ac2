//! Conversion of captured pixels to the layouts that images have.
use crate::screencopy::{ColorType, Format};
use vstd::prelude::*;

verus! {

/// How the pixels of a format are brought into an image layout.
#[derive(Debug, Clone, Copy, PartialEq, Eq, Structural)]
pub enum Converter {
    /// Four bytes, red first: nothing to do.
    Rgba,
    /// Four bytes, blue first.
    Bgra,
    /// Little-endian words with red in the lowest of three fields of ten bits.
    Bgr10,
    /// Little-endian words with blue in the lowest of three fields of ten bits.
    Rgb10,
    /// Three bytes, red first: nothing to do.
    Rgb,
}

/// Four bytes as a little-endian number.
pub open spec fn word(pixel: Seq<u8>) -> int {
    pixel[0] + 0x100 * pixel[1] + 0x1_0000 * pixel[2] + 0x100_0000 * pixel[3]
}

/// The upper eight of the ten bits from bit `10 * field` on.
pub open spec fn field8(word: int, field: int) -> u8 {
    if field == 0 {
        ((word / 4) % 256) as u8
    } else if field == 1 {
        ((word / 0x1000) % 256) as u8
    } else {
        ((word / 0x40_0000) % 256) as u8
    }
}

impl Converter {
    /// A pixel of four bytes after the conversion.
    pub open spec fn pixel(self, pixel: Seq<u8>) -> Seq<u8> {
        match self {
            Converter::Rgba | Converter::Rgb => pixel,
            Converter::Bgra => seq![pixel[2], pixel[1], pixel[0], pixel[3]],
            Converter::Bgr10 => seq![
                field8(word(pixel), 0),
                field8(word(pixel), 1),
                field8(word(pixel), 2),
                255u8,
            ],
            Converter::Rgb10 => seq![
                field8(word(pixel), 2),
                field8(word(pixel), 1),
                field8(word(pixel), 0),
                255u8,
            ],
        }
    }

    /// A frame after the conversion. Bytes behind the last whole pixel stay as
    /// they are.
    pub open spec fn converted(self, data: Seq<u8>) -> Seq<u8> {
        Seq::new(
            data.len(),
            |i: int|
                if i < data.len() / 4 * 4 {
                    self.pixel(data.subrange(i / 4 * 4, i / 4 * 4 + 4))[i % 4]
                } else {
                    data[i]
                },
        )
    }

    /// The layout of the converted pixels.
    pub open spec fn color_type(self) -> ColorType {
        if self is Rgb {
            ColorType::Rgb8
        } else {
            ColorType::Rgba8
        }
    }

    /// Converts a frame in place and returns the layout that its pixels now have.
    pub fn convert_inplace(&self, data: &mut Vec<u8>) -> (res: ColorType)
        ensures
            final(data)@ == self.converted(old(data)@),
            res == self.color_type(),
    {
        let color_type = match self {
            Converter::Rgb => ColorType::Rgb8,
            _ => ColorType::Rgba8,
        };
        if matches!(self, Converter::Rgba | Converter::Rgb) {
            assert(self.converted(data@) =~= data@);
            return color_type;
        }
        let pixels: usize = data.len() / 4;
        let ghost before = data@;
        let mut k: usize = 0;
        while k < pixels
            invariant
                k <= pixels,
                pixels == before.len() / 4,
                before.len() <= usize::MAX,
                data@.len() == before.len(),
                forall|i: int| 0 <= i < 4 * k ==> data@[i] == self.converted(before)[i],
                forall|i: int| 4 * k <= i < before.len() ==> data@[i] == before[i],
            decreases pixels - k,
        {
            let base: usize = 4 * k;
            let ghost pixel = before.subrange(base as int, base + 4);
            let p: [u8; 4] = [data[base], data[base + 1], data[base + 2], data[base + 3]];
            assert(p@ =~= pixel);
            let q: [u8; 4] = self.convert_pixel(p);
            let ghost current = data@;
            data.set(base, q[0]);
            data.set(base + 1, q[1]);
            data.set(base + 2, q[2]);
            data.set(base + 3, q[3]);
            assert forall|i: int| 0 <= i < 4 * (k + 1) implies data@[i] == self.converted(
                before,
            )[i] by {
                if i < 4 * k {
                    assert(data@[i] == current[i]);
                } else {
                    assert(i / 4 * 4 == base);
                    assert(self.converted(before)[i] == self.pixel(pixel)[i % 4]);
                    assert(q@[i % 4] == self.pixel(pixel)[i % 4]);
                }
            }
            k += 1;
        }
        assert(data@ =~= self.converted(before));
        color_type
    }

    fn convert_pixel(&self, p: [u8; 4]) -> (res: [u8; 4])
        ensures
            res@ == self.pixel(p@),
    {
        let w: u32 = p[0] as u32 + 0x100 * p[1] as u32 + 0x1_0000 * p[2] as u32 + 0x100_0000
            * p[3] as u32;
        assert(w == word(p@));
        let low: u8 = ((w / 4) % 256) as u8;
        let middle: u8 = ((w / 0x1000) % 256) as u8;
        let high: u8 = ((w / 0x40_0000) % 256) as u8;
        let res: [u8; 4] = match self {
            Converter::Rgba | Converter::Rgb => p,
            Converter::Bgra => [p[2], p[1], p[0], p[3]],
            Converter::Bgr10 => [low, middle, high, 255],
            Converter::Rgb10 => [high, middle, low, 255],
        };
        assert(res@ =~= self.pixel(p@));
        res
    }
}

/// The conversion for a format, where there is one.
pub open spec fn converter_for(format: Format) -> Option<Converter> {
    match format {
        Format::Xbgr8888 => Some(Converter::Rgba),
        Format::Argb8888 | Format::Xrgb8888 => Some(Converter::Bgra),
        Format::Xbgr2101010 | Format::Abgr2101010 => Some(Converter::Bgr10),
        Format::Xrgb2101010 => Some(Converter::Rgb10),
        Format::Bgr888 => Some(Converter::Rgb),
        Format::Other(_) => None,
    }
}

/// The conversion for a format, where there is one.
pub fn create_converter(format: Format) -> (res: Option<Converter>)
    ensures
        res == converter_for(format),
{
    match format {
        Format::Xbgr8888 => Some(Converter::Rgba),
        Format::Argb8888 | Format::Xrgb8888 => Some(Converter::Bgra),
        Format::Xbgr2101010 | Format::Abgr2101010 => Some(Converter::Bgr10),
        Format::Xrgb2101010 => Some(Converter::Rgb10),
        Format::Bgr888 => Some(Converter::Rgb),
        Format::Other(_) => None,
    }
}

/// Exactly the formats in which a frame is accepted can be converted.
pub proof fn law_readable_formats_convert(format: Format)
    ensures
        format.readable() <==> converter_for(format) is Some,
        format.readable_for_windows() ==> converter_for(format) is Some,
{
}

/// What a conversion makes of a pixel. The bytes that stand for a colour come out red
/// first:
/// - in the formats with blue first, red and blue change places, and the fourth byte
///   stays;
/// - in the formats of ten bits, each channel is the upper eight of its ten bits, and
///   the pixel is opaque;
/// - in the formats with red first, all bytes stay.
///
/// `k` is the number of a pixel of four bytes; bytes that do not make a whole pixel stay.
pub proof fn law_conversion_keeps_colours(
    format: Format,
    converter: Converter,
    data: Seq<u8>,
    k: int,
)
    requires
        converter_for(format) == Some(converter),
        0 <= k,
        4 * k + 4 <= data.len(),
    ensures
        ({
            let out = converter.converted(data);
            let w = data[4 * k] + 0x100 * data[4 * k + 1] + 0x1_0000 * data[4 * k + 2]
                + 0x100_0000 * data[4 * k + 3];
            match format {
                Format::Argb8888 | Format::Xrgb8888 => {
                    &&& out[4 * k] == data[4 * k + 2]
                    &&& out[4 * k + 1] == data[4 * k + 1]
                    &&& out[4 * k + 2] == data[4 * k]
                    &&& out[4 * k + 3] == data[4 * k + 3]
                },
                Format::Xbgr2101010 | Format::Abgr2101010 => {
                    &&& out[4 * k] == w % 1024 / 4
                    &&& out[4 * k + 1] == w / 1024 % 1024 / 4
                    &&& out[4 * k + 2] == w / 0x10_0000 % 1024 / 4
                    &&& out[4 * k + 3] == 255
                },
                Format::Xrgb2101010 => {
                    &&& out[4 * k] == w / 0x10_0000 % 1024 / 4
                    &&& out[4 * k + 1] == w / 1024 % 1024 / 4
                    &&& out[4 * k + 2] == w % 1024 / 4
                    &&& out[4 * k + 3] == 255
                },
                Format::Xbgr8888 | Format::Bgr888 => {
                    &&& out[4 * k] == data[4 * k]
                    &&& out[4 * k + 1] == data[4 * k + 1]
                    &&& out[4 * k + 2] == data[4 * k + 2]
                    &&& out[4 * k + 3] == data[4 * k + 3]
                },
                Format::Other(_) => false,
            }
        }),
{
    let pixel = data.subrange(4 * k, 4 * k + 4);
    let out = converter.converted(data);
    assert forall|j: int| 0 <= j < 4 implies out[4 * k + j] == converter.pixel(pixel)[j] by {
        assert((4 * k + j) / 4 == k && (4 * k + j) % 4 == j);
        assert(4 * k + j < data.len() / 4 * 4);
    }
    assert(out[4 * k + 0] == converter.pixel(pixel)[0]);
    assert(out[4 * k + 1] == converter.pixel(pixel)[1]);
    assert(out[4 * k + 2] == converter.pixel(pixel)[2]);
    assert(out[4 * k + 3] == converter.pixel(pixel)[3]);
    lemma_fields(word(pixel));
}

/// The upper eight of ten bits are a quarter of them, wherever the ten bits lie.
proof fn lemma_fields(word: int)
    requires
        0 <= word <= u32::MAX,
    ensures
        field8(word, 0) == word % 1024 / 4,
        field8(word, 1) == word / 1024 % 1024 / 4,
        field8(word, 2) == word / 0x10_0000 % 1024 / 4,
{
    let w = word as u32;
    assert(w % 1024 / 4 == w / 4 % 256) by (bit_vector);
    assert(w / 1024 % 1024 / 4 == w / 0x1000 % 256) by (bit_vector);
    assert(w / 0x10_0000 % 1024 / 4 == w / 0x40_0000 % 256) by (bit_vector);
}

/// A conversion keeps the number of bytes, and the bytes that do not make a whole pixel
/// of four. Pixels of three bytes come from the one format that has such pixels, and
/// stay as they are; all others come out with four bytes.
pub proof fn law_conversion_keeps_length(
    format: Format,
    converter: Converter,
    data: Seq<u8>,
    i: int,
)
    requires
        converter_for(format) == Some(converter),
    ensures
        converter.converted(data).len() == data.len(),
        data.len() - data.len() % 4 <= i < data.len() ==> converter.converted(data)[i] == data[i],
        format == Format::Bgr888 ==> converter.converted(data) == data,
        converter.color_type() == ColorType::Rgb8 <==> format == Format::Bgr888,
{
    if format == Format::Bgr888 {
        assert(converter.converted(data) =~= data);
    }
}

/// A brighter field of ten bits never comes out darker; darkness comes out as darkness,
/// half of the range as half of it, and full brightness as full brightness. `k` is the
/// number of a pixel, and `low` and `high` are the values of the same field in it, in
/// two frames: red in the lowest field, green in the middle one, blue in the highest.
pub proof fn law_conversion_is_monotone(dark: Seq<u8>, bright: Seq<u8>, k: int, field: int)
    requires
        0 <= k,
        4 * k + 4 <= dark.len(),
        4 * k + 4 <= bright.len(),
        0 <= field < 3,
    ensures
        ({
            let converter = converter_for(Format::Xbgr2101010)->0;
            let d = converter.converted(dark)[4 * k + field];
            let b = converter.converted(bright)[4 * k + field];
            let low = ten_bits(dark, k, field);
            let high = ten_bits(bright, k, field);
            &&& low <= high ==> d <= b
            &&& low == 0 ==> d == 0
            &&& low == 512 ==> d == 128
            &&& low == 1023 ==> d == 255
            &&& low >= high + 4 ==> d > b
        }),
{
    let converter = converter_for(Format::Xbgr2101010)->0;
    law_conversion_keeps_colours(Format::Xbgr2101010, converter, dark, k);
    law_conversion_keeps_colours(Format::Xbgr2101010, converter, bright, k);
    let out = converter.converted(dark);
    assert(out[4 * k + field] == ten_bits(dark, k, field) / 4);
    assert(converter.converted(bright)[4 * k + field] == ten_bits(bright, k, field) / 4);
}

/// The value of one of the three fields of ten bits of pixel `k`.
pub open spec fn ten_bits(data: Seq<u8>, k: int, field: int) -> int {
    let w = data[4 * k] + 0x100 * data[4 * k + 1] + 0x1_0000 * data[4 * k + 2] + 0x100_0000
        * data[4 * k + 3];
    if field == 0 {
        w % 1024
    } else if field == 1 {
        w / 1024 % 1024
    } else {
        w / 0x10_0000 % 1024
    }
}

/// Frames are read in seven formats, and converted in these and no others.
pub proof fn law_seven_formats_are_read(format: Format)
    ensures
        format.readable() <==> {
            ||| format == Format::Argb8888
            ||| format == Format::Xrgb8888
            ||| format == Format::Bgr888
            ||| format == Format::Xbgr8888
            ||| format == Format::Xrgb2101010
            ||| format == Format::Xbgr2101010
            ||| format == Format::Abgr2101010
        },
        format.readable_for_windows() <==> {
            ||| format == Format::Argb8888
            ||| format == Format::Xrgb8888
            ||| format == Format::Xbgr8888
            ||| format == Format::Xbgr2101010
            ||| format == Format::Abgr2101010
        },
{
}

} // verus!
