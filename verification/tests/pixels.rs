use libwayshot::convert::{create_converter, Converter};
use libwayshot::screencopy::{ColorType, Format};
use wayland_client::protocol::wl_shm;

const NAMED: [Format; 7] = [
    Format::Argb8888,
    Format::Xrgb8888,
    Format::Bgr888,
    Format::Xbgr8888,
    Format::Xrgb2101010,
    Format::Xbgr2101010,
    Format::Abgr2101010,
];

fn convert(format: Format, data: &[u8]) -> (ColorType, Vec<u8>) {
    let mut data = data.to_vec();
    let color_type = create_converter(format).unwrap().convert_inplace(&mut data);
    (color_type, data)
}

#[test]
fn blue_first_pixels_are_swapped() {
    let expected = (ColorType::Rgba8, vec![3, 2, 1, 4, 7, 6, 5, 8]);
    assert_eq!(convert(Format::Argb8888, &[1, 2, 3, 4, 5, 6, 7, 8]), expected);
    assert_eq!(convert(Format::Xrgb8888, &[1, 2, 3, 4, 5, 6, 7, 8]), expected);
}

#[test]
fn swapping_twice_gives_the_frame_back() {
    let frame: Vec<u8> = (0..=255).collect();
    let (_, once) = convert(Format::Argb8888, &frame);
    assert_ne!(once, frame);
    assert_eq!(convert(Format::Argb8888, &once).1, frame);
}

#[test]
fn red_first_pixels_stay() {
    assert_eq!(convert(Format::Xbgr8888, &[1, 2, 3, 4]), (ColorType::Rgba8, vec![1, 2, 3, 4]));
    assert_eq!(convert(Format::Bgr888, &[1, 2, 3, 4, 5, 6]), (ColorType::Rgb8, vec![1, 2, 3, 4, 5, 6]));
}

#[test]
fn fields_of_ten_bits_are_cut_to_eight() {
    let (low, middle, high) = (0x3ffu32, 0x155u32, 0x0a7u32);
    let word = (2 << 30) | (high << 20) | (middle << 10) | low;
    let bytes = word.to_le_bytes();
    let (low, middle, high) = ((low >> 2) as u8, (middle >> 2) as u8, (high >> 2) as u8);
    assert_eq!(convert(Format::Xbgr2101010, &bytes), (ColorType::Rgba8, vec![low, middle, high, 255]));
    assert_eq!(convert(Format::Abgr2101010, &bytes), (ColorType::Rgba8, vec![low, middle, high, 255]));
    assert_eq!(convert(Format::Xrgb2101010, &bytes), (ColorType::Rgba8, vec![high, middle, low, 255]));
}

#[test]
fn bytes_behind_the_last_pixel_stay() {
    assert_eq!(convert(Format::Argb8888, &[1, 2, 3, 4, 5, 6, 7]).1, vec![3, 2, 1, 4, 5, 6, 7]);
    assert_eq!(convert(Format::Xrgb2101010, &[9, 8, 7]).1, vec![9, 8, 7]);
    assert_eq!(convert(Format::Argb8888, &[]).1, Vec::<u8>::new());
}

#[test]
fn readable_formats_have_a_converter() {
    for format in NAMED {
        assert!(format.is_readable());
        assert!(create_converter(format).is_some());
    }
    assert!(!Format::Other(9).is_readable());
    assert_eq!(create_converter(Format::Other(9)), None);
    assert_eq!(create_converter(Format::Xbgr8888), Some(Converter::Rgba));
}

#[test]
fn windows_are_read_in_fewer_formats() {
    let refused: Vec<Format> =
        NAMED.iter().copied().filter(|format| !format.is_readable_for_windows()).collect();
    assert_eq!(refused, vec![Format::Bgr888, Format::Xrgb2101010]);
    assert!(!Format::Other(9).is_readable_for_windows());
}

#[test]
fn codes_and_formats_stand_for_each_other() {
    for format in NAMED {
        assert_eq!(Format::from_code(format.code()), format);
    }
    assert_eq!(Format::from_code(0), Format::Argb8888);
    assert_eq!(Format::from_code(1), Format::Xrgb8888);
    assert_eq!(Format::from_code(0x34324258), Format::Xbgr8888);
    assert_eq!(Format::from_code(0x34324742), Format::Bgr888);
    assert_eq!(Format::from_code(5), Format::Other(5));
    assert_eq!(Format::Other(5).code(), 5);
}

#[test]
fn codes_are_those_of_the_protocol() {
    for (ours, theirs) in [
        (Format::Argb8888, wl_shm::Format::Argb8888),
        (Format::Xrgb8888, wl_shm::Format::Xrgb8888),
        (Format::Bgr888, wl_shm::Format::Bgr888),
        (Format::Xbgr8888, wl_shm::Format::Xbgr8888),
        (Format::Xrgb2101010, wl_shm::Format::Xrgb2101010),
        (Format::Xbgr2101010, wl_shm::Format::Xbgr2101010),
        (Format::Abgr2101010, wl_shm::Format::Abgr2101010),
    ] {
        assert_eq!(ours.code(), u32::from(theirs));
    }
}
