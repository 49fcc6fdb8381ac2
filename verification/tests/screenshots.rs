use image::{DynamicImage, GenericImageView, Rgba, RgbaImage};
use libwayshot::connection::WayshotConnection;
use libwayshot::error::WayshotError;
use libwayshot::output::{OutputInfo, Transform};
use libwayshot::region::{EmbeddedRegion, LogicalRegion, Position, Region, Size};
use libwayshot::screencopy::{Format, FrameCopy, FrameFormat};
use libwayshot::screenshot::{compose, max_scale, RegionCapturer, Tile};
use std::cell::RefCell;

type Connection = WayshotConnection<u32, u32>;
type Capturer = RegionCapturer<u32, ()>;

const RED: [u8; 4] = [255, 0, 0, 255];
const BLUE: [u8; 4] = [0, 0, 255, 128];
const NOTHING: [u8; 4] = [0, 0, 0, 0];

fn region(x: i32, y: i32, width: u32, height: u32) -> LogicalRegion {
    LogicalRegion { inner: Region { position: Position { x, y }, size: Size { width, height } } }
}

fn output(id: u32, x: i32, y: i32, width: u32, height: u32, scale: i32) -> OutputInfo<u32> {
    OutputInfo {
        output: id,
        name: format!("DP-{}", id),
        description: String::new(),
        transform: Transform::Normal,
        physical_size: Size { width, height },
        logical_region: region(x, y, width, height),
        scale,
    }
}

fn connection() -> Connection {
    WayshotConnection {
        output_infos: vec![
            output(0, 0, 0, 10, 10, 1),
            output(1, 10, 0, 10, 5, 3),
            output(2, 20, 0, 10, 10, 2),
        ],
        dmabuf_state: false,
        ext_image: None,
    }
}

fn plain(color: [u8; 4], width: u32, height: u32) -> DynamicImage {
    DynamicImage::ImageRgba8(RgbaImage::from_pixel(width, height, Rgba(color)))
}

fn tile(image: DynamicImage, x: i32, y: i32) -> Result<Tile, WayshotError> {
    Ok(Tile { image, logical_region: region(x, y, 0, 0) })
}

#[test]
fn a_region_is_captured_from_the_outputs_that_it_meets() {
    let connection = connection();
    let viewport = region(5, 2, 17, 8);
    let capturer: Capturer = RegionCapturer::Region(viewport);
    let plan = capturer.plan(&connection);
    let ids: Vec<u32> = plan.iter().map(|(info, _)| info.output).collect();
    assert_eq!(ids, vec![0, 1, 2]);
    for (info, part) in &plan {
        assert_eq!(*part, EmbeddedRegion::new(viewport, info.logical_region));
    }
    assert_eq!(plan[1].1.unwrap().logical(), region(10, 2, 10, 3));
    assert_eq!(max_scale(&plan), 3);
}

#[test]
fn outputs_beside_a_region_are_left_out() {
    let connection = connection();
    let capturer: Capturer = RegionCapturer::Region(region(5, 6, 17, 3));
    let plan = capturer.plan(&connection);
    let ids: Vec<u32> = plan.iter().map(|(info, _)| info.output).collect();
    assert_eq!(ids, vec![0, 2]);
    assert_eq!(max_scale(&plan), 2);
    let capturer: Capturer = RegionCapturer::Region(region(100, 100, 5, 5));
    assert!(capturer.plan(&connection).is_empty());
    assert_eq!(max_scale(&capturer.plan(&connection)), 1);
}

#[test]
fn whole_outputs_are_captured() {
    let connection = connection();
    let given: Capturer = RegionCapturer::Outputs(vec![output(9, 0, 0, 5, 5, -4)]);
    let plan = given.plan(&connection);
    assert_eq!(plan.len(), 1);
    assert_eq!((plan[0].0.output, plan[0].1), (9, None));
    assert_eq!(max_scale(&plan), 1);
    let frozen: Capturer = RegionCapturer::Freeze(());
    let plan = frozen.plan(&connection);
    let ids: Vec<u32> = plan.iter().map(|(info, _)| info.output).collect();
    assert_eq!(ids, vec![0, 1, 2]);
    assert!(plan.iter().all(|(_, part)| part.is_none()));
}

#[test]
fn the_region_that_a_screenshot_shows() {
    let selected = || Ok(region(1, 2, 3, 4));
    let given: Capturer = RegionCapturer::Outputs(connection().output_infos);
    assert_eq!(given.capture_region(selected()), Ok(region(0, 0, 30, 10)));
    let nothing: Capturer = RegionCapturer::Outputs(Vec::new());
    assert_eq!(nothing.capture_region(selected()), Err(WayshotError::NoOutputs));
    let fixed: Capturer = RegionCapturer::Region(region(7, 7, 7, 7));
    assert_eq!(fixed.capture_region(selected()), Ok(region(7, 7, 7, 7)));
    let frozen: Capturer = RegionCapturer::Freeze(());
    assert_eq!(frozen.capture_region(selected()), selected());
    let refused = Err(WayshotError::CaptureFailed("cancelled".to_string()));
    assert_eq!(
        frozen.capture_region(refused),
        Err(WayshotError::CaptureFailed("cancelled".to_string()))
    );
}

#[test]
fn screenshots_of_no_outputs_are_refused() {
    let mut connection = connection();
    let given = vec![output(8, 1, 2, 3, 4, 5)];
    let refused: Result<Capturer, WayshotError> = connection.screenshot_outputs(&[]);
    assert!(matches!(refused, Err(WayshotError::NoOutputs)));
    let capturer: Result<Capturer, WayshotError> = connection.screenshot_outputs(&given);
    let Ok(RegionCapturer::Outputs(outputs)) = capturer else { panic!("not the outputs") };
    assert_eq!(format!("{:?}", outputs), format!("{:?}", given));
    let capturer: Result<Capturer, WayshotError> = connection.screenshot_all();
    let Ok(RegionCapturer::Outputs(outputs)) = capturer else { panic!("not the outputs") };
    assert_eq!(format!("{:?}", outputs), format!("{:?}", connection.output_infos));
    connection.output_infos.clear();
    let refused: Result<Capturer, WayshotError> = connection.screenshot_all();
    assert!(matches!(refused, Err(WayshotError::NoOutputs)));
}

#[test]
fn frames_are_copied_in_order() {
    let connection = connection();
    let capturer: Capturer = RegionCapturer::Region(region(5, 2, 17, 8));
    let plan = capturer.plan(&connection);
    let copies: Result<Vec<(u32, bool)>, u32> =
        Connection::capture_frame_copies(&plan, |info, part| Ok((info.output, part.is_some())));
    assert_eq!(copies, Ok(vec![(0, true), (1, true), (2, true)]));
    let calls = RefCell::new(Vec::new());
    let copies: Result<Vec<u32>, u32> = Connection::capture_frame_copies(&plan, |info, _| {
        calls.borrow_mut().push(info.output);
        if info.output == 0 { Ok(0) } else { Err(info.output) }
    });
    assert_eq!((copies, calls.into_inner()), (Err(1), vec![0, 1]));
}

#[test]
fn one_output_is_neither_turned_nor_scaled() {
    let info = OutputInfo { transform: Transform::_90, ..output(4, 7, 8, 1, 2, 3) };
    let size = Size { width: 2, height: 1 };
    let format = FrameFormat { format: Format::Argb8888, size, stride: 8 };
    let copy = FrameCopy::new(format, vec![1, 2, 3, 4, 5, 6, 7, 8], &info, None);
    let image = Connection::screenshot_single_output(copy).unwrap();
    assert_eq!(image.dimensions(), (2, 1));
    assert_eq!(image.get_pixel(0, 0).0, [3, 2, 1, 4]);
    assert_eq!(image.get_pixel(1, 0).0, [7, 6, 5, 8]);
    let short = FrameCopy::new(format, vec![0; 7], &info, None);
    assert_eq!(
        Connection::screenshot_single_output(short).unwrap_err(),
        WayshotError::BufferTooSmall
    );
    assert_eq!(
        Connection::screenshot_single_output(Err(WayshotError::FramecopyFailed)).unwrap_err(),
        WayshotError::FramecopyFailed
    );
}

#[test]
fn later_tiles_lie_over_earlier_ones() {
    let tiles = vec![tile(plain(RED, 4, 4), 10, 10), tile(plain(BLUE, 4, 2), 12, 12)];
    let image = compose(tiles, region(9, 10, 6, 5), 1).unwrap();
    assert_eq!(image.dimensions(), (6, 5));
    assert_eq!(image.color(), image::ColorType::Rgba8);
    for y in 0..5 {
        for x in 0..6 {
            let (sx, sy) = (x + 9, y + 10);
            let expected = if sx >= 12 && sx < 16 && sy >= 12 && sy < 14 {
                BLUE
            } else if sx >= 10 && sx < 14 && sy < 14 {
                RED
            } else {
                NOTHING
            };
            assert_eq!(image.get_pixel(x, y).0, expected);
        }
    }
}

#[test]
fn tiles_are_cut_to_the_screenshot() {
    let tiles = vec![tile(plain(RED, 100, 100), -50, -50), tile(plain(BLUE, 9, 9), 500, 0)];
    let image = compose(tiles, region(0, 0, 3, 3), 1).unwrap();
    assert_eq!(image.dimensions(), (3, 3));
    assert!(image.pixels().all(|(_, _, color)| color.0 == RED));
}

#[test]
fn screenshots_are_scaled() {
    let tiles = vec![tile(plain(RED, 4, 2), 1, 2)];
    let image = compose(tiles, region(0, 1, 3, 2), 2).unwrap();
    assert_eq!(image.dimensions(), (6, 4));
    for (x, y, color) in image.pixels() {
        let inside = x >= 2 && y >= 2;
        assert_eq!(color.0, if inside { RED } else { NOTHING });
    }
}

#[test]
fn a_frozen_screen_is_cut_to_the_selection() {
    let mut left = RgbaImage::from_pixel(4, 4, Rgba(RED));
    left.put_pixel(3, 2, Rgba(BLUE));
    let tiles = vec![
        tile(DynamicImage::ImageRgba8(left), -2, -2),
        tile(plain(BLUE, 4, 4), 2, -2),
    ];
    let image = compose(tiles, region(0, -1, 3, 4), 1).unwrap();
    for (x, y, color) in image.pixels() {
        let expected = if y == 3 {
            NOTHING
        } else if x == 2 || (x, y) == (1, 1) {
            BLUE
        } else {
            RED
        };
        assert_eq!(color.0, expected);
    }
}

#[test]
fn painting_twice_changes_nothing() {
    let once = vec![tile(plain(RED, 2, 2), 0, 0), tile(plain(BLUE, 2, 2), 1, 1)];
    let twice = vec![
        tile(plain(RED, 2, 2), 0, 0),
        tile(plain(BLUE, 2, 2), 1, 1),
        tile(plain(BLUE, 2, 2), 1, 1),
    ];
    let shown = region(0, 0, 3, 3);
    assert_eq!(compose(once, shown, 1).unwrap(), compose(twice, shown, 1).unwrap());
}

#[test]
fn nothing_of_whole_outputs_is_cut_off() {
    let outputs = vec![output(0, -3, 2, 3, 2, 1), output(1, 0, 0, 2, 3, 1)];
    let shown = LogicalRegion::enclosing(&outputs).unwrap();
    assert_eq!(shown, region(-3, 0, 5, 4));
    let tiles = vec![tile(plain(RED, 6, 4), -3, 2), tile(plain(BLUE, 4, 6), 0, 0)];
    let image = compose(tiles, shown, 2).unwrap();
    assert_eq!(image.dimensions(), (10, 8));
    let count = |wanted: [u8; 4]| image.pixels().filter(|(_, _, c)| c.0 == wanted).count();
    assert_eq!((count(RED), count(BLUE), count(NOTHING)), (24, 24, 32));
}

#[test]
fn tiles_of_other_layouts_are_converted() {
    let gray = DynamicImage::new_luma8(1, 1);
    let image = compose(vec![tile(gray, 0, 0)], region(0, 0, 2, 1), 1).unwrap();
    assert_eq!(image.get_pixel(0, 0).0, [0, 0, 0, 255]);
    assert_eq!(image.get_pixel(1, 0).0, NOTHING);
}

#[test]
fn screenshots_without_frames_are_refused() {
    assert_eq!(compose(Vec::new(), region(0, 0, 2, 2), 1).unwrap_err(), WayshotError::NoOutputs);
}

#[test]
fn the_first_error_is_reported() {
    let tiles = vec![
        tile(plain(RED, 1, 1), 0, 0),
        Err(WayshotError::BufferTooSmall),
        Err(WayshotError::NoOutputs),
        tile(plain(RED, 1, 1), 0, 0),
    ];
    assert_eq!(compose(tiles, region(0, 0, 2, 2), 1).unwrap_err(), WayshotError::BufferTooSmall);
}
