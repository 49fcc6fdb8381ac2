use libwayshot::connection::{ExtBase, WayshotConnection};
use libwayshot::dispatch::{FailureReason, FrameState, WEnum};
use libwayshot::error::WayshotError;
use libwayshot::ext_image_protocols::{
    area_view, capture_outputs, output_view, select_area, toplevel_view, AreaSelectCallback, AreaShotInfo,
    CaptureAction, CaptureEvent, CaptureInfo, CaptureOption, CaptureOutputData, CapturePhase,
    CaptureSource, CaptureTopLevelData, ExtCapture, FrameBuffer,
};
use libwayshot::output::{OutputInfo, Transform};
use libwayshot::overlay::OverlayFrame;
use libwayshot::region::{LogicalRegion, Position, Region, Size};
use libwayshot::screencopy::{ColorType, Format, FrameInfo};
use wayland_protocols::ext::image_copy_capture::v1::client::ext_image_copy_capture_manager_v1::Options;

type Connection = WayshotConnection<u32, u32>;

fn rectangle(x: i32, y: i32, width: u32, height: u32) -> Region {
    Region { position: Position { x, y }, size: Size { width, height } }
}

fn output(x: i32, y: i32, width: u32, height: u32) -> OutputInfo<u32> {
    OutputInfo {
        output: 7,
        name: "DP-1".to_string(),
        description: "a screen".to_string(),
        transform: Transform::Normal,
        physical_size: Size { width, height },
        logical_region: LogicalRegion { inner: rectangle(x, y, width, height) },
        scale: 1,
    }
}

fn connection() -> Connection {
    WayshotConnection {
        output_infos: vec![output(0, 0, 4, 2)],
        dmabuf_state: false,
        ext_image: Some(ExtBase {
            toplevels: Vec::new(),
            img_copy_manager: true,
            output_image_manager: true,
            shm: true,
            qh: true,
            event_queue: true,
            toplevel_image_manager: true,
        }),
    }
}

fn queue_at_hand(connection: &Connection) -> bool {
    connection.ext_image.as_ref().unwrap().event_queue
}

fn info(format: Format, width: u32, height: u32) -> FrameInfo {
    FrameInfo { format, size: Size { width, height }, stride: 0 }
}

fn status(state: FrameState) -> CaptureEvent {
    CaptureEvent::Status(CaptureInfo { transform: Transform::Flipped90, state })
}

fn shot(x: i32, y: i32, logical: (u32, u32), physical: (u32, u32)) -> AreaShotInfo<u32> {
    AreaShotInfo {
        data: CaptureOutputData {
            output: 7,
            frame_info: info(Format::Argb8888, logical.0, logical.1),
            color_type: ColorType::Rgba8,
            transform: Transform::_180,
            logical_region: LogicalRegion { inner: rectangle(x, y, logical.0, logical.1) },
            physical_size: Size { width: physical.0, height: physical.1 },
        },
    }
}

#[test]
fn options_of_a_session() {
    assert_eq!(Options::from(CaptureOption::PaintCursors), Options::PaintCursors);
    assert_eq!(Options::from(CaptureOption::PaintCursors).bits(), 1);
    assert_eq!(Options::from(CaptureOption::NoCursors).bits(), 0);
}

#[test]
fn nothing_is_assumed_of_a_frame() {
    let info = CaptureInfo::new();
    assert_eq!((info.transform(), info.state()), (Transform::Normal, FrameState::Pending));
}

#[test]
fn capture_of_an_output() {
    let mut connection = connection();
    let mut capture = ExtCapture::begin(&mut connection, CaptureSource::Output);
    assert!(!queue_at_hand(&connection));
    let action = capture.step(&mut connection, CaptureEvent::Constraints(info(Format::Bgr888, 4, 2)));
    assert_eq!(
        action,
        CaptureAction::Capture(FrameBuffer {
            file_len: 32,
            pool_size: 32,
            width: 4,
            height: 2,
            stride: 16,
            format: Format::Bgr888,
        })
    );
    for _ in 0..3 {
        assert_eq!(capture.step(&mut connection, status(FrameState::Pending)), CaptureAction::Dispatch);
        assert!(!queue_at_hand(&connection));
    }
    assert_eq!(
        capture.step(&mut connection, status(FrameState::Succeeded)),
        CaptureAction::Complete(Transform::Flipped90)
    );
    assert!(queue_at_hand(&connection));
    let region = LogicalRegion { inner: rectangle(5, 6, 40, 20) };
    let data = capture.output_data(OutputInfo { output: 3, ..output(5, 6, 40, 20) });
    assert_eq!(
        data,
        CaptureOutputData {
            output: 3,
            frame_info: FrameInfo {
                format: Format::Bgr888,
                size: Size { width: 40, height: 20 },
                stride: 16,
            },
            color_type: ColorType::Rgba8,
            transform: Transform::Flipped90,
            logical_region: region,
            physical_size: Size { width: 40, height: 20 },
        }
    );
}

#[test]
fn capture_of_a_window() {
    let mut connection = connection();
    let mut capture = ExtCapture::begin(&mut connection, CaptureSource::TopLevel);
    capture.step(&mut connection, CaptureEvent::Constraints(info(Format::Argb8888, 30, 20)));
    capture.step(&mut connection, status(FrameState::Succeeded));
    assert_eq!(
        capture.toplevel_data(),
        CaptureTopLevelData {
            width: 30,
            height: 20,
            frame_bytes: 2400,
            stride: 120,
            frame_format: Format::Argb8888,
            transform: Transform::Flipped90,
        }
    );
}

#[test]
fn large_pools_wrap() {
    let mut connection = connection();
    let mut capture = ExtCapture::begin(&mut connection, CaptureSource::Output);
    let action =
        capture.step(&mut connection, CaptureEvent::Constraints(info(Format::Argb8888, 0x8000, 0x4000)));
    assert!(matches!(
        action,
        CaptureAction::Capture(FrameBuffer { file_len: 0x8000_0000, pool_size: i32::MIN, .. })
    ));
}

#[test]
fn unreadable_formats_end_a_capture() {
    for (source, format) in [
        (CaptureSource::Output, Format::Other(3)),
        (CaptureSource::TopLevel, Format::Other(3)),
        (CaptureSource::TopLevel, Format::Bgr888),
        (CaptureSource::TopLevel, Format::Xrgb2101010),
    ] {
        let mut connection = connection();
        let mut capture = ExtCapture::begin(&mut connection, source);
        assert_eq!(
            capture.step(&mut connection, CaptureEvent::Constraints(info(format, 4, 2))),
            CaptureAction::Abort(WayshotError::NotSupportFormat)
        );
        assert_eq!(capture.phase, CapturePhase::Failed);
        assert!(!queue_at_hand(&connection));
    }
}

#[test]
fn failed_captures_do_not_return_the_queue() {
    let mut connection = connection();
    let mut capture = ExtCapture::begin(&mut connection, CaptureSource::Output);
    capture.step(&mut connection, CaptureEvent::Constraints(info(Format::Argb8888, 4, 2)));
    let stopped = FrameState::Failed(Some(WEnum::Value(FailureReason::Stopped)));
    assert_eq!(
        capture.step(&mut connection, status(stopped)),
        CaptureAction::Abort(WayshotError::CaptureFailed("Stopped".to_string()))
    );
    assert_eq!(capture.phase, CapturePhase::Failed);
    assert!(!queue_at_hand(&connection));
}

#[test]
fn views_of_captures() {
    let data = shot(5, 6, (2, 1), (2, 1)).data;
    let view = output_view(&data, &output(7, 8, 20, 10), vec![1, 2, 3, 4, 5, 6, 7, 8]);
    assert_eq!(view.data, vec![3, 2, 1, 4, 7, 6, 5, 8]);
    assert_eq!((view.width, view.height, view.color_type), (2, 1, ColorType::Rgba8));
    assert_eq!(view.region, rectangle(7, 8, 20, 10));

    let window = CaptureTopLevelData {
        width: 1,
        height: 1,
        frame_bytes: 4,
        stride: 4,
        frame_format: Format::Xbgr8888,
        transform: Transform::Normal,
    };
    let view = toplevel_view(&window, vec![1, 2, 3, 4]);
    assert_eq!(view.data, vec![1, 2, 3, 4]);
    assert_eq!(view.region, rectangle(0, 0, 1, 1));

    let area = rectangle(1, 0, 1, 1);
    let view = area_view(&shot(5, 6, (2, 1), (2, 1)), area, vec![9, 8, 7, 6]);
    assert_eq!(view.data, vec![7, 8, 9, 6]);
    assert_eq!((view.width, view.height, view.region), (2, 1, area));
}

#[test]
fn outputs_are_captured_in_turn() {
    let outputs = vec![output(0, 0, 4, 2), output(4, 0, 6, 2), output(10, 0, 8, 2)];
    let (last, widths) = capture_outputs(1, &outputs, |n: u32, info: &OutputInfo<u32>| {
        (n + 1, Ok::<(u32, u32), u32>((n, info.physical_size.width)))
    });
    assert_eq!((last, widths), (4, Ok(vec![(1, 4), (2, 6), (3, 8)])));
    let (last, widths) = capture_outputs(1, &outputs, |n: u32, info: &OutputInfo<u32>| {
        let width = info.physical_size.width;
        (n + 1, if width == 6 { Err(width) } else { Ok(width) })
    });
    assert_eq!((last, widths), (3, Err(6)));
}

#[test]
fn edges_belong_to_a_screen() {
    let screen = shot(10, 20, (100, 50), (100, 50));
    for (x, y, inside) in [
        (10, 20, true),
        (110, 70, true),
        (9, 20, false),
        (10, 19, false),
        (111, 70, false),
        (110, 71, false),
    ] {
        assert_eq!(screen.in_this_screen(rectangle(x, y, 1, 1)), inside);
        assert_eq!(screen.clip_area(rectangle(x, y, 1, 1)).is_some(), inside);
    }
}

#[test]
fn areas_are_moved_to_the_frame() {
    let screen = shot(10, 20, (100, 50), (100, 50));
    assert_eq!(screen.clip_area(rectangle(30, 25, 40, 400)), Some(rectangle(20, 5, 40, 400)));
    let nothing = shot(10, 20, (0, 0), (0, 0));
    assert_eq!(nothing.clip_area(rectangle(10, 20, 0, 0)), Some(rectangle(0, 0, 0, 0)));
    assert_eq!(nothing.clip_area(rectangle(10, 20, 5, 0)), Some(rectangle(0, 0, 0, 0)));
}

#[test]
fn areas_are_scaled_to_the_frame() {
    let screen = shot(10, 20, (100, 50), (300, 25));
    assert_eq!(screen.clip_area(rectangle(30, 25, 40, 10)), Some(rectangle(6, 10, 13, 20)));
    let flat = shot(10, 20, (100, 50), (0, 0));
    assert_eq!(flat.clip_area(rectangle(10, 20, 40, 0)), Some(rectangle(0, 0, u32::MAX, 0)));
}

#[test]
fn the_first_screen_with_the_area_is_taken() {
    let shots = vec![
        shot(0, 0, (100, 50), (100, 50)),
        shot(100, 0, (100, 50), (100, 50)),
        shot(100, 0, (10, 5), (10, 5)),
    ];
    assert_eq!(select_area(&shots, rectangle(150, 10, 5, 5)), Ok((1, rectangle(50, 10, 5, 5))));
    assert_eq!(select_area(&shots, rectangle(100, 0, 5, 5)), Ok((0, rectangle(100, 0, 5, 5))));
    let beyond = shot(i32::MAX, 0, (5, 5), (5, 5));
    assert_eq!(select_area(&vec![shots[0], beyond], rectangle(9, 8, 5, 5)), Ok((0, rectangle(9, 8, 5, 5))));
}

#[test]
fn areas_beside_the_screens_are_refused() {
    let shots = vec![shot(0, 0, (100, 50), (100, 50))];
    let refused = Err(WayshotError::CaptureFailed("not in region".to_string()));
    assert_eq!(select_area(&shots, rectangle(-1, 0, 5, 5)), refused);
    assert_eq!(select_area(&Vec::<AreaShotInfo<u32>>::new(), rectangle(0, 0, 5, 5)), refused);
}

#[test]
fn regions_and_functions_select() {
    let state = connection();
    let area = rectangle(1, 2, 3, 4);
    assert_eq!(area.screenshot(&state), Ok(area));
    let whole = |connection: &Connection| Ok(connection.output_infos[0].logical_region.inner);
    assert_eq!(whole.screenshot(&state), Ok(rectangle(0, 0, 4, 2)));
    let refuse = |_: &Connection| Err(WayshotError::NoOutputs);
    assert_eq!(refuse.screenshot(&state), Err(WayshotError::NoOutputs));
}

#[test]
fn captured_screens_are_overlaid() {
    assert_eq!(
        shot(5, 6, (20, 10), (40, 30)).overlay_frame(),
        OverlayFrame { transform: Transform::_180, size: Size { width: 40, height: 30 } }
    );
}
