use image::GenericImageView;
use libwayshot::dispatch::{
    capture_failure, CaptureFrameState, FailureReason, FrameEvent, FrameState, Progress, WEnum,
};
use libwayshot::egl::{image_attribs, require_texture_binding, DmabufPlane};
use libwayshot::error::WayshotError;
use libwayshot::output::{OutputInfo, Transform};
use libwayshot::region::{EmbeddedRegion, LogicalRegion, Position, Region, Size};
use libwayshot::screencopy::{
    capture_request, require_screencopy, CaptureRequest, ColorType, DMAFrameFormat, DmabufBuffer,
    Format, FrameCopy, FrameFormat, FrameInfo, ShmBuffer,
};
use libwayshot::wire::{modifier_high, modifier_low, to_signed};

fn region(x: i32, y: i32, width: u32, height: u32) -> LogicalRegion {
    LogicalRegion { inner: Region { position: Position { x, y }, size: Size { width, height } } }
}

fn frame_format(format: Format, width: u32, height: u32, stride: u32) -> FrameFormat {
    FrameFormat { format, size: Size { width, height }, stride }
}

fn output(transform: Transform) -> OutputInfo<u32> {
    OutputInfo {
        output: 7,
        name: "DP-1".to_string(),
        description: "a screen".to_string(),
        transform,
        physical_size: Size { width: 20, height: 10 },
        logical_region: region(100, 200, 20, 10),
        scale: 1,
    }
}

#[test]
fn nothing_is_chosen_before_the_list_is_complete() {
    let mut state = CaptureFrameState::new();
    assert_eq!(state.select_shm_format(), Progress::Dispatch);
    state.apply(FrameEvent::Buffer(frame_format(Format::Argb8888, 1, 1, 4)));
    assert_eq!(state.select_shm_format(), Progress::Dispatch);
    assert_eq!(state.select_dmabuf_format(), Progress::Dispatch);
}

#[test]
fn the_first_readable_buffer_is_chosen() {
    let mut state = CaptureFrameState::new();
    state.apply(FrameEvent::Buffer(frame_format(Format::Other(2), 1, 1, 4)));
    state.apply(FrameEvent::Buffer(frame_format(Format::Bgr888, 2, 2, 6)));
    state.apply(FrameEvent::Buffer(frame_format(Format::Argb8888, 3, 3, 12)));
    state.apply(FrameEvent::BufferDone);
    let chosen = Progress::Done(frame_format(Format::Bgr888, 2, 2, 6));
    assert_eq!(state.select_shm_format(), chosen);
    state.apply(FrameEvent::Buffer(frame_format(Format::Xrgb8888, 4, 4, 16)));
    assert_eq!(state.select_shm_format(), chosen);
}

#[test]
fn unreadable_buffers_are_refused() {
    let mut state = CaptureFrameState::new();
    state.apply(FrameEvent::BufferDone);
    let refused = Progress::Failed(WayshotError::NoSupportedBufferFormat);
    assert_eq!(state.select_shm_format(), refused);
    state.apply(FrameEvent::Buffer(frame_format(Format::Other(2), 1, 1, 4)));
    assert_eq!(state.select_shm_format(), refused);
}

#[test]
fn the_first_dmabuf_is_chosen() {
    let first = DMAFrameFormat { format: 9, size: Size { width: 1, height: 2 } };
    let second = DMAFrameFormat { format: 8, size: Size { width: 3, height: 4 } };
    let mut state = CaptureFrameState::new();
    state.apply(FrameEvent::LinuxDmabuf(first));
    state.apply(FrameEvent::LinuxDmabuf(second));
    state.apply(FrameEvent::BufferDone);
    assert_eq!(state.select_dmabuf_format(), Progress::Done(first));
}

#[test]
fn the_copy_ends_when_the_compositor_says_so() {
    let mut state = CaptureFrameState::new();
    assert_eq!(state.copy_progress(), Progress::Dispatch);
    state.state = Some(FrameState::Pending);
    assert_eq!(state.copy_progress(), Progress::Dispatch);
    state.apply(FrameEvent::Ready);
    assert_eq!(state.copy_progress(), Progress::Done(()));
    state.apply(FrameEvent::Failed);
    assert_eq!(state.copy_progress(), Progress::Failed(WayshotError::FramecopyFailed));
}

#[test]
fn failures_are_named() {
    let failed = |text: &str| WayshotError::CaptureFailed(text.to_string());
    assert_eq!(capture_failure(Some(WEnum::Value(FailureReason::Stopped))), failed("Stopped"));
    assert_eq!(
        capture_failure(Some(WEnum::Value(FailureReason::BufferConstraints))),
        failed("BufferConstraints")
    );
    assert_eq!(capture_failure(Some(WEnum::Value(FailureReason::Unknown))), failed("Unknown"));
    assert_eq!(capture_failure(Some(WEnum::Unknown(0))), failed("Unknown reason, code : 0"));
    assert_eq!(
        capture_failure(Some(WEnum::Unknown(u32::MAX))),
        failed("Unknown reason, code : 4294967295")
    );
    assert_eq!(capture_failure(None), failed("No failure reason provided"));
}

#[test]
fn screencopy_is_required() {
    assert_eq!(require_screencopy(true), Ok(()));
    assert_eq!(
        require_screencopy(false),
        Err(WayshotError::ProtocolNotFound("ZwlrScreencopy Manager not found".to_string()))
    );
}

#[test]
fn requests_for_outputs_and_regions() {
    assert_eq!(capture_request(1, None), CaptureRequest::Output { cursor_overlay: 1 });
    let part = EmbeddedRegion::new(region(5, 6, 7, 8), region(0, 0, 100, 100));
    assert_eq!(
        capture_request(0, part),
        CaptureRequest::Region { cursor_overlay: 0, x: 5, y: 6, width: 7, height: 8 }
    );
}

#[test]
fn byte_sizes() {
    assert_eq!(frame_format(Format::Argb8888, 1920, 1080, 7680).byte_size(), 8294400);
    assert_eq!(
        frame_format(Format::Argb8888, 1, u32::MAX, u32::MAX).byte_size(),
        u32::MAX as u64 * u32::MAX as u64
    );
    let info = FrameInfo { format: Format::Argb8888, size: Size { width: 3, height: 5 }, stride: 12 };
    assert_eq!(info.byte_size(), 60);
    let none = FrameInfo::placeholder();
    assert_eq!((none.format, none.byte_size()), (Format::Xrgb8888, 0));
}

#[test]
fn shared_memory_of_a_frame() {
    assert_eq!(
        frame_format(Format::Xrgb8888, 1920, 1080, 7680).shm_buffer(),
        Ok(ShmBuffer {
            pool_size: 8294400,
            width: 1920,
            height: 1080,
            stride: 7680,
            format: Format::Xrgb8888,
        })
    );
    assert!(frame_format(Format::Xrgb8888, 1, 1, 0x7fff_ffff).shm_buffer().is_ok());
}

#[test]
fn frames_may_be_too_large_for_a_pool() {
    assert_eq!(
        frame_format(Format::Xrgb8888, 1, 1, 0x8000_0000).shm_buffer(),
        Err(WayshotError::BufferTooSmall)
    );
    assert_eq!(
        frame_format(Format::Xrgb8888, 1, 65536, 65536).shm_buffer(),
        Err(WayshotError::BufferTooSmall)
    );
}

#[test]
fn unsigned_numbers_wrap_in_signed_fields() {
    assert_eq!(to_signed(5), 5);
    assert_eq!(to_signed(0x7fff_ffff), i32::MAX);
    assert_eq!(to_signed(0x8000_0000), i32::MIN);
    assert_eq!(to_signed(u32::MAX), -1);
}

#[test]
fn modifiers_are_halved() {
    let modifier = 0x0123_4567_89ab_cdef;
    assert_eq!(modifier_high(modifier), 0x0123_4567);
    assert_eq!(modifier_low(modifier), 0x89ab_cdef);
    let format = DMAFrameFormat { format: 0x34325258, size: Size { width: 640, height: 480 } };
    let buffer = format.dmabuf_buffer(2560, modifier);
    assert_eq!(
        buffer,
        DmabufBuffer {
            stride: 2560,
            modifier_high: 0x0123_4567,
            modifier_low: 0x89ab_cdef,
            width: 640,
            height: 480,
            format: 0x34325258,
        }
    );
    assert_eq!(((buffer.modifier_high as u64) << 32) | buffer.modifier_low as u64, modifier);
}

#[test]
fn known_and_unknown_dmabuf_formats() {
    let size = Size { width: 1, height: 1 };
    assert_eq!(DMAFrameFormat { format: 0x34325258, size }.fourcc(), Ok(0x34325258));
    assert_eq!(
        DMAFrameFormat { format: 0, size }.fourcc(),
        Err(WayshotError::UnrecognizedFourcc(0))
    );
}

#[test]
fn attributes_of_an_egl_image() {
    let plane = DmabufPlane {
        format: 0x34325258,
        fd: 12,
        offset: 64,
        stride: 2560,
        modifier: 0x0100_0000_0000_0002,
    };
    assert_eq!(
        image_attribs(Size { width: 640, height: 480 }, &plane),
        vec![
            0x3057, 640, 0x3056, 480, 0x3271, 0x34325258, 0x3272, 12, 0x3273, 64, 0x3274, 2560,
            0x3443, 2, 0x3444, 0x0100_0000, 0x3038,
        ]
    );
}

#[test]
fn textures_need_an_entry_point() {
    assert_eq!(require_texture_binding(true), Ok(()));
    assert_eq!(
        require_texture_binding(false),
        Err(WayshotError::EGLImageToTexProcNotFoundError)
    );
}

#[test]
fn frame_of_a_whole_output() {
    let format = frame_format(Format::Argb8888, 2, 1, 8);
    let copy = FrameCopy::new(format, vec![1, 2, 3, 4, 5, 6, 7, 8], &output(Transform::_90), None);
    let copy = copy.unwrap();
    assert_eq!(copy.frame_format, format);
    assert_eq!(copy.frame_color_type, ColorType::Rgba8);
    assert_eq!(copy.frame_data, vec![3, 2, 1, 4, 7, 6, 5, 8]);
    assert_eq!(copy.transform, Transform::_90);
    assert_eq!(copy.logical_region, region(100, 200, 20, 10));
    assert_eq!(copy.physical_size, Size { width: 1, height: 2 });
}

#[test]
fn frame_of_a_part_of_an_output() {
    let info = output(Transform::Normal);
    let part = EmbeddedRegion::new(region(110, 190, 100, 15), info.logical_region);
    let format = frame_format(Format::Xbgr8888, 2, 1, 8);
    let copy = FrameCopy::new(format, vec![0; 8], &info, part).unwrap();
    assert_eq!(copy.logical_region, region(110, 200, 10, 5));
    assert_eq!(copy.physical_size, Size { width: 2, height: 1 });
}

#[test]
fn frames_in_other_formats_are_refused() {
    let format = frame_format(Format::Other(17), 2, 1, 8);
    let copy = FrameCopy::new(format, vec![0; 8], &output(Transform::Normal), None);
    assert!(matches!(copy, Err(WayshotError::NoSupportedBufferFormat)));
}

#[test]
fn images_of_frames() {
    let format = frame_format(Format::Argb8888, 2, 2, 8);
    let data: Vec<u8> = (1..=16).collect();
    let copy = FrameCopy::new(format, data, &output(Transform::Normal), None).unwrap();
    let image = copy.to_image().unwrap();
    assert_eq!(image.dimensions(), (2, 2));
    assert_eq!(image.color(), image::ColorType::Rgba8);
    assert_eq!(image.get_pixel(0, 0).0, [3, 2, 1, 4]);
    assert_eq!(image.get_pixel(1, 0).0, [7, 6, 5, 8]);
    assert_eq!(image.get_pixel(0, 1).0, [11, 10, 9, 12]);
    assert_eq!(image.get_pixel(1, 1).0, [15, 14, 13, 16]);
}

#[test]
fn images_without_alpha_are_opaque() {
    let format = frame_format(Format::Bgr888, 1, 2, 3);
    let copy = FrameCopy::new(format, vec![1, 2, 3, 4, 5, 6], &output(Transform::Normal), None);
    let image = copy.unwrap().to_image().unwrap();
    assert_eq!(image.color(), image::ColorType::Rgb8);
    assert_eq!(image.get_pixel(0, 0).0, [1, 2, 3, 255]);
    assert_eq!(image.get_pixel(0, 1).0, [4, 5, 6, 255]);
}

#[test]
fn images_of_short_frames_are_refused() {
    for (format, length) in [(Format::Argb8888, 15), (Format::Bgr888, 11)] {
        let format = frame_format(format, 2, 2, 8);
        let copy = FrameCopy::new(format, vec![0; length], &output(Transform::Normal), None);
        assert_eq!(copy.unwrap().to_image().unwrap_err(), WayshotError::BufferTooSmall);
        let copy = FrameCopy::new(format, vec![0; length + 1], &output(Transform::Normal), None);
        assert!(copy.unwrap().to_image().is_ok());
    }
}
