use image::{DynamicImage, GenericImageView};
use libwayshot::error::WayshotError;
use libwayshot::output::Transform;
use libwayshot::region::{LogicalRegion, Position, Region, Size};
use libwayshot::screencopy::{ColorType, Format, FrameCopy, FrameFormat};

/// A frame of two columns and three rows, with its pixels numbered row by row.
fn frame(transform: Transform, frame_color_type: ColorType) -> FrameCopy {
    let size = Size { width: 2, height: 3 };
    let mut frame_data = Vec::new();
    for n in 1..=6 {
        frame_data.extend_from_slice(&[n, 0, 0]);
        if frame_color_type == ColorType::Rgba8 {
            frame_data.push(200);
        }
    }
    FrameCopy {
        frame_format: FrameFormat { format: Format::Xbgr8888, size, stride: 8 },
        frame_color_type,
        frame_data,
        transform,
        logical_region: LogicalRegion {
            inner: Region { position: Position { x: 0, y: 0 }, size },
        },
        physical_size: transform.rotate_size(size),
    }
}

/// The numbers of the pixels, row by row.
fn numbers(image: &DynamicImage) -> Vec<Vec<u8>> {
    (0..image.height())
        .map(|y| (0..image.width()).map(|x| image.get_pixel(x, y).0[0]).collect())
        .collect()
}

#[test]
fn frames_are_turned() {
    for (transform, expected) in [
        (Transform::Normal, vec![vec![1, 2], vec![3, 4], vec![5, 6]]),
        (Transform::_90, vec![vec![5, 3, 1], vec![6, 4, 2]]),
        (Transform::_180, vec![vec![6, 5], vec![4, 3], vec![2, 1]]),
        (Transform::_270, vec![vec![2, 4, 6], vec![1, 3, 5]]),
        (Transform::Flipped, vec![vec![2, 1], vec![4, 3], vec![6, 5]]),
        (Transform::Flipped90, vec![vec![6, 4, 2], vec![5, 3, 1]]),
        (Transform::Flipped180, vec![vec![5, 6], vec![3, 4], vec![1, 2]]),
        (Transform::Flipped270, vec![vec![1, 3, 5], vec![2, 4, 6]]),
    ] {
        let copy = frame(transform, ColorType::Rgba8);
        let image = copy.to_turned_image().unwrap();
        assert_eq!(numbers(&image), expected);
        assert_eq!(image.dimensions(), (copy.physical_size.width, copy.physical_size.height));
        assert!(image.pixels().all(|(_, _, color)| color.0[3] == 200));
    }
}

#[test]
fn turned_frames_keep_their_layout() {
    for (layout, color_type) in
        [(ColorType::Rgb8, image::ColorType::Rgb8), (ColorType::Rgba8, image::ColorType::Rgba8)]
    {
        let image = frame(Transform::Flipped270, layout).to_turned_image().unwrap();
        assert_eq!(image.color(), color_type);
        assert_eq!(numbers(&image), vec![vec![1, 3, 5], vec![2, 4, 6]]);
    }
}

#[test]
fn short_frames_are_not_turned() {
    let mut copy = frame(Transform::_90, ColorType::Rgba8);
    copy.frame_data.pop();
    assert_eq!(copy.to_turned_image().unwrap_err(), WayshotError::BufferTooSmall);
}
