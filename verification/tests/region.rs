use libwayshot::error::WayshotError;
use libwayshot::output::{OutputInfo, Transform};
use libwayshot::region::{EmbeddedRegion, LogicalRegion, Position, Region, Size};

fn region(x: i32, y: i32, width: u32, height: u32) -> LogicalRegion {
    LogicalRegion { inner: Region { position: Position { x, y }, size: Size { width, height } } }
}

fn output(x: i32, y: i32, width: u32, height: u32) -> OutputInfo<u32> {
    OutputInfo {
        output: 7,
        name: "DP-1".to_string(),
        description: "a screen".to_string(),
        transform: Transform::Normal,
        physical_size: Size { width, height },
        logical_region: region(x, y, width, height),
        scale: 1,
    }
}

#[test]
fn regions_that_touch_do_not_overlap() {
    assert_eq!(EmbeddedRegion::new(region(0, 0, 10, 10), region(10, 0, 10, 10)), None);
    assert_eq!(EmbeddedRegion::new(region(0, 0, 10, 10), region(0, -5, 10, 5)), None);
}

#[test]
fn empty_regions_do_not_overlap() {
    assert_eq!(EmbeddedRegion::new(region(2, 2, 0, 5), region(0, 0, 10, 10)), None);
    assert_eq!(EmbeddedRegion::new(region(2, 2, 5, 5), region(0, 0, 10, 0)), None);
}

#[test]
fn overlap_is_relative_to_the_output() {
    let embedded = EmbeddedRegion::new(region(1900, 100, 100, 50), region(1920, 0, 1280, 1024));
    let embedded = embedded.unwrap();
    assert_eq!(embedded.relative_to, region(1920, 0, 1280, 1024));
    assert_eq!(embedded.inner, region(0, 100, 80, 50).inner);
    assert_eq!(embedded.logical(), region(1920, 100, 80, 50));
}

#[test]
fn overlap_with_an_output_left_of_the_origin() {
    let embedded = EmbeddedRegion::new(region(-50, -20, 1000, 1000), region(-100, -100, 100, 90));
    let embedded = embedded.unwrap();
    assert_eq!(embedded.inner, region(50, 80, 50, 10).inner);
    assert_eq!(embedded.logical(), region(-50, -20, 50, 10));
}

#[test]
fn overlap_at_the_ends_of_the_coordinates() {
    let all = region(i32::MIN, i32::MIN, u32::MAX, u32::MAX);
    let corner = region(i32::MAX - 1, i32::MAX - 1, 5, 5);
    let embedded = EmbeddedRegion::new(all, corner).unwrap();
    assert_eq!(embedded.inner, region(0, 0, 1, 1).inner);
}

#[test]
fn points_of_the_overlap_lie_in_both() {
    let viewport = region(3, -2, 6, 9);
    let screen = region(-1, 1, 7, 4);
    let part = EmbeddedRegion::new(viewport, screen).unwrap().logical();
    let inside = |r: LogicalRegion, x: i32, y: i32| {
        let r = r.inner;
        r.position.x <= x
            && x < r.position.x + r.size.width as i32
            && r.position.y <= y
            && y < r.position.y + r.size.height as i32
    };
    for x in -5..15 {
        for y in -5..15 {
            assert_eq!(inside(part, x, y), inside(viewport, x, y) && inside(screen, x, y));
        }
    }
}

#[test]
fn enclosing_region_of_outputs() {
    let outputs = vec![
        output(0, 0, 1920, 1080),
        output(-1280, 56, 1280, 1024),
        output(1920, -200, 1080, 1920),
    ];
    assert_eq!(LogicalRegion::enclosing(&outputs), Ok(region(-1280, -200, 4280, 1920)));
    assert_eq!(LogicalRegion::enclosing(&vec![output(3, 4, 5, 6)]), Ok(region(3, 4, 5, 6)));
}

#[test]
fn nothing_encloses_no_outputs() {
    let outputs: Vec<OutputInfo<u32>> = Vec::new();
    assert_eq!(LogicalRegion::enclosing(&outputs), Err(WayshotError::NoOutputs));
}

#[test]
fn transforms_that_exchange_sides() {
    let size = Size { width: 1920, height: 1080 };
    let turned = Size { width: 1080, height: 1920 };
    for transform in [Transform::_90, Transform::_270, Transform::Flipped90, Transform::Flipped270] {
        assert_eq!(transform.rotate_size(size), turned);
        assert_eq!(transform.rotate_size(turned), size);
    }
    for transform in [Transform::Normal, Transform::_180, Transform::Flipped, Transform::Flipped180] {
        assert_eq!(transform.rotate_size(size), size);
    }
}
