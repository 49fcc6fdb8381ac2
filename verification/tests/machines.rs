use libwayshot::error::WayshotError;
use libwayshot::output::{OutputInfo, Transform};
use libwayshot::overlay::{Overlay, OverlayEvent, OverlayFrame, OverlayStep, Presentation};
use libwayshot::region::{LogicalRegion, Position, Region, Size};
use libwayshot::shm::{Errno, ShmEvent, ShmFile, ShmStep};
use libwayshot::text::{push_decimal, push_signed_decimal};

fn frames(n: u32) -> Vec<OverlayFrame> {
    (0..n)
        .map(|i| OverlayFrame { transform: Transform::_270, size: Size { width: 10 + i, height: 20 } })
        .collect()
}

fn run(overlay: &mut Overlay) -> Vec<OverlayStep> {
    let mut steps = vec![overlay.step];
    while overlay.step != OverlayStep::Finished {
        let event = match overlay.step {
            OverlayStep::BindCompositor | OverlayStep::BindWmBase | OverlayStep::BindViewporter => {
                OverlayEvent::Bound(true)
            }
            OverlayStep::AwaitConfigure(_) => OverlayEvent::Configured(true),
            _ => OverlayEvent::Done,
        };
        overlay.advance(event).unwrap();
        steps.push(overlay.step);
    }
    steps
}

#[test]
fn frames_are_shown_and_removed_in_order() {
    let mut overlay = Overlay::new(frames(2));
    assert_eq!(
        run(&mut overlay),
        vec![
            OverlayStep::BindCompositor,
            OverlayStep::BindWmBase,
            OverlayStep::BindViewporter,
            OverlayStep::CreateSurface(0),
            OverlayStep::AwaitConfigure(0),
            OverlayStep::Present(0),
            OverlayStep::Settle(0),
            OverlayStep::CreateSurface(1),
            OverlayStep::AwaitConfigure(1),
            OverlayStep::Present(1),
            OverlayStep::Settle(1),
            OverlayStep::SelectRegion,
            OverlayStep::Unmap(0),
            OverlayStep::Unmap(1),
            OverlayStep::Roundtrip,
            OverlayStep::Finished,
        ]
    );
    assert_eq!((overlay.shown, overlay.removed), (2, 2));
}

#[test]
fn overlay_without_frames() {
    let mut overlay = Overlay::with_globals(Vec::new());
    assert_eq!(
        run(&mut overlay),
        vec![OverlayStep::SelectRegion, OverlayStep::Roundtrip, OverlayStep::Finished]
    );
}

#[test]
fn windows_are_waited_for() {
    let mut overlay = Overlay::with_globals(frames(1));
    overlay.advance(OverlayEvent::Done).unwrap();
    for _ in 0..3 {
        assert_eq!(overlay.step, OverlayStep::AwaitConfigure(0));
        overlay.advance(OverlayEvent::Configured(false)).unwrap();
    }
    overlay.advance(OverlayEvent::Configured(true)).unwrap();
    assert_eq!(overlay.step, OverlayStep::Present(0));
    assert_eq!(
        overlay.presentation(),
        Presentation { transform: Transform::_270, destination: Some((10, 20)) }
    );
}

#[test]
fn frames_are_not_scaled_without_a_viewporter() {
    let mut overlay = Overlay::new(frames(1));
    overlay.advance(OverlayEvent::Bound(true)).unwrap();
    overlay.advance(OverlayEvent::Bound(true)).unwrap();
    overlay.advance(OverlayEvent::Bound(false)).unwrap();
    overlay.advance(OverlayEvent::Done).unwrap();
    overlay.advance(OverlayEvent::Configured(true)).unwrap();
    assert_eq!(
        overlay.presentation(),
        Presentation { transform: Transform::_270, destination: None }
    );
}

#[test]
fn the_overlay_needs_a_compositor_and_a_shell() {
    let missing = |text: &str| Err(WayshotError::ProtocolNotFound(text.to_string()));
    let mut overlay = Overlay::new(frames(1));
    assert_eq!(overlay.advance(OverlayEvent::Bound(false)), missing("WlCompositor not found"));
    assert_eq!(overlay.step, OverlayStep::BindCompositor);
    overlay.advance(OverlayEvent::Bound(true)).unwrap();
    assert_eq!(overlay.advance(OverlayEvent::Bound(false)), missing("XdgWmBase not found"));
}

#[test]
fn whole_outputs_are_overlaid_with_their_size() {
    let info = OutputInfo {
        output: 1,
        name: String::new(),
        description: String::new(),
        transform: Transform::Flipped,
        physical_size: Size { width: 100, height: 50 },
        logical_region: LogicalRegion {
            inner: Region {
                position: Position { x: 1, y: 2 },
                size: Size { width: 80, height: 40 },
            },
        },
        scale: 1,
    };
    assert_eq!(
        OverlayFrame::of_output(&info),
        OverlayFrame { transform: Transform::Flipped, size: Size { width: 80, height: 40 } }
    );
}

fn shm_steps(file: &mut ShmFile, events: &[ShmEvent]) -> Vec<ShmStep> {
    let mut steps = Vec::new();
    for event in events {
        file.advance(*event);
        steps.push(file.step);
    }
    steps
}

#[test]
fn file_without_a_name() {
    let mut file = ShmFile::begin(true);
    assert_eq!(file.step, ShmStep::MemfdCreate);
    assert_eq!(
        shm_steps(
            &mut file,
            &[ShmEvent::Refused(Errno::EINTR), ShmEvent::Called, ShmEvent::Refused(Errno::Other(1))]
        ),
        vec![ShmStep::MemfdCreate, ShmStep::Seal, ShmStep::Return]
    );
    assert!(file.open && !file.named);
}

#[test]
fn file_without_a_name_fails() {
    let mut file = ShmFile::begin(true);
    file.advance(ShmEvent::Refused(Errno::Other(24)));
    assert_eq!(file.step, ShmStep::Fail(Errno::Other(24)));
    assert!(!file.open);
}

#[test]
fn shared_memory_object_as_a_fallback() {
    let mut file = ShmFile::begin(true);
    assert_eq!(
        shm_steps(
            &mut file,
            &[
                ShmEvent::Refused(Errno::ENOSYS),
                ShmEvent::Clock(123),
                ShmEvent::Refused(Errno::EEXIST),
                ShmEvent::Clock(450),
                ShmEvent::Refused(Errno::EINTR),
                ShmEvent::Called,
            ]
        ),
        vec![
            ShmStep::ReadClock,
            ShmStep::ShmOpen,
            ShmStep::ReadClock,
            ShmStep::ShmOpen,
            ShmStep::ShmOpen,
            ShmStep::ShmUnlink,
        ]
    );
    assert_eq!(file.handle(), "/wayshot-450");
    assert!(file.open && file.named);
    file.advance(ShmEvent::Called);
    assert_eq!(file.step, ShmStep::Return);
    assert!(file.open && !file.named);
}

#[test]
fn taken_names_are_changed() {
    for (clock, first, second) in [
        (450, "/wayshot-450", "/wayshot-451"),
        (999_999_999, "/wayshot-999999999", "/wayshot-0"),
        (0, "/wayshot-0", "/wayshot-1"),
    ] {
        let mut file = ShmFile::begin(false);
        file.advance(ShmEvent::Clock(clock));
        assert_eq!(file.handle(), first);
        file.advance(ShmEvent::Refused(Errno::EEXIST));
        file.advance(ShmEvent::Clock(clock));
        assert_eq!(file.handle(), second);
        file.advance(ShmEvent::Refused(Errno::EEXIST));
        file.advance(ShmEvent::Clock(7));
        assert_eq!(file.handle(), "/wayshot-7");
    }
}

#[test]
fn shared_memory_object_cannot_be_opened() {
    let mut file = ShmFile::begin(false);
    assert_eq!(
        shm_steps(&mut file, &[ShmEvent::Clock(0), ShmEvent::Refused(Errno::ENOSYS)]),
        vec![ShmStep::ShmOpen, ShmStep::Fail(Errno::ENOSYS)]
    );
    assert_eq!(file.handle(), "/wayshot-0");
}

#[test]
fn named_objects_are_closed_on_failure() {
    for (closed, reported) in [
        (ShmEvent::Called, Errno::Other(13)),
        (ShmEvent::Refused(Errno::Other(9)), Errno::Other(9)),
    ] {
        let mut file = ShmFile::begin(false);
        file.advance(ShmEvent::Clock(999_999_999));
        file.advance(ShmEvent::Called);
        file.advance(ShmEvent::Refused(Errno::Other(13)));
        assert_eq!(file.step, ShmStep::Close(Errno::Other(13)));
        file.advance(closed);
        assert_eq!(file.step, ShmStep::Fail(reported));
        assert!(!file.open);
    }
}

#[test]
fn numbers_as_text() {
    for n in [0, 7, 10, 99, 100, 4_000_000_000, u32::MAX] {
        let mut text = "n".to_string();
        push_decimal(&mut text, n);
        assert_eq!(text, format!("n{}", n));
    }
    for n in [0, 5, -5, -10, i32::MAX, i32::MIN] {
        let mut text = String::new();
        push_signed_decimal(&mut text, n);
        assert_eq!(text, format!("{}", n));
    }
}
