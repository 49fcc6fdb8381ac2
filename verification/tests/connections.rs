use libwayshot::connection::{ExtBase, WayshotConnection};
use libwayshot::error::WayshotError;
use libwayshot::output::{OutputInfo, Transform};
use libwayshot::region::{LogicalRegion, Position, Region, Size};
use libwayshot::setup::{Setup, SetupStep};
use libwayshot::toplevel::TopLevel;
use std::cell::RefCell;

type Connection = WayshotConnection<u32, u32>;

fn output(name: &str, x: i32, scale: i32) -> OutputInfo<u32> {
    OutputInfo {
        output: 7,
        name: name.to_string(),
        description: format!("screen {}", name),
        transform: Transform::Normal,
        physical_size: Size { width: 3840, height: 2160 },
        logical_region: LogicalRegion {
            inner: Region {
                position: Position { x, y: 0 },
                size: Size { width: 1920, height: 1080 },
            },
        },
        scale,
    }
}

fn set_up(answers: [bool; 5]) -> Result<Connection, WayshotError> {
    let mut setup: Setup<u32, u32> = Setup::begin(true);
    assert_eq!(setup.step, SetupStep::RefreshOutputs);
    setup.outputs_found(vec![output("A", 0, 1)])?;
    for (answer, step) in answers.into_iter().zip([
        SetupStep::BindImageCopyManager,
        SetupStep::BindOutputSourceManager,
        SetupStep::BindToplevelSourceManager,
        SetupStep::BindShm,
        SetupStep::BindToplevelList,
    ]) {
        assert_eq!(setup.step, step);
        setup.bound(answer)?;
    }
    assert_eq!(setup.step, SetupStep::Dispatch);
    setup.dispatched();
    assert_eq!(setup.step, SetupStep::Finished);
    Ok(setup.connection)
}

fn missing(text: &str) -> WayshotError {
    WayshotError::ProtocolNotFound(text.to_string())
}

#[test]
fn connection_with_all_protocols() {
    let connection = set_up([true; 5]).unwrap();
    assert_eq!(connection.get_all_outputs().len(), 1);
    assert!(!connection.dmabuf_state);
    let ext = connection.ext_image.unwrap();
    assert!(ext.img_copy_manager && ext.output_image_manager && ext.shm && ext.qh);
    assert!(ext.event_queue && ext.toplevel_image_manager);
}

#[test]
fn connection_without_windows() {
    let connection = set_up([true, true, false, true, false]).unwrap();
    assert!(!connection.ext_image.unwrap().toplevel_image_manager);
}

#[test]
fn missing_protocols_are_named() {
    assert_eq!(
        set_up([false; 5]).unwrap_err(),
        missing("ExtImageCopyCaptureManagerV1 not found")
    );
    assert_eq!(
        set_up([true, false, true, false, true]).unwrap_err(),
        missing("ExtOutputImageCaptureSourceManagerV1 not found")
    );
    assert_eq!(set_up([true, true, true, false, true]).unwrap_err(), missing("WlShm not found"));
}

#[test]
fn connection_without_image_capture() {
    let mut setup: Setup<u32, u32> = Setup::begin(false);
    assert_eq!(setup.outputs_found(vec![output("A", 0, 1)]), Ok(()));
    assert_eq!(setup.step, SetupStep::Finished);
    assert!(setup.connection.ext_image.is_none());
    assert_eq!(setup.connection.require_dmabuf(), Err(WayshotError::NoDMAStateError));
}

#[test]
fn connection_without_outputs() {
    let mut setup: Setup<u32, u32> = Setup::begin(true);
    assert_eq!(setup.outputs_found(Vec::new()), Err(WayshotError::NoOutputs));
    assert_eq!(setup.step, SetupStep::RefreshOutputs);
}

#[test]
fn outputs_are_replaced_unless_there_are_none() {
    let mut connection: Connection = WayshotConnection::unprobed(false, false);
    assert_eq!(connection.refresh_outputs(vec![output("A", 0, 1), output("B", 9, 1)]), Ok(()));
    assert_eq!(connection.vector_of_Outputs().len(), 2);
    assert_eq!(connection.refresh_outputs(Vec::new()), Err(WayshotError::NoOutputs));
    assert_eq!(connection.vector_of_Outputs().len(), 2);
    assert_eq!(connection.refresh_outputs(vec![output("C", 0, 1)]), Ok(()));
    assert_eq!(connection.get_all_outputs()[0].name, "C");
    assert_eq!(connection.get_all_outputs().len(), 1);
}

#[test]
fn dmabuf_has_to_be_asked_for() {
    let connection: Connection = WayshotConnection::unprobed(false, false);
    assert_eq!(connection.require_dmabuf(), Err(WayshotError::NoDMAStateError));
}

#[test]
fn connection_for_dmabuf() {
    let made = Connection::from_connection_with_dmabuf("wire", vec![output("A", 0, 1)]);
    let (conn, connection) = made.unwrap();
    assert_eq!(conn, "wire");
    assert!(connection.dmabuf_state && connection.ext_image.is_none());
    assert_eq!(connection.get_all_outputs()[0].name, "A");
    assert_eq!(connection.require_dmabuf(), Ok(()));
    let refused = Connection::from_connection_with_dmabuf("wire", Vec::new());
    assert!(matches!(refused, Err(WayshotError::NoOutputs)));
    let other = set_up([true; 5]).unwrap();
    assert_eq!(other.require_dmabuf(), Err(WayshotError::NoDMAStateError));
}

#[test]
fn image_capture_is_tried_first() {
    let calls = RefCell::new(Vec::new());
    let res: Result<u32, &str> = Connection::new(|ext| {
        calls.borrow_mut().push(ext);
        Ok(5)
    });
    assert_eq!((res, calls.into_inner()), (Ok(5), vec![true]));
}

#[test]
fn the_older_protocol_is_tried_next() {
    let calls = RefCell::new(Vec::new());
    let res: Result<u32, &str> = Connection::new(|ext| {
        calls.borrow_mut().push(ext);
        if ext { Err("no protocol") } else { Ok(6) }
    });
    assert_eq!((res, calls.into_inner()), (Ok(6), vec![true, false]));
    let res: Result<u32, bool> = Connection::new(|ext| Err(ext));
    assert_eq!(res, Err(false));
}

#[test]
fn lines_about_the_outputs() {
    let mut connection: Connection = WayshotConnection::unprobed(false, false);
    assert_eq!(connection.displays_info(), "");
    connection.refresh_outputs(vec![output("A", -1920, 2), output("B", 0, -1)]).unwrap();
    assert_eq!(
        connection.displays_info(),
        "A\ndescription: screen A\n    Size: 3840,2160\n    LogicSize: 1920, 1080\n    \
         Position: -1920, 0\n    Scale: 2\n\
         B\ndescription: screen B\n    Size: 3840,2160\n    LogicSize: 1920, 1080\n    \
         Position: 0, 0\n    Scale: -1\n"
    );
}

#[test]
fn the_event_queue_is_lent_and_returned() {
    let mut connection = set_up([true; 5]).unwrap();
    connection.take_event_queue();
    assert!(!connection.ext_image.as_ref().unwrap().event_queue);
    connection.reset_event_queue();
    assert!(connection.ext_image.as_ref().unwrap().event_queue);
}

#[test]
fn windows_of_a_connection() {
    let mut connection = set_up([true; 5]).unwrap();
    assert!(connection.toplevels().is_empty());
    let ext: &mut ExtBase<u32> = connection.ext_image.as_mut().unwrap();
    ext.toplevels.push(TopLevel::new(3));
    assert_eq!(*connection.toplevels()[0].handle(), 3);
}

#[test]
fn texts_of_a_window() {
    let mut window = TopLevel::new(11);
    assert_eq!((window.title(), window.app_id(), window.identifier()), ("", "", ""));
    assert!(window.active);
    assert_eq!(window.id_and_title(), " ");
    window.title = "Über uns".to_string();
    window.app_id = "browser".to_string();
    window.identifier = "w1".to_string();
    assert_eq!((window.title(), window.app_id(), window.identifier()), ("Über uns", "browser", "w1"));
    assert_eq!(window.id_and_title(), "browser Über uns");
    assert_eq!(*window.handle(), 11);
}
