//! Captures through the image capture protocols: of an output, of a window, and
//! of an area that the user selects.
use crate::binary64::{
    law_scaling_is_close, law_scaling_is_exact, law_scaling_without_a_size, scale_coordinate,
    scale_length, scaled, SIGNIFICANDS,
};
use crate::connection::WayshotConnection;
use crate::convert::{
    converter_for, create_converter, law_conversion_keeps_colours, law_conversion_keeps_length,
};
use crate::dispatch::{capture_failure, failure_text, FrameState};
use crate::error::{fails_with, ErrorView, WayshotError};
use crate::output::{OutputInfo, Transform};
use crate::overlay::OverlayFrame;
use crate::region::{min, LogicalRegion, Position, Region, Size};
use crate::screencopy::{ColorType, Format, FrameInfo};
pub use crate::toplevel::TopLevel;
use crate::wire::{law_wrapping_keeps_bits, to_signed, wrapped};
use vstd::prelude::*;
use wayland_protocols::ext::image_copy_capture::v1::client::ext_image_copy_capture_manager_v1::Options;

verus! {

/// The options of a capture session, a set of flags.
#[verifier::external_type_specification]
#[verifier::external_body]
pub struct ExOptions(Options);

/// The flags in a set of options, each by its bit.
pub uninterp spec fn option_flags(options: Options) -> Set<u32>;

/// `Options::empty`, which holds no flag.
#[verifier::external_body]
fn no_options() -> (res: Options)
    ensures
        option_flags(res) == Set::<u32>::empty(),
{
    Options::empty()
}

/// `Options::PaintCursors`, which holds the flag `paint_cursors`, the bit 1, and no
/// other.
#[verifier::external_body]
fn paint_cursors() -> (res: Options)
    ensures
        option_flags(res) == set![1u32],
{
    Options::PaintCursors
}

/// Whether the cursor is captured too.
#[derive(Debug, Clone, Copy, PartialEq, Eq, Structural)]
pub enum CaptureOption {
    PaintCursors,
    NoCursors,
}

impl CaptureOption {
    /// The flags that a capture session is asked for.
    pub open spec fn flags(self) -> Set<u32> {
        match self {
            CaptureOption::PaintCursors => set![1u32],
            CaptureOption::NoCursors => Set::empty(),
        }
    }
}

impl vstd::std_specs::convert::FromSpecImpl<CaptureOption> for Options {
    /// The options are not given as a value but by their flags.
    open spec fn obeys_from_spec() -> bool {
        false
    }

    open spec fn from_spec(val: CaptureOption) -> Options {
        choose|options: Options| option_flags(options) == val.flags()
    }
}

impl From<CaptureOption> for Options {
    fn from(val: CaptureOption) -> (res: Options)
        ensures
            option_flags(res) == val.flags(),
    {
        match val {
            CaptureOption::NoCursors => no_options(),
            CaptureOption::PaintCursors => paint_cursors(),
        }
    }
}

/// What a capture session reports about its frame.
#[derive(Debug, Clone, Copy, PartialEq, Eq)]
pub struct CaptureInfo {
    pub transform: Transform,
    pub state: FrameState,
}

impl CaptureInfo {
    /// What is assumed until the compositor has spoken.
    pub fn new() -> (res: Self)
        ensures
            res.transform == Transform::Normal,
            res.state is Pending,
    {
        CaptureInfo { transform: Transform::Normal, state: FrameState::Pending }
    }

    pub fn transform(&self) -> (res: Transform)
        ensures
            res == self.transform,
    {
        self.transform
    }

    pub fn state(&self) -> (res: FrameState)
        ensures
            res == self.state,
    {
        self.state
    }
}

/// What is captured.
#[derive(Debug, Clone, Copy, PartialEq, Eq, Structural)]
pub enum CaptureSource {
    Output,
    TopLevel,
}

impl CaptureSource {
    /// A frame of this source can be read in the format.
    pub open spec fn reads(self, format: Format) -> bool {
        match self {
            CaptureSource::Output => format.readable(),
            CaptureSource::TopLevel => format.readable_for_windows(),
        }
    }
}

/// The shared memory that a frame is captured into: a file, a pool over the whole
/// of it, and a buffer at the start of the pool.
#[derive(Debug, Clone, Copy, PartialEq, Eq, Structural)]
pub struct FrameBuffer {
    pub file_len: u64,
    pub pool_size: i32,
    pub width: i32,
    pub height: i32,
    pub stride: i32,
    pub format: Format,
}

impl FrameBuffer {
    /// The memory for a frame of four bytes for each pixel.
    pub open spec fn is_for(self, info: FrameInfo) -> bool {
        &&& self.file_len == 4 * info.size.width * info.size.height
        &&& self.pool_size == wrapped(4 * info.size.width * info.size.height)
        &&& self.width == wrapped(info.size.width as int)
        &&& self.height == wrapped(info.size.height as int)
        &&& self.stride == wrapped(4 * info.size.width)
        &&& self.format == info.format
    }
}

/// How far a capture has come.
#[derive(Debug, Clone, Copy, PartialEq, Eq)]
pub enum CapturePhase {
    /// The session has not said yet which buffer it needs.
    Negotiating,
    /// The session has a buffer, and has been told to capture into it.
    Capturing(FrameInfo),
    /// The buffer holds the frame.
    Captured(FrameInfo, Transform),
    /// There will be no frame.
    Failed,
}

/// What the session has reported.
#[derive(Debug, Clone, Copy, PartialEq, Eq)]
pub enum CaptureEvent {
    /// The buffer that it needs.
    Constraints(FrameInfo),
    /// The state of the frame.
    Status(CaptureInfo),
}

/// What to do next.
#[derive(Debug, PartialEq, Eq)]
pub enum CaptureAction {
    /// Allocate the memory, attach the buffer, start the capture, and wait for
    /// events.
    Capture(FrameBuffer),
    /// Wait for events.
    Dispatch,
    /// Read the frame, which was captured with this transform.
    Complete(Transform),
    /// Give up.
    Abort(WayshotError),
}

impl CaptureAction {
    pub open spec fn aborts_with(self, error: ErrorView) -> bool {
        self matches CaptureAction::Abort(e) && e@ == error
    }
}

/// The numbers of bytes in a row, in a column and in a frame of `size` are in
/// range.
pub open spec fn frame_fits(size: Size) -> bool {
    &&& 4 * size.width <= u32::MAX
    &&& 4 * size.height <= u32::MAX
    &&& 4 * size.width * size.height <= u32::MAX
}

/// A capture through the image capture protocols.
#[derive(Debug, Clone, Copy, PartialEq, Eq)]
pub struct ExtCapture {
    pub source: CaptureSource,
    pub phase: CapturePhase,
}

impl<O, H> WayshotConnection<O, H> {
    /// The connection has all that a capture of `source` needs.
    pub open spec fn can_capture(self, source: CaptureSource) -> bool {
        self.ext_image matches Some(ext) && {
            &&& ext.event_queue
            &&& ext.img_copy_manager
            &&& ext.qh
            &&& ext.shm
            &&& match source {
                CaptureSource::Output => ext.output_image_manager,
                CaptureSource::TopLevel => ext.toplevel_image_manager,
            }
        }
    }
}

/// The phase after the session has said which buffer it needs.
pub open spec fn after_constraints(source: CaptureSource, info: FrameInfo) -> CapturePhase {
    if source.reads(info.format) {
        CapturePhase::Capturing(info)
    } else {
        CapturePhase::Failed
    }
}

/// The phase after a report about the frame.
pub open spec fn after_status(phase: CapturePhase, status: CaptureInfo) -> CapturePhase {
    match (phase, status.state) {
        (CapturePhase::Capturing(info), FrameState::Succeeded) => CapturePhase::Captured(
            info,
            status.transform,
        ),
        (CapturePhase::Capturing(_), FrameState::Failed(_)) => CapturePhase::Failed,
        _ => phase,
    }
}

/// The phase after a number of reports about the frame.
pub open spec fn after_statuses(phase: CapturePhase, statuses: Seq<CaptureInfo>) -> CapturePhase
    decreases statuses.len(),
{
    if statuses.len() == 0 {
        phase
    } else {
        after_status(after_statuses(phase, statuses.drop_last()), statuses.last())
    }
}

impl ExtCapture {
    /// A frame that is captured has a format that can be read, and a size that can
    /// be computed with.
    pub open spec fn wf(self) -> bool {
        match self.phase {
            CapturePhase::Capturing(info) | CapturePhase::Captured(info, _) => {
                &&& self.source.reads(info.format)
                &&& frame_fits(info.size)
            },
            _ => true,
        }
    }

    /// The phase after an event.
    pub open spec fn next_phase(self, event: CaptureEvent) -> CapturePhase {
        match event {
            CaptureEvent::Constraints(info) => after_constraints(self.source, info),
            CaptureEvent::Status(status) => after_status(self.phase, status),
        }
    }

    /// The event queue is back at the connection exactly when the frame has been
    /// captured.
    pub open spec fn holds_queue_of<O, H>(self, connection: WayshotConnection<O, H>) -> bool {
        &&& connection.ext_image is Some
        &&& connection.queue_at_hand() <==> self.phase is Captured
    }

    /// The event can occur in this phase, and the frame that it speaks of has a
    /// size that can be computed with.
    pub open spec fn expects(self, event: CaptureEvent) -> bool {
        match event {
            CaptureEvent::Constraints(info) => {
                &&& self.phase is Negotiating
                &&& self.source.reads(info.format) ==> frame_fits(info.size)
                &&& self.source is TopLevel ==> {
                    &&& 4 * info.size.height <= u32::MAX
                    &&& 4 * info.size.height * info.size.width <= u32::MAX
                }
            },
            CaptureEvent::Status(_) => self.phase is Capturing,
        }
    }

    /// Starts a capture, which borrows the connection's event queue.
    pub fn begin<O, H>(
        connection: &mut WayshotConnection<O, H>,
        source: CaptureSource,
    ) -> (res: Self)
        requires
            old(connection).can_capture(source),
        ensures
            res.wf(),
            res.source == source,
            res.phase is Negotiating,
            *final(connection) == old(connection).with_queue(false),
            res.holds_queue_of(*final(connection)),
    {
        connection.take_event_queue();
        ExtCapture { source, phase: CapturePhase::Negotiating }
    }

    /// Goes on after an event. The connection gets its event queue back when the
    /// frame has been captured, and not when the capture fails.
    pub fn step<O, H>(
        &mut self,
        connection: &mut WayshotConnection<O, H>,
        event: CaptureEvent,
    ) -> (res: CaptureAction)
        requires
            old(self).wf(),
            old(self).holds_queue_of(*old(connection)),
            old(self).expects(event),
        ensures
            final(self).wf(),
            final(self).source == old(self).source,
            final(self).phase == old(self).next_phase(event),
            final(self).holds_queue_of(*final(connection)),
            *final(connection) == old(connection).with_queue(final(self).phase is Captured),
            match event {
                CaptureEvent::Constraints(info) => if old(self).source.reads(info.format) {
                    res matches CaptureAction::Capture(buffer) && buffer.is_for(info)
                } else {
                    res.aborts_with(ErrorView::NotSupportFormat)
                },
                CaptureEvent::Status(status) => match status.state {
                    FrameState::Pending => res is Dispatch,
                    FrameState::Succeeded => res == CaptureAction::Complete(status.transform),
                    FrameState::Failed(reason) => res.aborts_with(
                        ErrorView::CaptureFailed(failure_text(reason)),
                    ),
                },
            },
    {
        match event {
            CaptureEvent::Constraints(info) => {
                let readable = match self.source {
                    CaptureSource::Output => info.format.is_readable(),
                    CaptureSource::TopLevel => info.format.is_readable_for_windows(),
                };
                if !readable {
                    self.phase = CapturePhase::Failed;
                    return CaptureAction::Abort(WayshotError::NotSupportFormat);
                }
                self.phase = CapturePhase::Capturing(info);
                CaptureAction::Capture(frame_buffer(info))
            },
            CaptureEvent::Status(status) => match status.state() {
                FrameState::Pending => CaptureAction::Dispatch,
                FrameState::Succeeded => {
                    let transform = status.transform();
                    if let CapturePhase::Capturing(info) = self.phase {
                        self.phase = CapturePhase::Captured(info, transform);
                    }
                    connection.reset_event_queue();
                    CaptureAction::Complete(transform)
                },
                FrameState::Failed(reason) => {
                    self.phase = CapturePhase::Failed;
                    CaptureAction::Abort(capture_failure(reason))
                },
            },
        }
    }
}

fn frame_buffer(info: FrameInfo) -> (res: FrameBuffer)
    requires
        frame_fits(info.size),
    ensures
        res.is_for(info),
{
    let width: u32 = info.size.width;
    let height: u32 = info.size.height;
    let stride: u32 = 4 * width;
    let frame_bytes: u32 = stride * height;
    FrameBuffer {
        file_len: frame_bytes as u64,
        pool_size: to_signed(frame_bytes),
        width: to_signed(width),
        height: to_signed(height),
        stride: to_signed(stride),
        format: info.format,
    }
}

/// The first report that the copy is not pending any more decides about a
/// capture: it ends with a frame that has the transform of that report, or without
/// one. As long as all reports are pending, it goes on.
pub proof fn law_first_decisive_report(info: FrameInfo, pending: Seq<CaptureInfo>, last: CaptureInfo)
    requires
        forall|i: int| 0 <= i < pending.len() ==> (#[trigger] pending[i]).state is Pending,
    ensures
        after_statuses(CapturePhase::Capturing(info), pending) == CapturePhase::Capturing(info),
        last.state is Succeeded ==> after_statuses(
            CapturePhase::Capturing(info),
            pending.push(last),
        ) == CapturePhase::Captured(info, last.transform),
        last.state is Failed ==> after_statuses(CapturePhase::Capturing(info), pending.push(last))
            == CapturePhase::Failed,
    decreases pending.len(),
{
    assert(pending.push(last).drop_last() =~= pending);
    if pending.len() > 0 {
        assert forall|i: int| 0 <= i < pending.drop_last().len() implies (
        #[trigger] pending.drop_last()[i]).state is Pending by {
            assert(pending.drop_last()[i] == pending[i]);
        }
        law_first_decisive_report(info, pending.drop_last(), last);
    }
}

/// A finished capture stays finished, whatever else is reported.
pub proof fn law_end_is_final(phase: CapturePhase, statuses: Seq<CaptureInfo>)
    requires
        phase is Captured || phase is Failed,
    ensures
        after_statuses(phase, statuses) == phase,
    decreases statuses.len(),
{
    if statuses.len() > 0 {
        law_end_is_final(phase, statuses.drop_last());
    }
}

/// A capture that gives the connection its event queue back leaves the connection
/// as it was before, and able to capture again; one that does not, because it
/// failed, leaves it unable to.
pub proof fn law_queue_round_trip<O, H>(connection: WayshotConnection<O, H>, source: CaptureSource)
    requires
        connection.can_capture(source),
    ensures
        connection.with_queue(false).with_queue(true) == connection,
        !connection.with_queue(false).can_capture(source),
{
}

/// A captured frame of an output. `O` is the handle of the output.
#[derive(Debug, Clone, Copy, PartialEq, Eq)]
pub struct CaptureOutputData<O> {
    pub output: O,
    pub frame_info: FrameInfo,
    pub color_type: ColorType,
    pub transform: Transform,
    pub logical_region: LogicalRegion,
    pub physical_size: Size,
}

/// A captured frame of a window.
#[derive(Debug, Clone, Copy, PartialEq, Eq)]
pub struct CaptureTopLevelData {
    pub width: u32,
    pub height: u32,
    pub frame_bytes: u32,
    pub stride: u32,
    pub frame_format: Format,
    pub transform: Transform,
}

impl ExtCapture {
    /// The captured frame of the output. It is given the size that the output has in
    /// the compositor's space, whatever size the session asked for.
    pub fn output_data<O>(&self, output_info: OutputInfo<O>) -> (res: CaptureOutputData<O>)
        requires
            self.wf(),
            self.phase is Captured,
        ensures
            res.frame_info.format.readable(),
            self.phase matches CapturePhase::Captured(info, transform) && res == (
            CaptureOutputData {
                output: output_info.output,
                frame_info: FrameInfo {
                    format: info.format,
                    size: output_info.logical_region.inner.size,
                    stride: (4 * info.size.width) as u32,
                },
                color_type: ColorType::Rgba8,
                transform,
                logical_region: output_info.logical_region,
                physical_size: output_info.logical_region.inner.size,
            }),
    {
        let (info, transform) = self.captured();
        let stride: u32 = 4 * info.size.width;
        let logical_region = output_info.logical_region;
        CaptureOutputData {
            output: output_info.output,
            frame_info: FrameInfo { format: info.format, size: logical_region.inner.size, stride },
            color_type: ColorType::Rgba8,
            transform,
            logical_region,
            physical_size: logical_region.inner.size,
        }
    }

    /// The captured frame of a window.
    pub fn toplevel_data(&self) -> (res: CaptureTopLevelData)
        requires
            self.wf(),
            self.phase is Captured,
        ensures
            res.frame_format.readable(),
            self.phase matches CapturePhase::Captured(info, transform) && res == (
            CaptureTopLevelData {
                width: info.size.width,
                height: info.size.height,
                frame_bytes: (4 * info.size.width * info.size.height) as u32,
                stride: (4 * info.size.width) as u32,
                frame_format: info.format,
                transform,
            }),
    {
        let (info, transform) = self.captured();
        let stride: u32 = 4 * info.size.width;
        CaptureTopLevelData {
            width: info.size.width,
            height: info.size.height,
            frame_bytes: stride * info.size.height,
            stride,
            frame_format: info.format,
            transform,
        }
    }

    fn captured(&self) -> (res: (FrameInfo, Transform))
        requires
            self.phase is Captured,
        ensures
            self.phase == CapturePhase::Captured(res.0, res.1),
    {
        match self.phase {
            CapturePhase::Captured(info, transform) => (info, transform),
            _ => (FrameInfo::placeholder(), Transform::Normal),
        }
    }
}

/// A part of a captured frame: the frame holds the whole of what was captured, and
/// `region` says which part of it is meant.
#[derive(Debug, Clone)]
pub struct ImageViewInfo {
    pub data: Vec<u8>,
    pub width: u32,
    pub height: u32,
    pub color_type: ColorType,
    pub region: Region,
}

impl ImageViewInfo {
    /// The view shows a frame that was captured in the format `format`.
    pub open spec fn shows(self, frame: Seq<u8>, format: Format) -> bool {
        converter_for(format) matches Some(converter) && {
            &&& self.data@ == converter.converted(frame)
            &&& self.color_type == converter.color_type()
        }
    }
}

/// Converts a frame; the part that is meant is `region`.
fn view_frame(frame: Vec<u8>, format: Format, size: Size, region: Region) -> (res: ImageViewInfo)
    requires
        format.readable(),
    ensures
        res.shows(frame@, format),
        res.width == size.width,
        res.height == size.height,
        res.region == region,
{
    let mut data = frame;
    let converter = create_converter(format).unwrap();
    let color_type = converter.convert_inplace(&mut data);
    ImageViewInfo { data, width: size.width, height: size.height, color_type, region }
}

/// The view of the whole of an output.
pub fn output_view<O>(
    capture: &CaptureOutputData<O>,
    output: &OutputInfo<O>,
    frame: Vec<u8>,
) -> (res: ImageViewInfo)
    requires
        capture.frame_info.format.readable(),
    ensures
        res.shows(frame@, capture.frame_info.format),
        res.width == capture.logical_region.inner.size.width,
        res.height == capture.logical_region.inner.size.height,
        res.region == output.logical_region.inner,
{
    view_frame(
        frame,
        capture.frame_info.format,
        capture.logical_region.inner.size,
        output.logical_region.inner,
    )
}

/// The view of the whole of a window.
pub fn toplevel_view(capture: &CaptureTopLevelData, frame: Vec<u8>) -> (res: ImageViewInfo)
    requires
        capture.frame_format.readable(),
    ensures
        res.shows(frame@, capture.frame_format),
        res.width == capture.width,
        res.height == capture.height,
        res.region == (Region {
            position: Position { x: 0, y: 0 },
            size: Size { width: capture.width, height: capture.height },
        }),
{
    let size = Size { width: capture.width, height: capture.height };
    view_frame(
        frame,
        capture.frame_format,
        size,
        Region { position: Position { x: 0, y: 0 }, size },
    )
}

/// Lets the user select an area. `S` is what the selection is made from.
pub trait AreaSelectCallback<S>: Sized {
    /// The selection can be made from `state`.
    spec fn accepts(self, state: &S) -> bool;

    /// `res` is an outcome that the selection from `state` can have.
    spec fn selects(self, state: &S, res: Result<Region, WayshotError>) -> bool;

    fn screenshot(self, state: &S) -> (res: Result<Region, WayshotError>)
        requires
            self.accepts(state),
        ensures
            self.selects(state, res),
    ;
}

/// A function selects what it returns.
impl<S, F> AreaSelectCallback<S> for F where F: Fn(&S) -> Result<Region, WayshotError> {
    open spec fn accepts(self, state: &S) -> bool {
        call_requires(self, (state,))
    }

    open spec fn selects(self, state: &S, res: Result<Region, WayshotError>) -> bool {
        call_ensures(self, (state,), res)
    }

    fn screenshot(self, state: &S) -> (res: Result<Region, WayshotError>) {
        self(state)
    }
}

/// A region selects itself.
impl<S> AreaSelectCallback<S> for Region {
    open spec fn accepts(self, state: &S) -> bool {
        true
    }

    open spec fn selects(self, state: &S, res: Result<Region, WayshotError>) -> bool {
        res == Ok::<Region, WayshotError>(self)
    }

    fn screenshot(self, state: &S) -> (res: Result<Region, WayshotError>) {
        Ok(self)
    }
}

/// A frame of an output, from which an area may be taken.
#[derive(Debug, Clone, Copy, PartialEq, Eq)]
pub struct AreaShotInfo<O> {
    pub data: CaptureOutputData<O>,
}

impl<O> AreaShotInfo<O> {
    /// The last column that still counts as on the screen.
    pub open spec fn last_column(self) -> int {
        self.data.logical_region.inner.left() + wrapped(self.data.physical_size.width as int)
    }

    /// The last row that still counts as on the screen.
    pub open spec fn last_row(self) -> int {
        self.data.logical_region.inner.top() + wrapped(self.data.physical_size.height as int)
    }

    /// The coordinates of the screen's edges are in range, as far as they are
    /// looked at.
    pub open spec fn edges_fit(self, point: Position) -> bool {
        let corner = self.data.logical_region.inner.position;
        point.y >= corner.y && point.x >= corner.x ==> {
            &&& self.last_column() <= i32::MAX
            &&& self.last_column() >= i32::MIN
            &&& point.x <= self.last_column() ==> i32::MIN <= self.last_row() <= i32::MAX
        }
    }

    /// The point lies on the screen, or on its right or lower edge.
    pub open spec fn covers(self, point: Position) -> bool {
        let corner = self.data.logical_region.inner.position;
        &&& corner.x <= point.x <= self.last_column()
        &&& corner.y <= point.y <= self.last_row()
    }

    /// How the frame is shown while an area is selected.
    pub fn overlay_frame(&self) -> (res: OverlayFrame)
        ensures
            res.transform == self.data.transform,
            res.size == self.data.physical_size,
    {
        OverlayFrame { transform: self.data.transform, size: self.data.physical_size }
    }

    /// Whether the upper left corner of a region lies on the screen.
    pub fn in_this_screen(&self, region: Region) -> (res: bool)
        requires
            self.edges_fit(region.position),
        ensures
            res == self.covers(region.position),
    {
        let point = region.position;
        let size = self.data.physical_size;
        let Position { x, y } = self.data.logical_region.inner.position;
        if point.y < y || point.x < x || point.x > x + to_signed(size.width) || point.y > y
            + to_signed(size.height) {
            return false;
        }
        true
    }

    /// `area` is `region` in the coordinates of the frame: relative to the screen,
    /// and scaled from its physical to its logical size.
    pub open spec fn is_clipped(self, region: Region, area: Region) -> bool {
        let screen = self.data.logical_region.inner;
        let physical = self.data.physical_size;
        &&& area.left() == scaled(
            (region.left() - screen.left()) as nat,
            screen.size.width as nat,
            physical.width as nat,
            i32::MAX as nat,
        )
        &&& area.top() == scaled(
            (region.top() - screen.top()) as nat,
            screen.size.height as nat,
            physical.height as nat,
            i32::MAX as nat,
        )
        &&& area.size.width == scaled(
            region.size.width as nat,
            screen.size.width as nat,
            physical.width as nat,
            u32::MAX as nat,
        )
        &&& area.size.height == scaled(
            region.size.height as nat,
            screen.size.height as nat,
            physical.height as nat,
            u32::MAX as nat,
        )
    }

    /// A region in the coordinates of the frame, where it starts on this screen.
    pub fn clip_area(&self, region: Region) -> (res: Option<Region>)
        requires
            self.edges_fit(region.position),
        ensures
            res is Some <==> self.covers(region.position),
            res matches Some(area) ==> self.is_clipped(region, area),
    {
        if !self.in_this_screen(region) {
            return None;
        }
        let screen = self.data.logical_region.inner;
        let physical = self.data.physical_size;
        let relative_x: i32 = region.position.x - screen.position.x;
        let relative_y: i32 = region.position.y - screen.position.y;
        let position = Position {
            x: scale_coordinate(relative_x as u32, screen.size.width, physical.width),
            y: scale_coordinate(relative_y as u32, screen.size.height, physical.height),
        };
        let size = Size {
            width: scale_length(region.size.width, screen.size.width, physical.width),
            height: scale_length(region.size.height, screen.size.height, physical.height),
        };
        Some(Region { position, size })
    }
}

/// `frames` came of capturing `outputs` in turn; before each capture, and after the
/// last one, the state was the one that `states` has in that place.
pub open spec fn captured_in_turn<S, O, T, E, F: Fn(S, &OutputInfo<O>) -> (S, Result<T, E>)>(
    capture: F,
    outputs: Seq<OutputInfo<O>>,
    states: Seq<S>,
    frames: Seq<T>,
) -> bool {
    &&& frames.len() <= outputs.len()
    &&& states.len() == frames.len() + 1
    &&& forall|i: int|
        0 <= i < frames.len() ==> call_ensures(
            capture,
            (states[i], &outputs[i]),
            (states[i + 1], Ok::<T, E>(#[trigger] frames[i])),
        )
}

/// `frames` came of capturing all of `outputs` in turn, which led from the state
/// `first` to the state `last`.
pub open spec fn all_captured<S, O, T, E, F: Fn(S, &OutputInfo<O>) -> (S, Result<T, E>)>(
    capture: F,
    outputs: Seq<OutputInfo<O>>,
    first: S,
    last: S,
    frames: Seq<T>,
) -> bool {
    exists|states: Seq<S>|
        {
            &&& #[trigger] captured_in_turn(capture, outputs, states, frames)
            &&& states[0] == first
            &&& states.last() == last
            &&& frames.len() == outputs.len()
        }
}

/// Captures outputs in turn, until a capture fails. `capture` captures one output,
/// and hands the state on from which the next one is captured.
pub fn capture_outputs<S, O, T, E, F: Fn(S, &OutputInfo<O>) -> (S, Result<T, E>)>(
    state: S,
    outputs: &Vec<OutputInfo<O>>,
    capture: F,
) -> (res: (S, Result<Vec<T>, E>))
    requires
        forall|s: S, i: int|
            0 <= i < outputs@.len() ==> call_requires(capture, (s, &#[trigger] outputs@[i])),
    ensures
        res.1 matches Ok(frames) ==> all_captured(capture, outputs@, state, res.0, frames@),
        res.1 matches Err(error) ==> exists|states: Seq<S>, frames: Seq<T>|
            {
                &&& #[trigger] captured_in_turn(capture, outputs@, states, frames)
                &&& states[0] == state
                &&& frames.len() < outputs@.len()
                &&& call_ensures(
                    capture,
                    (states.last(), &outputs@[frames.len() as int]),
                    (res.0, Err::<T, E>(error)),
                )
            },
{
    let mut current = state;
    let mut frames: Vec<T> = Vec::new();
    let ghost mut states: Seq<S> = seq![state];
    let mut i: usize = 0;
    while i < outputs.len()
        invariant
            i <= outputs@.len(),
            frames@.len() == i,
            states[0] == state,
            states.last() == current,
            captured_in_turn(capture, outputs@, states, frames@),
            forall|s: S, j: int|
                0 <= j < outputs@.len() ==> call_requires(capture, (s, &#[trigger] outputs@[j])),
        decreases outputs@.len() - i,
    {
        let output = &outputs[i];
        assert(*output == outputs@[i as int]);
        let (next, frame) = capture(current, output);
        current = next;
        match frame {
            Ok(frame) => {
                let ghost before = states;
                frames.push(frame);
                proof {
                    states = states.push(current);
                    assert forall|j: int| 0 <= j < frames@.len() implies call_ensures(
                        capture,
                        (states[j], &outputs@[j]),
                        (states[j + 1], Ok::<T, E>(#[trigger] frames@[j])),
                    ) by {
                        if j < i {
                            assert(states[j] == before[j] && states[j + 1] == before[j + 1]);
                        }
                    }
                }
            },
            Err(error) => {
                return (current, Err(error));
            },
        }
        i += 1;
    }
    assert(all_captured(capture, outputs@, state, current, frames@));
    (current, Ok(frames))
}

/// The first of the frames on whose screen the selected region starts, and the
/// region in the coordinates of that frame.
pub fn select_area<O>(shots: &Vec<AreaShotInfo<O>>, region: Region) -> (res: Result<
    (usize, Region),
    WayshotError,
>)
    requires
        forall|i: int|
            0 <= i < shots@.len() && (forall|j: int|
                0 <= j < i ==> !(#[trigger] shots@[j]).covers(region.position)) ==> (
            #[trigger] shots@[i]).edges_fit(region.position),
    ensures
        (forall|i: int| 0 <= i < shots@.len() ==> !(#[trigger] shots@[i]).covers(region.position))
            ==> fails_with(res, ErrorView::CaptureFailed("not in region"@)),
        (exists|i: int| 0 <= i < shots@.len() && (#[trigger] shots@[i]).covers(region.position))
            ==> (res matches Ok((index, area)) && {
            &&& index < shots@.len()
            &&& shots@[index as int].covers(region.position)
            &&& shots@[index as int].is_clipped(region, area)
            &&& forall|j: int| 0 <= j < index ==> !(#[trigger] shots@[j]).covers(region.position)
        }),
{
    let mut i: usize = 0;
    while i < shots.len()
        invariant
            i <= shots@.len(),
            forall|k: int|
                0 <= k < shots@.len() && (forall|j: int|
                    0 <= j < k ==> !(#[trigger] shots@[j]).covers(region.position)) ==> (
                #[trigger] shots@[k]).edges_fit(region.position),
            forall|j: int| 0 <= j < i ==> !(#[trigger] shots@[j]).covers(region.position),
        decreases shots@.len() - i,
    {
        let shot = &shots[i];
        assert(shots@[i as int].edges_fit(region.position));
        if let Some(area) = shot.clip_area(region) {
            return Ok((i, area));
        }
        i += 1;
    }
    Err(WayshotError::CaptureFailed("not in region".to_owned()))
}

/// The view of the selected area of a captured output.
pub fn area_view<O>(shot: &AreaShotInfo<O>, area: Region, frame: Vec<u8>) -> (res: ImageViewInfo)
    requires
        shot.data.frame_info.format.readable(),
    ensures
        res.shows(frame@, shot.data.frame_info.format),
        res.width == shot.data.logical_region.inner.size.width,
        res.height == shot.data.logical_region.inner.size.height,
        res.region == area,
{
    view_frame(
        frame,
        shot.data.frame_info.format,
        shot.data.logical_region.inner.size,
        area,
    )
}

/// Where a screen's physical size is its logical size, as it is in all frames that
/// are captured here, a selected region is only moved to the coordinates of the
/// frame, and keeps its size. Left out are products of more than 53 bits, which are
/// rounded, and the size of a region on a screen that has none.
pub proof fn law_clipping_translates<O>(shot: AreaShotInfo<O>, region: Region, area: Region)
    requires
        shot.data.physical_size == shot.data.logical_region.inner.size,
        shot.covers(region.position),
        shot.is_clipped(region, area),
        ({
            let screen = shot.data.logical_region.inner;
            &&& (region.left() - screen.left()) * screen.size.width < SIGNIFICANDS
            &&& (region.top() - screen.top()) * screen.size.height < SIGNIFICANDS
            &&& region.size.width * screen.size.width < SIGNIFICANDS
            &&& region.size.height * screen.size.height < SIGNIFICANDS
            &&& screen.size.width == 0 ==> region.size.width == 0
            &&& screen.size.height == 0 ==> region.size.height == 0
        }),
    ensures
        area.left() == region.left() - shot.data.logical_region.inner.left(),
        area.top() == region.top() - shot.data.logical_region.inner.top(),
        area.size == region.size,
{
    let screen = shot.data.logical_region.inner;
    let w = screen.size.width as nat;
    let h = screen.size.height as nat;
    let x = (region.left() - screen.left()) as nat;
    let y = (region.top() - screen.top()) as nat;
    lemma_scaling_by_one(x, w, i32::MAX as nat);
    lemma_scaling_by_one(y, h, i32::MAX as nat);
    lemma_scaling_by_one(region.size.width as nat, w, u32::MAX as nat);
    lemma_scaling_by_one(region.size.height as nat, h, u32::MAX as nat);
}

proof fn lemma_scaling_by_one(a: nat, b: nat, limit: nat)
    requires
        b == 0 ==> a == 0,
        a <= limit,
        a * b < SIGNIFICANDS,
    ensures
        scaled(a, b, b, limit) == a,
{
    if b > 0 {
        law_scaling_is_exact(a, b, b, limit);
        assert((a * b) as int / b as int == a) by (nonlinear_arith)
            requires
                b > 0,
        ;
    }
}

/// A point counts as on a screen exactly if it lies neither left of nor above the
/// screen's corner, and is away from it by no more than the screen's width and height,
/// wherever the screen lies; so every point of the screen counts. A size that does not
/// fit the coordinates covers nothing.
pub proof fn law_screen_covers_its_points<O>(shot: AreaShotInfo<O>, point: Position)
    ensures
        ({
            let corner = shot.data.logical_region.inner.position;
            let size = shot.data.physical_size;
            let fits = size.width <= i32::MAX && size.height <= i32::MAX;
            &&& fits ==> (shot.covers(point) <==> {
                &&& 0 <= point.x - corner.x <= size.width
                &&& 0 <= point.y - corner.y <= size.height
            })
            &&& !fits ==> !shot.covers(point)
            &&& fits && size == shot.data.logical_region.inner.size
                && shot.data.logical_region.inner.contains(point.x as int, point.y as int)
                ==> shot.covers(point)
        }),
{
}

/// Whether a point is on a screen depends on where it lies on the screen only: moving
/// both by the same distance changes nothing.
pub proof fn law_covering_moves_along<O>(
    shot: AreaShotInfo<O>,
    moved: AreaShotInfo<O>,
    point: Position,
    moved_point: Position,
)
    requires
        moved.data.physical_size == shot.data.physical_size,
        ({
            let corner = shot.data.logical_region.inner.position;
            let moved_corner = moved.data.logical_region.inner.position;
            &&& moved_point.x - point.x == moved_corner.x - corner.x
            &&& moved_point.y - point.y == moved_corner.y - corner.y
        }),
    ensures
        moved.covers(moved_point) <==> shot.covers(point),
{
}

/// A selected region is scaled from the physical to the logical size of its screen, and
/// cut to whole pixels: its corner by its distance from the corner of the screen, its
/// sides by themselves. Left out are screens without a size, and products of more than
/// 53 bits, which are rounded.
pub proof fn law_clipping_scales<O>(shot: AreaShotInfo<O>, region: Region, area: Region)
    requires
        shot.covers(region.position),
        shot.is_clipped(region, area),
        shot.data.physical_size.width > 0,
        shot.data.physical_size.height > 0,
        ({
            let screen = shot.data.logical_region.inner;
            &&& (region.position.x - screen.position.x) * screen.size.width < SIGNIFICANDS
            &&& (region.position.y - screen.position.y) * screen.size.height < SIGNIFICANDS
            &&& region.size.width * screen.size.width < SIGNIFICANDS
            &&& region.size.height * screen.size.height < SIGNIFICANDS
        }),
    ensures
        ({
            let screen = shot.data.logical_region.inner;
            let physical = shot.data.physical_size;
            &&& area.position.x == min(
                (region.position.x - screen.position.x) * screen.size.width
                    / physical.width as int,
                i32::MAX as int,
            )
            &&& area.position.y == min(
                (region.position.y - screen.position.y) * screen.size.height
                    / physical.height as int,
                i32::MAX as int,
            )
            &&& area.size.width == min(
                region.size.width * screen.size.width / physical.width as int,
                u32::MAX as int,
            )
            &&& area.size.height == min(
                region.size.height * screen.size.height / physical.height as int,
                u32::MAX as int,
            )
        }),
{
    let screen = shot.data.logical_region.inner;
    let physical = shot.data.physical_size;
    let w = screen.size.width as nat;
    let h = screen.size.height as nat;
    let pw = physical.width as nat;
    let ph = physical.height as nat;
    law_scaling_is_exact((region.left() - screen.left()) as nat, w, pw, i32::MAX as nat);
    law_scaling_is_exact((region.top() - screen.top()) as nat, h, ph, i32::MAX as nat);
    law_scaling_is_exact(region.size.width as nat, w, pw, u32::MAX as nat);
    law_scaling_is_exact(region.size.height as nat, h, ph, u32::MAX as nat);
}

/// The buffer for a frame holds it exactly: rows of four bytes for each pixel, as many
/// as the frame has, in a file and a pool of that length, in the format that the session
/// asked for.
pub proof fn law_buffer_holds_the_frame(buffer: FrameBuffer, info: FrameInfo)
    requires
        buffer.is_for(info),
        info.size.width * info.size.height * 4 <= i32::MAX,
        4 * info.size.width <= i32::MAX,
        info.size.height <= i32::MAX,
    ensures
        buffer.width == info.size.width,
        buffer.height == info.size.height,
        buffer.stride == 4 * buffer.width,
        buffer.stride * buffer.height == buffer.pool_size,
        buffer.pool_size == buffer.file_len,
        buffer.format == info.format,
{
    let w = info.size.width as int;
    let h = info.size.height as int;
    assert(4 * w * h == w * h * 4) by (nonlinear_arith);
}

/// The file of a frame is as long as the frame, whatever its size; numbers that do not fit
/// a signed field are carried with their lower 32 bits.
pub proof fn law_buffer_carries_large_frames(buffer: FrameBuffer, info: FrameInfo)
    requires
        buffer.is_for(info),
        frame_fits(info.size),
    ensures
        buffer.file_len == info.size.width * info.size.height * 4,
        (buffer.file_len - buffer.pool_size) % 0x1_0000_0000 == 0,
        (info.size.width - buffer.width) % 0x1_0000_0000 == 0,
        (info.size.height - buffer.height) % 0x1_0000_0000 == 0,
        (4 * info.size.width - buffer.stride) % 0x1_0000_0000 == 0,
        buffer.format == info.format,
{
    let w = info.size.width as int;
    let h = info.size.height as int;
    assert(4 * w * h == w * h * 4) by (nonlinear_arith);
    assert(4 * w * h >= 0) by (nonlinear_arith)
        requires
            w >= 0,
            h >= 0,
    ;
    law_wrapping_keeps_bits(4 * w * h);
    law_wrapping_keeps_bits(w);
    law_wrapping_keeps_bits(h);
    law_wrapping_keeps_bits(4 * w);
}

/// What a report leads to. The session's buffer is accepted exactly in the formats in
/// which frames of the source are read; after that, only a copy that succeeded or failed
/// ends the capture, and what the compositor reports is kept as it is.
pub proof fn law_report_decides(capture: ExtCapture, event: CaptureEvent)
    requires
        capture.expects(event),
    ensures
        match event {
            CaptureEvent::Constraints(info) => {
                let f = info.format;
                let read = f == Format::Argb8888 || f == Format::Xrgb8888 || f == Format::Xbgr8888
                    || f == Format::Xbgr2101010 || f == Format::Abgr2101010 || (capture.source
                    == CaptureSource::Output && (f == Format::Xrgb2101010 || f == Format::Bgr888));
                capture.next_phase(event) == if read {
                    CapturePhase::Capturing(info)
                } else {
                    CapturePhase::Failed
                }
            },
            CaptureEvent::Status(status) => {
                &&& capture.phase is Capturing
                &&& capture.next_phase(event) == match status.state {
                    FrameState::Pending => capture.phase,
                    FrameState::Succeeded => CapturePhase::Captured(
                        capture.phase->Capturing_0,
                        status.transform,
                    ),
                    FrameState::Failed(_) => CapturePhase::Failed,
                }
            },
        },
{
}

/// `captures` is a capture before each of `events`, and after the last of them.
pub open spec fn is_capture_run(captures: Seq<ExtCapture>, events: Seq<CaptureEvent>) -> bool {
    &&& captures.len() == events.len() + 1
    &&& captures[0].phase is Negotiating
    &&& forall|i: int|
        #![trigger events[i]]
        0 <= i < events.len() ==> {
            &&& captures[i].expects(events[i])
            &&& captures[i + 1].source == captures[i].source
            &&& captures[i + 1].phase == captures[i].next_phase(events[i])
        }
}

proof fn lemma_capturing(captures: Seq<ExtCapture>, events: Seq<CaptureEvent>, m: int)
    requires
        is_capture_run(captures, events),
        0 <= m < captures.len(),
    ensures
        captures[m].source == captures[0].source,
        captures[m].phase is Negotiating <==> m == 0,
        captures[m].phase matches CapturePhase::Capturing(info) ==> {
            &&& events[0] == CaptureEvent::Constraints(info)
            &&& captures[0].source.reads(info.format)
            &&& forall|i: int|
                0 < i < m ==> (#[trigger] events[i] matches CaptureEvent::Status(s)
                    && s.state is Pending)
        },
    decreases m,
{
    if m > 0 {
        lemma_capturing(captures, events, m - 1);
        assert(captures[m - 1].expects(events[m - 1]));
        assert(captures[m].phase == captures[m - 1].next_phase(events[m - 1]));
    }
}

/// A captured frame is the one that was negotiated: the session asked for its buffer
/// first, in a format that is read, then it reported any number of times that the copy is
/// pending, and last that it succeeded, with the transform that the frame is given.
pub proof fn law_captured_frame_was_reported(
    captures: Seq<ExtCapture>,
    events: Seq<CaptureEvent>,
    info: FrameInfo,
    transform: Transform,
)
    requires
        is_capture_run(captures, events),
        captures.last().phase == CapturePhase::Captured(info, transform),
    ensures
        events.len() >= 2,
        events[0] == CaptureEvent::Constraints(info),
        !(info.format is Other),
        forall|i: int|
            0 < i < events.len() - 1 ==> (#[trigger] events[i] matches CaptureEvent::Status(s)
                && s.state is Pending),
        events.last() matches CaptureEvent::Status(s) && s.state is Succeeded && s.transform
            == transform,
{
    let n = events.len() as int;
    lemma_capturing(captures, events, n);
    lemma_capturing(captures, events, n - 1);
    assert(captures[n - 1].expects(events[n - 1]));
    assert(captures[n].phase == captures[n - 1].next_phase(events[n - 1]));
}

/// The cursor is asked for by the one flag of the protocol, and left out by none.
pub proof fn law_cursor_is_one_flag(option: CaptureOption, bit: u32)
    ensures
        option.flags().contains(bit) <==> option == CaptureOption::PaintCursors && bit == 1,
{
}

/// The view of a frame holds its converted pixels: as many bytes as the frame has, in
/// the layout that images of its format have, and in the formats with blue first with red
/// and blue exchanged.
pub proof fn law_view_holds_the_frame(view: ImageViewInfo, frame: Seq<u8>, format: Format, k: int)
    requires
        view.shows(frame, format),
        0 <= k,
        4 * k + 4 <= frame.len(),
    ensures
        view.data@.len() == frame.len(),
        view.color_type == ColorType::Rgb8 <==> format == Format::Bgr888,
        format == Format::Argb8888 || format == Format::Xrgb8888 ==> {
            &&& view.data@[4 * k] == frame[4 * k + 2]
            &&& view.data@[4 * k + 1] == frame[4 * k + 1]
            &&& view.data@[4 * k + 2] == frame[4 * k]
            &&& view.data@[4 * k + 3] == frame[4 * k + 3]
        },
        format == Format::Xbgr8888 || format == Format::Bgr888 ==> {
            &&& view.data@[4 * k] == frame[4 * k]
            &&& view.data@[4 * k + 1] == frame[4 * k + 1]
            &&& view.data@[4 * k + 2] == frame[4 * k + 2]
            &&& view.data@[4 * k + 3] == frame[4 * k + 3]
        },
        converter_for(format) matches Some(converter) && view.data@ == converter.converted(frame),
{
    let converter = converter_for(format)->0;
    law_conversion_keeps_colours(format, converter, frame, k);
    law_conversion_keeps_length(format, converter, frame, 4 * k);
}

/// What a capture that gives up reports.
pub proof fn law_abort_reports(action: CaptureAction, error: ErrorView)
    requires
        action.aborts_with(error),
    ensures
        action is Abort,
        action->Abort_0@ == error,
{
}

/// However large the numbers are, a selected region is scaled by the ratio of the screen's
/// sizes, cut to whole pixels, but for the rounding: each number is off by no more than a
/// part in 2^51, unless it is cut to the largest that can be expressed.
pub proof fn law_clipping_is_close<O>(shot: AreaShotInfo<O>, region: Region, area: Region)
    requires
        shot.covers(region.position),
        shot.is_clipped(region, area),
        shot.data.physical_size.width > 0,
        shot.data.physical_size.height > 0,
    ensures
        ({
            let screen = shot.data.logical_region.inner;
            let physical = shot.data.physical_size;
            &&& is_close(
                area.position.x as int,
                (region.position.x - screen.position.x) * screen.size.width,
                physical.width as int,
                i32::MAX as int,
            )
            &&& is_close(
                area.position.y as int,
                (region.position.y - screen.position.y) * screen.size.height,
                physical.height as int,
                i32::MAX as int,
            )
            &&& is_close(
                area.size.width as int,
                region.size.width * screen.size.width,
                physical.width as int,
                u32::MAX as int,
            )
            &&& is_close(
                area.size.height as int,
                region.size.height * screen.size.height,
                physical.height as int,
                u32::MAX as int,
            )
        }),
{
    let screen = shot.data.logical_region.inner;
    let physical = shot.data.physical_size;
    let w = screen.size.width as nat;
    let h = screen.size.height as nat;
    let pw = physical.width as nat;
    let ph = physical.height as nat;
    law_scaling_is_close((region.left() - screen.left()) as nat, w, pw, i32::MAX as nat);
    law_scaling_is_close((region.top() - screen.top()) as nat, h, ph, i32::MAX as nat);
    law_scaling_is_close(region.size.width as nat, w, pw, u32::MAX as nat);
    law_scaling_is_close(region.size.height as nat, h, ph, u32::MAX as nat);
}

/// `n` is `num / den`, cut to an integer, but for a part in 2^51 of `num`; or it is the
/// limit.
pub open spec fn is_close(n: int, num: int, den: int, limit: int) -> bool {
    &&& n <= limit
    &&& 0x8_0000_0000_0000 * (n * den - num) <= num
    &&& n < limit ==> 0x8_0000_0000_0000 * (num - (n + 1) * den) <= num
}

/// On a screen without a physical size, a selected region lies at the corner, and what it
/// extends over becomes the largest extent, or none where the screen has none at all.
pub proof fn law_clipping_on_flat_screens<O>(shot: AreaShotInfo<O>, region: Region, area: Region)
    requires
        shot.covers(region.position),
        shot.is_clipped(region, area),
    ensures
        ({
            let screen = shot.data.logical_region.inner.size;
            let physical = shot.data.physical_size;
            &&& physical.width == 0 ==> {
                &&& area.position.x == 0
                &&& area.size.width == if region.size.width > 0 && screen.width > 0 {
                    u32::MAX
                } else {
                    0
                }
            }
            &&& physical.height == 0 ==> {
                &&& area.position.y == 0
                &&& area.size.height == if region.size.height > 0 && screen.height > 0 {
                    u32::MAX
                } else {
                    0
                }
            }
        }),
{
    let w = shot.data.logical_region.inner.size.width as nat;
    let h = shot.data.logical_region.inner.size.height as nat;
    law_scaling_without_a_size(0, w, i32::MAX as nat);
    law_scaling_without_a_size(0, h, i32::MAX as nat);
    law_scaling_without_a_size(region.size.width as nat, w, u32::MAX as nat);
    law_scaling_without_a_size(region.size.height as nat, h, u32::MAX as nat);
}

/// Where all outputs were captured, there is one frame for each, in order, and each came of
/// a capture of its output that succeeded; the first capture began in the given state, and
/// each further one in the state in which the one before had ended.
pub proof fn law_each_output_gives_its_frame<
    S,
    O,
    T,
    E,
    F: Fn(S, &OutputInfo<O>) -> (S, Result<T, E>),
>(capture: F, outputs: Seq<OutputInfo<O>>, first: S, last: S, frames: Seq<T>) -> (states: Seq<S>)
    requires
        all_captured::<S, O, T, E, F>(capture, outputs, first, last, frames),
    ensures
        frames.len() == outputs.len(),
        states.len() == outputs.len() + 1,
        states[0] == first,
        states[outputs.len() as int] == last,
        forall|i: int|
            0 <= i < outputs.len() ==> call_ensures(
                capture,
                (states[i], &#[trigger] outputs[i]),
                (states[i + 1], Ok::<T, E>(frames[i])),
            ),
{
    let states = choose|states: Seq<S>|
        {
            &&& #[trigger] captured_in_turn::<S, O, T, E, F>(capture, outputs, states, frames)
            &&& states[0] == first
            &&& states.last() == last
            &&& frames.len() == outputs.len()
        };
    assert forall|i: int| 0 <= i < outputs.len() implies call_ensures(
        capture,
        (states[i], &#[trigger] outputs[i]),
        (states[i + 1], Ok::<T, E>(frames[i])),
    ) by {
        assert(frames[i] == frames[i]);
    }
    states
}

} // verus!
