//! What the compositor reports about a frame.
use crate::error::{ErrorView, WayshotError};
use crate::screencopy::{DMAFrameFormat, FrameFormat};
use crate::text::{decimal, law_decimal_reads_back, number, push_decimal};
use vstd::prelude::*;

verus! {

/// A value of a protocol's enumeration, or a number that has no name there.
#[derive(Debug, Clone, Copy, PartialEq, Eq)]
pub enum WEnum<T> {
    Value(T),
    Unknown(u32),
}

/// Why a capture session could not deliver a frame.
#[derive(Debug, Clone, Copy, PartialEq, Eq)]
pub enum FailureReason {
    Unknown,
    BufferConstraints,
    Stopped,
}

/// How far the copy of a frame has come.
#[derive(Debug, Clone, Copy, PartialEq, Eq)]
pub enum FrameState {
    Pending,
    Succeeded,
    Failed(Option<WEnum<FailureReason>>),
}

/// What a failed capture is reported as.
pub open spec fn failure_text(reason: Option<WEnum<FailureReason>>) -> Seq<char> {
    match reason {
        Some(WEnum::Value(FailureReason::Stopped)) => "Stopped"@,
        Some(WEnum::Value(FailureReason::BufferConstraints)) => "BufferConstraints"@,
        Some(WEnum::Value(FailureReason::Unknown)) => "Unknown"@,
        Some(WEnum::Unknown(code)) => "Unknown reason, code : "@ + decimal(code as nat),
        None => "No failure reason provided"@,
    }
}

/// The error for a capture that failed for `reason`.
pub fn capture_failure(reason: Option<WEnum<FailureReason>>) -> (res: WayshotError)
    ensures
        res@ == ErrorView::CaptureFailed(failure_text(reason)),
{
    let text = match reason {
        Some(WEnum::Value(FailureReason::Stopped)) => "Stopped".to_owned(),
        Some(WEnum::Value(FailureReason::BufferConstraints)) => "BufferConstraints".to_owned(),
        Some(WEnum::Value(FailureReason::Unknown)) => "Unknown".to_owned(),
        Some(WEnum::Unknown(code)) => {
            let mut text = "Unknown reason, code : ".to_owned();
            push_decimal(&mut text, code);
            text
        },
        None => "No failure reason provided".to_owned(),
    };
    WayshotError::CaptureFailed(text)
}

/// What to do after a look at the state of a frame.
#[derive(Debug, PartialEq, Eq)]
pub enum Progress<T> {
    /// Wait for further events.
    Dispatch,
    Done(T),
    Failed(WayshotError),
}

impl<T> Progress<T> {
    pub open spec fn fails_with(self, error: ErrorView) -> bool {
        self matches Progress::Failed(e) && e@ == error
    }
}

/// What the compositor reports about a frame that it is asked to copy.
#[derive(Debug, Clone, Copy, PartialEq, Eq)]
pub enum FrameEvent {
    /// A shared memory buffer that would be accepted.
    Buffer(FrameFormat),
    /// A DMA-BUF that would be accepted.
    LinuxDmabuf(DMAFrameFormat),
    /// All buffers that would be accepted have been listed.
    BufferDone,
    /// The frame has been copied.
    Ready,
    /// The frame could not be copied.
    Failed,
}

/// All that is known of a frame that the compositor is asked to copy.
#[derive(Debug)]
pub struct CaptureFrameState {
    pub formats: Vec<FrameFormat>,
    pub dmabuf_formats: Vec<DMAFrameFormat>,
    pub state: Option<FrameState>,
    pub buffer_done: bool,
}

/// A [`CaptureFrameState`] with its lists as sequences.
#[verifier::ext_equal]
pub struct CaptureFrameView {
    pub formats: Seq<FrameFormat>,
    pub dmabuf_formats: Seq<DMAFrameFormat>,
    pub state: Option<FrameState>,
    pub buffer_done: bool,
}

impl View for CaptureFrameState {
    type V = CaptureFrameView;

    open spec fn view(&self) -> CaptureFrameView {
        CaptureFrameView {
            formats: self.formats@,
            dmabuf_formats: self.dmabuf_formats@,
            state: self.state,
            buffer_done: self.buffer_done,
        }
    }
}

impl CaptureFrameView {
    /// Nothing has been reported.
    pub open spec fn initial() -> Self {
        CaptureFrameView {
            formats: Seq::empty(),
            dmabuf_formats: Seq::empty(),
            state: None,
            buffer_done: false,
        }
    }

    /// What is known after one more event.
    pub open spec fn after(self, event: FrameEvent) -> Self {
        match event {
            FrameEvent::Buffer(format) => CaptureFrameView {
                formats: self.formats.push(format),
                ..self
            },
            FrameEvent::LinuxDmabuf(format) => CaptureFrameView {
                dmabuf_formats: self.dmabuf_formats.push(format),
                ..self
            },
            FrameEvent::BufferDone => CaptureFrameView { buffer_done: true, ..self },
            FrameEvent::Ready => CaptureFrameView { state: Some(FrameState::Succeeded), ..self },
            FrameEvent::Failed => CaptureFrameView { state: Some(FrameState::Failed(None)), ..self },
        }
    }

    /// What is known after a number of events.
    pub open spec fn after_all(self, events: Seq<FrameEvent>) -> Self
        decreases events.len(),
    {
        if events.len() == 0 {
            self
        } else {
            self.after_all(events.drop_last()).after(events.last())
        }
    }
}

/// `format` is the first of `formats` that can be read.
pub open spec fn is_first_readable(format: FrameFormat, formats: Seq<FrameFormat>) -> bool {
    exists|i: int|
        {
            &&& 0 <= i < formats.len()
            &&& #[trigger] formats[i] == format
            &&& format.format.readable()
            &&& forall|j: int| 0 <= j < i ==> !(#[trigger] formats[j]).format.readable()
        }
}

/// None of `formats` can be read.
pub open spec fn none_readable(formats: Seq<FrameFormat>) -> bool {
    forall|i: int| 0 <= i < formats.len() ==> !(#[trigger] formats[i]).format.readable()
}

impl CaptureFrameState {
    pub fn new() -> (res: Self)
        ensures
            res@ == CaptureFrameView::initial(),
    {
        CaptureFrameState {
            formats: Vec::new(),
            dmabuf_formats: Vec::new(),
            state: None,
            buffer_done: false,
        }
    }

    /// Takes note of an event.
    pub fn apply(&mut self, event: FrameEvent)
        ensures
            final(self)@ == old(self)@.after(event),
    {
        match event {
            FrameEvent::Buffer(format) => self.formats.push(format),
            FrameEvent::LinuxDmabuf(format) => self.dmabuf_formats.push(format),
            FrameEvent::BufferDone => self.buffer_done = true,
            FrameEvent::Ready => self.state = Some(FrameState::Succeeded),
            FrameEvent::Failed => self.state = Some(FrameState::Failed(None)),
        }
    }

    /// The buffer to use for a copy through shared memory: the first on the
    /// compositor's list that can be read, once the list is complete.
    pub fn select_shm_format(&self) -> (res: Progress<FrameFormat>)
        ensures
            res is Dispatch <==> !self.buffer_done,
            self.buffer_done && none_readable(self.formats@) ==> res.fails_with(
                ErrorView::NoSupportedBufferFormat,
            ),
            self.buffer_done && !none_readable(self.formats@) ==> (res matches Progress::Done(
                format,
            ) && is_first_readable(format, self.formats@)),
    {
        if !self.buffer_done {
            return Progress::Dispatch;
        }
        let mut i: usize = 0;
        while i < self.formats.len()
            invariant
                self.buffer_done,
                i <= self.formats@.len(),
                forall|j: int| 0 <= j < i ==> !(#[trigger] self.formats@[j]).format.readable(),
            decreases self.formats@.len() - i,
        {
            let format = self.formats[i];
            if format.format.is_readable() {
                return Progress::Done(format);
            }
            i += 1;
        }
        Progress::Failed(WayshotError::NoSupportedBufferFormat)
    }

    /// The buffer to use for a copy through a DMA-BUF: the first on the
    /// compositor's list, once the list is complete.
    pub fn select_dmabuf_format(&self) -> (res: Progress<DMAFrameFormat>)
        requires
            self.buffer_done ==> self.dmabuf_formats@.len() > 0,
        ensures
            !self.buffer_done ==> res is Dispatch,
            self.buffer_done ==> res == Progress::Done(self.dmabuf_formats@[0]),
    {
        if !self.buffer_done {
            return Progress::Dispatch;
        }
        Progress::Done(self.dmabuf_formats[0])
    }

    /// Whether the copy has come to an end.
    pub fn copy_progress(&self) -> (res: Progress<()>)
        ensures
            match self.state {
                None | Some(FrameState::Pending) => res is Dispatch,
                Some(FrameState::Succeeded) => res == Progress::Done(()),
                Some(FrameState::Failed(_)) => res.fails_with(ErrorView::FramecopyFailed),
            },
    {
        match self.state {
            None | Some(FrameState::Pending) => Progress::Dispatch,
            Some(FrameState::Succeeded) => Progress::Done(()),
            Some(FrameState::Failed(_)) => Progress::Failed(WayshotError::FramecopyFailed),
        }
    }
}

/// What has been reported stays reported: further events leave the buffers that
/// were listed in their places, and the end of the list stays known.
pub proof fn law_reports_accumulate(before: CaptureFrameView, events: Seq<FrameEvent>)
    ensures
        before.formats.is_prefix_of(before.after_all(events).formats),
        before.dmabuf_formats.is_prefix_of(before.after_all(events).dmabuf_formats),
        before.buffer_done ==> before.after_all(events).buffer_done,
    decreases events.len(),
{
    if events.len() > 0 {
        law_reports_accumulate(before, events.drop_last());
        let middle = before.after_all(events.drop_last());
        let end = before.after_all(events);
        assert(before.formats =~= end.formats.subrange(0, before.formats.len() as int)) by {
            assert(before.formats =~= middle.formats.subrange(0, before.formats.len() as int));
            assert forall|i: int| 0 <= i < before.formats.len() implies before.formats[i]
                == end.formats[i] by {
                assert(before.formats[i] == middle.formats[i]);
            }
        }
        assert(before.dmabuf_formats =~= end.dmabuf_formats.subrange(
            0,
            before.dmabuf_formats.len() as int,
        )) by {
            assert(before.dmabuf_formats =~= middle.dmabuf_formats.subrange(
                0,
                before.dmabuf_formats.len() as int,
            ));
            assert forall|i: int| 0 <= i < before.dmabuf_formats.len() implies
                before.dmabuf_formats[i] == end.dmabuf_formats[i] by {
                assert(before.dmabuf_formats[i] == middle.dmabuf_formats[i]);
            }
        }
    } else {
        assert(before.formats =~= before.formats.subrange(0, before.formats.len() as int));
        assert(before.dmabuf_formats =~= before.dmabuf_formats.subrange(
            0,
            before.dmabuf_formats.len() as int,
        ));
    }
}

/// A buffer that was the first readable one on the list stays so, whatever is
/// listed after it.
pub proof fn law_choice_is_stable(
    format: FrameFormat,
    formats: Seq<FrameFormat>,
    more: Seq<FrameFormat>,
)
    requires
        is_first_readable(format, formats),
    ensures
        is_first_readable(format, formats + more),
{
    let i = choose|i: int|
        {
            &&& 0 <= i < formats.len()
            &&& #[trigger] formats[i] == format
            &&& format.format.readable()
            &&& forall|j: int| 0 <= j < i ==> !(#[trigger] formats[j]).format.readable()
        };
    let all = formats + more;
    assert(all[i] == format);
    assert forall|j: int| 0 <= j < i implies !(#[trigger] all[j]).format.readable() by {
        assert(all[j] == formats[j]);
    }
}

/// `states` is what was known before each of `events`, and after the last of them.
pub open spec fn is_run(states: Seq<CaptureFrameView>, events: Seq<FrameEvent>) -> bool {
    &&& states.len() == events.len() + 1
    &&& states[0] == CaptureFrameView::initial()
    &&& forall|i: int|
        0 <= i < events.len() ==> states[i + 1] == states[i].after(#[trigger] events[i])
}

proof fn lemma_run_prefix(states: Seq<CaptureFrameView>, events: Seq<FrameEvent>)
    requires
        is_run(states, events),
        events.len() > 0,
    ensures
        is_run(states.drop_last(), events.drop_last()),
        states.last() == states.drop_last().last().after(events.last()),
{
    let before = events.drop_last();
    assert forall|i: int| 0 <= i < before.len() implies states.drop_last()[i + 1]
        == states.drop_last()[i].after(#[trigger] before[i]) by {
        assert(before[i] == events[i]);
    }
    assert(events[events.len() - 1] == events.last());
}

/// After any reports on a new frame, the lists hold exactly the buffers that were
/// reported, unchanged and in the order of the reports; the end of the list is known
/// exactly if it was reported; and the last report that the frame was copied, or was
/// not, is the one that counts.
pub proof fn law_lists_hold_what_was_reported(
    states: Seq<CaptureFrameView>,
    events: Seq<FrameEvent>,
)
    requires
        is_run(states, events),
    ensures
        states.last().formats == events.filter(|e: FrameEvent| e is Buffer).map_values(
            |e: FrameEvent| e->Buffer_0,
        ),
        states.last().dmabuf_formats == events.filter(|e: FrameEvent| e is LinuxDmabuf).map_values(
            |e: FrameEvent| e->LinuxDmabuf_0,
        ),
        states.last().buffer_done <==> exists|i: int|
            0 <= i < events.len() && #[trigger] events[i] == FrameEvent::BufferDone,
        (forall|i: int|
            0 <= i < events.len() ==> !(#[trigger] events[i] is Ready) && !(events[i] is Failed))
            ==> states.last().state is None,
        forall|i: int|
            0 <= i < events.len() && #[trigger] events[i] is Ready && (forall|j: int|
                i < j < events.len() ==> !(#[trigger] events[j] is Failed)) ==> states.last().state
                == Some(FrameState::Succeeded),
        forall|i: int|
            0 <= i < events.len() && #[trigger] events[i] is Failed && (forall|j: int|
                i < j < events.len() ==> !(#[trigger] events[j] is Ready)) ==> states.last().state
                == Some(FrameState::Failed(None)),
    decreases events.len(),
{
    reveal(Seq::filter);
    let listed = |e: FrameEvent| e is Buffer;
    let payload = |e: FrameEvent| e->Buffer_0;
    let dma_listed = |e: FrameEvent| e is LinuxDmabuf;
    let dma_payload = |e: FrameEvent| e->LinuxDmabuf_0;
    if events.len() == 0 {
        assert(states.last().formats =~= events.filter(listed).map_values(payload));
        assert(states.last().dmabuf_formats =~= events.filter(dma_listed).map_values(dma_payload));
    } else {
        let before = events.drop_last();
        let last = events.last();
        lemma_run_prefix(states, events);
        law_lists_hold_what_was_reported(states.drop_last(), before);
        assert forall|i: int| 0 <= i < before.len() implies before[i] == #[trigger] events[i] by {}
        assert(events[events.len() - 1] == last);
        if last is Buffer {
            assert(events.filter(listed) == before.filter(listed).push(last));
        } else {
            assert(events.filter(listed) == before.filter(listed));
        }
        if last is LinuxDmabuf {
            assert(events.filter(dma_listed) == before.filter(dma_listed).push(last));
        } else {
            assert(events.filter(dma_listed) == before.filter(dma_listed));
        }
        assert(states.last().formats =~= events.filter(listed).map_values(payload));
        assert(states.last().dmabuf_formats =~= events.filter(dma_listed).map_values(dma_payload));
        if states.drop_last().last().buffer_done {
            let i = choose|i: int|
                0 <= i < before.len() && #[trigger] before[i] == FrameEvent::BufferDone;
            assert(events[i] == FrameEvent::BufferDone);
        }
        if exists|i: int| 0 <= i < events.len() && #[trigger] events[i] == FrameEvent::BufferDone {
            let i = choose|i: int|
                0 <= i < events.len() && #[trigger] events[i] == FrameEvent::BufferDone;
            if i < before.len() {
                assert(before[i] == FrameEvent::BufferDone);
            }
        }
        let end = states.last().state;
        assert forall|i: int|
            0 <= i < events.len() && #[trigger] events[i] is Ready && (forall|j: int|
                i < j < events.len() ==> !(#[trigger] events[j] is Failed)) implies end == Some(
            FrameState::Succeeded,
        ) by {
            if i < before.len() {
                assert(before[i] is Ready);
                assert forall|j: int| i < j < before.len() implies !(#[trigger] before[j] is Failed) by {
                    assert(!(events[j] is Failed));
                }
            }
        }
        assert forall|i: int|
            0 <= i < events.len() && #[trigger] events[i] is Failed && (forall|j: int|
                i < j < events.len() ==> !(#[trigger] events[j] is Ready)) implies end == Some(
            FrameState::Failed(None),
        ) by {
            if i < before.len() {
                assert(before[i] is Failed);
                assert forall|j: int| i < j < before.len() implies !(#[trigger] before[j] is Ready) by {
                    assert(!(events[j] is Ready));
                }
            }
        }
    }
}

/// The buffer that is chosen is the one that the compositor reported first among those
/// that can be read, as it was reported. `i` is the place of that report.
pub proof fn law_chosen_buffer_was_reported(
    states: Seq<CaptureFrameView>,
    events: Seq<FrameEvent>,
    format: FrameFormat,
    i: int,
)
    requires
        is_run(states, events),
        0 <= i < events.len(),
        events[i] == FrameEvent::Buffer(format),
        !(format.format is Other),
        forall|j: int|
            0 <= j < i ==> (#[trigger] events[j] matches FrameEvent::Buffer(f) ==> f.format is Other),
    ensures
        !none_readable(states.last().formats),
        is_first_readable(format, states.last().formats),
        forall|g: FrameFormat| is_first_readable(g, states.last().formats) ==> g == format,
    decreases events.len(),
{
    let before = events.drop_last();
    lemma_run_prefix(states, events);
    let known = states.drop_last().last().formats;
    let all = states.last().formats;
    if i < before.len() {
        assert(before[i] == events[i]);
        assert forall|j: int| 0 <= j < i implies (#[trigger] before[j] matches FrameEvent::Buffer(
            f,
        ) ==> f.format is Other) by {
            assert(before[j] == events[j]);
        }
        law_chosen_buffer_was_reported(states.drop_last(), before, format, i);
        let more = match events.last() {
            FrameEvent::Buffer(f) => seq![f],
            _ => Seq::empty(),
        };
        assert(all =~= known + more);
        law_choice_is_stable(format, known, more);
    } else {
        assert forall|j: int| 0 <= j < before.len() implies (
        #[trigger] before[j] matches FrameEvent::Buffer(f) ==> f.format is Other) by {
            assert(before[j] == events[j]);
        }
        law_unreadable_reports_are_refused(states.drop_last(), before);
        assert(all == known.push(format));
        assert(all[known.len() as int] == format);
        assert forall|j: int| 0 <= j < known.len() implies !(#[trigger] all[j]).format.readable() by {
            assert(all[j] == known[j]);
        }
    }
    let f = choose|f: int|
        {
            &&& 0 <= f < all.len()
            &&& #[trigger] all[f] == format
            &&& format.format.readable()
            &&& forall|j: int| 0 <= j < f ==> !(#[trigger] all[j]).format.readable()
        };
    assert(all[f].format.readable());
    assert forall|g: FrameFormat| is_first_readable(g, all) implies g == format by {
        let k = choose|k: int|
            {
                &&& 0 <= k < all.len()
                &&& #[trigger] all[k] == g
                &&& g.format.readable()
                &&& forall|j: int| 0 <= j < k ==> !(#[trigger] all[j]).format.readable()
            };
        assert(k == f) by {
            if k < f {
                assert(!all[k].format.readable());
            }
            if f < k {
                assert(!all[f].format.readable());
            }
        }
    }
}

/// Where no buffer that can be read was reported, none is chosen.
pub proof fn law_unreadable_reports_are_refused(
    states: Seq<CaptureFrameView>,
    events: Seq<FrameEvent>,
)
    requires
        is_run(states, events),
        forall|j: int|
            0 <= j < events.len() ==> (#[trigger] events[j] matches FrameEvent::Buffer(f)
                ==> f.format is Other),
    ensures
        none_readable(states.last().formats),
        forall|g: FrameFormat| !is_first_readable(g, states.last().formats),
    decreases events.len(),
{
    if events.len() > 0 {
        let before = events.drop_last();
        lemma_run_prefix(states, events);
        assert forall|j: int| 0 <= j < before.len() implies (
        #[trigger] before[j] matches FrameEvent::Buffer(f) ==> f.format is Other) by {
            assert(before[j] == events[j]);
        }
        law_unreadable_reports_are_refused(states.drop_last(), before);
        let known = states.drop_last().last().formats;
        assert(events[events.len() - 1] == events.last());
        assert forall|j: int| 0 <= j < states.last().formats.len() implies !(
        #[trigger] states.last().formats[j]).format.readable() by {
            if j < known.len() {
                assert(states.last().formats[j] == known[j]);
            }
        }
    }
}

/// What is known is what the lists hold.
pub proof fn law_view_shows_the_lists(state: CaptureFrameState)
    ensures
        state@.formats == state.formats@,
        state@.dmabuf_formats == state.dmabuf_formats@,
        state@.state == state.state,
        state@.buffer_done == state.buffer_done,
{
}

/// A reason that has a name is reported by its name; one without a name by its number,
/// in decimal behind a fixed text; and a missing reason is reported as missing.
pub proof fn law_failures_are_named(code: u32)
    ensures
        failure_text(Some(WEnum::Value(FailureReason::Stopped))) == "Stopped"@,
        failure_text(Some(WEnum::Value(FailureReason::BufferConstraints)))
            == "BufferConstraints"@,
        failure_text(Some(WEnum::Value(FailureReason::Unknown))) == "Unknown"@,
        failure_text(None) == "No failure reason provided"@,
        ({
            let text = failure_text(Some(WEnum::Unknown(code)));
            let fixed = "Unknown reason, code : "@;
            &&& fixed.is_prefix_of(text)
            &&& text.len() > fixed.len()
            &&& number(text.skip(fixed.len() as int)) == code
        }),
{
    let text = failure_text(Some(WEnum::Unknown(code)));
    let fixed = "Unknown reason, code : "@;
    law_decimal_reads_back(code as nat);
    assert(text.skip(fixed.len() as int) =~= decimal(code as nat));
    assert(fixed =~= text.subrange(0, fixed.len() as int));
}

/// What is reported of a frame that could not be had.
pub proof fn law_failure_reports<T>(progress: Progress<T>, error: ErrorView)
    requires
        progress.fails_with(error),
    ensures
        progress is Failed,
        progress->Failed_0@ == error,
{
}

} // verus!
