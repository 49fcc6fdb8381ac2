//! Showing captured frames over the outputs while a region is selected.
use crate::error::{fails_with, ErrorView, WayshotError};
use crate::output::{OutputInfo, Transform};
use crate::region::Size;
use crate::wire::{to_signed, wrapped};
use vstd::prelude::*;

verus! {

/// A frame that is shown over its output.
#[derive(Debug, Clone, Copy, PartialEq, Eq, Structural)]
pub struct OverlayFrame {
    /// How the buffer of the frame is turned.
    pub transform: Transform,
    /// The size that the frame is shown with.
    pub size: Size,
}

impl OverlayFrame {
    /// A frame of the whole of an output, shown as large as the output is.
    pub fn of_output<O>(output_info: &OutputInfo<O>) -> (res: Self)
        ensures
            res.transform == output_info.transform,
            res.size == output_info.logical_region.inner.size,
    {
        OverlayFrame {
            transform: output_info.transform,
            size: output_info.logical_region.inner.size,
        }
    }
}

/// What to do next. A number says for which frame.
#[derive(Debug, Clone, Copy, PartialEq, Eq, Structural)]
pub enum OverlayStep {
    /// Bind the compositor, which makes surfaces.
    BindCompositor,
    /// Bind the shell, which makes windows of them.
    BindWmBase,
    /// Bind the viewporter, which scales them.
    BindViewporter,
    /// Create a window, full-screen on the output of the frame, and commit it.
    CreateSurface(usize),
    /// Wait for events until the window has been configured.
    AwaitConfigure(usize),
    /// Attach the frame to the window, and commit it.
    Present(usize),
    /// Wait for events once.
    Settle(usize),
    /// Let the region be selected.
    SelectRegion,
    /// Take the frame from the window, commit that, and destroy the window.
    Unmap(usize),
    /// Wait until the compositor has seen all requests.
    Roundtrip,
    /// Nothing: return what was selected.
    Finished,
}

/// What has happened.
#[derive(Debug, Clone, Copy, PartialEq, Eq, Structural)]
pub enum OverlayEvent {
    /// The object was bound, or is not available.
    Bound(bool),
    /// The window is configured, or not yet.
    Configured(bool),
    /// The step was taken.
    Done,
}

impl OverlayStep {
    pub open spec fn expects(self, event: OverlayEvent) -> bool {
        match self {
            OverlayStep::BindCompositor | OverlayStep::BindWmBase | OverlayStep::BindViewporter => {
                event is Bound
            },
            OverlayStep::AwaitConfigure(_) => event is Configured,
            OverlayStep::Finished => false,
            _ => event is Done,
        }
    }

    /// The text of the refusal where the object is not available; there is none
    /// where frames are shown without it.
    pub open spec fn refusal(self) -> Option<Seq<char>> {
        match self {
            OverlayStep::BindCompositor => Some("WlCompositor not found"@),
            OverlayStep::BindWmBase => Some("XdgWmBase not found"@),
            _ => None,
        }
    }

    /// The step that begins to show the first of `n` frames.
    pub open spec fn first_surface(n: nat) -> OverlayStep {
        if n > 0 {
            OverlayStep::CreateSurface(0)
        } else {
            OverlayStep::SelectRegion
        }
    }

    /// The step after an event, with `n` frames to show.
    pub open spec fn following(self, event: OverlayEvent, n: nat) -> OverlayStep {
        match self {
            OverlayStep::BindCompositor => OverlayStep::BindWmBase,
            OverlayStep::BindWmBase => OverlayStep::BindViewporter,
            OverlayStep::BindViewporter => OverlayStep::first_surface(n),
            OverlayStep::CreateSurface(i) => OverlayStep::AwaitConfigure(i),
            OverlayStep::AwaitConfigure(i) => if event == OverlayEvent::Configured(true) {
                OverlayStep::Present(i)
            } else {
                self
            },
            OverlayStep::Present(i) => OverlayStep::Settle(i),
            OverlayStep::Settle(i) => if i + 1 < n {
                OverlayStep::CreateSurface((i + 1) as usize)
            } else {
                OverlayStep::SelectRegion
            },
            OverlayStep::SelectRegion => if n > 0 {
                OverlayStep::Unmap(0)
            } else {
                OverlayStep::Roundtrip
            },
            OverlayStep::Unmap(i) => if i + 1 < n {
                OverlayStep::Unmap((i + 1) as usize)
            } else {
                OverlayStep::Roundtrip
            },
            OverlayStep::Roundtrip | OverlayStep::Finished => OverlayStep::Finished,
        }
    }

    /// The number of steps that are left, with `n` frames to show.
    pub open spec fn rank(self, n: int) -> int {
        match self {
            OverlayStep::BindCompositor => 5 * n + 6,
            OverlayStep::BindWmBase => 5 * n + 5,
            OverlayStep::BindViewporter => 5 * n + 4,
            OverlayStep::CreateSurface(i) => 4 * (n - i) + n + 3,
            OverlayStep::AwaitConfigure(i) => 4 * (n - i) + n + 2,
            OverlayStep::Present(i) => 4 * (n - i) + n + 1,
            OverlayStep::Settle(i) => 4 * (n - i) + n,
            OverlayStep::SelectRegion => n + 2,
            OverlayStep::Unmap(i) => n - i + 1,
            OverlayStep::Roundtrip => 1,
            OverlayStep::Finished => 0,
        }
    }
}

/// Frames that are shown over their outputs while a region is selected.
#[derive(Debug)]
pub struct Overlay {
    pub frames: Vec<OverlayFrame>,
    pub step: OverlayStep,
    /// Frames can be scaled.
    pub viewporter: bool,
    /// The number of frames that have been attached to a window.
    pub shown: usize,
    /// The number of windows that have been destroyed.
    pub removed: usize,
}

/// How a frame is attached to its window.
#[derive(Debug, Clone, Copy, PartialEq, Eq)]
pub struct Presentation {
    pub transform: Transform,
    /// The size that the frame is scaled to, where it can be scaled.
    pub destination: Option<(i32, i32)>,
}

impl Overlay {
    /// Each step has its place in the order: all frames are shown before the region
    /// is selected, and removed after it.
    pub open spec fn wf(self) -> bool {
        let n = self.frames@.len();
        match self.step {
            OverlayStep::BindCompositor | OverlayStep::BindWmBase | OverlayStep::BindViewporter => {
                self.shown == 0 && self.removed == 0
            },
            OverlayStep::CreateSurface(i)
            | OverlayStep::AwaitConfigure(i)
            | OverlayStep::Present(i) => i < n && self.shown == i && self.removed == 0,
            OverlayStep::Settle(i) => i < n && self.shown == i + 1 && self.removed == 0,
            OverlayStep::SelectRegion => self.shown == n && self.removed == 0,
            OverlayStep::Unmap(i) => i < n && self.shown == n && self.removed == i,
            OverlayStep::Roundtrip | OverlayStep::Finished => self.shown == n && self.removed == n,
        }
    }

    /// Starts to show frames, and asks for the objects that it takes.
    pub fn new(frames: Vec<OverlayFrame>) -> (res: Self)
        ensures
            res.wf(),
            res.frames == frames,
            res.step == OverlayStep::BindCompositor,
            !res.viewporter,
    {
        Overlay {
            frames,
            step: OverlayStep::BindCompositor,
            viewporter: false,
            shown: 0,
            removed: 0,
        }
    }

    /// Starts to show frames, with the objects that it takes at hand.
    pub fn with_globals(frames: Vec<OverlayFrame>) -> (res: Self)
        ensures
            res.wf(),
            res.frames == frames,
            res.step == OverlayStep::first_surface(frames@.len()),
            res.viewporter,
    {
        let step = if frames.len() > 0 {
            OverlayStep::CreateSurface(0)
        } else {
            OverlayStep::SelectRegion
        };
        Overlay { frames, step, viewporter: true, shown: 0, removed: 0 }
    }

    /// How the frame is attached to its window.
    pub fn presentation(&self) -> (res: Presentation)
        requires
            self.wf(),
            self.step is Present,
        ensures
            self.step matches OverlayStep::Present(i) && {
                &&& res.transform == self.frames@[i as int].transform
                &&& res.destination == if self.viewporter {
                    Some(
                        (
                            wrapped(self.frames@[i as int].size.width as int) as i32,
                            wrapped(self.frames@[i as int].size.height as int) as i32,
                        ),
                    )
                } else {
                    None
                }
            },
    {
        let frame = &self.frames[self.shown];
        Presentation {
            transform: frame.transform,
            destination: if self.viewporter {
                Some((to_signed(frame.size.width), to_signed(frame.size.height)))
            } else {
                None
            },
        }
    }

    /// Goes on after an event.
    pub fn advance(&mut self, event: OverlayEvent) -> (res: Result<(), WayshotError>)
        requires
            old(self).wf(),
            old(self).step.expects(event),
        ensures
            final(self).wf(),
            final(self).frames == old(self).frames,
            match (event, old(self).step.refusal()) {
                (OverlayEvent::Bound(false), Some(text)) => {
                    &&& fails_with(res, ErrorView::ProtocolNotFound(text))
                    &&& *final(self) == *old(self)
                },
                _ => {
                    &&& res is Ok
                    &&& final(self).step == old(self).step.following(event, old(self).frames@.len())
                    &&& final(self).viewporter == if old(self).step is BindViewporter {
                        event == OverlayEvent::Bound(true)
                    } else {
                        old(self).viewporter
                    }
                },
            },
    {
        let n: usize = self.frames.len();
        match self.step {
            OverlayStep::BindCompositor => {
                if let OverlayEvent::Bound(false) = event {
                    return Err(WayshotError::ProtocolNotFound("WlCompositor not found".to_owned()));
                }
                self.step = OverlayStep::BindWmBase;
            },
            OverlayStep::BindWmBase => {
                if let OverlayEvent::Bound(false) = event {
                    return Err(WayshotError::ProtocolNotFound("XdgWmBase not found".to_owned()));
                }
                self.step = OverlayStep::BindViewporter;
            },
            OverlayStep::BindViewporter => {
                self.viewporter = matches!(event, OverlayEvent::Bound(true));
                self.step =
                if n > 0 {
                    OverlayStep::CreateSurface(0)
                } else {
                    OverlayStep::SelectRegion
                };
            },
            OverlayStep::CreateSurface(i) => self.step = OverlayStep::AwaitConfigure(i),
            OverlayStep::AwaitConfigure(i) => {
                if let OverlayEvent::Configured(true) = event {
                    self.step = OverlayStep::Present(i);
                }
            },
            OverlayStep::Present(i) => {
                self.shown = i + 1;
                self.step = OverlayStep::Settle(i);
            },
            OverlayStep::Settle(i) => {
                self.step =
                if i + 1 < n {
                    OverlayStep::CreateSurface(i + 1)
                } else {
                    OverlayStep::SelectRegion
                };
            },
            OverlayStep::SelectRegion => {
                self.step =
                if n > 0 {
                    OverlayStep::Unmap(0)
                } else {
                    OverlayStep::Roundtrip
                };
            },
            OverlayStep::Unmap(i) => {
                self.removed = i + 1;
                self.step =
                if i + 1 < n {
                    OverlayStep::Unmap(i + 1)
                } else {
                    OverlayStep::Roundtrip
                };
            },
            OverlayStep::Roundtrip => self.step = OverlayStep::Finished,
            OverlayStep::Finished => {},
        }
        Ok(())
    }
}

/// While the region is selected, every frame is shown and none has been removed;
/// when the selection is returned, every frame has been removed.
pub proof fn law_shown_during_selection(overlay: Overlay)
    requires
        overlay.wf(),
    ensures
        overlay.step is SelectRegion ==> overlay.shown == overlay.frames@.len() && overlay.removed
            == 0,
        overlay.step is Finished ==> overlay.removed == overlay.shown == overlay.frames@.len(),
{
}

/// Every event brings the end nearer, except that the compositor may let us wait
/// for the configuration of a window.
pub proof fn law_overlay_terminates(overlay: Overlay, event: OverlayEvent)
    requires
        overlay.wf(),
        overlay.step.expects(event),
    ensures
        ({
            let n = overlay.frames@.len();
            let next = overlay.step.following(event, n);
            &&& event != OverlayEvent::Configured(false) ==> 0 <= next.rank(n as int)
                < overlay.step.rank(n as int)
            &&& event == OverlayEvent::Configured(false) ==> next == overlay.step
        }),
{
}

/// Frames are shown one after the other: for each a window is created, waited for until
/// it is configured, and given the frame, and events are awaited once before the next one.
/// The region is selected after the last frame; then the windows are removed in the same
/// order, and the compositor is waited for. `n` is the number of frames, and `i` one of
/// them.
pub proof fn law_frames_are_shown_in_order(n: nat, i: usize, event: OverlayEvent)
    requires
        i < n <= usize::MAX,
    ensures
        OverlayStep::BindCompositor.following(event, n) == OverlayStep::BindWmBase,
        OverlayStep::BindWmBase.following(event, n) == OverlayStep::BindViewporter,
        OverlayStep::BindViewporter.following(event, n) == OverlayStep::CreateSurface(0),
        OverlayStep::BindViewporter.following(event, 0) == OverlayStep::SelectRegion,
        OverlayStep::first_surface(n) == OverlayStep::CreateSurface(0),
        OverlayStep::first_surface(0) == OverlayStep::SelectRegion,
        OverlayStep::CreateSurface(i).following(event, n) == OverlayStep::AwaitConfigure(i),
        OverlayStep::AwaitConfigure(i).following(OverlayEvent::Configured(true), n)
            == OverlayStep::Present(i),
        OverlayStep::AwaitConfigure(i).following(OverlayEvent::Configured(false), n)
            == OverlayStep::AwaitConfigure(i),
        OverlayStep::Present(i).following(event, n) == OverlayStep::Settle(i),
        i == n - 1 ==> {
            &&& OverlayStep::Settle(i).following(event, n) == OverlayStep::SelectRegion
            &&& OverlayStep::Unmap(i).following(event, n) == OverlayStep::Roundtrip
        },
        i < n - 1 ==> {
            &&& OverlayStep::Settle(i).following(event, n) == OverlayStep::CreateSurface(
                (i + 1) as usize,
            )
            &&& OverlayStep::Unmap(i).following(event, n) == OverlayStep::Unmap((i + 1) as usize)
        },
        OverlayStep::SelectRegion.following(event, n) == OverlayStep::Unmap(0),
        OverlayStep::SelectRegion.following(event, 0) == OverlayStep::Roundtrip,
        OverlayStep::Roundtrip.following(event, n) == OverlayStep::Finished,
{
}

/// Frames can be shown without the viewporter, but not without the compositor and the
/// shell; the refusal names the one that is missing.
pub proof fn law_two_objects_are_needed(step: OverlayStep)
    ensures
        step == OverlayStep::BindCompositor ==> step.refusal() == Some("WlCompositor not found"@),
        step == OverlayStep::BindWmBase ==> step.refusal() == Some("XdgWmBase not found"@),
        step != OverlayStep::BindCompositor && step != OverlayStep::BindWmBase
            ==> step.refusal() is None,
{
}

} // verus!
