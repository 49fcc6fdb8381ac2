//! Setting up a connection: the order in which the compositor is asked for its
//! outputs and its protocols, and which of the answers are decisive.
use crate::connection::{ExtBase, WayshotConnection};
use crate::error::{fails_with, ErrorView, WayshotError};
use crate::ext_image_protocols::CaptureSource;
use crate::output::OutputInfo;
use vstd::prelude::*;

verus! {

/// What to do next while a connection is set up.
#[derive(Debug, Clone, Copy, PartialEq, Eq, Structural)]
pub enum SetupStep {
    /// Ask for the outputs.
    RefreshOutputs,
    /// Bind the manager of copy sessions.
    BindImageCopyManager,
    /// Bind the manager of capture sources for outputs.
    BindOutputSourceManager,
    /// Bind the manager of capture sources for windows.
    BindToplevelSourceManager,
    /// Bind shared memory.
    BindShm,
    /// Bind the list of windows.
    BindToplevelList,
    /// Wait for the events of the bound objects.
    Dispatch,
    /// Nothing: the connection is set up.
    Finished,
}

impl SetupStep {
    pub open spec fn is_binding(self) -> bool {
        self is BindImageCopyManager || self is BindOutputSourceManager
            || self is BindToplevelSourceManager || self is BindShm || self is BindToplevelList
    }

    /// The text of the refusal where the object cannot be bound; there is none
    /// where the connection does without it.
    pub open spec fn refusal(self) -> Option<Seq<char>> {
        match self {
            SetupStep::BindImageCopyManager => Some("ExtImageCopyCaptureManagerV1 not found"@),
            SetupStep::BindOutputSourceManager => Some(
                "ExtOutputImageCaptureSourceManagerV1 not found"@,
            ),
            SetupStep::BindShm => Some("WlShm not found"@),
            _ => None,
        }
    }

    /// The step after a binding.
    pub open spec fn following(self) -> SetupStep {
        match self {
            SetupStep::BindImageCopyManager => SetupStep::BindOutputSourceManager,
            SetupStep::BindOutputSourceManager => SetupStep::BindToplevelSourceManager,
            SetupStep::BindToplevelSourceManager => SetupStep::BindShm,
            SetupStep::BindShm => SetupStep::BindToplevelList,
            _ => SetupStep::Dispatch,
        }
    }
}

/// A connection that is being set up.
#[derive(Debug)]
pub struct Setup<O, H> {
    pub connection: WayshotConnection<O, H>,
    pub step: SetupStep,
    /// The manager of capture sources for windows has been bound.
    pub toplevel_source: bool,
}

impl<O, H> Setup<O, H> {
    /// The steps belong to a connection with the image capture protocols, which
    /// has outputs once it has been asked for them, and can capture them once it is
    /// set up. It is not one for DMA-BUFs.
    pub open spec fn wf(self) -> bool {
        &&& !self.connection.dmabuf_state
        &&& !(self.step is RefreshOutputs) ==> self.connection.output_infos@.len() > 0
        &&& self.step.is_binding() || self.step is Dispatch ==> self.connection.ext_image is Some
        &&& self.step is Finished && self.connection.ext_image is Some
            ==> self.connection.can_capture(CaptureSource::Output)
        &&& self.step is BindImageCopyManager || self.step is BindOutputSourceManager
            || self.step is BindToplevelSourceManager ==> !self.toplevel_source
    }

    /// Starts to set up a connection, with the image capture protocols or without.
    pub fn begin(use_ext_image: bool) -> (res: Self)
        ensures
            res.wf(),
            res.step == SetupStep::RefreshOutputs,
            res.connection.is_unprobed(),
            use_ext_image <==> res.connection.ext_image is Some,
            !res.toplevel_source,
    {
        Setup {
            connection: WayshotConnection::unprobed(use_ext_image, false),
            step: SetupStep::RefreshOutputs,
            toplevel_source: false,
        }
    }

    /// The compositor has named its outputs.
    pub fn outputs_found(&mut self, outputs: Vec<OutputInfo<O>>) -> (res: Result<
        (),
        WayshotError,
    >)
        requires
            old(self).wf(),
            old(self).step is RefreshOutputs,
            !old(self).toplevel_source,
        ensures
            final(self).wf(),
            final(self).toplevel_source == old(self).toplevel_source,
            outputs@.len() == 0 ==> fails_with(res, ErrorView::NoOutputs) && *final(self) == *old(
                self,
            ),
            outputs@.len() > 0 ==> {
                &&& res is Ok
                &&& final(self).step == if old(self).connection.ext_image is Some {
                    SetupStep::BindImageCopyManager
                } else {
                    SetupStep::Finished
                }
                &&& final(self).connection == (WayshotConnection {
                    output_infos: outputs,
                    ..old(self).connection
                })
            },
    {
        match self.connection.refresh_outputs(outputs) {
            Err(error) => Err(error),
            Ok(()) => {
                self.step =
                if self.connection.ext_image.is_some() {
                    SetupStep::BindImageCopyManager
                } else {
                    SetupStep::Finished
                };
                Ok(())
            },
        }
    }

    /// The compositor has answered a request to bind an object.
    pub fn bound(&mut self, available: bool) -> (res: Result<(), WayshotError>)
        requires
            old(self).wf(),
            old(self).step.is_binding(),
        ensures
            final(self).wf(),
            final(self).connection == old(self).connection,
            match (available, old(self).step.refusal()) {
                (false, Some(text)) => fails_with(res, ErrorView::ProtocolNotFound(text))
                    && *final(self) == *old(self),
                _ => res is Ok && final(self).step == old(self).step.following()
                    && final(self).toplevel_source == if old(
                    self,
                ).step is BindToplevelSourceManager {
                    available
                } else {
                    old(self).toplevel_source
                },
            },
    {
        match self.step {
            SetupStep::BindImageCopyManager => {
                if !available {
                    return Err(
                        WayshotError::ProtocolNotFound(
                            "ExtImageCopyCaptureManagerV1 not found".to_owned(),
                        ),
                    );
                }
                self.step = SetupStep::BindOutputSourceManager;
            },
            SetupStep::BindOutputSourceManager => {
                if !available {
                    return Err(
                        WayshotError::ProtocolNotFound(
                            "ExtOutputImageCaptureSourceManagerV1 not found".to_owned(),
                        ),
                    );
                }
                self.step = SetupStep::BindToplevelSourceManager;
            },
            SetupStep::BindToplevelSourceManager => {
                self.toplevel_source = available;
                self.step = SetupStep::BindShm;
            },
            SetupStep::BindShm => {
                if !available {
                    return Err(WayshotError::ProtocolNotFound("WlShm not found".to_owned()));
                }
                self.step = SetupStep::BindToplevelList;
            },
            _ => {
                self.step = SetupStep::Dispatch;
            },
        }
        Ok(())
    }

    /// The events of the bound objects have arrived: the connection keeps the
    /// objects, and its event queue.
    pub fn dispatched(&mut self)
        requires
            old(self).wf(),
            old(self).step is Dispatch,
        ensures
            final(self).wf(),
            final(self).step == SetupStep::Finished,
            final(self).toplevel_source == old(self).toplevel_source,
            final(self).connection.output_infos == old(self).connection.output_infos,
            final(self).connection.dmabuf_state == old(self).connection.dmabuf_state,
            final(self).connection.ext_image == Some(
                ExtBase {
                    toplevels: old(self).connection.ext_image->0.toplevels,
                    img_copy_manager: true,
                    output_image_manager: true,
                    shm: true,
                    qh: true,
                    event_queue: true,
                    toplevel_image_manager: old(
                        self,
                    ).connection.ext_image->0.toplevel_image_manager || old(self).toplevel_source,
                },
            ),
    {
        let toplevel_source = self.toplevel_source;
        if let Some(ext) = self.connection.ext_image.as_mut() {
            if toplevel_source {
                ext.toplevel_image_manager = true;
            }
            ext.img_copy_manager = true;
            ext.output_image_manager = true;
            ext.qh = true;
            ext.shm = true;
            ext.event_queue = true;
        }
        self.step = SetupStep::Finished;
    }
}

/// A copy to a DMA-BUF is never refused for want of support over a connection that
/// was made for DMA-BUFs, and always over any other one.
pub proof fn law_dmabuf_needs_its_connection<O, H>(
    made_for_it: WayshotConnection<O, H>,
    setup: Setup<O, H>,
)
    requires
        made_for_it.is_for_dmabuf(),
        setup.wf(),
    ensures
        made_for_it.dmabuf_refusal() is None,
        setup.connection.dmabuf_refusal() == Some(ErrorView::NoDMAStateError),
{
}

/// The bindings from `step` on, for given answers of the compositor: either the
/// text of a refusal, or whether there are capture sources for windows.
pub open spec fn run_bindings(
    step: SetupStep,
    toplevel_source: bool,
    answers: spec_fn(SetupStep) -> bool,
) -> Result<bool, Seq<char>>
    decreases
            match step {
                SetupStep::BindImageCopyManager => 5nat,
                SetupStep::BindOutputSourceManager => 4,
                SetupStep::BindToplevelSourceManager => 3,
                SetupStep::BindShm => 2,
                SetupStep::BindToplevelList => 1,
                _ => 0,
            },
{
    if !step.is_binding() {
        Ok(toplevel_source)
    } else {
        match (answers(step), step.refusal()) {
            (false, Some(text)) => Err(text),
            _ => run_bindings(
                step.following(),
                if step is BindToplevelSourceManager {
                    answers(step)
                } else {
                    toplevel_source
                },
                answers,
            ),
        }
    }
}

/// A connection with the image capture protocols comes about exactly where the
/// compositor offers copy sessions, capture sources for outputs, and shared
/// memory; the first of these that it lacks is named in the refusal. Windows can be
/// captured exactly where it offers capture sources for them, and whether it lists
/// its windows does not matter.
pub proof fn law_setup_needs_three_globals(answers: spec_fn(SetupStep) -> bool)
    ensures
        run_bindings(SetupStep::BindImageCopyManager, false, answers) == if !answers(
            SetupStep::BindImageCopyManager,
        ) {
            Err("ExtImageCopyCaptureManagerV1 not found"@)
        } else if !answers(SetupStep::BindOutputSourceManager) {
            Err("ExtOutputImageCaptureSourceManagerV1 not found"@)
        } else if !answers(SetupStep::BindShm) {
            Err("WlShm not found"@)
        } else {
            Ok(answers(SetupStep::BindToplevelSourceManager))
        },
{
    reveal_with_fuel(run_bindings, 6);
}

/// The compositor is asked for one object after the other, and for each of them once. It
/// has to have the manager of copy sessions, that of the sources for outputs, and shared
/// memory; the refusal names the one that it lacks. It may lack the other two.
pub proof fn law_bindings_in_order(step: SetupStep)
    ensures
        step.is_binding() <==> {
            ||| step == SetupStep::BindImageCopyManager
            ||| step == SetupStep::BindOutputSourceManager
            ||| step == SetupStep::BindToplevelSourceManager
            ||| step == SetupStep::BindShm
            ||| step == SetupStep::BindToplevelList
        },
        SetupStep::BindImageCopyManager.following() == SetupStep::BindOutputSourceManager,
        SetupStep::BindOutputSourceManager.following() == SetupStep::BindToplevelSourceManager,
        SetupStep::BindToplevelSourceManager.following() == SetupStep::BindShm,
        SetupStep::BindShm.following() == SetupStep::BindToplevelList,
        SetupStep::BindToplevelList.following() == SetupStep::Dispatch,
        SetupStep::BindImageCopyManager.refusal() == Some(
            "ExtImageCopyCaptureManagerV1 not found"@,
        ),
        SetupStep::BindOutputSourceManager.refusal() == Some(
            "ExtOutputImageCaptureSourceManagerV1 not found"@,
        ),
        SetupStep::BindShm.refusal() == Some("WlShm not found"@),
        SetupStep::BindToplevelSourceManager.refusal() is None,
        SetupStep::BindToplevelList.refusal() is None,
{
}

} // verus!
