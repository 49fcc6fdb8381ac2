//! The connection to a compositor: what is known of its outputs and windows, and
//! which of its protocols are at hand.
use crate::error::{fails_with, ErrorView, WayshotError};
use crate::output::OutputInfo;
use crate::text::{decimal, push_decimal, push_signed_decimal, signed_decimal};
use crate::toplevel::TopLevel;
use vstd::prelude::*;

verus! {

/// The state of the image capture protocols. `H` is the handle of a window; each
/// flag says that the object of that name is at hand.
#[derive(Debug)]
pub struct ExtBase<H> {
    pub toplevels: Vec<TopLevel<H>>,
    pub img_copy_manager: bool,
    pub output_image_manager: bool,
    pub shm: bool,
    pub qh: bool,
    /// The event queue is not lent to a capture.
    pub event_queue: bool,
    pub toplevel_image_manager: bool,
}

/// A connection to a compositor. `O` is the handle of an output, `H` that of a
/// window.
#[derive(Debug)]
pub struct WayshotConnection<O, H> {
    pub output_infos: Vec<OutputInfo<O>>,
    /// Frames can be copied to DMA-BUFs.
    pub dmabuf_state: bool,
    /// The image capture protocols, where they are used.
    pub ext_image: Option<ExtBase<H>>,
}

/// The lines that describe an output.
pub open spec fn display_text<O>(info: OutputInfo<O>) -> Seq<char> {
    let logical = info.logical_region.inner;
    info.name@ + "\ndescription: "@ + info.description@ + "\n    Size: "@ + decimal(
        info.physical_size.width as nat,
    ) + ","@ + decimal(info.physical_size.height as nat) + "\n    LogicSize: "@ + decimal(
        logical.size.width as nat,
    ) + ", "@ + decimal(logical.size.height as nat) + "\n    Position: "@ + signed_decimal(
        logical.position.x as int,
    ) + ", "@ + signed_decimal(logical.position.y as int) + "\n    Scale: "@ + signed_decimal(
        info.scale as int,
    ) + "\n"@
}

/// The lines that describe all outputs, in order.
pub open spec fn displays_text<O>(infos: Seq<OutputInfo<O>>) -> Seq<char>
    decreases infos.len(),
{
    if infos.len() == 0 {
        Seq::empty()
    } else {
        displays_text(infos.drop_last()) + display_text(infos.last())
    }
}

fn push_display<O>(text: &mut String, info: &OutputInfo<O>)
    ensures
        final(text)@ == old(text)@ + display_text(*info),
{
    text.append(info.name.as_str());
    text.append("\ndescription: ");
    text.append(info.description.as_str());
    text.append("\n    Size: ");
    push_decimal(text, info.physical_size.width);
    text.append(",");
    push_decimal(text, info.physical_size.height);
    text.append("\n    LogicSize: ");
    push_decimal(text, info.logical_region.inner.size.width);
    text.append(", ");
    push_decimal(text, info.logical_region.inner.size.height);
    text.append("\n    Position: ");
    push_signed_decimal(text, info.logical_region.inner.position.x);
    text.append(", ");
    push_signed_decimal(text, info.logical_region.inner.position.y);
    text.append("\n    Scale: ");
    push_signed_decimal(text, info.scale);
    text.append("\n");
    assert(text@ =~= old(text)@ + display_text(*info));
}

impl<O, H> WayshotConnection<O, H> {
    /// The connection has the image capture protocols and its event queue.
    pub open spec fn queue_at_hand(self) -> bool {
        self.ext_image matches Some(ext) && ext.event_queue
    }

    /// Nothing is known of the compositor, and none of its objects is at hand.
    pub open spec fn is_unprobed(self) -> bool {
        &&& self.output_infos@.len() == 0
        &&& self.ext_image matches Some(ext) ==> {
            &&& ext.toplevels@.len() == 0
            &&& !ext.img_copy_manager
            &&& !ext.output_image_manager
            &&& !ext.shm
            &&& !ext.qh
            &&& !ext.event_queue
            &&& !ext.toplevel_image_manager
        }
    }

    /// The same connection, with its event queue at hand or lent.
    pub open spec fn with_queue(self, at_hand: bool) -> Self {
        match self.ext_image {
            Some(ext) => WayshotConnection {
                ext_image: Some(ExtBase { event_queue: at_hand, ..ext }),
                ..self
            },
            None => self,
        }
    }

    /// Connects with the image capture protocols, and where that fails, without
    /// them. The argument makes a connection, with these protocols or without.
    pub fn new<C, E, F: Fn(bool) -> Result<C, E>>(create_connection: F) -> (res: Result<C, E>)
        requires
            call_requires(create_connection, (true,)),
            call_requires(create_connection, (false,)),
        ensures
            call_ensures(create_connection, (true,), res) && res is Ok || exists|e: E| #[trigger]
                call_ensures(create_connection, (true,), Err::<C, E>(e)) && call_ensures(
                    create_connection,
                    (false,),
                    res,
                ),
    {
        match create_connection(true) {
            Ok(connection) => Ok(connection),
            Err(_) => create_connection(false),
        }
    }

    /// A connection of which nothing is known yet.
    pub fn unprobed(use_ext_image: bool, dmabuf_state: bool) -> (res: Self)
        ensures
            res.is_unprobed(),
            res.dmabuf_state == dmabuf_state,
            use_ext_image <==> res.ext_image is Some,
    {
        let ext_image = if use_ext_image {
            Some(
                ExtBase {
                    toplevels: Vec::new(),
                    img_copy_manager: false,
                    output_image_manager: false,
                    shm: false,
                    qh: false,
                    event_queue: false,
                    toplevel_image_manager: false,
                },
            )
        } else {
            None
        };
        WayshotConnection { output_infos: Vec::new(), dmabuf_state, ext_image }
    }

    /// The connection can copy frames to DMA-BUFs; it has outputs, and does without
    /// the image capture protocols.
    pub open spec fn is_for_dmabuf(self) -> bool {
        &&& self.dmabuf_state
        &&& self.ext_image is None
        &&& self.output_infos@.len() > 0
    }

    /// A connection that can copy frames to DMA-BUFs, over the connection object
    /// `conn`, which is kept. `outputs` is what the compositor advertises; a
    /// compositor without outputs is refused.
    pub fn from_connection_with_dmabuf<C>(conn: C, outputs: Vec<OutputInfo<O>>) -> (res: Result<
        (C, Self),
        WayshotError,
    >)
        ensures
            outputs@.len() == 0 ==> fails_with(res, ErrorView::NoOutputs),
            outputs@.len() > 0 ==> (res matches Ok((kept, connection)) && {
                &&& kept == conn
                &&& connection.is_for_dmabuf()
                &&& connection.output_infos == outputs
            }),
    {
        let mut connection = Self::unprobed(false, true);
        match connection.refresh_outputs(outputs) {
            Ok(()) => Ok((conn, connection)),
            Err(error) => Err(error),
        }
    }

    /// Replaces the outputs by those that the compositor advertises now. A
    /// compositor without outputs is refused, and the known outputs stay.
    pub fn refresh_outputs(&mut self, outputs: Vec<OutputInfo<O>>) -> (res: Result<
        (),
        WayshotError,
    >)
        ensures
            final(self).dmabuf_state == old(self).dmabuf_state,
            final(self).ext_image == old(self).ext_image,
            outputs@.len() == 0 ==> fails_with(res, ErrorView::NoOutputs)
                && final(self).output_infos == old(self).output_infos,
            outputs@.len() > 0 ==> res is Ok && final(self).output_infos == outputs,
    {
        if outputs.len() == 0 {
            return Err(WayshotError::NoOutputs);
        }
        self.output_infos = outputs;
        Ok(())
    }

    /// All outputs.
    pub fn get_all_outputs(&self) -> (res: &[OutputInfo<O>])
        ensures
            res@ == self.output_infos@,
    {
        self.output_infos.as_slice()
    }

    /// All outputs.
    #[allow(non_snake_case)]
    pub fn vector_of_Outputs(&self) -> (res: &Vec<OutputInfo<O>>)
        ensures
            *res == self.output_infos,
    {
        &self.output_infos
    }

    /// All windows.
    pub fn toplevels(&self) -> (res: &Vec<TopLevel<H>>)
        requires
            self.ext_image is Some,
        ensures
            self.ext_image matches Some(ext) && *res == ext.toplevels,
    {
        &self.ext_image.as_ref().unwrap().toplevels
    }

    /// Lends the event queue to a capture.
    pub fn take_event_queue(&mut self)
        requires
            old(self).queue_at_hand(),
        ensures
            *final(self) == old(self).with_queue(false),
    {
        if let Some(ext) = self.ext_image.as_mut() {
            ext.event_queue = false;
        }
    }

    /// Takes the event queue back from a capture.
    pub fn reset_event_queue(&mut self)
        requires
            old(self).ext_image is Some,
        ensures
            *final(self) == old(self).with_queue(true),
            final(self).queue_at_hand(),
    {
        if let Some(ext) = self.ext_image.as_mut() {
            ext.event_queue = true;
        }
    }

    /// Why a copy to a DMA-BUF is refused, where it is.
    pub open spec fn dmabuf_refusal(self) -> Option<ErrorView> {
        if self.dmabuf_state {
            None
        } else {
            Some(ErrorView::NoDMAStateError)
        }
    }

    /// Frames can be copied to DMA-BUFs only over a connection that was made for it.
    pub fn require_dmabuf(&self) -> (res: Result<(), WayshotError>)
        ensures
            match self.dmabuf_refusal() {
                None => res is Ok,
                Some(error) => fails_with(res, error),
            },
    {
        if self.dmabuf_state {
            Ok(())
        } else {
            Err(WayshotError::NoDMAStateError)
        }
    }

    /// The lines that describe the outputs.
    pub fn displays_info(&self) -> (res: String)
        ensures
            res@ == displays_text(self.output_infos@),
    {
        let mut text = String::new();
        let mut i: usize = 0;
        while i < self.output_infos.len()
            invariant
                i <= self.output_infos@.len(),
                text@ == displays_text(self.output_infos@.take(i as int)),
            decreases self.output_infos@.len() - i,
        {
            push_display(&mut text, &self.output_infos[i]);
            i += 1;
            proof {
                let infos = self.output_infos@.take(i as int);
                assert(infos.drop_last() =~= self.output_infos@.take(i - 1));
                assert(infos.last() == self.output_infos@[i - 1]);
            }
        }
        assert(self.output_infos@.take(i as int) =~= self.output_infos@);
        text
    }
}

/// An output is described in six lines: its name, its description, its size in pixels, its
/// size and its position in the compositor's space, and its scale.
pub proof fn law_display_has_six_lines<O>(info: OutputInfo<O>)
    ensures
        ({
            let logical = info.logical_region.inner;
            let width = decimal(info.physical_size.width as nat);
            let height = decimal(info.physical_size.height as nat);
            let logical_width = decimal(logical.size.width as nat);
            let logical_height = decimal(logical.size.height as nat);
            let x = signed_decimal(logical.position.x as int);
            let y = signed_decimal(logical.position.y as int);
            let end = "\n"@;
            display_text(info) == (info.name@ + end) + ("description: "@ + info.description@ + end)
                + ("    Size: "@ + width + ","@ + height + end) + ("    LogicSize: "@
                + logical_width + ", "@ + logical_height + end) + ("    Position: "@ + x + ", "@
                + y + end) + ("    Scale: "@ + signed_decimal(info.scale as int) + end)
        }),
{
    reveal_strlit("\n");
    reveal_strlit("description: ");
    reveal_strlit("\ndescription: ");
    reveal_strlit("    Size: ");
    reveal_strlit("\n    Size: ");
    reveal_strlit("    LogicSize: ");
    reveal_strlit("\n    LogicSize: ");
    reveal_strlit("    Position: ");
    reveal_strlit("\n    Position: ");
    reveal_strlit("    Scale: ");
    reveal_strlit("\n    Scale: ");
    let end = "\n"@;
    assert("\ndescription: "@ =~= end + "description: "@);
    assert("\n    Size: "@ =~= end + "    Size: "@);
    assert("\n    LogicSize: "@ =~= end + "    LogicSize: "@);
    assert("\n    Position: "@ =~= end + "    Position: "@);
    assert("\n    Scale: "@ =~= end + "    Scale: "@);
    let logical = info.logical_region.inner;
    let width = decimal(info.physical_size.width as nat);
    let height = decimal(info.physical_size.height as nat);
    let logical_width = decimal(logical.size.width as nat);
    let logical_height = decimal(logical.size.height as nat);
    let x = signed_decimal(logical.position.x as int);
    let y = signed_decimal(logical.position.y as int);
    assert(display_text(info) =~= (info.name@ + end) + ("description: "@ + info.description@ + end)
        + ("    Size: "@ + width + ","@ + height + end) + ("    LogicSize: "@ + logical_width
        + ", "@ + logical_height + end) + ("    Position: "@ + x + ", "@ + y + end) + (
    "    Scale: "@ + signed_decimal(info.scale as int) + end));
}

/// The outputs are described one after the other, in order: what is said of some outputs
/// and of further ones is said of all of them, and of one output only what describes it.
pub proof fn law_displays_are_listed_in_order<O>(
    infos: Seq<OutputInfo<O>>,
    more: Seq<OutputInfo<O>>,
    one: OutputInfo<O>,
)
    ensures
        displays_text(infos + more) == displays_text(infos) + displays_text(more),
        displays_text(seq![one]) == display_text(one),
    decreases more.len(),
{
    assert(seq![one].drop_last() =~= Seq::<OutputInfo<O>>::empty());
    assert(displays_text(Seq::<OutputInfo<O>>::empty()) =~= Seq::<char>::empty());
    assert(displays_text(seq![one]) =~= display_text(one));
    if more.len() == 0 {
        assert(infos + more =~= infos);
        assert(displays_text(infos) + displays_text(more) =~= displays_text(infos));
    } else {
        law_displays_are_listed_in_order(infos, more.drop_last(), one);
        assert((infos + more).drop_last() =~= infos + more.drop_last());
        assert((infos + more).last() == more.last());
        assert(displays_text(infos) + displays_text(more) =~= displays_text(infos)
            + displays_text(more.drop_last()) + display_text(more.last()));
    }
}

/// To lend the event queue, or to take it back, changes nothing else of a connection.
pub proof fn law_only_the_queue_is_lent<O, H>(connection: WayshotConnection<O, H>, at_hand: bool)
    requires
        connection.ext_image is Some,
    ensures
        ({
            let after = connection.with_queue(at_hand);
            let before_ext = connection.ext_image->0;
            let after_ext = after.ext_image->0;
            &&& after.output_infos == connection.output_infos
            &&& after.dmabuf_state == connection.dmabuf_state
            &&& after.ext_image is Some
            &&& after_ext.event_queue == at_hand
            &&& after_ext.toplevels == before_ext.toplevels
            &&& after_ext.img_copy_manager == before_ext.img_copy_manager
            &&& after_ext.output_image_manager == before_ext.output_image_manager
            &&& after_ext.shm == before_ext.shm
            &&& after_ext.qh == before_ext.qh
            &&& after_ext.toplevel_image_manager == before_ext.toplevel_image_manager
            &&& after.queue_at_hand() <==> at_hand
        }),
{
}

/// Of a connection that has not been probed nothing is known, and it has nothing to
/// capture with; a copy to a DMA-BUF is refused exactly where it was not made for one.
pub proof fn law_nothing_is_known_at_first<O, H>(connection: WayshotConnection<O, H>)
    ensures
        connection.is_unprobed() ==> {
            &&& connection.output_infos@.len() == 0
            &&& !connection.queue_at_hand()
            &&& connection.ext_image matches Some(ext) ==> ext.toplevels@.len() == 0 && !(
            ext.img_copy_manager || ext.output_image_manager || ext.shm || ext.qh
                || ext.event_queue || ext.toplevel_image_manager)
        },
        connection.is_for_dmabuf() <==> connection.dmabuf_state && connection.ext_image is None
            && connection.output_infos@.len() > 0,
        connection.dmabuf_refusal() is None <==> connection.dmabuf_state,
        !connection.dmabuf_state ==> connection.dmabuf_refusal() == Some(
            ErrorView::NoDMAStateError,
        ),
{
}

} // verus!
