//! What can go wrong while a screen is captured.
use vstd::prelude::*;

verus! {

/// The reasons for which a capture is refused or fails.
#[derive(Debug, PartialEq, Eq)]
pub enum WayshotError {
    /// There is no output to capture.
    NoOutputs,
    /// The connection was made without DMA-BUF support.
    NoDMAStateError,
    /// The compositor offers no pixel format that can be read.
    NoSupportedBufferFormat,
    /// The pixel format of the capture session cannot be read.
    NotSupportFormat,
    /// The frame does not fit the size field of a shared memory pool.
    BufferTooSmall,
    /// The compositor reported that it could not copy the frame.
    FramecopyFailed,
    /// The driver has no entry point that turns an EGL image into a texture.
    EGLImageToTexProcNotFoundError,
    /// The DMA-BUF pixel format code is not known.
    UnrecognizedFourcc(u32),
    /// The compositor lacks a protocol.
    ProtocolNotFound(String),
    /// The capture session ended without a frame.
    CaptureFailed(String),
}

/// A [`WayshotError`] with its text as a sequence of characters.
#[verifier::ext_equal]
pub enum ErrorView {
    NoOutputs,
    NoDMAStateError,
    NoSupportedBufferFormat,
    NotSupportFormat,
    BufferTooSmall,
    FramecopyFailed,
    EGLImageToTexProcNotFoundError,
    UnrecognizedFourcc(u32),
    ProtocolNotFound(Seq<char>),
    CaptureFailed(Seq<char>),
}

impl View for WayshotError {
    type V = ErrorView;

    open spec fn view(&self) -> ErrorView {
        match *self {
            WayshotError::NoOutputs => ErrorView::NoOutputs,
            WayshotError::NoDMAStateError => ErrorView::NoDMAStateError,
            WayshotError::NoSupportedBufferFormat => ErrorView::NoSupportedBufferFormat,
            WayshotError::NotSupportFormat => ErrorView::NotSupportFormat,
            WayshotError::BufferTooSmall => ErrorView::BufferTooSmall,
            WayshotError::FramecopyFailed => ErrorView::FramecopyFailed,
            WayshotError::EGLImageToTexProcNotFoundError => {
                ErrorView::EGLImageToTexProcNotFoundError
            },
            WayshotError::UnrecognizedFourcc(code) => ErrorView::UnrecognizedFourcc(code),
            WayshotError::ProtocolNotFound(text) => ErrorView::ProtocolNotFound(text@),
            WayshotError::CaptureFailed(text) => ErrorView::CaptureFailed(text@),
        }
    }
}

/// The call was refused, for the given reason.
pub open spec fn fails_with<T>(res: Result<T, WayshotError>, error: ErrorView) -> bool {
    res matches Err(e) && e@ == error
}

/// A refusal says what is wrong: each reason is seen as itself and as no other, with
/// its text or its number.
pub proof fn law_reasons_are_told_apart(error: WayshotError)
    ensures
        error is NoOutputs <==> error@ is NoOutputs,
        error is NoDMAStateError <==> error@ is NoDMAStateError,
        error is NoSupportedBufferFormat <==> error@ is NoSupportedBufferFormat,
        error is NotSupportFormat <==> error@ is NotSupportFormat,
        error is BufferTooSmall <==> error@ is BufferTooSmall,
        error is FramecopyFailed <==> error@ is FramecopyFailed,
        error is EGLImageToTexProcNotFoundError <==> error@ is EGLImageToTexProcNotFoundError,
        forall|code: u32|
            error == WayshotError::UnrecognizedFourcc(code) <==> error@
                == ErrorView::UnrecognizedFourcc(code),
        forall|text: Seq<char>|
            (error matches WayshotError::ProtocolNotFound(t) && t@ == text) <==> error@
                == ErrorView::ProtocolNotFound(text),
        forall|text: Seq<char>|
            (error matches WayshotError::CaptureFailed(t) && t@ == text) <==> error@
                == ErrorView::CaptureFailed(text),
{
}

/// A call that is refused returns no value, and reports the reason.
pub proof fn law_refused_calls_report<T>(res: Result<T, WayshotError>, error: ErrorView)
    requires
        fails_with(res, error),
    ensures
        res is Err,
        res->Err_0@ == error,
{
}

} // verus!
