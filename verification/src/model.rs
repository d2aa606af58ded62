//! The data the pipeline coordinates: targets, control signals,
//! capture outcomes, and the events that make up a supervisor run.

use vstd::prelude::*;

verus! {

/// One entry of the externally owned, ordered target list.  A target's
/// identity is its position in that list: with at most one navigation
/// outstanding at a time, no other correlation id is needed.
#[derive(Debug, PartialEq, Eq)]
pub enum Target {
    /// A URL-shaped target, the only kind the pipeline captures.
    Url(String),
    /// Anything else; skipped with a warning, never dispatched.
    Other(String),
}

/// A message delivered into the rendering surface's single-threaded
/// execution context.  The channel carrying these is FIFO.
#[derive(Debug, PartialEq, Eq)]
pub enum ControlSignal {
    /// Instruct the surface to load this URL.
    Navigate(String),
    /// Instruct the surface to tear its window down.
    CloseWindow,
    /// A debounced "page ready" signal: capture the current buffer.
    CaptureReady,
}

/// A load-lifecycle transition reported by the rendering surface.
#[derive(Debug, Clone, Copy, PartialEq, Eq)]
pub enum LoadEvent {
    Started,
    Redirected,
    Committed,
    Finished,
}

/// What the surface's raster read-back yielded for one capture attempt.
#[derive(Debug, PartialEq, Eq)]
pub enum Readback {
    /// The surface has no current drawable window.
    NoWindow,
    /// The raster buffer could not be read back.
    NoPixbuf,
    /// Encoding the buffer failed, with the encoder's message.
    EncodeError(String),
    /// The buffer, encoded to an in-memory raster image.
    Png(Vec<u8>),
}

/// Why one capture attempt failed.  Never fatal: the supervisor
/// reports it and moves on to the next target.
#[derive(Debug, PartialEq, Eq)]
pub enum CaptureError {
    /// The surface had no window to read from.
    NoWindow,
    /// The raster read-back produced nothing.
    PixbufRetrieval,
    /// The encoder refused the buffer, with its message.
    Encode(String),
}

/// Exactly one of these answers every dispatched navigation, unless
/// the result channel is torn down first.
#[derive(Debug, PartialEq, Eq)]
pub enum CaptureResult {
    /// The encoded image bytes.
    Captured(Vec<u8>),
    /// The capture failed with this reason.
    Failed(CaptureError),
}

impl CaptureError {
    /// The reason as text, as the report sink shows it.
    pub open spec fn message_spec(&self) -> Seq<char> {
        match self {
            CaptureError::NoWindow => "no window"@,
            CaptureError::PixbufRetrieval => "pixbuf retrieval failed"@,
            CaptureError::Encode(m) => m@,
        }
    }

    /// The reason as text, for the report sink.
    pub fn message(&self) -> (r: String)
        ensures
            r@ == self.message_spec(),
    {
        match self {
            CaptureError::NoWindow => "no window".to_string(),
            CaptureError::PixbufRetrieval => "pixbuf retrieval failed".to_string(),
            CaptureError::Encode(m) => m.clone(),
        }
    }
}

/// One observable step of a supervisor run, in order of occurrence.
#[derive(Debug, PartialEq, Eq)]
pub enum RunEvent {
    /// `Navigate(url)` was issued for the target holding this URL.
    Dispatched(String),
    /// A non-URL target was passed over with a warning.
    Skipped(String),
    /// The capture of the outstanding navigation failed; the failure
    /// was reported and the run went on.
    CaptureFailed(CaptureError),
    /// The captured bytes for this URL were handed to persistence,
    /// which accepted them.
    Persisted(String, Vec<u8>),
    /// Persistence refused the captured bytes: the run aborts at once.
    PersistFailed,
    /// The result channel was closed with a navigation outstanding;
    /// no further result can ever arrive.
    Disconnected,
    /// The exhausted flag went from false to true.
    ExhaustedSet,
    /// The surface was asked to close its window.
    CloseRequested,
}

/// What the rendering surface's context must do with a control signal.
#[derive(Debug, PartialEq, Eq)]
pub enum SurfaceAction {
    /// Start loading this URL.
    LoadUri(String),
    /// Tear the window down.
    Shutdown,
    /// Read the raster buffer back, encode it, and deposit exactly one
    /// `CaptureResult` on the result channel.
    Capture,
    /// Do nothing: the pipeline is already exhausted.
    Ignore,
}

/// The supervisor's decision on reaching a given position of the
/// target list.
#[derive(Debug, PartialEq, Eq)]
pub enum SupervisorStep {
    /// Issue `Navigate(url)` and block for exactly one result.
    Dispatch(String),
    /// Warn that the target is not a URL and advance past it.
    Skip(String),
    /// List exhausted or cancellation observed: set the exhausted
    /// flag, then request close, in that order.
    Finish,
}

} // verus!
