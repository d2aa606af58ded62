//! Decisions taken inside the rendering surface's execution context:
//! the render-event listener's gate, the dispatch of control signals,
//! and the capture executor's result mapping.

use vstd::prelude::*;

use crate::model::CaptureError;
use crate::model::CaptureResult;
use crate::model::ControlSignal;
use crate::model::LoadEvent;
use crate::model::Readback;
use crate::model::SurfaceAction;

verus! {

/// The render-event listener's gate: invoked once per lifecycle
/// transition, it forwards a ready-signal to the debounce feeder
/// exactly when the pipeline is still active and the page finished
/// loading.  Every other event is discarded without side effect.
pub fn on_load_event(exhausted: bool, event: LoadEvent) -> (forward: bool)
    ensures
        forward <==> (!exhausted && event is Finished),
{
    match event {
        LoadEvent::Finished => !exhausted,
        _ => false,
    }
}

/// What the surface's context does with each control signal: navigate
/// on `Navigate`, tear down on `CloseWindow`, and capture on
/// `CaptureReady` — unless the pipeline is already exhausted, in
/// which case a late ready-signal is ignored.
pub open spec fn control_action_spec(sig: ControlSignal, exhausted: bool) -> SurfaceAction {
    match sig {
        ControlSignal::Navigate(u) => SurfaceAction::LoadUri(u),
        ControlSignal::CloseWindow => SurfaceAction::Shutdown,
        ControlSignal::CaptureReady => if exhausted {
            SurfaceAction::Ignore
        } else {
            SurfaceAction::Capture
        },
    }
}

/// Decide what the surface's context must do with a control signal
/// just pulled off the control channel.
pub fn control_action(sig: ControlSignal, exhausted: bool) -> (a: SurfaceAction)
    ensures
        a == control_action_spec(sig, exhausted),
{
    match sig {
        ControlSignal::Navigate(u) => SurfaceAction::LoadUri(u),
        ControlSignal::CloseWindow => SurfaceAction::Shutdown,
        ControlSignal::CaptureReady => if exhausted {
            SurfaceAction::Ignore
        } else {
            SurfaceAction::Capture
        },
    }
}

/// The capture executor's outcome for each possible read-back: a
/// missing window, a failed read-back and a failed encode each become
/// a reported failure, and encoded bytes become a success.
pub open spec fn capture_result_of(rb: Readback) -> CaptureResult {
    match rb {
        Readback::NoWindow => CaptureResult::Failed(CaptureError::NoWindow),
        Readback::NoPixbuf => CaptureResult::Failed(CaptureError::PixbufRetrieval),
        Readback::EncodeError(m) => CaptureResult::Failed(CaptureError::Encode(m)),
        Readback::Png(b) => CaptureResult::Captured(b),
    }
}

/// Convert a raster read-back into the one `CaptureResult` deposited
/// on the result channel.  Every branch yields a result: no failure
/// path may escape the surface's event loop as a fault.
pub fn executor_result(rb: Readback) -> (r: CaptureResult)
    ensures
        r == capture_result_of(rb),
{
    match rb {
        Readback::NoWindow => CaptureResult::Failed(CaptureError::NoWindow),
        Readback::NoPixbuf => CaptureResult::Failed(CaptureError::PixbufRetrieval),
        Readback::EncodeError(m) => CaptureResult::Failed(CaptureError::Encode(m)),
        Readback::Png(b) => CaptureResult::Captured(b),
    }
}

/// The navigation dispatcher's outbound signal for one URL.
pub fn navigate_signal(url: String) -> (s: ControlSignal)
    ensures
        s == ControlSignal::Navigate(url),
{
    ControlSignal::Navigate(url)
}

/// The navigation dispatcher's close request.
pub fn close_signal() -> (s: ControlSignal)
    ensures
        s == ControlSignal::CloseWindow,
{
    ControlSignal::CloseWindow
}

} // verus!
