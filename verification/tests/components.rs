use webcapture::feeder::DebounceFeeder;
use webcapture::model::CaptureError;
use webcapture::model::CaptureResult;
use webcapture::model::ControlSignal;
use webcapture::model::LoadEvent;
use webcapture::model::Readback;
use webcapture::model::SurfaceAction;
use webcapture::model::SupervisorStep;
use webcapture::model::Target;
use webcapture::supervisor::next_step;
use webcapture::surface::close_signal;
use webcapture::surface::control_action;
use webcapture::surface::executor_result;
use webcapture::surface::navigate_signal;
use webcapture::surface::on_load_event;

#[test]
fn listener_forwards_only_finished_while_active() {
    assert!(on_load_event(false, LoadEvent::Finished));
    assert!(!on_load_event(false, LoadEvent::Started));
    assert!(!on_load_event(false, LoadEvent::Redirected));
    assert!(!on_load_event(false, LoadEvent::Committed));
}

#[test]
fn listener_discards_everything_once_exhausted() {
    assert!(!on_load_event(true, LoadEvent::Finished));
    assert!(!on_load_event(true, LoadEvent::Started));
    assert!(!on_load_event(true, LoadEvent::Redirected));
    assert!(!on_load_event(true, LoadEvent::Committed));
}

#[test]
fn executor_reports_missing_window() {
    let r = executor_result(Readback::NoWindow);
    assert_eq!(r, CaptureResult::Failed(CaptureError::NoWindow));
    assert_eq!(CaptureError::NoWindow.message(), "no window");
}

#[test]
fn executor_reports_failed_readback() {
    let r = executor_result(Readback::NoPixbuf);
    assert_eq!(r, CaptureResult::Failed(CaptureError::PixbufRetrieval));
    assert_eq!(CaptureError::PixbufRetrieval.message(), "pixbuf retrieval failed");
}

#[test]
fn executor_passes_the_encoder_message_through() {
    let r = executor_result(Readback::EncodeError("bad raster row".to_string()));
    assert_eq!(
        r,
        CaptureResult::Failed(CaptureError::Encode("bad raster row".to_string()))
    );
    assert_eq!(
        CaptureError::Encode("bad raster row".to_string()).message(),
        "bad raster row"
    );
}

#[test]
fn executor_returns_encoded_bytes() {
    let bytes = vec![137u8, 80, 78, 71];
    let r = executor_result(Readback::Png(bytes.clone()));
    assert_eq!(r, CaptureResult::Captured(bytes));
}

#[test]
fn control_signals_drive_the_surface() {
    assert_eq!(
        control_action(ControlSignal::Navigate("http://a".to_string()), false),
        SurfaceAction::LoadUri("http://a".to_string())
    );
    assert_eq!(
        control_action(ControlSignal::CloseWindow, false),
        SurfaceAction::Shutdown
    );
    assert_eq!(
        control_action(ControlSignal::CaptureReady, false),
        SurfaceAction::Capture
    );
}

#[test]
fn late_ready_signal_is_ignored_after_exhaustion() {
    assert_eq!(
        control_action(ControlSignal::CaptureReady, true),
        SurfaceAction::Ignore
    );
    assert_eq!(
        control_action(ControlSignal::CloseWindow, true),
        SurfaceAction::Shutdown
    );
}

#[test]
fn dispatcher_builds_the_control_signals() {
    assert_eq!(
        navigate_signal("http://a".to_string()),
        ControlSignal::Navigate("http://a".to_string())
    );
    assert_eq!(close_signal(), ControlSignal::CloseWindow);
}

#[test]
fn feeder_holds_a_signal_for_the_settle_interval() {
    let mut feeder = DebounceFeeder::new(1000);
    assert!(!feeder.due(5));
    feeder.accept(5);
    assert!(!feeder.due(1004));
    assert!(feeder.due(1005));
    let sig = feeder.forward(1005);
    assert_eq!(sig, ControlSignal::CaptureReady);
    assert!(!feeder.due(1005));
}

#[test]
fn feeder_forwards_in_arrival_order() {
    let mut feeder = DebounceFeeder::new(1000);
    feeder.accept(5);
    feeder.accept(250);
    assert!(!feeder.due(1004));
    assert!(feeder.due(1005));
    assert_eq!(feeder.forward(1005), ControlSignal::CaptureReady);
    assert!(!feeder.due(1249));
    assert!(feeder.due(1250));
    assert_eq!(feeder.forward(1250), ControlSignal::CaptureReady);
    assert!(!feeder.due(9999));
}

#[test]
fn feeder_with_zero_settle_is_due_at_once() {
    let mut feeder = DebounceFeeder::new(0);
    feeder.accept(42);
    assert!(feeder.due(42));
    assert_eq!(feeder.forward(42), ControlSignal::CaptureReady);
}

#[test]
fn supervisor_steps_through_the_list() {
    let targets = vec![
        Target::Url("http://a".to_string()),
        Target::Other("not a url".to_string()),
    ];
    assert_eq!(
        next_step(&targets, 0, false),
        SupervisorStep::Dispatch("http://a".to_string())
    );
    assert_eq!(
        next_step(&targets, 1, false),
        SupervisorStep::Skip("not a url".to_string())
    );
    assert_eq!(next_step(&targets, 2, false), SupervisorStep::Finish);
    assert_eq!(next_step(&targets, 0, true), SupervisorStep::Finish);
}
