use webcapture::model::CaptureError;
use webcapture::model::Readback;
use webcapture::model::RunEvent;
use webcapture::model::Target;
use webcapture::supervisor::run_capture_loop;

fn url(s: &str) -> Target {
    Target::Url(s.to_string())
}

fn dispatched(s: &str) -> RunEvent {
    RunEvent::Dispatched(s.to_string())
}

fn persisted(s: &str, bytes: &[u8]) -> RunEvent {
    RunEvent::Persisted(s.to_string(), bytes.to_vec())
}

/// Walks a run log and checks that dispatches and resolutions strictly
/// alternate and that no dispatch is left unresolved at the end.
fn check_alternation(log: &[RunEvent]) {
    let mut outstanding = false;
    for ev in log {
        match ev {
            RunEvent::Dispatched(_) => {
                assert!(!outstanding, "two navigations outstanding at once");
                outstanding = true;
            }
            RunEvent::Persisted(_, _)
            | RunEvent::CaptureFailed(_)
            | RunEvent::PersistFailed
            | RunEvent::Disconnected => {
                assert!(outstanding, "resolution with no navigation outstanding");
                outstanding = false;
            }
            _ => {}
        }
    }
    assert!(!outstanding, "a navigation was never resolved");
}

/// Walks a run log and checks that nothing is dispatched once the
/// exhausted flag has been set.
fn check_gating(log: &[RunEvent]) {
    let mut exhausted = false;
    for ev in log {
        if exhausted {
            assert!(!matches!(ev, RunEvent::Dispatched(_)), "dispatch after exhaustion");
        }
        if matches!(ev, RunEvent::ExhaustedSet) {
            exhausted = true;
        }
    }
}

#[test]
fn single_capture_persists_and_tears_down() {
    let targets = vec![url("http://example.com")];
    let bytes = vec![7u8; 50];
    let log = run_capture_loop(&targets, vec![Readback::Png(bytes.clone())], None, None);
    assert_eq!(
        log,
        vec![
            dispatched("http://example.com"),
            persisted("http://example.com", &bytes),
            RunEvent::ExhaustedSet,
            RunEvent::CloseRequested,
        ]
    );
    let persist_calls = log
        .iter()
        .filter(|e| matches!(e, RunEvent::Persisted(_, _)))
        .count();
    let close_requests = log
        .iter()
        .filter(|e| matches!(e, RunEvent::CloseRequested))
        .count();
    assert_eq!(persist_calls, 1);
    assert_eq!(close_requests, 1);
    check_alternation(&log);
    check_gating(&log);
}

#[test]
fn failed_capture_is_reported_and_run_goes_on() {
    let targets = vec![url("http://a"), url("http://b")];
    let bytes = vec![1u8, 2, 3];
    let log = run_capture_loop(
        &targets,
        vec![Readback::NoPixbuf, Readback::Png(bytes.clone())],
        None,
        None,
    );
    assert_eq!(
        log,
        vec![
            dispatched("http://a"),
            RunEvent::CaptureFailed(CaptureError::PixbufRetrieval),
            dispatched("http://b"),
            persisted("http://b", &bytes),
            RunEvent::ExhaustedSet,
            RunEvent::CloseRequested,
        ]
    );
    assert_eq!(
        CaptureError::PixbufRetrieval.message(),
        "pixbuf retrieval failed"
    );
    check_alternation(&log);
    check_gating(&log);
}

#[test]
fn cancellation_skips_remaining_targets() {
    let targets = vec![url("http://a"), url("http://b")];
    let bytes = vec![9u8; 4];
    let log = run_capture_loop(
        &targets,
        vec![Readback::Png(bytes.clone()), Readback::Png(vec![8u8; 4])],
        Some(1),
        None,
    );
    assert_eq!(
        log,
        vec![
            dispatched("http://a"),
            persisted("http://a", &bytes),
            RunEvent::ExhaustedSet,
            RunEvent::CloseRequested,
        ]
    );
    check_alternation(&log);
    check_gating(&log);
}

#[test]
fn non_url_target_is_skipped_with_one_warning() {
    let targets = vec![url("http://a"), Target::Other("10.0.0.1".to_string()), url("http://b")];
    let first = vec![4u8; 2];
    let second = vec![5u8; 3];
    let log = run_capture_loop(
        &targets,
        vec![Readback::Png(first.clone()), Readback::Png(second.clone())],
        None,
        None,
    );
    assert_eq!(
        log,
        vec![
            dispatched("http://a"),
            persisted("http://a", &first),
            RunEvent::Skipped("10.0.0.1".to_string()),
            dispatched("http://b"),
            persisted("http://b", &second),
            RunEvent::ExhaustedSet,
            RunEvent::CloseRequested,
        ]
    );
    let warnings = log
        .iter()
        .filter(|e| matches!(e, RunEvent::Skipped(_)))
        .count();
    assert_eq!(warnings, 1);
    check_alternation(&log);
    check_gating(&log);
}

#[test]
fn persistence_failure_aborts_at_once() {
    let targets = vec![url("http://a"), url("http://b")];
    let log = run_capture_loop(
        &targets,
        vec![Readback::Png(vec![1u8]), Readback::Png(vec![2u8])],
        None,
        Some(0),
    );
    assert_eq!(log, vec![dispatched("http://a"), RunEvent::PersistFailed]);
    check_alternation(&log);
    check_gating(&log);
}

#[test]
fn persistence_failure_on_second_target_spares_the_first() {
    let targets = vec![url("http://a"), url("http://b")];
    let bytes = vec![3u8; 8];
    let log = run_capture_loop(
        &targets,
        vec![Readback::Png(bytes.clone()), Readback::Png(vec![4u8])],
        None,
        Some(1),
    );
    assert_eq!(
        log,
        vec![
            dispatched("http://a"),
            persisted("http://a", &bytes),
            dispatched("http://b"),
            RunEvent::PersistFailed,
        ]
    );
    check_alternation(&log);
    check_gating(&log);
}

#[test]
fn disconnection_ends_the_run_gracefully() {
    let targets = vec![url("http://a"), url("http://b")];
    let bytes = vec![6u8; 5];
    let log = run_capture_loop(&targets, vec![Readback::Png(bytes.clone())], None, None);
    assert_eq!(
        log,
        vec![
            dispatched("http://a"),
            persisted("http://a", &bytes),
            dispatched("http://b"),
            RunEvent::Disconnected,
            RunEvent::ExhaustedSet,
            RunEvent::CloseRequested,
        ]
    );
    check_alternation(&log);
    check_gating(&log);
}

#[test]
fn empty_target_list_still_tears_down() {
    let targets: Vec<Target> = vec![];
    let log = run_capture_loop(&targets, vec![], None, None);
    assert_eq!(log, vec![RunEvent::ExhaustedSet, RunEvent::CloseRequested]);
}

#[test]
fn cancellation_before_the_first_target_dispatches_nothing() {
    let targets = vec![url("http://a")];
    let log = run_capture_loop(&targets, vec![Readback::Png(vec![1u8])], Some(0), None);
    assert_eq!(log, vec![RunEvent::ExhaustedSet, RunEvent::CloseRequested]);
}
