//! The capture supervisor: walks the target list strictly in order,
//! dispatches one navigation at a time, settles each result, and
//! finishes by setting the exhausted flag and requesting close.

use vstd::prelude::*;

use crate::model::CaptureResult;
use crate::model::Readback;
use crate::model::RunEvent;
use crate::model::SupervisorStep;
use crate::model::Target;
use crate::surface::capture_result_of;
use crate::surface::executor_result;

verus! {

/// True when the cancellation flag reads set at the poll taken just
/// before position `i` of the target list.  The flag is monotone —
/// once set it stays set — so a single threshold describes every
/// poll: `Some(n)` means the flag was set after `n` targets had been
/// taken up, `None` that it never was.
pub open spec fn cancelled_before(cancel_from: Option<usize>, i: int) -> bool {
    match cancel_from {
        Some(n) => i >= n,
        None => false,
    }
}

/// True when the persistence collaborator refuses its `pi`-th
/// invocation, counting from zero.
pub open spec fn persist_refused(persist_fail_at: Option<usize>, pi: int) -> bool {
    match persist_fail_at {
        Some(n) => pi == n,
        None => false,
    }
}

/// The supervisor's decision at position `i`: finish when the list is
/// exhausted or cancellation was observed, skip a non-URL target with
/// a warning, and otherwise dispatch the URL.
pub open spec fn next_step_spec(targets: Seq<Target>, i: int, cancelled: bool) -> SupervisorStep {
    if cancelled || i >= targets.len() {
        SupervisorStep::Finish
    } else {
        match targets[i] {
            Target::Url(u) => SupervisorStep::Dispatch(u),
            Target::Other(t) => SupervisorStep::Skip(t),
        }
    }
}

/// Decide the supervisor's next step at position `i` of the target
/// list, with `cancelled` the value the cancellation flag showed at
/// the poll taken just before this target.
pub fn next_step(targets: &Vec<Target>, i: usize, cancelled: bool) -> (s: SupervisorStep)
    ensures
        s == next_step_spec(targets@, i as int, cancelled),
{
    if cancelled || i >= targets.len() {
        SupervisorStep::Finish
    } else {
        match &targets[i] {
            Target::Url(u) => SupervisorStep::Dispatch(u.clone()),
            Target::Other(t) => SupervisorStep::Skip(t.clone()),
        }
    }
}

/// The event trace of a run that starts at position `i` of the target
/// list, after `oi` read-backs have been consumed and `pi` persistence
/// calls have been made.  `surface[k]` is what the raster read-back
/// yields for the `k`-th dispatched navigation of the whole run; a
/// missing entry stands for a result channel torn down before any
/// answer came.
pub open spec fn spec_run_from(
    targets: Seq<Target>,
    i: int,
    surface: Seq<Readback>,
    oi: int,
    cancel_from: Option<usize>,
    persist_fail_at: Option<usize>,
    pi: int,
) -> Seq<RunEvent>
    decreases targets.len() - i,
{
    match next_step_spec(targets, i, cancelled_before(cancel_from, i)) {
        SupervisorStep::Finish => seq![RunEvent::ExhaustedSet, RunEvent::CloseRequested],
        SupervisorStep::Skip(t) => seq![RunEvent::Skipped(t)] + spec_run_from(
            targets,
            i + 1,
            surface,
            oi,
            cancel_from,
            persist_fail_at,
            pi,
        ),
        SupervisorStep::Dispatch(u) => seq![RunEvent::Dispatched(u)] + (if oi >= surface.len() {
            seq![RunEvent::Disconnected, RunEvent::ExhaustedSet, RunEvent::CloseRequested]
        } else {
            match capture_result_of(surface[oi]) {
                CaptureResult::Failed(e) => seq![RunEvent::CaptureFailed(e)] + spec_run_from(
                    targets,
                    i + 1,
                    surface,
                    oi + 1,
                    cancel_from,
                    persist_fail_at,
                    pi,
                ),
                CaptureResult::Captured(b) => if persist_refused(persist_fail_at, pi) {
                    seq![RunEvent::PersistFailed]
                } else {
                    seq![RunEvent::Persisted(u, b)] + spec_run_from(
                        targets,
                        i + 1,
                        surface,
                        oi + 1,
                        cancel_from,
                        persist_fail_at,
                        pi + 1,
                    )
                },
            }
        }),
    }
}

/// The event trace of a whole run.
pub open spec fn spec_run(
    targets: Seq<Target>,
    surface: Seq<Readback>,
    cancel_from: Option<usize>,
    persist_fail_at: Option<usize>,
) -> Seq<RunEvent> {
    spec_run_from(targets, 0, surface, 0, cancel_from, persist_fail_at, 0)
}

/// Run the supervisor over the whole target list against a modelled
/// environment, and return the run's event trace.
///
/// `surface[k]` is what the raster read-back yields for the `k`-th
/// dispatched navigation; if the list runs out first, the result
/// channel counts as torn down and the run ends early.  `cancel_from`
/// is the number of targets after which the cancellation flag reads
/// set, `None` when it never does.  `persist_fail_at` is the index of
/// the persistence call that fails, `None` when none does; a failure
/// aborts the run at once.
#[verifier::loop_isolation(false)]
pub fn run_capture_loop(
    targets: &Vec<Target>,
    surface: Vec<Readback>,
    cancel_from: Option<usize>,
    persist_fail_at: Option<usize>,
) -> (log: Vec<RunEvent>)
    ensures
        log@ == spec_run(targets@, surface@, cancel_from, persist_fail_at),
{
    let ghost all: Seq<Readback> = surface@;
    let target_count: usize = targets.len();
    let mut rest = surface;
    let mut log: Vec<RunEvent> = Vec::new();
    let mut i: usize = 0;
    let ghost mut oi: int = 0;
    let mut pi: usize = 0;
    loop
        invariant
            i <= targets@.len(),
            pi <= i,
            0 <= oi <= all.len(),
            rest@ == all.skip(oi),
            spec_run(targets@, all, cancel_from, persist_fail_at) == log@ + spec_run_from(
                targets@,
                i as int,
                all,
                oi,
                cancel_from,
                persist_fail_at,
                pi as int,
            ),
        decreases targets@.len() - i,
    {
        let ghost entry_log = log@;
        let ghost tail_here = spec_run_from(
            targets@,
            i as int,
            all,
            oi,
            cancel_from,
            persist_fail_at,
            pi as int,
        );
        let cancelled = match cancel_from {
            Some(n) => i >= n,
            None => false,
        };
        proof {
            assert(cancelled == cancelled_before(cancel_from, i as int));
        }
        match next_step(targets, i, cancelled) {
            SupervisorStep::Finish => {
                log.push(RunEvent::ExhaustedSet);
                log.push(RunEvent::CloseRequested);
                proof {
                    assert(tail_here =~= seq![RunEvent::ExhaustedSet, RunEvent::CloseRequested]);
                    assert(log@ =~= entry_log + tail_here);
                }
                return log;
            },
            SupervisorStep::Skip(t) => {
                let ghost gt = t;
                proof {
                    assert(i < targets@.len());
                }
                log.push(RunEvent::Skipped(t));
                let ghost tail_next = spec_run_from(
                    targets@,
                    i + 1,
                    all,
                    oi,
                    cancel_from,
                    persist_fail_at,
                    pi as int,
                );
                proof {
                    assert(tail_here =~= seq![RunEvent::Skipped(gt)] + tail_next);
                    assert(log@ + tail_next =~= entry_log + tail_here);
                }
                i = i + 1;
            },
            SupervisorStep::Dispatch(u) => {
                let ghost gu = u;
                proof {
                    assert(i < targets@.len());
                }
                log.push(RunEvent::Dispatched(u.clone()));
                if rest.len() == 0 {
                    log.push(RunEvent::Disconnected);
                    log.push(RunEvent::ExhaustedSet);
                    log.push(RunEvent::CloseRequested);
                    proof {
                        assert(oi >= all.len());
                        assert(tail_here =~= seq![
                            RunEvent::Dispatched(gu),
                            RunEvent::Disconnected,
                            RunEvent::ExhaustedSet,
                            RunEvent::CloseRequested,
                        ]);
                        assert(log@ =~= entry_log + tail_here);
                    }
                    return log;
                }
                proof {
                    assert(oi < all.len());
                    assert(all.skip(oi).len() > 0);
                }
                let rb = rest.remove(0);
                proof {
                    assert(rb == all.skip(oi)[0]);
                    assert(rb == all[oi]);
                    assert(rest@ =~= all.skip(oi + 1));
                }
                match executor_result(rb) {
                    CaptureResult::Failed(e) => {
                        let ghost ge = e;
                        log.push(RunEvent::CaptureFailed(e));
                        let ghost tail_next = spec_run_from(
                            targets@,
                            i + 1,
                            all,
                            oi + 1,
                            cancel_from,
                            persist_fail_at,
                            pi as int,
                        );
                        proof {
                            assert(capture_result_of(all[oi]) == CaptureResult::Failed(ge));
                            assert(tail_here =~= seq![RunEvent::Dispatched(gu)] + (seq![
                                RunEvent::CaptureFailed(ge),
                            ] + tail_next));
                            assert(log@ + tail_next =~= entry_log + tail_here);
                            oi = oi + 1;
                        }
                        i = i + 1;
                    },
                    CaptureResult::Captured(b) => {
                        let ghost gb = b;
                        proof {
                            assert(capture_result_of(all[oi]) == CaptureResult::Captured(gb));
                        }
                        let refused = match persist_fail_at {
                            Some(n) => pi == n,
                            None => false,
                        };
                        proof {
                            assert(refused == persist_refused(persist_fail_at, pi as int));
                        }
                        if refused {
                            log.push(RunEvent::PersistFailed);
                            proof {
                                assert(tail_here =~= seq![RunEvent::Dispatched(gu)] + seq![
                                    RunEvent::PersistFailed,
                                ]);
                                assert(log@ =~= entry_log + tail_here);
                            }
                            return log;
                        } else {
                            log.push(RunEvent::Persisted(u, b));
                            let ghost tail_next = spec_run_from(
                                targets@,
                                i + 1,
                                all,
                                oi + 1,
                                cancel_from,
                                persist_fail_at,
                                pi + 1,
                            );
                            proof {
                                assert(tail_here =~= seq![RunEvent::Dispatched(gu)] + (seq![
                                    RunEvent::Persisted(gu, gb),
                                ] + tail_next));
                                assert(log@ + tail_next =~= entry_log + tail_here);
                                oi = oi + 1;
                            }
                            i = i + 1;
                            pi = pi + 1;
                        }
                    },
                }
            },
        }
    }
}

} // verus!
