//! The guarantees the pipeline gives: mutual exclusion of
//! navigations, exhaustion gating, result completeness, debounce
//! ordering, the fatality of a persistence failure, and how every
//! run tears down.

use vstd::prelude::*;

use crate::feeder::arrivals_of;
use crate::feeder::emissions_of;
use crate::feeder::lawful_history;
use crate::feeder::pending_after;
use crate::feeder::FeederOp;
use crate::model::CaptureResult;
use crate::model::Readback;
use crate::model::RunEvent;
use crate::model::SupervisorStep;
use crate::model::Target;
use crate::supervisor::cancelled_before;
use crate::supervisor::next_step_spec;
use crate::supervisor::persist_refused;
use crate::supervisor::spec_run;
use crate::supervisor::spec_run_from;
use crate::surface::capture_result_of;

verus! {

/// An event that settles the outstanding navigation: a result was
/// observed (persisted, reported as a capture failure, or fatal to
/// persistence), or the result channel closed for good.
pub open spec fn is_resolution(e: RunEvent) -> bool {
    ||| e is Persisted
    ||| e is CaptureFailed
    ||| e is PersistFailed
    ||| e is Disconnected
}

/// Dispatches and resolutions strictly alternate: a navigation is
/// only issued when none is outstanding, and a resolution only
/// arrives for an outstanding navigation.  `outstanding` says whether
/// a navigation is awaiting its result as the trace begins.
pub open spec fn alternates_from(s: Seq<RunEvent>, outstanding: bool) -> bool
    decreases s.len(),
{
    if s.len() == 0 {
        true
    } else if s[0] is Dispatched {
        !outstanding && alternates_from(s.drop_first(), true)
    } else if is_resolution(s[0]) {
        outstanding && alternates_from(s.drop_first(), false)
    } else {
        alternates_from(s.drop_first(), outstanding)
    }
}

/// Whether a navigation is still awaiting its result once the whole
/// trace has played out, starting from `outstanding`.
pub open spec fn outstanding_after(s: Seq<RunEvent>, outstanding: bool) -> bool
    decreases s.len(),
{
    if s.len() == 0 {
        outstanding
    } else if s[0] is Dispatched {
        outstanding_after(s.drop_first(), true)
    } else if is_resolution(s[0]) {
        outstanding_after(s.drop_first(), false)
    } else {
        outstanding_after(s.drop_first(), outstanding)
    }
}

/// No navigation is dispatched anywhere in the trace.
pub open spec fn no_dispatch(s: Seq<RunEvent>) -> bool
    decreases s.len(),
{
    s.len() == 0 || (!(s[0] is Dispatched) && no_dispatch(s.drop_first()))
}

/// Once the exhausted flag is set, no further navigation is
/// dispatched.
pub open spec fn gated_after_exhausted(s: Seq<RunEvent>) -> bool
    decreases s.len(),
{
    if s.len() == 0 {
        true
    } else if s[0] is ExhaustedSet {
        no_dispatch(s.drop_first())
    } else {
        gated_after_exhausted(s.drop_first())
    }
}

/// A persistence failure ends the trace on the spot: nothing at all —
/// in particular no further navigation — follows it.
pub open spec fn fatal_is_terminal(s: Seq<RunEvent>) -> bool
    decreases s.len(),
{
    if s.len() == 0 {
        true
    } else if s[0] is PersistFailed {
        s.len() == 1
    } else {
        fatal_is_terminal(s.drop_first())
    }
}

/// How often `ExhaustedSet` occurs in the trace.
pub open spec fn count_exhausted(s: Seq<RunEvent>) -> int
    decreases s.len(),
{
    if s.len() == 0 {
        0
    } else {
        (if s[0] is ExhaustedSet {
            1int
        } else {
            0int
        }) + count_exhausted(s.drop_first())
    }
}

/// How often `CloseRequested` occurs in the trace.
pub open spec fn count_close(s: Seq<RunEvent>) -> int
    decreases s.len(),
{
    if s.len() == 0 {
        0
    } else {
        (if s[0] is CloseRequested {
            1int
        } else {
            0int
        }) + count_close(s.drop_first())
    }
}

/// How every run ends.  Either the run reaches its terminal state:
/// the exhausted flag is set exactly once, and the one close request
/// follows it as the very last event; or persistence failed, the run
/// aborted on the spot, and neither teardown event ever happened.
pub open spec fn termination_shape(s: Seq<RunEvent>) -> bool {
    ||| {
        &&& s.len() >= 2
        &&& s[s.len() - 2] is ExhaustedSet
        &&& s[s.len() - 1] is CloseRequested
        &&& count_exhausted(s) == 1
        &&& count_close(s) == 1
    }
    ||| {
        &&& s.len() >= 1
        &&& s[s.len() - 1] is PersistFailed
        &&& count_exhausted(s) == 0
        &&& count_close(s) == 0
    }
}

/// Pulling one event off the front of a concatenation.
proof fn lemma_cons_facts(e: RunEvent, s: Seq<RunEvent>)
    ensures
        (seq![e] + s).len() == s.len() + 1,
        (seq![e] + s)[0] == e,
        (seq![e] + s).drop_first() == s,
{
    assert((seq![e] + s).drop_first() =~= s);
}

/// Every guarantee holds of the bare teardown trace.
proof fn lemma_teardown_pair()
    ensures
        ({
            let s = seq![RunEvent::ExhaustedSet, RunEvent::CloseRequested];
            &&& alternates_from(s, false)
            &&& !outstanding_after(s, false)
            &&& gated_after_exhausted(s)
            &&& no_dispatch(s)
            &&& fatal_is_terminal(s)
            &&& count_exhausted(s) == 1
            &&& count_close(s) == 1
        }),
{
    let s = seq![RunEvent::ExhaustedSet, RunEvent::CloseRequested];
    let s1 = seq![RunEvent::CloseRequested];
    let s0 = Seq::<RunEvent>::empty();
    assert(s =~= seq![RunEvent::ExhaustedSet] + s1);
    assert(s1 =~= seq![RunEvent::CloseRequested] + s0);
    lemma_cons_facts(RunEvent::ExhaustedSet, s1);
    lemma_cons_facts(RunEvent::CloseRequested, s0);
    assert(alternates_from(s0, false));
    assert(!outstanding_after(s0, false));
    assert(no_dispatch(s0));
    assert(gated_after_exhausted(s0));
    assert(fatal_is_terminal(s0));
    assert(count_exhausted(s0) == 0);
    assert(count_close(s0) == 0);
    assert(alternates_from(s1, false));
    assert(!outstanding_after(s1, false));
    assert(no_dispatch(s1));
    assert(gated_after_exhausted(s1));
    assert(fatal_is_terminal(s1));
    assert(count_exhausted(s1) == 0);
    assert(count_close(s1) == 1);
    assert(alternates_from(s, false));
    assert(!outstanding_after(s, false));
    assert(no_dispatch(s));
    assert(gated_after_exhausted(s));
    assert(fatal_is_terminal(s));
    assert(count_exhausted(s) == 1);
    assert(count_close(s) == 1);
}

/// Prepending a plain event — neither a teardown event nor a
/// persistence failure — keeps the trace's terminal shape.
proof fn lemma_shape_prepend(e: RunEvent, s: Seq<RunEvent>)
    requires
        termination_shape(s),
        !(e is ExhaustedSet),
        !(e is CloseRequested),
        !(e is PersistFailed),
    ensures
        termination_shape(seq![e] + s),
{
    lemma_cons_facts(e, s);
}

/// Every guarantee below holds of the trace of every partial run.
proof fn lemma_run_from_properties(
    targets: Seq<Target>,
    i: int,
    surface: Seq<Readback>,
    oi: int,
    cancel_from: Option<usize>,
    persist_fail_at: Option<usize>,
    pi: int,
)
    ensures
        ({
            let s = spec_run_from(targets, i, surface, oi, cancel_from, persist_fail_at, pi);
            &&& s.len() >= 2
            &&& alternates_from(s, false)
            &&& !outstanding_after(s, false)
            &&& gated_after_exhausted(s)
            &&& fatal_is_terminal(s)
            &&& termination_shape(s)
        }),
    decreases targets.len() - i,
{
    let s = spec_run_from(targets, i, surface, oi, cancel_from, persist_fail_at, pi);
    let pair = seq![RunEvent::ExhaustedSet, RunEvent::CloseRequested];
    lemma_teardown_pair();
    match next_step_spec(targets, i, cancelled_before(cancel_from, i)) {
        SupervisorStep::Finish => {
            assert(s == pair);
        },
        SupervisorStep::Skip(t) => {
            let tail = spec_run_from(
                targets,
                i + 1,
                surface,
                oi,
                cancel_from,
                persist_fail_at,
                pi,
            );
            lemma_run_from_properties(
                targets,
                i + 1,
                surface,
                oi,
                cancel_from,
                persist_fail_at,
                pi,
            );
            assert(s == seq![RunEvent::Skipped(t)] + tail);
            lemma_cons_facts(RunEvent::Skipped(t), tail);
            lemma_shape_prepend(RunEvent::Skipped(t), tail);
        },
        SupervisorStep::Dispatch(u) => {
            if oi >= surface.len() {
                let t1 = seq![
                    RunEvent::Disconnected,
                    RunEvent::ExhaustedSet,
                    RunEvent::CloseRequested,
                ];
                assert(s == seq![RunEvent::Dispatched(u)] + t1);
                assert(t1 =~= seq![RunEvent::Disconnected] + pair);
                lemma_cons_facts(RunEvent::Disconnected, pair);
                lemma_cons_facts(RunEvent::Dispatched(u), t1);
                assert(alternates_from(t1, true));
                assert(alternates_from(s, false));
                assert(!outstanding_after(t1, true));
                assert(!outstanding_after(s, false));
                assert(gated_after_exhausted(t1));
                assert(gated_after_exhausted(s));
                assert(fatal_is_terminal(t1));
                assert(fatal_is_terminal(s));
                assert(termination_shape(s)) by {
                    assert(s.len() == 4);
                    assert(s[2] is ExhaustedSet);
                    assert(s[3] is CloseRequested);
                    assert(count_exhausted(t1) == count_exhausted(pair));
                    assert(count_close(t1) == count_close(pair));
                    assert(count_exhausted(s) == count_exhausted(t1));
                    assert(count_close(s) == count_close(t1));
                };
            } else {
                match capture_result_of(surface[oi]) {
                    CaptureResult::Failed(e) => {
                        let tail = spec_run_from(
                            targets,
                            i + 1,
                            surface,
                            oi + 1,
                            cancel_from,
                            persist_fail_at,
                            pi,
                        );
                        lemma_run_from_properties(
                            targets,
                            i + 1,
                            surface,
                            oi + 1,
                            cancel_from,
                            persist_fail_at,
                            pi,
                        );
                        let t1 = seq![RunEvent::CaptureFailed(e)] + tail;
                        assert(s == seq![RunEvent::Dispatched(u)] + t1);
                        lemma_cons_facts(RunEvent::CaptureFailed(e), tail);
                        lemma_cons_facts(RunEvent::Dispatched(u), t1);
                        lemma_shape_prepend(RunEvent::CaptureFailed(e), tail);
                        lemma_shape_prepend(RunEvent::Dispatched(u), t1);
                        assert(alternates_from(t1, true));
                        assert(alternates_from(s, false));
                        assert(!outstanding_after(t1, true));
                        assert(!outstanding_after(s, false));
                        assert(gated_after_exhausted(t1));
                        assert(gated_after_exhausted(s));
                        assert(fatal_is_terminal(t1));
                        assert(fatal_is_terminal(s));
                    },
                    CaptureResult::Captured(b) => {
                        if persist_refused(persist_fail_at, pi) {
                            let t1 = seq![RunEvent::PersistFailed];
                            assert(s == seq![RunEvent::Dispatched(u)] + t1);
                            assert(t1 =~= seq![RunEvent::PersistFailed]
                                + Seq::<RunEvent>::empty());
                            lemma_cons_facts(RunEvent::PersistFailed, Seq::<RunEvent>::empty());
                            lemma_cons_facts(RunEvent::Dispatched(u), t1);
                            assert(alternates_from(Seq::<RunEvent>::empty(), false));
                            assert(!outstanding_after(Seq::<RunEvent>::empty(), false));
                            assert(no_dispatch(Seq::<RunEvent>::empty()));
                            assert(gated_after_exhausted(Seq::<RunEvent>::empty()));
                            assert(alternates_from(t1, true));
                            assert(alternates_from(s, false));
                            assert(!outstanding_after(t1, true));
                            assert(!outstanding_after(s, false));
                            assert(gated_after_exhausted(t1));
                            assert(gated_after_exhausted(s));
                            assert(fatal_is_terminal(t1));
                            assert(fatal_is_terminal(s));
                            assert(termination_shape(s)) by {
                                assert(s.len() == 2);
                                assert(s[1] is PersistFailed);
                                assert(count_exhausted(Seq::<RunEvent>::empty()) == 0);
                                assert(count_close(Seq::<RunEvent>::empty()) == 0);
                                assert(count_exhausted(t1) == 0);
                                assert(count_close(t1) == 0);
                                assert(count_exhausted(s) == count_exhausted(t1));
                                assert(count_close(s) == count_close(t1));
                            };
                        } else {
                            let tail = spec_run_from(
                                targets,
                                i + 1,
                                surface,
                                oi + 1,
                                cancel_from,
                                persist_fail_at,
                                pi + 1,
                            );
                            lemma_run_from_properties(
                                targets,
                                i + 1,
                                surface,
                                oi + 1,
                                cancel_from,
                                persist_fail_at,
                                pi + 1,
                            );
                            let t1 = seq![RunEvent::Persisted(u, b)] + tail;
                            assert(s == seq![RunEvent::Dispatched(u)] + t1);
                            lemma_cons_facts(RunEvent::Persisted(u, b), tail);
                            lemma_cons_facts(RunEvent::Dispatched(u), t1);
                            lemma_shape_prepend(RunEvent::Persisted(u, b), tail);
                            lemma_shape_prepend(RunEvent::Dispatched(u), t1);
                            assert(alternates_from(t1, true));
                            assert(alternates_from(s, false));
                            assert(!outstanding_after(t1, true));
                            assert(!outstanding_after(s, false));
                            assert(gated_after_exhausted(t1));
                            assert(gated_after_exhausted(s));
                            assert(fatal_is_terminal(t1));
                            assert(fatal_is_terminal(s));
                        }
                    },
                }
            }
        },
    }
}

/// Mutual exclusion: in every run, at no point are two navigations
/// outstanding at once — every `Dispatched` is issued with no result
/// pending, and every resolution answers the one pending navigation.
pub proof fn lemma_mutual_exclusion(
    targets: Seq<Target>,
    surface: Seq<Readback>,
    cancel_from: Option<usize>,
    persist_fail_at: Option<usize>,
)
    ensures
        alternates_from(spec_run(targets, surface, cancel_from, persist_fail_at), false),
{
    lemma_run_from_properties(targets, 0, surface, 0, cancel_from, persist_fail_at, 0);
}

/// Exhaustion gating: once the exhausted flag has been set, the
/// supervisor never dispatches another navigation.
pub proof fn lemma_exhaustion_gating(
    targets: Seq<Target>,
    surface: Seq<Readback>,
    cancel_from: Option<usize>,
    persist_fail_at: Option<usize>,
)
    ensures
        gated_after_exhausted(spec_run(targets, surface, cancel_from, persist_fail_at)),
{
    lemma_run_from_properties(targets, 0, surface, 0, cancel_from, persist_fail_at, 0);
}

/// Result completeness: every dispatched navigation is answered by
/// exactly one resolution — a persisted success, a reported capture
/// failure, a fatal persistence failure, or the channel's closure —
/// and none is left pending when the run ends.
pub proof fn lemma_result_completeness(
    targets: Seq<Target>,
    surface: Seq<Readback>,
    cancel_from: Option<usize>,
    persist_fail_at: Option<usize>,
)
    ensures
        alternates_from(spec_run(targets, surface, cancel_from, persist_fail_at), false),
        !outstanding_after(spec_run(targets, surface, cancel_from, persist_fail_at), false),
{
    lemma_run_from_properties(targets, 0, surface, 0, cancel_from, persist_fail_at, 0);
}

/// Persistence fatality: a persistence failure is the last event of
/// the run — no later target is attempted, nothing follows at all.
pub proof fn lemma_persistence_fatality(
    targets: Seq<Target>,
    surface: Seq<Readback>,
    cancel_from: Option<usize>,
    persist_fail_at: Option<usize>,
)
    ensures
        fatal_is_terminal(spec_run(targets, surface, cancel_from, persist_fail_at)),
{
    lemma_run_from_properties(targets, 0, surface, 0, cancel_from, persist_fail_at, 0);
}

/// Debounce ordering: in every history the feeder can produce, the
/// forwarded signals are exactly the oldest arrivals, in arrival
/// order, and none is forwarded before its own arrival plus the
/// settle interval has passed.
pub proof fn lemma_debounce_order(ops: Seq<FeederOp>, settle: u64)
    requires
        lawful_history(ops, settle),
    ensures
        emissions_of(ops).len() <= arrivals_of(ops).len(),
        pending_after(ops) == arrivals_of(ops).skip(emissions_of(ops).len() as int),
        forall|k: int|
            0 <= k < emissions_of(ops).len() ==> {
                &&& (#[trigger] emissions_of(ops)[k]).0 == arrivals_of(ops)[k]
                &&& emissions_of(ops)[k].1 >= arrivals_of(ops)[k] + settle
            },
    decreases ops.len(),
{
    if ops.len() == 0 {
        assert(pending_after(ops) =~= arrivals_of(ops).skip(0));
    } else {
        let prev = ops.drop_last();
        lemma_debounce_order(prev, settle);
        let arr0 = arrivals_of(prev);
        let em0 = emissions_of(prev);
        let pen0 = pending_after(prev);
        match ops.last() {
            FeederOp::Arrive(at) => {
                assert(arrivals_of(ops) == arr0.push(at));
                assert(emissions_of(ops) == em0);
                assert(pending_after(ops) == pen0.push(at));
                assert(pen0.push(at) =~= arr0.push(at).skip(em0.len() as int));
                assert(forall|k: int| 0 <= k < em0.len() ==> arr0.push(at)[k] == arr0[k]);
            },
            FeederOp::Emit(at) => {
                assert(pen0.len() > 0);
                assert(arrivals_of(ops) == arr0);
                assert(emissions_of(ops) == em0.push((pen0[0], at)));
                assert(pending_after(ops) == pen0.drop_first());
                assert(pen0[0] == arr0[em0.len() as int]);
                assert(pen0.drop_first() =~= arr0.skip(em0.len() as int + 1));
                assert(forall|k: int|
                    0 <= k < em0.len() ==> #[trigger] emissions_of(ops)[k] == em0[k]);
            },
        }
    }
}

/// Teardown: unless persistence failed first, every run — exhausted,
/// cancelled or disconnected alike — sets the exhausted flag exactly
/// once and then requests close exactly once, as its last two events;
/// a run aborted by persistence never tears down and ends on the
/// failure itself.
pub proof fn lemma_run_teardown(
    targets: Seq<Target>,
    surface: Seq<Readback>,
    cancel_from: Option<usize>,
    persist_fail_at: Option<usize>,
)
    ensures
        termination_shape(spec_run(targets, surface, cancel_from, persist_fail_at)),
{
    lemma_run_from_properties(targets, 0, surface, 0, cancel_from, persist_fail_at, 0);
}

} // verus!
