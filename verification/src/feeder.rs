//! The debounce feeder: a strictly FIFO queue of pending ready-signals,
//! each held back for a fixed settle interval before it is forwarded
//! to the control channel as `CaptureReady`.

use vstd::prelude::*;

use crate::model::ControlSignal;

verus! {

/// Pending ready-signals, oldest first, each recorded with the
/// instant (in milliseconds) at which it arrived.  A signal may only
/// be forwarded once the settle interval has elapsed since its
/// arrival, and signals leave strictly in arrival order.
pub struct DebounceFeeder {
    arrivals: Vec<u64>,
    settle_millis: u64,
}

impl DebounceFeeder {
    /// The arrival instants still pending, oldest first.
    pub closed spec fn pending(&self) -> Seq<u64> {
        self.arrivals@
    }

    /// The configured settle interval in milliseconds.
    pub closed spec fn settle(&self) -> u64 {
        self.settle_millis
    }

    /// Arrival instants never run backwards.
    pub closed spec fn wf(&self) -> bool {
        forall|j: int, k: int|
            0 <= j <= k < self.arrivals@.len() ==> self.arrivals@[j] <= self.arrivals@[k]
    }

    /// An empty feeder with the given settle interval.
    pub fn new(settle_millis: u64) -> (f: Self)
        ensures
            f.wf(),
            f.pending() == Seq::<u64>::empty(),
            f.settle() == settle_millis,
    {
        DebounceFeeder { arrivals: Vec::new(), settle_millis }
    }

    /// A ready-signal arrives at instant `now`: queue it behind every
    /// signal already pending.
    pub fn accept(&mut self, now: u64)
        requires
            old(self).wf(),
            old(self).pending().len() > 0 ==> old(self).pending().last() <= now,
        ensures
            final(self).wf(),
            final(self).pending() == old(self).pending().push(now),
            final(self).settle() == old(self).settle(),
    {
        self.arrivals.push(now);
    }

    /// Whether the oldest pending signal, if any, has settled: its
    /// arrival lies at least one settle interval in the past.
    pub fn due(&self, now: u64) -> (r: bool)
        ensures
            r <==> (self.pending().len() > 0 && now >= self.pending()[0] + self.settle()),
    {
        if self.arrivals.len() == 0 {
            false
        } else {
            let head = self.arrivals[0];
            now >= head && now - head >= self.settle_millis
        }
    }

    /// Forward the oldest pending signal to the control channel.  The
    /// caller must have waited out the settle interval (see `due`),
    /// and only the oldest signal may leave: forwarding preserves
    /// arrival order.
    pub fn forward(&mut self, now: u64) -> (sig: ControlSignal)
        requires
            old(self).wf(),
            old(self).pending().len() > 0,
            now >= old(self).pending()[0] + old(self).settle(),
        ensures
            final(self).wf(),
            final(self).pending() == old(self).pending().drop_first(),
            final(self).settle() == old(self).settle(),
            sig == ControlSignal::CaptureReady,
    {
        let _arrival = self.arrivals.remove(0);
        proof {
            assert(self.arrivals@ =~= old(self).arrivals@.drop_first());
        }
        ControlSignal::CaptureReady
    }
}

/// One step of the feeder's life: a ready-signal arrives, or the
/// oldest pending signal is forwarded to the control channel.
pub enum FeederOp {
    /// A ready-signal arrived at this instant.
    Arrive(u64),
    /// The oldest pending signal was forwarded at this instant.
    Emit(u64),
}

/// The arrival instants of a history, in order of arrival.
pub open spec fn arrivals_of(ops: Seq<FeederOp>) -> Seq<u64>
    decreases ops.len(),
{
    if ops.len() == 0 {
        Seq::empty()
    } else {
        match ops.last() {
            FeederOp::Arrive(at) => arrivals_of(ops.drop_last()).push(at),
            FeederOp::Emit(_) => arrivals_of(ops.drop_last()),
        }
    }
}

/// The arrival instants still pending once the history has played
/// out, oldest first.
pub open spec fn pending_after(ops: Seq<FeederOp>) -> Seq<u64>
    decreases ops.len(),
{
    if ops.len() == 0 {
        Seq::empty()
    } else {
        let rest = pending_after(ops.drop_last());
        match ops.last() {
            FeederOp::Arrive(at) => rest.push(at),
            FeederOp::Emit(_) => if rest.len() == 0 {
                rest
            } else {
                rest.drop_first()
            },
        }
    }
}

/// The (arrival, forwarding) instant pairs of the history, in order
/// of forwarding.
pub open spec fn emissions_of(ops: Seq<FeederOp>) -> Seq<(u64, u64)>
    decreases ops.len(),
{
    if ops.len() == 0 {
        Seq::empty()
    } else {
        let rest = emissions_of(ops.drop_last());
        match ops.last() {
            FeederOp::Arrive(_) => rest,
            FeederOp::Emit(at) => {
                let p = pending_after(ops.drop_last());
                if p.len() == 0 {
                    rest
                } else {
                    rest.push((p[0], at))
                }
            },
        }
    }
}

/// A history the feeder can actually produce: a signal is only
/// forwarded while one is pending, and never before its arrival plus
/// the settle interval — exactly what `forward` requires.
pub open spec fn lawful_history(ops: Seq<FeederOp>, settle: u64) -> bool
    decreases ops.len(),
{
    if ops.len() == 0 {
        true
    } else {
        lawful_history(ops.drop_last(), settle) && match ops.last() {
            FeederOp::Arrive(_) => true,
            FeederOp::Emit(at) => {
                let p = pending_after(ops.drop_last());
                p.len() > 0 && at >= p[0] + settle
            },
        }
    }
}

} // verus!
