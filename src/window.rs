use std::collections::VecDeque;
use vstd::prelude::*;

use crate::error::DetectorError;

verus! {

/// The number of intervals that a window keeps unless told otherwise.
pub const DEFAULT_HISTORY_SIZE: usize = 10;

/// What an [`IntervalWindow`] holds, as mathematical values.
pub struct WindowModel {
    /// The most intervals the window keeps.
    pub history_size: nat,
    /// The kept gaps between heartbeats, oldest first.
    pub intervals: Seq<u64>,
    /// The timestamp of the last accepted heartbeat, if any.
    pub last_heartbeat: Option<u64>,
}

impl WindowModel {
    /// A fresh window: no interval, no heartbeat.
    pub open spec fn empty(history_size: nat) -> WindowModel {
        WindowModel { history_size, intervals: Seq::empty(), last_heartbeat: None }
    }

    /// The window's invariant: a positive bound that the intervals respect.
    pub open spec fn valid(self) -> bool {
        &&& self.history_size > 0
        &&& self.intervals.len() <= self.history_size
    }

    /// The window after a heartbeat at `t`.
    ///
    /// The first heartbeat only records its timestamp. A heartbeat earlier
    /// than the last one is ignored. Any other appends the gap since the last
    /// heartbeat and evicts the oldest interval once the bound is exceeded.
    pub open spec fn after_heartbeat(self, t: u64) -> WindowModel {
        match self.last_heartbeat {
            None => WindowModel { last_heartbeat: Some(t), ..self },
            Some(prev) => if t < prev {
                self
            } else {
                let pushed = self.intervals.push((t - prev) as u64);
                WindowModel {
                    intervals: if pushed.len() > self.history_size {
                        pushed.drop_first()
                    } else {
                        pushed
                    },
                    last_heartbeat: Some(t),
                    ..self
                }
            },
        }
    }

    /// The window after heartbeats at each of `ts`, in order.
    pub open spec fn after_heartbeats(self, ts: Seq<u64>) -> WindowModel
        decreases ts.len(),
    {
        if ts.len() == 0 {
            self
        } else {
            self.after_heartbeats(ts.drop_last()).after_heartbeat(ts.last())
        }
    }

    /// The time elapsed since the last heartbeat, when `now` is past it.
    pub open spec fn elapsed(self, now: u64) -> Option<u64> {
        match self.last_heartbeat {
            Some(prev) => if now > prev {
                Some((now - prev) as u64)
            } else {
                None
            },
            None => None,
        }
    }
}

/// A bounded, insertion-ordered history of the gaps between heartbeats of a
/// single peer, with the timestamp of its last heartbeat.
#[derive(Clone, Debug)]
pub struct IntervalWindow {
    history_size: usize,
    intervals: VecDeque<u64>,
    last_heartbeat: Option<u64>,
}

impl View for IntervalWindow {
    type V = WindowModel;

    closed spec fn view(&self) -> WindowModel {
        WindowModel {
            history_size: self.history_size as nat,
            intervals: self.intervals@,
            last_heartbeat: self.last_heartbeat,
        }
    }
}

impl IntervalWindow {
    /// Whether the window satisfies its invariant.
    pub open spec fn wf(&self) -> bool {
        self@.valid()
    }

    /// An empty window that keeps at most `history_size` intervals.
    ///
    /// A zero bound is an invalid configuration.
    pub fn new(history_size: usize) -> (r: Result<IntervalWindow, DetectorError>)
        ensures
            history_size == 0 <==> r == Err::<IntervalWindow, _>(DetectorError::InvalidConfiguration),
            r is Ok <==> history_size > 0,
            r is Ok ==> r->Ok_0.wf() && r->Ok_0@ == WindowModel::empty(history_size as nat),
    {
        if history_size == 0 {
            return Err(DetectorError::InvalidConfiguration);
        }
        Ok(IntervalWindow { history_size, intervals: VecDeque::new(), last_heartbeat: None })
    }

    /// The most intervals this window keeps.
    pub fn history_size(&self) -> (r: usize)
        ensures
            r as nat == self@.history_size,
    {
        self.history_size
    }

    /// The timestamp of the last accepted heartbeat, if any.
    pub fn last_heartbeat(&self) -> (r: Option<u64>)
        ensures
            r == self@.last_heartbeat,
    {
        self.last_heartbeat
    }

    /// The kept intervals, oldest first.
    pub fn intervals(&self) -> (r: Vec<u64>)
        ensures
            r@ == self@.intervals,
    {
        let mut r: Vec<u64> = Vec::new();
        let n = self.intervals.len();
        let mut i: usize = 0;
        while i < n
            invariant
                n == self.intervals@.len(),
                i <= n,
                r@ == self.intervals@.subrange(0, i as int),
            decreases n - i,
        {
            r.push(self.intervals[i]);
            i = i + 1;
            proof {
                assert(r@ =~= self.intervals@.subrange(0, i as int));
            }
        }
        proof {
            assert(r@ =~= self.intervals@);
        }
        r
    }

    /// The time elapsed from the last heartbeat to `now`, or `None` when no
    /// heartbeat was recorded or `now` is not past the last one.
    pub fn elapsed(&self, now: u64) -> (r: Option<u64>)
        ensures
            r == self@.elapsed(now),
    {
        match self.last_heartbeat {
            Some(prev) => if now > prev {
                Some(now - prev)
            } else {
                None
            },
            None => None,
        }
    }

    /// Records a heartbeat at `t`.
    pub fn heartbeat(&mut self, t: u64)
        requires
            old(self).wf(),
        ensures
            final(self).wf(),
            final(self)@ == old(self)@.after_heartbeat(t),
    {
        match self.last_heartbeat {
            None => {
                self.last_heartbeat = Some(t);
            },
            Some(prev) => {
                if t < prev {
                    return;
                }
                self.intervals.push_back(t - prev);
                self.last_heartbeat = Some(t);
                if self.intervals.len() > self.history_size {
                    let _ = self.intervals.pop_front();
                }
            },
        }
    }
}

impl Default for IntervalWindow {
    /// An empty window that keeps the default number of intervals.
    fn default() -> (r: IntervalWindow)
        ensures
            r.wf(),
            r@ == WindowModel::empty(DEFAULT_HISTORY_SIZE as nat),
    {
        IntervalWindow {
            history_size: DEFAULT_HISTORY_SIZE,
            intervals: VecDeque::new(),
            last_heartbeat: None,
        }
    }
}

/// A heartbeat earlier than the last one leaves the window as it was.
pub proof fn lemma_stale_heartbeat_ignored(m: WindowModel, t: u64)
    requires
        m.last_heartbeat is Some,
        t < m.last_heartbeat->Some_0,
    ensures
        m.after_heartbeat(t) == m,
{
}

/// From a valid window, any sequence of heartbeats leaves a valid window: the
/// bound is positive and never exceeded.
pub proof fn lemma_heartbeats_keep_bound(m: WindowModel, ts: Seq<u64>)
    requires
        m.valid(),
    ensures
        m.after_heartbeats(ts).valid(),
        m.after_heartbeats(ts).history_size == m.history_size,
    decreases ts.len(),
{
    if ts.len() > 0 {
        lemma_heartbeats_keep_bound(m, ts.drop_last());
    }
}

/// With no heartbeat recorded, or at or before the last one, no time has
/// elapsed, so the suspicion score is zero there.
pub proof fn lemma_no_elapsed_time(m: WindowModel, now: u64)
    requires
        m.last_heartbeat is None || now <= m.last_heartbeat->Some_0,
    ensures
        m.elapsed(now) is None,
{
}

/// Right after an accepted heartbeat at `t`, no time has elapsed at `t`.
pub proof fn lemma_no_elapsed_time_after_heartbeat(m: WindowModel, t: u64)
    requires
        m.last_heartbeat is None || m.last_heartbeat->Some_0 <= t,
    ensures
        m.after_heartbeat(t).last_heartbeat == Some(t),
        m.after_heartbeat(t).elapsed(t) is None,
{
}

/// Each timestamp of `ts` comes `gap` after the one before it.
pub open spec fn evenly_spaced(ts: Seq<u64>, gap: u64) -> bool {
    forall|i: int| 0 < i < ts.len() ==> #[trigger] ts[i] == ts[i - 1] + gap
}

/// Evenly spaced heartbeats fed to a fresh window leave only that gap in it:
/// as many copies as there were gaps, up to the bound, with the last
/// heartbeat recorded.
pub proof fn lemma_even_heartbeats_give_constant_intervals(
    history_size: nat,
    ts: Seq<u64>,
    gap: u64,
)
    requires
        history_size > 0,
        ts.len() > 0,
        evenly_spaced(ts, gap),
    ensures
        ({
            let w = WindowModel::empty(history_size).after_heartbeats(ts);
            &&& w.last_heartbeat == Some(ts.last())
            &&& w.intervals.len() == if ts.len() - 1 <= history_size {
                ts.len() - 1
            } else {
                history_size as int
            }
            &&& forall|j: int| 0 <= j < w.intervals.len() ==> #[trigger] w.intervals[j] == gap
        }),
    decreases ts.len(),
{
    let prefix = ts.drop_last();
    if prefix.len() > 0 {
        assert forall|i: int| 0 < i < prefix.len() implies #[trigger] prefix[i] == prefix[i - 1]
            + gap by {
            assert(ts[i] == ts[i - 1] + gap);
        }
        lemma_even_heartbeats_give_constant_intervals(history_size, prefix, gap);
        assert(ts[ts.len() - 1] == ts[ts.len() - 2] + gap);
        let before = WindowModel::empty(history_size).after_heartbeats(prefix);
        lemma_heartbeats_keep_bound(WindowModel::empty(history_size), prefix);
        let pushed = before.intervals.push(gap);
        assert(forall|j: int| 0 <= j < pushed.len() ==> #[trigger] pushed[j] == gap);
        assert(forall|j: int|
            0 <= j < pushed.len() - 1 ==> #[trigger] pushed.drop_first()[j] == pushed[j + 1]);
    } else {
        assert(WindowModel::empty(history_size).after_heartbeats(prefix) == WindowModel::empty(
            history_size,
        ));
    }
}

/// The elapsed time never decreases as `now` advances.
pub proof fn lemma_elapsed_monotone(m: WindowModel, a: u64, b: u64)
    requires
        a <= b,
        m.elapsed(a) is Some,
    ensures
        m.elapsed(b) is Some,
        m.elapsed(a)->Some_0 <= m.elapsed(b)->Some_0,
{
}

} // verus!
