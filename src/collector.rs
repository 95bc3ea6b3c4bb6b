use vstd::prelude::*;
use crate::worker::ChapterResult;

verus! {

/// Where collection stands.
#[derive(PartialEq, Eq, Structural, Clone, Copy, Debug)]
pub enum CollectStatus {
    /// Fewer results than expected have arrived and waiting goes on.
    Waiting,
    /// Exactly the expected number of results arrived.
    Complete,
    /// Timed-out receive attempts added up to more than the stall ceiling.
    Stalled,
    /// Every producer hung up before all results arrived.
    Closed,
}

/// What one receive attempt on the result channel came back with.
pub enum Event {
    Received(ChapterResult),
    TimedOut,
    ChannelClosed,
}

/// The fixed parameters of a collection: results expected, the wait of one
/// receive attempt and the stall ceiling.
pub type CollectParams = (nat, nat, nat);

/// The state of a collection: the results in arrival order, the total time
/// spent in timed-out receive attempts, and the status.
pub type CollectView = (Seq<ChapterResult>, nat, CollectStatus);

pub open spec fn saturating(n: nat) -> nat {
    if n > u64::MAX {
        u64::MAX as nat
    } else {
        n
    }
}

/// One step of the stall policy. Once collection has stopped, events are
/// ignored, so stragglers change nothing.
pub open spec fn after(p: CollectParams, v: CollectView, e: Event) -> CollectView {
    if v.2 != CollectStatus::Waiting {
        v
    } else {
        match e {
            Event::Received(r) => {
                let rs = v.0.push(r);
                (rs, v.1, if rs.len() >= p.0 { CollectStatus::Complete } else { CollectStatus::Waiting })
            },
            Event::TimedOut => {
                let waited = v.1 + p.1;
                (
                    v.0,
                    saturating(waited),
                    if waited > p.2 { CollectStatus::Stalled } else { CollectStatus::Waiting },
                )
            },
            Event::ChannelClosed => (v.0, v.1, CollectStatus::Closed),
        }
    }
}

/// The state after feeding `events` in order.
pub open spec fn run(p: CollectParams, v: CollectView, events: Seq<Event>) -> CollectView
    decreases events.len(),
{
    if events.len() == 0 {
        v
    } else {
        run(p, after(p, v, events[0]), events.skip(1))
    }
}

/// How many of `events` arrive while collection is still waiting.
pub open spec fn consumed(p: CollectParams, v: CollectView, events: Seq<Event>) -> nat
    decreases events.len(),
{
    if events.len() == 0 || v.2 != CollectStatus::Waiting {
        0
    } else {
        1 + consumed(p, after(p, v, events[0]), events.skip(1))
    }
}

/// The results carried by `events`, in order.
pub open spec fn received(events: Seq<Event>) -> Seq<ChapterResult>
    decreases events.len(),
{
    if events.len() == 0 {
        Seq::empty()
    } else {
        let head = match events[0] {
            Event::Received(r) => seq![r],
            _ => Seq::empty(),
        };
        head + received(events.skip(1))
    }
}

/// The state invariant: waiting means results are still missing and the
/// stall ceiling is not passed; complete means all of them arrived; the time
/// stalled never passes the ceiling by more than one attempt.
pub open spec fn view_wf(p: CollectParams, v: CollectView) -> bool {
    &&& v.0.len() <= p.0
    &&& (v.2 == CollectStatus::Complete <==> v.0.len() == p.0)
    &&& v.2 == CollectStatus::Waiting ==> v.1 <= p.2
    &&& v.1 <= p.2 + p.1
    &&& p.2 <= u64::MAX
}

/// How many of `events` are timed-out receive attempts.
pub open spec fn timeouts(events: Seq<Event>) -> nat
    decreases events.len(),
{
    if events.len() == 0 {
        0
    } else {
        (if events[0] is TimedOut {
            1nat
        } else {
            0nat
        }) + timeouts(events.skip(1))
    }
}

/// Drains results as they arrive, in any order, and decides when to stop
/// waiting.
pub struct Collector {
    expected: usize,
    attempt_timeout: u64,
    stall_ceiling: u64,
    stall: u64,
    results: Vec<ChapterResult>,
    status: CollectStatus,
}

impl Collector {
    pub closed spec fn params(&self) -> CollectParams {
        (self.expected as nat, self.attempt_timeout as nat, self.stall_ceiling as nat)
    }

    pub closed spec fn view(&self) -> CollectView {
        (self.results@, self.stall as nat, self.status)
    }

    pub open spec fn wf(&self) -> bool {
        view_wf(self.params(), self.view())
    }

    pub fn new(expected: usize, attempt_timeout: u64, stall_ceiling: u64) -> (r: Collector)
        ensures
            r.wf(),
            r.params() == (expected as nat, attempt_timeout as nat, stall_ceiling as nat),
            r.view() == (Seq::<ChapterResult>::empty(), 0nat, if expected == 0 {
                CollectStatus::Complete
            } else {
                CollectStatus::Waiting
            }),
    {
        Collector {
            expected,
            attempt_timeout,
            stall_ceiling,
            stall: 0,
            results: Vec::new(),
            status: if expected == 0 {
                CollectStatus::Complete
            } else {
                CollectStatus::Waiting
            },
        }
    }

    /// Applies the outcome of one receive attempt.
    pub fn on_event(&mut self, e: Event)
        requires
            old(self).wf(),
        ensures
            final(self).wf(),
            final(self).params() == old(self).params(),
            final(self).view() == after(old(self).params(), old(self).view(), e),
    {
        if self.status != CollectStatus::Waiting {
            return;
        }
        match e {
            Event::Received(r) => {
                self.results.push(r);
                if self.results.len() >= self.expected {
                    self.status = CollectStatus::Complete;
                }
            },
            Event::TimedOut => {
                if self.attempt_timeout > self.stall_ceiling - self.stall {
                    self.status = CollectStatus::Stalled;
                }
                self.stall = self.stall.saturating_add(self.attempt_timeout);
            },
            Event::ChannelClosed => {
                self.status = CollectStatus::Closed;
            },
        }
    }

    pub fn status(&self) -> (r: CollectStatus)
        ensures
            r == self.view().2,
    {
        self.status
    }

    /// Whether collection has stopped waiting.
    pub fn is_done(&self) -> (r: bool)
        ensures
            r == (self.view().2 != CollectStatus::Waiting),
    {
        self.status != CollectStatus::Waiting
    }

    /// Whether exactly the expected number of results arrived.
    pub fn is_complete(&self) -> (r: bool)
        ensures
            r == (self.view().2 == CollectStatus::Complete),
    {
        self.status == CollectStatus::Complete
    }

    /// Total time spent in timed-out receive attempts.
    pub fn stall_time(&self) -> (r: u64)
        ensures
            r == self.view().1,
    {
        self.stall
    }

    /// Results still missing.
    pub fn pending(&self) -> (r: usize)
        requires
            self.wf(),
        ensures
            r == self.params().0 - self.view().0.len(),
    {
        self.expected - self.results.len()
    }

    pub fn results(&self) -> (r: &Vec<ChapterResult>)
        ensures
            r@ == self.view().0,
    {
        &self.results
    }

    pub fn into_results(self) -> (r: Vec<ChapterResult>)
        ensures
            r@ == self.view().0,
    {
        self.results
    }
}

/// Each step keeps the state invariant.
pub proof fn lemma_after_wf(p: CollectParams, v: CollectView, e: Event)
    requires
        view_wf(p, v),
    ensures
        view_wf(p, after(p, v, e)),
{
}

/// A stopped collection stays as it is, whatever arrives afterwards.
pub proof fn lemma_stopped_is_final(p: CollectParams, v: CollectView, events: Seq<Event>)
    requires
        v.2 != CollectStatus::Waiting,
    ensures
        run(p, v, events) == v,
    decreases events.len(),
{
    if events.len() > 0 {
        lemma_stopped_is_final(p, v, events.skip(1));
    }
}

/// Whatever the order and timing of arrivals, the results a collection holds
/// are exactly those received while it was waiting, each once and in arrival
/// order; and one that gave up on a stall holds fewer than expected and is not
/// complete.
pub proof fn lemma_collects_exactly_received(p: CollectParams, v: CollectView, events: Seq<Event>)
    requires
        view_wf(p, v),
    ensures
        consumed(p, v, events) <= events.len(),
        run(p, v, events).0 == v.0 + received(events.take(consumed(p, v, events) as int)),
        view_wf(p, run(p, v, events)),
        run(p, v, events).2 == CollectStatus::Stalled ==> run(p, v, events).0.len() < p.0,
    decreases events.len(),
{
    if events.len() == 0 || v.2 != CollectStatus::Waiting {
        if events.len() > 0 {
            lemma_stopped_is_final(p, v, events);
        }
        assert(events.take(0) =~= Seq::<Event>::empty());
        assert(v.0 + Seq::<ChapterResult>::empty() =~= v.0);
    } else {
        let w = after(p, v, events[0]);
        let rest = events.skip(1);
        lemma_after_wf(p, v, events[0]);
        lemma_collects_exactly_received(p, w, rest);
        let c = consumed(p, w, rest);
        assert(consumed(p, v, events) == 1 + c);
        assert(run(p, v, events) == run(p, w, rest));
        let taken = events.take(c as int + 1);
        assert(taken[0] == events[0]);
        assert(taken.skip(1) =~= rest.take(c as int));
        let head = match events[0] {
            Event::Received(r) => seq![r],
            _ => Seq::<ChapterResult>::empty(),
        };
        assert(w.0 =~= v.0 + head);
        assert(received(taken) == head + received(rest.take(c as int)));
        assert(v.0 + head + received(rest.take(c as int)) =~= v.0 + (head + received(
            rest.take(c as int),
        )));
    }
}

/// Giving up on a stall keeps exactly the results received so far and does
/// not report completion.
pub proof fn lemma_stall_keeps_received(p: CollectParams, v: CollectView)
    requires
        view_wf(p, v),
        v.2 == CollectStatus::Waiting,
        v.1 + p.1 > p.2,
    ensures
        after(p, v, Event::TimedOut).2 == CollectStatus::Stalled,
        after(p, v, Event::TimedOut).0 == v.0,
        after(p, v, Event::TimedOut).0.len() < p.0,
{
}

/// Collection never blocks for ever: whatever arrives and whenever, the time
/// spent in timed-out receive attempts while waiting is at most the stall
/// ceiling plus one attempt.
pub proof fn lemma_stall_time_bounded(p: CollectParams, v: CollectView, events: Seq<Event>)
    requires
        view_wf(p, v),
    ensures
        v.1 + p.1 * timeouts(events.take(consumed(p, v, events) as int)) <= p.2 + p.1,
    decreases events.len(),
{
    if events.len() == 0 || v.2 != CollectStatus::Waiting {
        assert(events.take(0) =~= Seq::<Event>::empty());
        assert(p.1 * 0 == 0) by (nonlinear_arith);
    } else {
        let w = after(p, v, events[0]);
        let rest = events.skip(1);
        lemma_after_wf(p, v, events[0]);
        lemma_stall_time_bounded(p, w, rest);
        lemma_collects_exactly_received(p, w, rest);
        let c = consumed(p, w, rest);
        assert(consumed(p, v, events) == 1 + c);
        let taken = events.take(c as int + 1);
        assert(taken[0] == events[0]);
        assert(taken.skip(1) =~= rest.take(c as int));
        let t = timeouts(rest.take(c as int));
        assert(timeouts(taken) == (if events[0] is TimedOut { 1nat } else { 0nat }) + t);
        if w.2 != CollectStatus::Waiting {
            assert(rest.take(0) =~= Seq::<Event>::empty());
            assert(c == 0);
            assert(t == 0);
        }
        if events[0] is TimedOut {
            assert(p.1 * (1 + t) == p.1 + p.1 * t) by (nonlinear_arith);
            if w.2 == CollectStatus::Waiting {
                assert(w.1 == v.1 + p.1);
            }
        }
    }
}

} // verus!
