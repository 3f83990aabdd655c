use vstd::prelude::*;

verus! {

/// Arbiter of whether one more request may be dispatched. Times are
/// nanoseconds since the start of the run.
pub struct BudgetGate {
    /// Largest number of requests the run may dispatch, if capped.
    pub max_requests: Option<u64>,
    /// Last instant at which a dispatch may still begin, if any.
    pub deadline: Option<u64>,
    /// Requests admitted so far under a cap.
    pub sent: u64,
}

impl BudgetGate {
    /// The counter never passes the cap.
    pub open spec fn wf(self) -> bool {
        match self.max_requests {
            Some(cap) => self.sent <= cap,
            None => true,
        }
    }

    /// Whether a request made at `now` is admitted.
    pub open spec fn admits(self, now: u64) -> bool {
        &&& match self.deadline {
            Some(d) => now <= d,
            None => true,
        }
        &&& match self.max_requests {
            Some(cap) => self.sent < cap,
            None => true,
        }
    }

    /// State of this gate after a request made at `now`.
    pub open spec fn after(self, now: u64) -> BudgetGate {
        if self.admits(now) && self.max_requests.is_some() {
            BudgetGate { sent: (self.sent + 1) as u64, ..self }
        } else {
            self
        }
    }

    /// A fresh gate: nothing admitted yet.
    pub fn new(max_requests: Option<u64>, deadline: Option<u64>) -> (r: BudgetGate)
        ensures
            r.wf(),
            r.max_requests == max_requests,
            r.deadline == deadline,
            r.sent == 0,
    {
        BudgetGate { max_requests, deadline, sent: 0 }
    }

    /// Admits one request made at `now` and counts it, or refuses it
    /// with no effect: refused once `now` is past the deadline or the cap is
    /// reached; always admitted when neither is set.
    pub fn try_admit(&mut self, now: u64) -> (r: bool)
        requires
            old(self).wf(),
        ensures
            r == old(self).admits(now),
            *final(self) == old(self).after(now),
            final(self).wf(),
    {
        if let Some(d) = self.deadline {
            if now > d {
                return false;
            }
        }
        if let Some(cap) = self.max_requests {
            if self.sent >= cap {
                return false;
            }
            self.sent = self.sent + 1;
        }
        true
    }

    /// Number of requests admitted when they are made at `times`, in order.
    pub open spec fn admitted(self, times: Seq<u64>) -> nat
        decreases times.len(),
    {
        if times.len() == 0 {
            0
        } else {
            (if self.admits(times[0]) { 1nat } else { 0nat }) + self.after(times[0]).admitted(
                times.drop_first(),
            )
        }
    }
}

/// However the requests are interleaved and timed, a capped gate admits no
/// more than the cap allows.
pub proof fn lemma_cap_never_exceeded(g: BudgetGate, cap: u64, times: Seq<u64>)
    requires
        g.wf(),
        g.max_requests == Some(cap),
    ensures
        g.sent + g.admitted(times) <= cap,
    decreases times.len(),
{
    if times.len() > 0 {
        lemma_cap_never_exceeded(g.after(times[0]), cap, times.drop_first());
    }
}

/// With a cap and no deadline, a gate queried `times.len()` times admits exactly
/// as many requests as remain under the cap, or every request if fewer.
pub proof fn lemma_cap_admits_exactly(g: BudgetGate, cap: u64, times: Seq<u64>)
    requires
        g.wf(),
        g.max_requests == Some(cap),
        g.deadline.is_none(),
    ensures
        g.admitted(times) == if times.len() <= cap - g.sent {
            times.len() as int
        } else {
            cap - g.sent
        },
    decreases times.len(),
{
    if times.len() > 0 {
        lemma_cap_admits_exactly(g.after(times[0]), cap, times.drop_first());
    }
}

/// Once the deadline has passed, no request is admitted.
pub proof fn lemma_nothing_after_deadline(g: BudgetGate, d: u64, times: Seq<u64>)
    requires
        g.deadline == Some(d),
        forall|i: int| 0 <= i < times.len() ==> times[i] > d,
    ensures
        g.admitted(times) == 0,
    decreases times.len(),
{
    if times.len() > 0 {
        assert(g.after(times[0]) == g);
        lemma_nothing_after_deadline(g, d, times.drop_first());
    }
}

/// A gate with neither cap nor deadline admits every request.
pub proof fn lemma_unbounded_admits_all(g: BudgetGate, times: Seq<u64>)
    requires
        g.max_requests.is_none(),
        g.deadline.is_none(),
    ensures
        g.admitted(times) == times.len(),
    decreases times.len(),
{
    if times.len() > 0 {
        lemma_unbounded_admits_all(g, times.drop_first());
    }
}

} // verus!
