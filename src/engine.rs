use vstd::prelude::*;

use crate::budget::BudgetGate;
use crate::stats::{Sample, Summary};

verus! {

/// Accumulator of the samples of one run, in the order they arrived.
pub struct SampleSink {
    samples: Vec<Sample>,
}

impl View for SampleSink {
    type V = Seq<Sample>;

    closed spec fn view(&self) -> Seq<Sample> {
        self.samples@
    }
}

impl SampleSink {
    pub fn new() -> (r: SampleSink)
        ensures
            r@ == Seq::<Sample>::empty(),
    {
        SampleSink { samples: Vec::new() }
    }

    /// Stores one sample; nothing already stored is lost or moved.
    pub fn append(&mut self, sample: Sample)
        ensures
            final(self)@ == old(self)@.push(sample),
    {
        self.samples.push(sample);
    }

    pub fn len(&self) -> (r: usize)
        ensures
            r == self@.len(),
    {
        self.samples.len()
    }

    /// Reduces the stored samples and hands them out together with their
    /// summary.
    pub fn finish(self) -> (r: (Summary, Vec<Sample>))
        ensures
            r.1@ == self@,
            r.0.describes(self@),
    {
        let summary = Summary::from_samples(self.samples.as_slice());
        (summary, self.samples)
    }
}

/// The state that all workers of one run share: the budget gate, the sample
/// sink, and how many requests were admitted.
pub struct Run {
    pub gate: BudgetGate,
    pub sink: SampleSink,
    /// Requests admitted so far, capped or not.
    pub admitted: u64,
}

impl Run {
    /// Every stored sample belongs to an admitted request, and under a cap the
    /// gate counts exactly the admitted requests.
    pub open spec fn wf(self) -> bool {
        &&& self.gate.wf()
        &&& self.sink@.len() <= self.admitted
        &&& match self.gate.max_requests {
            Some(_) => self.admitted == self.gate.sent,
            None => true,
        }
    }

    /// A run that has admitted nothing and stored nothing.
    pub fn new(max_requests: Option<u64>, deadline: Option<u64>) -> (r: Run)
        ensures
            r.wf(),
            r.gate.max_requests == max_requests,
            r.gate.deadline == deadline,
            r.admitted == 0,
            r.sink@.len() == 0,
    {
        Run { gate: BudgetGate::new(max_requests, deadline), sink: SampleSink::new(), admitted: 0 }
    }

    /// Whether a worker may dispatch one more request at `now`, as the budget decides.
    pub fn request_dispatch(&mut self, now: u64) -> (r: bool)
        requires
            old(self).wf(),
            old(self).admitted < u64::MAX,
        ensures
            final(self).wf(),
            r == old(self).gate.admits(now),
            final(self).gate == old(self).gate.after(now),
            final(self).sink@ == old(self).sink@,
            final(self).admitted == if r {
                old(self).admitted + 1
            } else {
                old(self).admitted as int
            },
    {
        let r = self.gate.try_admit(now);
        if r {
            self.admitted = self.admitted + 1;
        }
        r
    }

    /// Whether a sample is still owed for some admitted request.
    pub fn awaiting_sample(&self) -> (r: bool)
        ensures
            r == (self.sink@.len() < self.admitted),
    {
        (self.sink.len() as u64) < self.admitted
    }

    /// Stores the sample of an admitted request.
    pub fn record(&mut self, sample: Sample)
        requires
            old(self).wf(),
            old(self).sink@.len() < old(self).admitted,
        ensures
            final(self).wf(),
            final(self).sink@ == old(self).sink@.push(sample),
            final(self).gate == old(self).gate,
            final(self).admitted == old(self).admitted,
    {
        self.sink.append(sample);
    }

    /// One turn of a worker's loop: stores the sample of the exchange the
    /// worker just completed, if any, then decides whether it dispatches
    /// another request at `now` (`true`) or stops (`false`).
    pub fn worker_step(&mut self, now: u64, completed: Option<Sample>) -> (r: bool)
        requires
            old(self).wf(),
            old(self).admitted < u64::MAX,
            completed is Some ==> old(self).sink@.len() < old(self).admitted,
        ensures
            final(self).wf(),
            r == old(self).gate.admits(now),
            final(self).gate == old(self).gate.after(now),
            final(self).sink@ == match completed {
                Some(s) => old(self).sink@.push(s),
                None => old(self).sink@,
            },
            final(self).admitted == if r {
                old(self).admitted + 1
            } else {
                old(self).admitted as int
            },
    {
        if let Some(s) = completed {
            self.record(s);
        }
        self.request_dispatch(now)
    }

    /// Ends the run: the summary of every stored sample, and the samples.
    /// Under a cap the run never holds more samples than the cap.
    pub fn finish(self) -> (r: (Summary, Vec<Sample>))
        requires
            self.wf(),
        ensures
            r.1@ == self.sink@,
            r.0.describes(r.1@),
            r.0.total <= self.admitted,
            self.sink@.len() == self.admitted ==> r.0.total == self.admitted,
            self.gate.max_requests matches Some(cap) ==> r.0.total <= cap,
    {
        self.sink.finish()
    }
}

} // verus!
