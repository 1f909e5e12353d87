//! The bookkeeping of the crawler's retry loops: a pass over all jobs is
//! repeated until every job has succeeded, at most a fixed number of extra
//! times.

use vstd::prelude::*;

verus! {

/// The state of a retry loop over `total` jobs.
#[derive(Debug)]
pub struct RetryLoop {
    /// The number of jobs.
    pub total: usize,
    /// The jobs that succeeded (in this pass, or since the start, as the
    /// caller chooses).
    pub count: usize,
    /// The passes repeated so far.
    pub retries: u32,
    /// The most passes that may be repeated.
    pub max_retries: u32,
}

impl RetryLoop {
    /// The loop's own invariant: it never repeats more passes than allowed.
    pub open spec fn wf(&self) -> bool {
        self.retries <= self.max_retries
    }

    /// The passes that may still run, this one included.
    pub open spec fn passes_left(&self) -> nat {
        (self.max_retries - self.retries + 1) as nat
    }

    /// A loop over `total` jobs that may repeat its pass `max_retries`
    /// times.
    pub fn new(total: usize, max_retries: u32) -> (r: RetryLoop)
        ensures
            r.wf(),
            r.total == total,
            r.count == 0,
            r.retries == 0,
            r.max_retries == max_retries,
            r.passes_left() == max_retries + 1,
    {
        RetryLoop { total, count: 0, retries: 0, max_retries }
    }

    /// Whether some job has not succeeded yet.
    pub fn unfinished(&self) -> (b: bool)
        ensures
            b == (self.count != self.total),
    {
        self.count != self.total
    }

    /// Starts counting the successes of a new pass.
    pub fn reset_count(&mut self)
        ensures
            *final(self) == (RetryLoop { count: 0, ..*old(self) }),
    {
        self.count = 0;
    }

    /// Records one successful job.
    pub fn job_done(&mut self)
        requires
            old(self).count < usize::MAX,
        ensures
            *final(self) == (RetryLoop { count: (old(self).count + 1) as usize, ..*old(self) }),
    {
        self.count = self.count + 1;
    }

    /// Ends a pass: `true` to stop, when every allowed repetition is used;
    /// else one repetition more is counted.
    pub fn end_pass(&mut self) -> (stop: bool)
        requires
            old(self).wf(),
        ensures
            final(self).wf(),
            stop == (old(self).retries == old(self).max_retries),
            stop ==> *final(self) == *old(self),
            !stop ==> *final(self) == (RetryLoop {
                retries: (old(self).retries + 1) as u32,
                ..*old(self)
            }),
            !stop ==> final(self).passes_left() + 1 == old(self).passes_left(),
    {
        if self.retries == self.max_retries {
            true
        } else {
            self.retries = self.retries + 1;
            false
        }
    }
}

} // verus!
