//! The export job pipeline's protocol.
//!
//! A single background worker renders queued jobs one at a time, off the
//! interactive path, and reports each job's wall-clock time on a result
//! queue the controller polls without blocking. The real channels, the
//! thread, the rendering and the file write live with the embedding
//! program; this module is the protocol the two sides follow: every
//! transition of the pipeline's state, each with its contract. The
//! embedding loop performs one outside action per worker transition and
//! hands its outcome back.

use crate::options::RenderOptions;
use vstd::assert_seqs_equal;
use vstd::prelude::*;

verus! {

/// One export request, consumed exactly once by the worker: destination
/// path, a configuration snapshot, and the colour multipliers.
pub struct RenderJob {
    /// Where the finished render is to be written.
    pub path: String,
    /// The configuration the job renders with.
    pub options: RenderOptions,
    /// The colour multipliers the job renders with.
    pub color: (u8, u8, u8),
}

/// The pipeline's state, shared in spirit between the controller and the
/// worker: the pending-job queue, the unpolled results, and the lifecycle
/// flags, together with the ghost history that fixes every ordering.
pub struct ExportPipeline {
    /// Jobs submitted and not yet taken by the worker, oldest first.
    pub queue: Vec<RenderJob>,
    /// The terminal stop signal has been submitted.
    pub stopping: bool,
    /// The worker has left its loop.
    pub stopped: bool,
    /// The worker holds a taken job it has not reported yet.
    pub in_flight: bool,
    /// Results reported and not yet polled: elapsed microseconds per
    /// completed job, oldest first.
    pub results: Vec<u64>,
    /// Every job ever submitted, in submission order.
    pub history: Ghost<Seq<RenderJob>>,
    /// How many submitted jobs the worker has taken so far.
    pub taken: Ghost<int>,
    /// Every elapsed time ever reported, in report order.
    pub result_history: Ghost<Seq<u64>>,
    /// How many reported results the controller has polled so far.
    pub polled: Ghost<int>,
}

impl ExportPipeline {
    /// The pipeline's invariant. The pending queue is exactly the tail of
    /// the submission history past the jobs already taken; the unpolled
    /// results are exactly the tail of the report history past the
    /// results already polled; a stopped worker holds nothing and left an
    /// empty queue; and every taken job except a still-running one has
    /// reported exactly one result.
    pub open spec fn wf(self) -> bool {
        &&& 0 <= self.taken@ <= self.history@.len()
        &&& self.queue@ == self.history@.skip(self.taken@)
        &&& 0 <= self.polled@ <= self.result_history@.len()
        &&& self.results@ == self.result_history@.skip(self.polled@)
        &&& self.result_history@.len() + (if self.in_flight {
            1int
        } else {
            0int
        }) == self.taken@
        &&& (self.stopped ==> self.stopping && self.queue@.len() == 0 && !self.in_flight)
    }

    /// A fresh pipeline: nothing submitted, nothing reported, running.
    pub fn new() -> (p: ExportPipeline)
        ensures
            p.wf(),
            p.history@.len() == 0,
            p.result_history@.len() == 0,
            p.taken@ == 0,
            p.polled@ == 0,
            !p.stopping && !p.stopped && !p.in_flight,
    {
        let p = ExportPipeline {
            queue: Vec::new(),
            stopping: false,
            stopped: false,
            in_flight: false,
            results: Vec::new(),
            history: Ghost(Seq::empty()),
            taken: Ghost(0),
            result_history: Ghost(Seq::empty()),
            polled: Ghost(0),
        };
        proof {
            assert_seqs_equal!(p.queue@ == p.history@.skip(0));
            assert_seqs_equal!(p.results@ == p.result_history@.skip(0));
        }
        p
    }

    /// Controller side: submit one job. Jobs are never dropped and never
    /// reordered: the job joins the end of the queue, after everything
    /// submitted before it, whether or not the worker is mid-render. Only
    /// a pipeline not yet shutting down accepts jobs.
    pub fn submit(&mut self, job: RenderJob)
        requires
            old(self).wf(),
            !old(self).stopping,
        ensures
            final(self).wf(),
            final(self).history@ == old(self).history@.push(job),
            final(self).queue@ == old(self).queue@.push(job),
            final(self).results@ == old(self).results@,
            final(self).result_history@ == old(self).result_history@,
            final(self).taken@ == old(self).taken@,
            final(self).polled@ == old(self).polled@,
            final(self).stopping == old(self).stopping,
            final(self).stopped == old(self).stopped,
            final(self).in_flight == old(self).in_flight,
    {
        self.queue.push(job);
        proof {
            self.history@ = self.history@.push(job);
            assert_seqs_equal!(self.queue@ == self.history@.skip(self.taken@));
        }
    }

    /// Controller side: submit the terminal stop signal. The worker will
    /// exit after draining what is already queued; nothing new may be
    /// submitted afterwards.
    pub fn shutdown(&mut self)
        requires
            old(self).wf(),
        ensures
            final(self).wf(),
            *final(self) == (ExportPipeline { stopping: true, ..*old(self) }),
    {
        self.stopping = true;
    }

    /// Worker side: receive the next unit of work. The job handed out is
    /// exactly the oldest pending submission — the `taken`-th job ever
    /// submitted — so jobs execute in submission order, one at a time.
    /// With the queue drained and the stop signal in, the worker stops
    /// instead; with the queue drained and no stop signal, there is
    /// nothing to do and the embedding loop blocks outside.
    pub fn worker_take(&mut self) -> (job: Option<RenderJob>)
        requires
            old(self).wf(),
            !old(self).stopped,
            !old(self).in_flight,
        ensures
            final(self).wf(),
            final(self).history@ == old(self).history@,
            final(self).result_history@ == old(self).result_history@,
            final(self).polled@ == old(self).polled@,
            final(self).results@ == old(self).results@,
            final(self).stopping == old(self).stopping,
            old(self).queue@.len() > 0 ==> {
                &&& job == Some(old(self).history@[old(self).taken@])
                &&& final(self).taken@ == old(self).taken@ + 1
                &&& final(self).queue@ == old(self).queue@.drop_first()
                &&& final(self).in_flight
                &&& !final(self).stopped
            },
            old(self).queue@.len() == 0 ==> {
                &&& job is None
                &&& final(self).taken@ == old(self).taken@
                &&& final(self).queue@ == old(self).queue@
                &&& !final(self).in_flight
                &&& final(self).stopped == old(self).stopping
            },
    {
        if self.queue.len() > 0 {
            let job = self.queue.remove(0);
            self.in_flight = true;
            proof {
                self.taken@ = self.taken@ + 1;
                assert_seqs_equal!(self.queue@ == self.history@.skip(self.taken@));
                assert(old(self).queue@[0] == old(self).history@[old(self).taken@]);
            }
            Some(job)
        } else {
            if self.stopping {
                self.stopped = true;
            }
            None
        }
    }

    /// Worker side: report the elapsed time of the job taken last. One
    /// result is owed per taken job, in the order the jobs were taken,
    /// which is submission order.
    pub fn worker_report(&mut self, elapsed: u64)
        requires
            old(self).wf(),
            old(self).in_flight,
        ensures
            final(self).wf(),
            final(self).result_history@ == old(self).result_history@.push(elapsed),
            final(self).results@ == old(self).results@.push(elapsed),
            final(self).history@ == old(self).history@,
            final(self).queue@ == old(self).queue@,
            final(self).taken@ == old(self).taken@,
            final(self).polled@ == old(self).polled@,
            !final(self).in_flight,
            final(self).stopping == old(self).stopping,
            final(self).stopped == old(self).stopped,
    {
        self.results.push(elapsed);
        self.in_flight = false;
        proof {
            self.result_history@ = self.result_history@.push(elapsed);
            assert_seqs_equal!(self.results@ == self.result_history@.skip(self.polled@));
        }
    }

    /// Controller side: poll for one finished job without blocking. The
    /// result handed out is exactly the oldest unpolled report — the
    /// `polled`-th result ever reported — so results arrive in the order
    /// the jobs were submitted, never interleaved or reordered.
    pub fn poll_result(&mut self) -> (r: Option<u64>)
        requires
            old(self).wf(),
        ensures
            final(self).wf(),
            final(self).history@ == old(self).history@,
            final(self).result_history@ == old(self).result_history@,
            final(self).queue@ == old(self).queue@,
            final(self).taken@ == old(self).taken@,
            final(self).stopping == old(self).stopping,
            final(self).stopped == old(self).stopped,
            final(self).in_flight == old(self).in_flight,
            old(self).results@.len() > 0 ==> {
                &&& r == Some(old(self).result_history@[old(self).polled@])
                &&& final(self).polled@ == old(self).polled@ + 1
                &&& final(self).results@ == old(self).results@.drop_first()
            },
            old(self).results@.len() == 0 ==> r is None && *final(self) == *old(self),
    {
        if self.results.len() > 0 {
            let r = self.results.remove(0);
            proof {
                self.polled@ = self.polled@ + 1;
                assert_seqs_equal!(self.results@ == self.result_history@.skip(self.polled@));
                assert(old(self).results@[0] == old(self).result_history@[old(self).polled@]);
            }
            Some(r)
        } else {
            None
        }
    }
}

/// First-in, first-out, end to end: in any reachable pipeline state the
/// pending jobs are exactly the submissions not yet taken, in submission
/// order, and the unpolled results are exactly the reports not yet
/// polled, in report order — so two jobs submitted in succession are
/// executed, reported and polled in that same order.
pub proof fn lemma_pipeline_fifo(p: ExportPipeline)
    requires
        p.wf(),
    ensures
        p.queue@ == p.history@.skip(p.taken@),
        p.results@ == p.result_history@.skip(p.polled@),
        forall|i: int|
            0 <= i < p.queue@.len() ==> #[trigger] p.queue@[i] == p.history@[p.taken@ + i],
{
}

/// Shutdown is final: once the worker has stopped, a well-formed pipeline
/// has an empty queue and nothing in flight, so no worker transition is
/// enabled and no result can ever be added — every result present was
/// reported before the stop.
pub proof fn lemma_stopped_is_final(p: ExportPipeline)
    requires
        p.wf(),
        p.stopped,
    ensures
        p.queue@.len() == 0,
        !p.in_flight,
        p.stopping,
        p.result_history@.len() == p.taken@,
{
}

} // verus!
