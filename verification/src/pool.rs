//! The job-control pool: executes many probes under a bounded concurrency
//! limit as an explicit admission/completion state machine. The driver that
//! performs the probes lives outside; the pool's contracts guarantee that
//! every submitted job yields exactly one outcome, paired with its
//! originating endpoint, and that one job's failure leaves its siblings
//! untouched.

use vstd::prelude::*;

verus! {

use vstd::multiset::Multiset;
use vstd::seq_lib::group_to_multiset_ensures;
use crate::net::{Endpoint, NetState, ProbeError};

broadcast use group_to_multiset_ensures;

/// The outcome signal of one job: a classification together with the
/// probe-specific payload, or the error that the job was settled with.
/// Exactly one of these is produced per submitted job.
#[derive(Debug)]
pub enum JobCtrl<R> {
    Return(NetState, R),
    Error(ProbeError),
}

/// One unit of work: a target endpoint bound to the probe value that will
/// be run for it. Never mutated after creation.
pub struct ScanJob<P> {
    pub target: Endpoint,
    pub probe: P,
}

/// The endpoints of a sequence of jobs, in submission order.
pub open spec fn job_endpoints<P>(jobs: Seq<ScanJob<P>>) -> Seq<Endpoint> {
    jobs.map_values(|j: ScanJob<P>| j.target)
}

/// The endpoints paired with a sequence of outcomes, in completion order.
pub open spec fn outcome_endpoints<R>(done: Seq<(JobCtrl<R>, Endpoint)>) -> Seq<Endpoint> {
    done.map_values(|e: (JobCtrl<R>, Endpoint)| e.1)
}

/// The pool's state, reduced to what its laws speak about: which endpoints
/// still queue, which are in flight, and which outcomes exist.
pub struct PoolModel<R> {
    pub pending: Seq<Endpoint>,
    pub inflight: Seq<Endpoint>,
    pub completed: Seq<(JobCtrl<R>, Endpoint)>,
}

/// The completion transition: slot `slot` leaves the in-flight set and its
/// endpoint is paired with the outcome it was settled with. Everything a
/// sibling job owns is untouched, whatever the outcome.
pub open spec fn step_complete<R>(m: PoolModel<R>, slot: int, outcome: JobCtrl<R>) -> PoolModel<
    R,
>
    recommends
        0 <= slot < m.inflight.len(),
{
    PoolModel {
        pending: m.pending,
        inflight: m.inflight.remove(slot),
        completed: m.completed.push((outcome, m.inflight[slot])),
    }
}

/// One scan run's dispatcher. Jobs queue in submission order, at most
/// `limit` are in flight at once, and completed outcomes accumulate in
/// completion order until the consumer takes them.
pub struct JobPool<P, R> {
    pub limit: usize,
    pub pending: Vec<ScanJob<P>>,
    pub inflight: Vec<Endpoint>,
    pub completed: Vec<(JobCtrl<R>, Endpoint)>,
    pub submitted: Ghost<Seq<Endpoint>>,
    pub yielded: Ghost<Seq<Endpoint>>,
}

impl<P, R> JobPool<P, R> {
    /// The pool's law-level state.
    pub open spec fn model(self) -> PoolModel<R> {
        PoolModel {
            pending: job_endpoints(self.pending@),
            inflight: self.inflight@,
            completed: self.completed@,
        }
    }

    /// The conserved accounting: every submitted endpoint is in exactly one
    /// place — queued, in flight, or paired with an outcome — and the
    /// concurrency bound holds.
    pub open spec fn wf(self) -> bool {
        &&& self.limit >= 1
        &&& self.inflight@.len() <= self.limit
        &&& job_endpoints(self.pending@).to_multiset().add(self.inflight@.to_multiset()).add(
            outcome_endpoints(self.completed@).to_multiset(),
        ).add(self.yielded@.to_multiset()) == self.submitted@.to_multiset()
    }

    /// Submits a batch of jobs under a concurrency bound. No job runs yet;
    /// the driver dispatches and completes them one step at a time.
    pub fn submit(jobs: Vec<ScanJob<P>>, limit: usize) -> (pool: Self)
        requires
            limit >= 1,
        ensures
            pool.wf(),
            pool.limit == limit,
            pool.pending@ == jobs@,
            pool.inflight@ == Seq::<Endpoint>::empty(),
            pool.completed@ == Seq::<(JobCtrl<R>, Endpoint)>::empty(),
            pool.submitted@ == job_endpoints(jobs@),
            pool.yielded@ == Seq::<Endpoint>::empty(),
    {
        let pool = JobPool {
            limit,
            pending: jobs,
            inflight: Vec::new(),
            completed: Vec::new(),
            submitted: Ghost(job_endpoints(jobs@)),
            yielded: Ghost(Seq::empty()),
        };
        proof {
            assert(pool.inflight@.to_multiset() =~= Multiset::<Endpoint>::empty());
            assert(outcome_endpoints(pool.completed@) =~= Seq::<Endpoint>::empty());
            assert(outcome_endpoints(pool.completed@).to_multiset() =~= Multiset::<
                Endpoint,
            >::empty());
            assert(pool.yielded@.to_multiset() =~= Multiset::<Endpoint>::empty());
            assert(job_endpoints(pool.pending@).to_multiset().add(
                pool.inflight@.to_multiset(),
            ).add(outcome_endpoints(pool.completed@).to_multiset()).add(
                pool.yielded@.to_multiset(),
            ) =~= pool.submitted@.to_multiset());
        }
        pool
    }

    /// Dispatches the next queued job if a slot is free: hands it out for
    /// the driver to run and records its endpoint as in flight. Jobs beyond the
    /// bound stay queued; none is dropped.
    pub fn dispatch_next(&mut self) -> (next: Option<ScanJob<P>>)
        requires
            old(self).wf(),
        ensures
            final(self).wf(),
            final(self).limit == old(self).limit,
            final(self).submitted == old(self).submitted,
            final(self).yielded == old(self).yielded,
            final(self).completed@ == old(self).completed@,
            match next {
                Some(job) => {
                    &&& old(self).pending@.len() > 0
                    &&& old(self).inflight@.len() < old(self).limit
                    &&& job == old(self).pending@[0]
                    &&& final(self).pending@ == old(self).pending@.skip(1)
                    &&& final(self).inflight@ == old(self).inflight@.push(job.target)
                },
                None => {
                    &&& (old(self).pending@.len() == 0 || old(self).inflight@.len() >= old(
                        self,
                    ).limit)
                    &&& *final(self) == *old(self)
                },
            },
    {
        if self.pending.len() > 0 && self.inflight.len() < self.limit {
            let ghost before = self.pending@;
            let job = self.pending.remove(0);
            self.inflight.push(job.target);
            proof {
                assert(before.remove(0) =~= before.skip(1));
                assert(job_endpoints(before.skip(1)) =~= job_endpoints(before).remove(0));
                assert(job_endpoints(before).remove(0).to_multiset() =~= job_endpoints(
                    before,
                ).to_multiset().remove(job.target));
                assert(job_endpoints(before).to_multiset().count(job.target) > 0) by {
                    assert(job_endpoints(before)[0] == job.target);
                    assert(job_endpoints(before).contains(job.target));
                }
                assert(job_endpoints(self.pending@).to_multiset().add(
                    self.inflight@.to_multiset(),
                ).add(outcome_endpoints(self.completed@).to_multiset()).add(
                    self.yielded@.to_multiset(),
                ) =~= self.submitted@.to_multiset());
            }
            Some(job)
        } else {
            None
        }
    }

    /// Settles the in-flight job in slot `slot` with its outcome — a
    /// classification or an error, both are complete outcomes — pairing the
    /// outcome with that job's originating endpoint. Sibling jobs, queued or
    /// in flight, are untouched.
    pub fn complete(&mut self, slot: usize, outcome: JobCtrl<R>)
        requires
            old(self).wf(),
            slot < old(self).inflight@.len(),
        ensures
            final(self).wf(),
            final(self).limit == old(self).limit,
            final(self).submitted == old(self).submitted,
            final(self).yielded == old(self).yielded,
            final(self).pending@ == old(self).pending@,
            final(self).model() == step_complete(old(self).model(), slot as int, outcome),
    {
        let endpoint = self.inflight.remove(slot);
        self.completed.push((outcome, endpoint));
        proof {
            assert(outcome_endpoints(self.completed@) =~= outcome_endpoints(
                old(self).completed@,
            ).push(endpoint));
            assert(old(self).inflight@.to_multiset().count(endpoint) > 0) by {
                assert(old(self).inflight@[slot as int] == endpoint);
                assert(old(self).inflight@.contains(endpoint));
            }
            assert(job_endpoints(self.pending@).to_multiset().add(
                self.inflight@.to_multiset(),
            ).add(outcome_endpoints(self.completed@).to_multiset()).add(
                self.yielded@.to_multiset(),
            ) =~= self.submitted@.to_multiset());
            assert(self.model() == step_complete(old(self).model(), slot as int, outcome));
        }
    }

    /// How many outcomes exist so far.
    pub fn completed_len(&self) -> (n: usize)
        ensures
            n == self.completed@.len(),
    {
        self.completed.len()
    }

    /// Whether every submitted job has been settled.
    pub fn is_done(&self) -> (done: bool)
        ensures
            done == (self.pending@.len() == 0 && self.inflight@.len() == 0),
    {
        self.pending.len() == 0 && self.inflight.len() == 0
    }

    /// Drains the outcomes settled so far, in completion order, so that a
    /// slow consumer can keep pace with the producers instead of letting
    /// settled outcomes accumulate. The drained endpoints stay accounted
    /// for as yielded.
    pub fn take_outcomes(&mut self) -> (out: Vec<(JobCtrl<R>, Endpoint)>)
        requires
            old(self).wf(),
        ensures
            final(self).wf(),
            final(self).limit == old(self).limit,
            final(self).submitted == old(self).submitted,
            final(self).pending@ == old(self).pending@,
            final(self).inflight@ == old(self).inflight@,
            out@ == old(self).completed@,
            final(self).completed@ == Seq::<(JobCtrl<R>, Endpoint)>::empty(),
            final(self).yielded@ == old(self).yielded@ + outcome_endpoints(old(self).completed@),
    {
        let mut out: Vec<(JobCtrl<R>, Endpoint)> = Vec::new();
        core::mem::swap(&mut out, &mut self.completed);
        proof {
            self.yielded@ = self.yielded@ + outcome_endpoints(out@);
            assert(outcome_endpoints(self.completed@) =~= Seq::<Endpoint>::empty());
            assert(outcome_endpoints(self.completed@).to_multiset() =~= Multiset::<
                Endpoint,
            >::empty());
            assert(self.yielded@.to_multiset() =~= old(self).yielded@.to_multiset().add(
                outcome_endpoints(out@).to_multiset(),
            )) by {
                lemma_to_multiset_append(old(self).yielded@, outcome_endpoints(out@));
            }
            assert(job_endpoints(self.pending@).to_multiset().add(
                self.inflight@.to_multiset(),
            ).add(outcome_endpoints(self.completed@).to_multiset()).add(
                self.yielded@.to_multiset(),
            ) =~= self.submitted@.to_multiset());
        }
        out
    }

    /// Consumes the pool and yields the outcomes not yet drained, one entry
    /// per settled job, in completion order.
    pub fn into_outcomes(self) -> (out: Vec<(JobCtrl<R>, Endpoint)>)
        ensures
            out@ == self.completed@,
    {
        self.completed
    }
}

/// The multiset of a concatenation is the sum of the two multisets.
proof fn lemma_to_multiset_append(s: Seq<Endpoint>, t: Seq<Endpoint>)
    ensures
        (s + t).to_multiset() == s.to_multiset().add(t.to_multiset()),
    decreases t.len(),
{
    if t.len() == 0 {
        assert(s + t =~= s);
        assert(t.to_multiset() =~= Multiset::<Endpoint>::empty());
        assert(s.to_multiset().add(t.to_multiset()) =~= s.to_multiset());
    } else {
        let t0 = t.drop_last();
        lemma_to_multiset_append(s, t0);
        assert(s + t =~= (s + t0).push(t.last()));
        assert(t =~= t0.push(t.last()));
        assert((s + t).to_multiset() =~= s.to_multiset().add(t.to_multiset()));
    }
}

/// Law: for any batch of N submitted jobs and any concurrency bound, once
/// no job queues or runs, exactly N outcomes exist, and the endpoints
/// paired with them are exactly the submitted endpoints — no loss, no
/// duplication.
pub proof fn lemma_exactly_one_outcome_per_job<P, R>(pool: JobPool<P, R>)
    requires
        pool.wf(),
        pool.pending@.len() == 0,
        pool.inflight@.len() == 0,
    ensures
        pool.completed@.len() + pool.yielded@.len() == pool.submitted@.len(),
        outcome_endpoints(pool.completed@).to_multiset().add(pool.yielded@.to_multiset())
            == pool.submitted@.to_multiset(),
{
    assert(job_endpoints(pool.pending@) =~= Seq::<Endpoint>::empty());
    assert(job_endpoints(pool.pending@).to_multiset() =~= Multiset::<Endpoint>::empty());
    assert(pool.inflight@.to_multiset() =~= Multiset::<Endpoint>::empty());
    assert(outcome_endpoints(pool.completed@).to_multiset().add(pool.yielded@.to_multiset())
        =~= pool.submitted@.to_multiset());
    assert(outcome_endpoints(pool.completed@).to_multiset().len() == outcome_endpoints(
        pool.completed@,
    ).len());
    assert(pool.yielded@.to_multiset().len() == pool.yielded@.len());
    assert(pool.submitted@.to_multiset().len() == pool.submitted@.len());
    assert(outcome_endpoints(pool.completed@).len() == pool.completed@.len());
    assert(outcome_endpoints(pool.completed@).to_multiset().add(
        pool.yielded@.to_multiset(),
    ).len() == outcome_endpoints(pool.completed@).to_multiset().len()
        + pool.yielded@.to_multiset().len());
}

/// Law: failure isolation. Settling a slot with an error and settling the
/// same slot with any successful classification leave identical state for
/// every sibling job — the same queue, the same in-flight set, the same
/// earlier outcomes — and either way add exactly the one new outcome,
/// paired with that slot's endpoint.
pub proof fn lemma_failure_isolation<R>(
    m: PoolModel<R>,
    slot: int,
    err: ProbeError,
    state: NetState,
    payload: R,
)
    requires
        0 <= slot < m.inflight.len(),
    ensures
        ({
            let failed = step_complete(m, slot, JobCtrl::Error(err));
            let returned = step_complete(m, slot, JobCtrl::Return(state, payload));
            &&& failed.pending == returned.pending
            &&& failed.inflight == returned.inflight
            &&& failed.completed.len() == returned.completed.len() == m.completed.len() + 1
            &&& forall|i: int|
                0 <= i < m.completed.len() ==> failed.completed[i] == m.completed[i]
                    && returned.completed[i] == m.completed[i]
            &&& failed.completed.last().1 == m.inflight[slot]
            &&& returned.completed.last().1 == m.inflight[slot]
        }),
{
}

} // verus!
