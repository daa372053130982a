use vstd::prelude::*;
use crate::error::JobError;

verus! {

/// The terminal result of one job: `Ok` once the page is stored.
pub struct FetchResult {
    pub index: u32,
    pub outcome: Result<(), JobError>,
}

/// Summary of a run: how many jobs completed, and each failed job's index
/// with its error, in the order the results were recorded.
pub struct RunOutcome {
    pub completed_count: usize,
    pub failed_jobs: Vec<(u32, JobError)>,
}

/// The failures list after recording `r` on top of `failed`.
pub open spec fn with_result(failed: Seq<(u32, JobError)>, r: FetchResult) -> Seq<(u32, JobError)> {
    match r.outcome {
        Ok(_) => failed,
        Err(e) => failed.push((r.index, e)),
    }
}

/// Number of successful results in `rs`.
pub open spec fn successes(rs: Seq<FetchResult>) -> nat
    decreases rs.len(),
{
    if rs.len() == 0 {
        0
    } else {
        successes(rs.drop_last()) + if rs.last().outcome is Ok {
            1nat
        } else {
            0nat
        }
    }
}

/// The failed results of `rs`, in order, each as its index and error.
pub open spec fn failures(rs: Seq<FetchResult>) -> Seq<(u32, JobError)>
    decreases rs.len(),
{
    if rs.len() == 0 {
        Seq::empty()
    } else {
        with_result(failures(rs.drop_last()), rs.last())
    }
}

/// Checks an HTTP status code: any 2xx code is success, any other code is an
/// `HttpStatus` failure that carries it.
pub fn check_status(code: u16) -> (r: Result<(), JobError>)
    ensures
        200 <= code <= 299 ==> r is Ok,
        !(200 <= code <= 299) ==> r == Err::<(), JobError>(JobError::HttpStatus(code)),
{
    if 200 <= code && code <= 299 {
        Ok(())
    } else {
        Err(JobError::HttpStatus(code))
    }
}

impl RunOutcome {
    /// The outcome before any job has reported.
    pub fn new() -> (r: RunOutcome)
        ensures
            r.completed_count == 0,
            r.failed_jobs@ == Seq::<(u32, JobError)>::empty(),
    {
        RunOutcome { completed_count: 0, failed_jobs: Vec::new() }
    }

    /// Folds one job's terminal result in: a success counts as completed, a
    /// failure is kept with its index.
    pub fn record(&mut self, result: FetchResult)
        requires
            old(self).completed_count < usize::MAX,
        ensures
            final(self).completed_count == old(self).completed_count + if result.outcome is Ok {
                1int
            } else {
                0int
            },
            final(self).failed_jobs@ == with_result(old(self).failed_jobs@, result),
    {
        match result.outcome {
            Ok(()) => {
                self.completed_count = self.completed_count + 1;
            },
            Err(e) => {
                self.failed_jobs.push((result.index, e));
            },
        }
    }

    /// A run succeeds when no job failed.
    pub fn is_success(&self) -> (r: bool)
        ensures
            r == (self.failed_jobs@.len() == 0),
    {
        self.failed_jobs.len() == 0
    }
}

proof fn lemma_successes_bounded(rs: Seq<FetchResult>)
    ensures
        successes(rs) <= rs.len(),
    decreases rs.len(),
{
    if rs.len() > 0 {
        lemma_successes_bounded(rs.drop_last());
    }
}

/// Collects every job's terminal result, in the order given, into one
/// outcome (collect-all: no result is skipped or dropped).
pub fn aggregate(results: Vec<FetchResult>) -> (r: RunOutcome)
    ensures
        r.completed_count == successes(results@),
        r.failed_jobs@ == failures(results@),
{
    let ghost all = results@;
    let n = results.len();
    let mut rest = results;
    let mut pending: Vec<FetchResult> = Vec::new();
    while rest.len() > 0
        invariant
            n == all.len(),
            rest@ == all.subrange(0, rest@.len() as int),
            pending@.len() + rest@.len() == n,
            forall|j: int| 0 <= j < pending@.len() ==> #[trigger] pending@[j] == all[n - 1 - j],
        decreases rest@.len(),
    {
        let item = rest.pop().unwrap();
        pending.push(item);
    }
    let mut out = RunOutcome::new();
    while pending.len() > 0
        invariant
            n == all.len(),
            pending@.len() <= n,
            forall|j: int| 0 <= j < pending@.len() ==> #[trigger] pending@[j] == all[n - 1 - j],
            out.completed_count == successes(all.subrange(0, n - pending@.len())),
            out.failed_jobs@ == failures(all.subrange(0, n - pending@.len())),
        decreases pending@.len(),
    {
        let ghost done = all.subrange(0, n - pending@.len());
        let item = pending.pop().unwrap();
        let ghost next = all.subrange(0, n - pending@.len());
        proof {
            assert(next.drop_last() =~= done);
            assert(next.last() == item);
            lemma_successes_bounded(done);
        }
        out.record(item);
    }
    assert(all.subrange(0, n as int) =~= all);
    out
}

/// No result is dropped: every result counts either as completed or as one
/// entry of the failures.
pub proof fn lemma_every_result_counted(rs: Seq<FetchResult>)
    ensures
        successes(rs) + failures(rs).len() == rs.len(),
    decreases rs.len(),
{
    if rs.len() > 0 {
        lemma_every_result_counted(rs.drop_last());
    }
}

/// When every job succeeds, all of them count as completed and none failed,
/// so the run succeeds.
pub proof fn lemma_all_succeeded(rs: Seq<FetchResult>)
    requires
        forall|i: int| 0 <= i < rs.len() ==> (#[trigger] rs[i]).outcome is Ok,
    ensures
        successes(rs) == rs.len(),
        failures(rs).len() == 0,
    decreases rs.len(),
{
    if rs.len() > 0 {
        let init = rs.drop_last();
        assert forall|i: int| 0 <= i < init.len() implies (#[trigger] init[i]).outcome is Ok by {
            assert(init[i] == rs[i]);
        }
        lemma_all_succeeded(init);
        assert(rs.last() == rs[rs.len() - 1]);
    }
}

/// When exactly one job, the one at position `k`, fails, the failures are
/// that job's index with its error alone, and every other job completed.
pub proof fn lemma_single_failure(rs: Seq<FetchResult>, k: int)
    requires
        0 <= k < rs.len(),
        rs[k].outcome is Err,
        forall|i: int| 0 <= i < rs.len() && i != k ==> (#[trigger] rs[i]).outcome is Ok,
    ensures
        failures(rs) == seq![(rs[k].index, rs[k].outcome->Err_0)],
        successes(rs) == rs.len() - 1,
    decreases rs.len(),
{
    let init = rs.drop_last();
    assert(rs.last() == rs[rs.len() - 1]);
    if k == rs.len() - 1 {
        assert forall|i: int| 0 <= i < init.len() implies (#[trigger] init[i]).outcome is Ok by {
            assert(init[i] == rs[i]);
        }
        lemma_all_succeeded(init);
        assert(failures(init) =~= Seq::<(u32, JobError)>::empty());
        assert(failures(rs) =~= seq![(rs[k].index, rs[k].outcome->Err_0)]);
    } else {
        assert(init[k] == rs[k]);
        assert forall|i: int| 0 <= i < init.len() && i != k implies (#[trigger] init[i]).outcome is Ok by {
            assert(init[i] == rs[i]);
        }
        lemma_single_failure(init, k);
    }
}

/// Each failure keeps its own kind and cause next to its index: a failed
/// result is listed with its index and exact error, and every listed failure
/// is the index and error of some failed result.
pub proof fn lemma_failures_keep_errors(rs: Seq<FetchResult>)
    ensures
        forall|i: int|
            0 <= i < rs.len() && (#[trigger] rs[i]).outcome is Err ==> failures(rs).contains(
                (rs[i].index, rs[i].outcome->Err_0),
            ),
        forall|j: int|
            0 <= j < failures(rs).len() ==> exists|i: int|
                0 <= i < rs.len() && (#[trigger] rs[i]).outcome == Err::<(), JobError>(
                    (#[trigger] failures(rs)[j]).1,
                ) && rs[i].index == failures(rs)[j].0,
    decreases rs.len(),
{
    if rs.len() > 0 {
        let init = rs.drop_last();
        let last = rs.last();
        lemma_failures_keep_errors(init);
        let f0 = failures(init);
        let f = failures(rs);
        assert(f == with_result(f0, last));
        assert forall|i: int|
            0 <= i < rs.len() && (#[trigger] rs[i]).outcome is Err implies f.contains(
                (rs[i].index, rs[i].outcome->Err_0),
            ) by {
            if i < rs.len() - 1 {
                assert(init[i] == rs[i]);
                let w = choose|w: int| 0 <= w < f0.len() && f0[w] == (rs[i].index, rs[i].outcome->Err_0);
                assert(f[w] == f0[w]);
            } else {
                assert(rs[i] == last);
                assert(f[f.len() - 1] == (rs[i].index, rs[i].outcome->Err_0));
            }
        }
        assert forall|j: int| 0 <= j < f.len() implies exists|i: int|
            0 <= i < rs.len() && (#[trigger] rs[i]).outcome == Err::<(), JobError>(
                (#[trigger] f[j]).1,
            ) && rs[i].index == f[j].0 by {
            if j < f0.len() {
                assert(f[j] == f0[j]);
                let i = choose|i: int|
                    0 <= i < init.len() && (#[trigger] init[i]).outcome == Err::<(), JobError>(
                        f0[j].1,
                    ) && init[i].index == f0[j].0;
                assert(rs[i] == init[i]);
            } else {
                assert(rs[rs.len() - 1] == last);
            }
        }
    }
}

} // verus!
