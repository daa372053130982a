use vstd::prelude::*;
use crate::address::{joined_url, resource_url};
use crate::error::JobError;
use crate::naming::{lemma_page_names_distinct, page_file_name, page_name};

verus! {

/// One unit of work: fetch page `index` from `resource_url` and store it
/// under `file_name` in the output directory. A URL that could not be built
/// is carried as the job's failure.
pub struct Job {
    pub index: u32,
    pub resource_url: Result<String, JobError>,
    pub file_name: String,
}

/// `job` is the job of page `index` under base URL `base` and extension `ext`.
pub open spec fn is_job_for(job: Job, base: Seq<char>, index: nat, ext: Seq<char>) -> bool {
    let joined = joined_url(base, page_name(index, ext));
    &&& job.index == index
    &&& job.file_name@ == page_name(index, ext)
    &&& (job.resource_url is Ok <==> joined is Some)
    &&& (job.resource_url matches Ok(u) ==> u@ == joined.unwrap())
    &&& (job.resource_url matches Err(e) ==> e is InvalidUrl)
}

/// `jobs` holds, in order, the jobs of pages `1..=pages`.
pub open spec fn is_plan(jobs: Seq<Job>, base: Seq<char>, pages: nat, ext: Seq<char>) -> bool {
    &&& jobs.len() == pages
    &&& forall|i: int| 0 <= i < pages ==> is_job_for(#[trigger] jobs[i], base, (i + 1) as nat, ext)
}

/// Builds the job of page `index`.
pub fn make_job(base: &str, index: u32, ext: &str) -> (r: Job)
    ensures
        is_job_for(r, base@, index as nat, ext@),
{
    Job {
        index,
        resource_url: resource_url(base, index, ext),
        file_name: page_file_name(index, ext),
    }
}

/// The jobs of pages `1..=pages`, one per page, in index order; `pages == 0`
/// gives no job.
pub fn plan_jobs(base: &str, pages: u32, ext: &str) -> (r: Vec<Job>)
    ensures
        is_plan(r@, base@, pages as nat, ext@),
{
    let mut jobs: Vec<Job> = Vec::new();
    let mut i: u32 = 0;
    while i < pages
        invariant
            i <= pages,
            jobs@.len() == i,
            forall|k: int| 0 <= k < i ==> is_job_for(#[trigger] jobs@[k], base@, (k + 1) as nat, ext@),
        decreases pages - i,
    {
        jobs.push(make_job(base, i + 1, ext));
        i = i + 1;
    }
    jobs
}

/// A plan covers every page once: job `i` is page `i + 1`, so each index in
/// `1..=pages` has exactly one job, and no two jobs write the same file.
pub proof fn lemma_plan_covers_each_page_once(
    jobs: Seq<Job>,
    base: Seq<char>,
    pages: nat,
    ext: Seq<char>,
)
    requires
        is_plan(jobs, base, pages, ext),
    ensures
        forall|k: nat| 1 <= k <= pages ==> #[trigger] jobs[k - 1].index == k,
        forall|i: int, j: int|
            0 <= i < pages && 0 <= j < pages && i != j ==> jobs[i].index != jobs[j].index
                && #[trigger] jobs[i].file_name@ != #[trigger] jobs[j].file_name@,
{
    assert forall|k: nat| 1 <= k <= pages implies #[trigger] jobs[k - 1].index == k by {
        assert(is_job_for(jobs[k - 1], base, k, ext));
    }
    assert forall|i: int, j: int|
        0 <= i < pages && 0 <= j < pages && i != j implies jobs[i].index != jobs[j].index
            && #[trigger] jobs[i].file_name@ != #[trigger] jobs[j].file_name@ by {
        assert(is_job_for(jobs[i], base, (i + 1) as nat, ext));
        assert(is_job_for(jobs[j], base, (j + 1) as nat, ext));
        lemma_page_names_distinct((i + 1) as nat, (j + 1) as nat, ext);
    }
}

/// A rerun with the same inputs plans the same work: two plans of one base,
/// page count and extension agree job by job on index, file name and URL, so
/// a second run rewrites exactly the files of the first.
pub proof fn lemma_plan_is_determined(
    a: Seq<Job>,
    b: Seq<Job>,
    base: Seq<char>,
    pages: nat,
    ext: Seq<char>,
)
    requires
        is_plan(a, base, pages, ext),
        is_plan(b, base, pages, ext),
    ensures
        a.len() == b.len(),
        forall|i: int|
            0 <= i < a.len() ==> (#[trigger] a[i]).index == b[i].index && a[i].file_name@
                == b[i].file_name@ && (a[i].resource_url is Ok <==> b[i].resource_url is Ok) && (
            a[i].resource_url is Ok ==> a[i].resource_url->Ok_0@ == b[i].resource_url->Ok_0@),
{
    assert forall|i: int| 0 <= i < a.len() implies (#[trigger] a[i]).index == b[i].index
        && a[i].file_name@ == b[i].file_name@ && (a[i].resource_url is Ok
        <==> b[i].resource_url is Ok) && (a[i].resource_url is Ok
        ==> a[i].resource_url->Ok_0@ == b[i].resource_url->Ok_0@) by {
        assert(is_job_for(a[i], base, (i + 1) as nat, ext));
        assert(is_job_for(b[i], base, (i + 1) as nat, ext));
    }
}

} // verus!
