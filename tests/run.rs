use gallery_downloader::{
    aggregate, check_status, make_job, parse_base, plan_jobs, ConfigError, FetchResult, JobError,
    RunOutcome,
};

fn ok(index: u32) -> FetchResult {
    FetchResult { index, outcome: Ok(()) }
}

fn failed(index: u32, e: JobError) -> FetchResult {
    FetchResult { index, outcome: Err(e) }
}

#[test]
fn plan_has_one_job_per_page_in_order() {
    let base = parse_base("https://site.example/gallery").unwrap();
    let jobs = plan_jobs(&base, 5, "webp");
    assert_eq!(jobs.len(), 5);
    for (i, job) in jobs.iter().enumerate() {
        let index = i as u32 + 1;
        assert_eq!(job.index, index);
        assert_eq!(job.file_name, format!("{:03}.webp", index));
        assert_eq!(
            job.resource_url,
            Ok(format!("https://site.example/gallery/{:03}.webp", index))
        );
    }
}

#[test]
fn plan_file_names_are_distinct() {
    let jobs = plan_jobs("https://site.example/", 120, "jpg");
    let mut names: Vec<&String> = jobs.iter().map(|j| &j.file_name).collect();
    names.sort();
    names.dedup();
    assert_eq!(names.len(), 120);
}

#[test]
fn zero_pages_plan_nothing_and_succeed() {
    let jobs = plan_jobs("https://site.example/", 0, "webp");
    assert!(jobs.is_empty());
    let outcome = aggregate(Vec::new());
    assert_eq!(outcome.completed_count, 0);
    assert!(outcome.failed_jobs.is_empty());
    assert!(outcome.is_success());
}

#[test]
fn invalid_base_fails_each_job_with_invalid_url() {
    let job = make_job("no scheme here", 3, "webp");
    assert_eq!(job.index, 3);
    assert_eq!(job.file_name, "003.webp");
    assert!(matches!(job.resource_url, Err(JobError::InvalidUrl(_))));
}

#[test]
fn status_2xx_is_success() {
    assert_eq!(check_status(200), Ok(()));
    assert_eq!(check_status(204), Ok(()));
    assert_eq!(check_status(299), Ok(()));
}

#[test]
fn status_outside_2xx_is_http_status_error() {
    assert_eq!(check_status(199), Err(JobError::HttpStatus(199)));
    assert_eq!(check_status(300), Err(JobError::HttpStatus(300)));
    assert_eq!(check_status(404), Err(JobError::HttpStatus(404)));
    assert_eq!(check_status(500), Err(JobError::HttpStatus(500)));
}

#[test]
fn all_pages_succeed() {
    let outcome = aggregate((1..=4).map(ok).collect());
    assert_eq!(outcome.completed_count, 4);
    assert!(outcome.failed_jobs.is_empty());
    assert!(outcome.is_success());
}

#[test]
fn one_missing_page_is_reported_alone() {
    let results = vec![
        ok(1),
        ok(2),
        failed(3, check_status(404).unwrap_err()),
        ok(4),
        ok(5),
    ];
    let outcome = aggregate(results);
    assert_eq!(outcome.completed_count, 4);
    assert_eq!(outcome.failed_jobs, vec![(3, JobError::HttpStatus(404))]);
    assert!(!outcome.is_success());
}

#[test]
fn error_kinds_stay_with_their_pages() {
    let results = vec![
        ok(1),
        failed(2, JobError::Transport("connection refused".to_string())),
        ok(3),
        failed(4, JobError::HttpStatus(500)),
    ];
    let outcome = aggregate(results);
    assert_eq!(outcome.completed_count, 2);
    assert_eq!(
        outcome.failed_jobs,
        vec![
            (2, JobError::Transport("connection refused".to_string())),
            (4, JobError::HttpStatus(500)),
        ]
    );
}

#[test]
fn results_in_any_order_are_all_kept() {
    let results = vec![ok(3), failed(1, JobError::Io("disk full".to_string())), ok(2)];
    let outcome = aggregate(results);
    assert_eq!(outcome.completed_count, 2);
    assert_eq!(outcome.failed_jobs, vec![(1, JobError::Io("disk full".to_string()))]);
}

#[test]
fn record_folds_results_one_at_a_time() {
    let mut outcome = RunOutcome::new();
    assert!(outcome.is_success());
    outcome.record(ok(1));
    assert_eq!(outcome.completed_count, 1);
    outcome.record(failed(2, JobError::HttpStatus(403)));
    assert_eq!(outcome.completed_count, 1);
    assert_eq!(outcome.failed_jobs, vec![(2, JobError::HttpStatus(403))]);
    assert!(!outcome.is_success());
}

#[test]
fn rerun_plans_identical_jobs() {
    let a = plan_jobs("https://site.example/g/", 3, "webp");
    let b = plan_jobs("https://site.example/g/", 3, "webp");
    for (x, y) in a.iter().zip(b.iter()) {
        assert_eq!(x.index, y.index);
        assert_eq!(x.file_name, y.file_name);
        assert_eq!(x.resource_url, y.resource_url);
    }
}

#[test]
fn job_errors_describe_kind_and_cause() {
    assert_eq!(JobError::HttpStatus(404).describe(), "HTTP status 404");
    assert_eq!(
        JobError::Transport("connection refused".to_string()).describe(),
        "transport error: connection refused"
    );
    assert_eq!(JobError::Io("disk full".to_string()).describe(), "I/O error: disk full");
    assert_eq!(JobError::InvalidUrl("bad".to_string()).describe(), "invalid URL: bad");
}

#[test]
fn config_errors_describe_cause() {
    assert_eq!(ConfigError::InvalidUrl("x".to_string()).describe(), "invalid base URL: x");
    assert_eq!(ConfigError::OutputDir("denied".to_string()).describe(), "output directory: denied");
}
