use blake2::Digest;
use servare::ids::{FeedId, JobId, UserId};
use servare::job::{FetchFaviconJobData, Job, RefreshFeedJobData};
use servare::queue::{run_decision, Enqueued, JobStatus, JobTable, RunDecision, MAX_ATTEMPTS};
use servare::runner::{next_tick_action, post_fetch_favicon_job, post_refresh_feed_job, TickAction};

fn favicon_job(user: u128, feed: i64, link: &str) -> Job {
    Job::FetchFavicon(FetchFaviconJobData {
        user_id: UserId(user),
        feed_id: FeedId(feed),
        site_link: link.to_string(),
    })
}

fn refresh_job(user: u128, feed: i64, url: &str) -> Job {
    Job::RefreshFeed(RefreshFeedJobData {
        user_id: UserId(user),
        feed_id: FeedId(feed),
        feed_url: url.to_string(),
    })
}

#[test]
fn fingerprint_bytes_are_tag_then_little_endian_feed_id() {
    let job = favicon_job(1, 258, "https://example.com/");
    let mut expected = b"fetch_favicon".to_vec();
    expected.extend_from_slice(&258i64.to_le_bytes());
    assert_eq!(job.fingerprint_bytes(), expected);

    let job = refresh_job(1, -1, "https://example.com/feed");
    let mut expected = b"refresh_feed".to_vec();
    expected.extend_from_slice(&(-1i64).to_le_bytes());
    assert_eq!(job.fingerprint_bytes(), expected);
}

#[test]
fn fingerprint_is_the_blake2b_digest_of_its_input() {
    let job = refresh_job(7, 42, "https://example.com/feed");
    let mut input = b"refresh_feed".to_vec();
    input.extend_from_slice(&42i64.to_le_bytes());
    let expected = blake2::Blake2b512::digest(&input).to_vec();
    let fingerprint = job.fingerprint();
    assert_eq!(fingerprint.len(), 64);
    assert_eq!(fingerprint, expected);
}

#[test]
fn fingerprint_ignores_user_and_url() {
    let a = favicon_job(1, 5, "https://a.example/");
    let b = favicon_job(2, 5, "https://b.example/");
    assert_eq!(a.fingerprint(), b.fingerprint());
    let c = refresh_job(1, 5, "https://a.example/");
    assert_ne!(a.fingerprint(), c.fingerprint());
    let d = favicon_job(1, 6, "https://a.example/");
    assert_ne!(a.fingerprint(), d.fingerprint());
}

#[test]
fn tags_name_the_job_kinds() {
    assert_eq!(favicon_job(1, 1, "x").tag(), "fetch_favicon");
    assert_eq!(refresh_job(1, 1, "x").tag(), "refresh_feed");
}

#[test]
fn enqueue_twice_keeps_one_row() {
    let mut table = JobTable::new();
    let job = favicon_job(1, 10, "https://example.com/");
    assert_eq!(table.enqueue(job.clone(), JobId(100)), Enqueued::Inserted(JobId(100)));
    assert_eq!(table.enqueue(job, JobId(200)), Enqueued::AlreadyEnqueued(JobId(100)));
    assert_eq!(table.len(), 1);
    let row = &table.rows()[0];
    assert_eq!(row.status, JobStatus::Pending);
    assert_eq!(row.attempts, 0);
    assert_eq!(row.id, JobId(100));
}

#[test]
fn enqueue_with_a_taken_id_inserts_nothing() {
    let mut table = JobTable::new();
    table.enqueue(favicon_job(1, 10, "https://example.com/"), JobId(1));
    assert_eq!(table.enqueue(refresh_job(1, 10, "https://example.com/feed"), JobId(1)), Enqueued::IdInUse);
    assert_eq!(table.len(), 1);
}

#[test]
fn post_job_is_idempotent() {
    let mut table = JobTable::new();
    let first = post_fetch_favicon_job(&mut table, UserId(1), FeedId(3), "https://example.com/".to_string());
    assert!(matches!(first, Enqueued::Inserted(_)));
    let second = post_fetch_favicon_job(&mut table, UserId(9), FeedId(3), "https://other.example/".to_string());
    assert!(matches!(second, Enqueued::AlreadyEnqueued(_)));
    let third = post_refresh_feed_job(&mut table, UserId(1), FeedId(3), "https://example.com/feed".to_string());
    assert!(matches!(third, Enqueued::Inserted(_)));
    assert_eq!(table.len(), 2);
}

#[test]
fn claim_takes_pending_jobs_in_order_up_to_the_limit() {
    let mut table = JobTable::new();
    table.enqueue(favicon_job(1, 1, "a"), JobId(1));
    table.enqueue(favicon_job(1, 2, "b"), JobId(2));
    table.enqueue(favicon_job(1, 3, "c"), JobId(3));
    let claimed = table.claim_batch(2);
    assert_eq!(claimed.len(), 2);
    assert_eq!(claimed[0].id, JobId(1));
    assert_eq!(claimed[1].id, JobId(2));
    assert_eq!(claimed[0].attempts, 0);
    assert_eq!(table.claim_batch(10).len(), 3);
    assert_eq!(table.claim_batch(0).len(), 0);
}

#[test]
fn success_deletes_the_row_once() {
    let mut table = JobTable::new();
    table.enqueue(favicon_job(1, 1, "a"), JobId(1));
    table.enqueue(favicon_job(1, 2, "b"), JobId(2));
    table.run_row(JobId(1), true);
    assert_eq!(table.len(), 1);
    assert_eq!(table.rows()[0].id, JobId(2));
    table.run_row(JobId(1), true);
    assert_eq!(table.len(), 1);
}

#[test]
fn failing_job_is_marked_failed_after_the_retry_bound() {
    let mut table = JobTable::new();
    table.enqueue(refresh_job(1, 1, "a"), JobId(1));
    for run in 1..=MAX_ATTEMPTS {
        let claimed = table.claim_batch(1);
        assert_eq!(claimed.len(), 1);
        assert_eq!(run_decision(claimed[0].attempts), RunDecision::Run);
        table.run_row(JobId(1), false);
        assert_eq!(table.rows()[0].attempts, run);
        assert_eq!(table.rows()[0].status, JobStatus::Pending);
    }
    let claimed = table.claim_batch(1);
    assert_eq!(run_decision(claimed[0].attempts), RunDecision::MarkFailed);
    table.run_row(JobId(1), true);
    assert_eq!(table.rows()[0].status, JobStatus::Failed);
    assert_eq!(table.rows()[0].attempts, 5);
    assert_eq!(table.claim_batch(1).len(), 0);
}

#[test]
fn run_decision_uses_five_attempts() {
    assert_eq!(MAX_ATTEMPTS, 5);
    assert_eq!(run_decision(0), RunDecision::Run);
    assert_eq!(run_decision(4), RunDecision::Run);
    assert_eq!(run_decision(5), RunDecision::MarkFailed);
    assert_eq!(run_decision(6), RunDecision::MarkFailed);
}

#[test]
fn explicit_store_operations_follow_their_names() {
    let mut table = JobTable::new();
    table.enqueue(favicon_job(1, 1, "a"), JobId(1));
    table.increment_attempts(JobId(1));
    assert_eq!(table.rows()[0].attempts, 1);
    table.mark_failed(JobId(1));
    assert_eq!(table.rows()[0].status, JobStatus::Failed);
    table.delete(JobId(1));
    assert_eq!(table.len(), 0);
}

#[test]
fn tick_stops_once_shutdown_is_requested() {
    assert_eq!(next_tick_action(true), TickAction::Stop);
    assert_eq!(next_tick_action(false), TickAction::ManageThenRun);
}
