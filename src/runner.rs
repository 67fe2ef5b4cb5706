use crate::feed_store::{store_wf, unknown_favicon_feeds, FaviconState, FeedStore, FeedStoreView, FeedView};
use crate::ids::{FeedId, JobId, UserId};
use crate::job::{FetchFaviconJobData, Job, JobView, RefreshFeedJobData};
use crate::queue::{enqueue_all, has_fingerprint, reports_queued, rows_wf, spec_enqueue, Enqueued, JobTable};
use vstd::prelude::*;

verus! {

/// Most feeds the manage phase looks at in one tick.
pub const MANAGE_JOBS_LIMIT: usize = 1;

/// Most jobs the run phase claims in one tick.
pub const RUN_JOBS_LIMIT: usize = 1;

/// Relies on `uuid::Uuid::new_v4`: a random 128-bit id. Nothing is promised
/// of its value.
#[verifier::external_body]
fn new_job_id() -> (r: JobId) {
    JobId(uuid::Uuid::new_v4().as_u128())
}

impl JobTable {
    /// Adds `job` to the queue under a fresh random id, unless a job with
    /// the same fingerprint is queued already.
    pub fn post_job(&mut self, job: Job) -> (r: Enqueued)
        requires
            rows_wf(old(self)@),
        ensures
            rows_wf(final(self)@),
            exists|id: JobId| final(self)@ == spec_enqueue(old(self)@, job@, id),
            r != Enqueued::IdInUse ==> has_fingerprint(final(self)@, job@.fingerprint()),
            has_fingerprint(old(self)@, job@.fingerprint()) ==> final(self)@ == old(self)@ && reports_queued(
                old(self)@,
                job@.fingerprint(),
                r,
            ),
    {
        let ghost j = job@;
        let id = new_job_id();
        let r = self.enqueue(job, id);
        proof {
            if r is Inserted {
                let last = self@.len() - 1;
                assert(self@[last].fingerprint == j.fingerprint());
            }
        }
        r
    }
}

/// Queues a FetchFavicon job for the feed `feed_id` of `user_id`.
pub fn post_fetch_favicon_job(table: &mut JobTable, user_id: UserId, feed_id: FeedId, site_link: String) -> (r:
    Enqueued)
    requires
        rows_wf(old(table)@),
    ensures
        rows_wf(final(table)@),
        exists|id: JobId|
            final(table)@ == spec_enqueue(
                old(table)@,
                JobView::FetchFavicon { user_id: user_id.0, feed_id: feed_id.0, site_link: site_link@ },
                id,
            ),
        r != Enqueued::IdInUse ==> has_fingerprint(
            final(table)@,
            (JobView::FetchFavicon { user_id: user_id.0, feed_id: feed_id.0, site_link: site_link@ }).fingerprint(),
        ),
        has_fingerprint(old(table)@, (JobView::FetchFavicon { user_id: user_id.0, feed_id: feed_id.0, site_link: site_link@ }).fingerprint()) ==> reports_queued(
            old(table)@,
            (JobView::FetchFavicon { user_id: user_id.0, feed_id: feed_id.0, site_link: site_link@ }).fingerprint(),
            r,
        ),
{
    table.post_job(Job::FetchFavicon(FetchFaviconJobData { user_id, feed_id, site_link }))
}

/// Queues a RefreshFeed job for the feed `feed_id` of `user_id`.
pub fn post_refresh_feed_job(table: &mut JobTable, user_id: UserId, feed_id: FeedId, feed_url: String) -> (r:
    Enqueued)
    requires
        rows_wf(old(table)@),
    ensures
        rows_wf(final(table)@),
        exists|id: JobId|
            final(table)@ == spec_enqueue(
                old(table)@,
                JobView::RefreshFeed { user_id: user_id.0, feed_id: feed_id.0, feed_url: feed_url@ },
                id,
            ),
        r != Enqueued::IdInUse ==> has_fingerprint(
            final(table)@,
            (JobView::RefreshFeed { user_id: user_id.0, feed_id: feed_id.0, feed_url: feed_url@ }).fingerprint(),
        ),
        has_fingerprint(old(table)@, (JobView::RefreshFeed { user_id: user_id.0, feed_id: feed_id.0, feed_url: feed_url@ }).fingerprint()) ==> reports_queued(
            old(table)@,
            (JobView::RefreshFeed { user_id: user_id.0, feed_id: feed_id.0, feed_url: feed_url@ }).fingerprint(),
            r,
        ),
{
    table.post_job(Job::RefreshFeed(RefreshFeedJobData { user_id, feed_id, feed_url }))
}

/// The FetchFavicon job of a feed whose favicon is not known yet.
pub open spec fn favicon_job_of(f: crate::feed_store::FeedView) -> JobView {
    JobView::FetchFavicon { user_id: f.user_id, feed_id: f.id, site_link: f.site_link }
}

/// The FetchFavicon jobs of `feeds`, in order.
pub open spec fn favicon_jobs(feeds: Seq<FeedView>) -> Seq<JobView> {
    feeds.map_values(|f: FeedView| favicon_job_of(f))
}

/// The feeds that a manage pass bounded by `remaining` picks.
pub open spec fn manage_pick(s: FeedStoreView, remaining: nat) -> Seq<crate::feed_store::FeedView> {
    let u = unknown_favicon_feeds(s);
    if remaining < u.len() {
        u.take(remaining as int)
    } else {
        u
    }
}

/// Whether `job` is the FetchFavicon job of a feed whose favicon is unknown.
pub open spec fn is_due_favicon_job(s: FeedStoreView, job: JobView) -> bool {
    exists|i: int|
        0 <= i < s.feeds.len() && s.feeds[i].has_favicon == FaviconState::Unknown && job == favicon_job_of(
            #[trigger] s.feeds[i],
        )
}

/// The manage phase: queues a FetchFavicon job for each of up to
/// `*remaining` feeds whose favicon is unknown, and counts them off
/// `remaining`. Returns what each enqueue did, feed by feed.
pub fn create_fetch_favicons_jobs(store: &FeedStore, table: &mut JobTable, remaining: &mut usize) -> (r: Vec<
    Enqueued,
>)
    requires
        rows_wf(old(table)@),
    ensures
        rows_wf(final(table)@),
        r@.len() == manage_pick(store@, *old(remaining) as nat).len(),
        *final(remaining) == *old(remaining) - r@.len(),
        final(table)@.len() >= old(table)@.len(),
        final(table)@.take(old(table)@.len() as int) == old(table)@,
        forall|k: int|
            old(table)@.len() <= k < final(table)@.len() ==> is_due_favicon_job(store@, #[trigger] final(table)@[k].job),
        forall|k: int|
            0 <= k < r@.len() && r@[k] != Enqueued::IdInUse ==> has_fingerprint(
                final(table)@,
                favicon_job_of(#[trigger] manage_pick(store@, *old(remaining) as nat)[k]).fingerprint(),
            ),
        exists|ids: Seq<JobId>|
            ids.len() == r@.len() && final(table)@ == #[trigger] enqueue_all(
                old(table)@,
                favicon_jobs(manage_pick(store@, *old(remaining) as nat)),
                ids,
            ),
{
    let feeds = store.feeds_with_unknown_favicon(*remaining);
    let ghost picked = manage_pick(store@, *remaining as nat);
    let ghost start = table@;
    assert(feeds@.map_values(|f: crate::feed_store::Feed| f@) == picked);
    let ghost jobs = favicon_jobs(picked);
    let ghost mut ids: Seq<JobId> = Seq::empty();
    let mut results: Vec<Enqueued> = Vec::new();
    let mut i: usize = 0;
    assert(jobs.take(0) =~= Seq::<JobView>::empty());
    while i < feeds.len()
        invariant
            rows_wf(table@),
            i <= feeds@.len(),
            feeds@.map_values(|f: crate::feed_store::Feed| f@) == picked,
            picked == manage_pick(store@, *old(remaining) as nat),
            *remaining == *old(remaining),
            results@.len() == i,
            jobs == favicon_jobs(picked),
            ids.len() == i,
            table@ == enqueue_all(start, jobs.take(i as int), ids),
            table@.len() >= start.len(),
            table@.take(start.len() as int) == start,
            start == old(table)@,
            forall|k: int| start.len() <= k < table@.len() ==> is_due_favicon_job(store@, #[trigger] table@[k].job),
            forall|k: int|
                0 <= k < i && results@[k] != Enqueued::IdInUse ==> has_fingerprint(
                    table@,
                    favicon_job_of(#[trigger] picked[k]).fingerprint(),
                ),
        decreases feeds@.len() - i,
    {
        let feed = &feeds[i];
        assert(picked[i as int] == feed@);
        proof {
            lemma_picked_is_unknown(store@, *remaining as nat, i as int);
        }
        let ghost before = table@;
        let r = post_fetch_favicon_job(table, feed.user_id, feed.id, feed.site_link.clone());
        proof {
            let id = choose|id: JobId| table@ == spec_enqueue(before, favicon_job_of(feed@), id);
            assert(jobs.take(i as int + 1).drop_last() =~= jobs.take(i as int));
            assert(ids.push(id).drop_last() =~= ids);
            assert(jobs.take(i as int + 1).last() == favicon_job_of(feed@));
            assert(table@ == enqueue_all(start, jobs.take(i as int + 1), ids.push(id)));
            ids = ids.push(id);
            let after = table@;
            let job = favicon_job_of(feed@);
            assert(after.len() >= before.len());
            assert(forall|k: int| 0 <= k < before.len() ==> after[k] == before[k]);
            assert(after.take(start.len() as int) =~= start) by {
                assert(before.take(start.len() as int) == start);
            }
            assert forall|k: int| start.len() <= k < after.len() implies is_due_favicon_job(store@, #[trigger] after[k].job) by {
                if k >= before.len() {
                    assert(after[k].job == job);
                    let m = choose|m: int| 0 <= m < store@.feeds.len() && #[trigger] store@.feeds[m] == feed@;
                    assert(store@.feeds[m].has_favicon == FaviconState::Unknown);
                } else {
                    assert(after[k] == before[k]);
                }
            }
            assert forall|k: int|
                0 <= k < i + 1 && #[trigger] results@.push(r)[k] != Enqueued::IdInUse implies has_fingerprint(
                after,
                favicon_job_of(picked[k]).fingerprint(),
            ) by {
                if k < i {
                    let f = favicon_job_of(picked[k]).fingerprint();
                    let m = choose|m: int| 0 <= m < before.len() && #[trigger] before[m].fingerprint == f;
                    assert(after[m] == before[m]);
                }
            }
        }
        results.push(r);
        i = i + 1;
    }
    *remaining = *remaining - feeds.len();
    assert(jobs.take(i as int) =~= jobs);
    results
}

proof fn lemma_picked_is_unknown(s: FeedStoreView, remaining: nat, i: int)
    requires
        0 <= i < manage_pick(s, remaining).len(),
    ensures
        manage_pick(s, remaining)[i].has_favicon == FaviconState::Unknown,
        s.feeds.contains(manage_pick(s, remaining)[i]),
{
    let pred = |f: crate::feed_store::FeedView| f.has_favicon == FaviconState::Unknown;
    let u = s.feeds.filter(pred);
    assert(manage_pick(s, remaining)[i] == u[i]);
    s.feeds.lemma_filter_pred(pred, i);
    lemma_filter_member(s.feeds, pred, i);
}

proof fn lemma_filter_member<A>(s: Seq<A>, pred: spec_fn(A) -> bool, i: int)
    requires
        0 <= i < s.filter(pred).len(),
    ensures
        s.contains(s.filter(pred)[i]),
    decreases s.len(),
{
    reveal(Seq::filter);
    if s.len() > 0 {
        let rest = s.drop_last().filter(pred);
        if i < rest.len() {
            lemma_filter_member(s.drop_last(), pred, i);
            let m = choose|m: int| 0 <= m < s.drop_last().len() && s.drop_last()[m] == rest[i];
            assert(s[m] == rest[i]);
        } else {
            assert(s[s.len() - 1] == s.filter(pred)[i]);
        }
    }
}

/// Favicon progress, manage side: every job that a manage pass adds is the
/// FetchFavicon job of a feed whose favicon flag is `Unknown`; a feed whose
/// favicon was looked for never gets one.
pub proof fn lemma_manage_only_unknown(s: FeedStoreView, job: JobView, i: int)
    requires
        is_due_favicon_job(s, job),
        store_wf(s),
        0 <= i < s.feeds.len(),
        s.feeds[i].has_favicon != FaviconState::Unknown,
    ensures
        job != favicon_job_of(s.feeds[i]),
{
    let m = choose|m: int|
        0 <= m < s.feeds.len() && s.feeds[m].has_favicon == FaviconState::Unknown && job == favicon_job_of(
            #[trigger] s.feeds[m],
        );
    if job == favicon_job_of(s.feeds[i]) {
        assert(s.feeds[m].id == s.feeds[i].id);
        assert(m != i);
    }
}

/// What the job runner does at a tick boundary.
#[derive(Clone, Copy, Debug, PartialEq, Eq, Structural)]
pub enum TickAction {
    /// Shutdown was requested: leave the loop before starting a new phase.
    Stop,
    /// Run the manage phase, then the run phase.
    ManageThenRun,
}

/// The job runner's decision at a tick boundary.
pub fn next_tick_action(shutdown_requested: bool) -> (r: TickAction)
    ensures
        r == (if shutdown_requested {
            TickAction::Stop
        } else {
            TickAction::ManageThenRun
        }),
{
    if shutdown_requested {
        TickAction::Stop
    } else {
        TickAction::ManageThenRun
    }
}

} // verus!
