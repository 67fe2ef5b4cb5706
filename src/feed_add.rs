use crate::feed::{
    spec_feed_of, find_feed, spec_found_feed_url, spec_site_link, text_or_empty, FoundFeed,
    ParsedFeed,
};
use crate::feed_store::{store_wf, url_taken, FeedStore, FeedView, FaviconState};
use crate::ids::{FeedId, UserId};
use crate::job::JobView;
use crate::queue::{enqueue_all, has_fingerprint, rows_wf, spec_enqueue, JobTable};
use crate::runner::{post_fetch_favicon_job, post_refresh_feed_job};
use crate::urls::{guess_url, spec_guess_input, url_parse_of};
use vstd::prelude::*;

verus! {

/// What a user submits to add a feed: a feed address, or the address of a
/// site that links to one, possibly without a scheme.
#[derive(Clone, Debug)]
pub struct FeedAddFormData {
    pub url: String,
}

/// Why adding a feed failed.
#[derive(Clone, Copy, Debug, PartialEq, Eq, Structural)]
pub enum FeedAddError {
    /// Neither a feed nor a page that links to one.
    NoFeed,
    /// The linked address is not a feed.
    URLNotAValidRSSFeed,
    /// Fetching the address failed.
    URLInaccessible,
    /// The address is not a well-formed URL.
    URLInvalid,
    /// The user already has this feed.
    FeedAlreadyExists,
    /// Storing the feed failed.
    Unexpected,
}

/// What to do after the first address was fetched.
#[derive(Debug)]
pub enum AfterFirstFetch {
    /// The address was the feed itself.
    Feed(ParsedFeed),
    /// The address was a page linking to a feed: fetch it from here.
    FetchFeed(String),
}

/// First step of adding a feed: the absolute address to fetch.
pub fn feed_add_url(form: &FeedAddFormData) -> (r: Result<String, FeedAddError>)
    ensures
        match url_parse_of(spec_guess_input(form.url@)) {
            Some(u) => r matches Ok(v) && v@ == u,
            None => r == Err::<String, FeedAddError>(FeedAddError::URLInvalid),
        },
{
    match guess_url(form.url.clone()) {
        Ok(u) => Ok(u),
        Err(_) => Err(FeedAddError::URLInvalid),
    }
}

/// Second step, on what the first address returned: the feed, or the
/// address of the feed that the page links to.
pub fn feed_add_after_first_fetch(url: &str, body: &[u8]) -> (r: Result<AfterFirstFetch, FeedAddError>)
    ensures
        match spec_feed_of(body@) {
            Some(f) => r matches Ok(AfterFirstFetch::Feed(p)) && p.url@ == url@ && p.title@ == text_or_empty(
                f.title,
            ) && p.site_link@ == spec_site_link(f.links) && p.description@ == text_or_empty(f.description),
            None => match spec_found_feed_url(url@, body@) {
                Some(u) => r matches Ok(AfterFirstFetch::FetchFeed(v)) && v@ == u,
                None => r == Err::<AfterFirstFetch, FeedAddError>(FeedAddError::NoFeed),
            },
        },
{
    match find_feed(url, body) {
        Ok(FoundFeed::Raw(feed)) => Ok(AfterFirstFetch::Feed(ParsedFeed::from_raw_feed(url, &feed))),
        Ok(FoundFeed::Url(u)) => Ok(AfterFirstFetch::FetchFeed(u)),
        Err(_) => Err(FeedAddError::NoFeed),
    }
}

/// Third step where the page linked to a feed: the feed at `url`.
pub fn feed_add_after_feed_fetch(url: &str, body: &[u8]) -> (r: Result<ParsedFeed, FeedAddError>)
    ensures
        match spec_feed_of(body@) {
            Some(f) => r matches Ok(p) && p.url@ == url@ && p.title@ == text_or_empty(f.title)
                && p.site_link@ == spec_site_link(f.links) && p.description@ == text_or_empty(
                f.description,
            ),
            None => r == Err::<ParsedFeed, FeedAddError>(FeedAddError::URLNotAValidRSSFeed),
        },
{
    match ParsedFeed::parse(url, body) {
        Ok(p) => Ok(p),
        Err(_) => Err(FeedAddError::URLNotAValidRSSFeed),
    }
}

/// Last step: stores the feed for `user_id`, added at `now`, and queues its
/// FetchFavicon and RefreshFeed jobs. A job that cannot be queued does not
/// fail the addition.
pub fn feed_add_store(
    store: &mut FeedStore,
    jobs: &mut JobTable,
    user_id: UserId,
    feed: &ParsedFeed,
    now: i64,
) -> (r: Result<FeedId, FeedAddError>)
    requires
        store_wf(old(store)@),
        rows_wf(old(jobs)@),
    ensures
        store_wf(final(store)@),
        rows_wf(final(jobs)@),
        url_taken(old(store)@, user_id.0, feed.url@) ==> r == Err::<FeedId, FeedAddError>(
            FeedAddError::FeedAlreadyExists,
        ) && final(store)@ == old(store)@ && final(jobs)@ == old(jobs)@,
        !url_taken(old(store)@, user_id.0, feed.url@) && old(store)@.next_feed_id == i64::MAX ==> r
            == Err::<FeedId, FeedAddError>(FeedAddError::Unexpected) && final(store)@ == old(store)@
            && final(jobs)@ == old(jobs)@,
        !url_taken(old(store)@, user_id.0, feed.url@) && old(store)@.next_feed_id < i64::MAX ==> {
            let id = old(store)@.next_feed_id;
            let favicon_job = JobView::FetchFavicon {
                user_id: user_id.0,
                feed_id: id,
                site_link: feed.site_link@,
            };
            let refresh_job = JobView::RefreshFeed { user_id: user_id.0, feed_id: id, feed_url: feed.url@ };
            &&& r == Ok::<FeedId, FeedAddError>(FeedId(id))
            &&& final(store)@.feeds == old(store)@.feeds.push(
                FeedView {
                    id,
                    user_id: user_id.0,
                    url: feed.url@,
                    title: feed.title@,
                    site_link: feed.site_link@,
                    description: feed.description@,
                    site_favicon: None,
                    has_favicon: FaviconState::Unknown,
                    added_at: now,
                },
            )
            &&& final(store)@.entries == old(store)@.entries
            &&& exists|a: crate::ids::JobId, b: crate::ids::JobId|
                final(jobs)@ == spec_enqueue(spec_enqueue(old(jobs)@, favicon_job, a), refresh_job, b)
        },
{
    if store.feed_with_url_exists(user_id, feed.url.as_str()) {
        return Err(FeedAddError::FeedAlreadyExists);
    }
    let feed_id = match store.insert_feed(user_id, feed, now) {
        Ok(id) => id,
        Err(_) => return Err(FeedAddError::Unexpected),
    };
    let ghost j0 = jobs@;
    post_fetch_favicon_job(jobs, user_id, feed_id, feed.site_link.clone());
    let ghost j1 = jobs@;
    post_refresh_feed_job(jobs, user_id, feed_id, feed.url.clone());
    proof {
        let favicon_job = JobView::FetchFavicon {
            user_id: user_id.0,
            feed_id: feed_id.0,
            site_link: feed.site_link@,
        };
        let refresh_job = JobView::RefreshFeed { user_id: user_id.0, feed_id: feed_id.0, feed_url: feed.url@ };
        let a = choose|a: crate::ids::JobId| j1 == spec_enqueue(j0, favicon_job, a);
        let b = choose|b: crate::ids::JobId| jobs@ == spec_enqueue(j1, refresh_job, b);
        assert(jobs@ == spec_enqueue(spec_enqueue(j0, favicon_job, a), refresh_job, b));
    }
    Ok(feed_id)
}

/// The RefreshFeed job of a feed.
pub open spec fn refresh_job_of(f: FeedView) -> JobView {
    JobView::RefreshFeed { user_id: f.user_id, feed_id: f.id, feed_url: f.url }
}

/// The RefreshFeed jobs of `feeds`, in order.
pub open spec fn refresh_jobs(feeds: Seq<FeedView>) -> Seq<JobView> {
    feeds.map_values(|f: FeedView| refresh_job_of(f))
}

/// Whether `listing` lists exactly the feeds of `user`, newest first.
pub open spec fn lists_feeds_of(s: crate::feed_store::FeedStoreView, user: u128, listing: Seq<FeedView>) -> bool {
    &&& crate::feed_store::newest_first(listing)
    &&& listing.len() == crate::feed_store::feeds_of(s, user).len()
    &&& forall|m: int| 0 <= m < listing.len() ==> (#[trigger] listing[m]).user_id == user && s.feeds.contains(listing[m])
    &&& forall|k: int| 0 <= k < s.feeds.len() && (#[trigger] s.feeds[k]).user_id == user ==> listing.contains(s.feeds[k])
}

/// A manual refresh: queues a RefreshFeed job for each feed of `user_id`.
/// Returns what each enqueue did, feed by feed, newest feed first.
pub fn refresh_all_feeds(store: &FeedStore, jobs: &mut JobTable, user_id: UserId) -> (r: Vec<
    crate::queue::Enqueued,
>)
    requires
        rows_wf(old(jobs)@),
        store_wf(store@),
    ensures
        rows_wf(final(jobs)@),
        r@.len() == crate::feed_store::feeds_of(store@, user_id.0).len(),
        final(jobs)@.len() >= old(jobs)@.len(),
        final(jobs)@.take(old(jobs)@.len() as int) == old(jobs)@,
        exists|listing: Seq<FeedView>, ids: Seq<crate::ids::JobId>|
            lists_feeds_of(store@, user_id.0, listing) && ids.len() == listing.len() && r@.len() == listing.len()
                && final(jobs)@ == #[trigger] enqueue_all(old(jobs)@, refresh_jobs(listing), ids),
{
    let feeds = store.get_all_feeds(user_id);
    let ghost fv = feeds@.map_values(|f: crate::feed_store::Feed| f@);
    let ghost start = jobs@;
    let ghost rjobs = refresh_jobs(fv);
    let ghost mut ids: Seq<crate::ids::JobId> = Seq::empty();
    let mut results: Vec<crate::queue::Enqueued> = Vec::new();
    let mut i: usize = 0;
    assert(rjobs.take(0) =~= Seq::<JobView>::empty());
    while i < feeds.len()
        invariant
            rows_wf(jobs@),
            i <= feeds@.len(),
            fv == feeds@.map_values(|f: crate::feed_store::Feed| f@),
            results@.len() == i,
            rjobs == refresh_jobs(fv),
            ids.len() == i,
            jobs@ == enqueue_all(start, rjobs.take(i as int), ids),
            jobs@.len() >= start.len(),
            jobs@.take(start.len() as int) == start,
            start == old(jobs)@,
            forall|m: int|
                0 <= m < i && results@[m] != crate::queue::Enqueued::IdInUse ==> has_fingerprint(
                    jobs@,
                    refresh_job_of(#[trigger] fv[m]).fingerprint(),
                ),
        decreases feeds@.len() - i,
    {
        let feed = &feeds[i];
        assert(fv[i as int] == feed@);
        let ghost before = jobs@;
        let r = post_refresh_feed_job(jobs, feed.user_id, feed.id, feed.url.clone());
        proof {
            let id = choose|id: crate::ids::JobId| jobs@ == spec_enqueue(before, refresh_job_of(feed@), id);
            assert(rjobs.take(i as int + 1).drop_last() =~= rjobs.take(i as int));
            assert(ids.push(id).drop_last() =~= ids);
            assert(rjobs.take(i as int + 1).last() == refresh_job_of(feed@));
            assert(jobs@ == enqueue_all(start, rjobs.take(i as int + 1), ids.push(id)));
            ids = ids.push(id);
            let after = jobs@;
            assert(forall|k: int| 0 <= k < before.len() ==> after[k] == before[k]);
            assert(after.take(start.len() as int) =~= start) by {
                assert(before.take(start.len() as int) == start);
            }
            assert forall|m: int|
                0 <= m < i + 1 && #[trigger] results@.push(r)[m] != crate::queue::Enqueued::IdInUse implies has_fingerprint(
                after,
                refresh_job_of(fv[m]).fingerprint(),
            ) by {
                if m < i {
                    let f = refresh_job_of(fv[m]).fingerprint();
                    let x = choose|x: int| 0 <= x < before.len() && #[trigger] before[x].fingerprint == f;
                    assert(after[x] == before[x]);
                }
            }
        }
        results.push(r);
        i = i + 1;
    }
    proof {
        assert(rjobs.take(i as int) =~= rjobs);
        assert(lists_feeds_of(store@, user_id.0, fv));
    }
    results
}

} // verus!
