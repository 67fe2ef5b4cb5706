use crate::feed::{entry_key, first_url, spec_author, text_or_empty, RawEntryView, RawPersonView, find_favicon, spec_find_favicon, ParsedFeedEntry, RawFeed, RawFeedView, spec_feed_of};
use crate::feed_store::{texts_view, FeedEntryView, 
    entry_held, external_ids, feed_exists, owns, store_wf, user_holds, FaviconState, FeedStore,
    FeedStoreView,
};
use crate::job::{FetchFaviconJobData, RefreshFeedJobData};
use crate::urls::{join, url_join_of};
use vstd::prelude::*;

verus! {

/// Why a job handler failed; the job is retried on a later tick.
#[derive(Clone, Copy, Debug, PartialEq, Eq, Structural)]
pub enum HandlerError {
    /// The fetched data is not a feed.
    NotAFeed,
    /// The job's feed no longer exists.
    NoSuchFeed,
    /// The store has no ids left for the new entries.
    IdsExhausted,
    /// The site link does not resolve the conventional favicon address.
    InvalidFaviconUrl,
}

/// Whether a feed of `user` other than `feed_id` has an entry with the
/// external id `ext`.
pub open spec fn held_elsewhere(s: FeedStoreView, user: u128, feed_id: i64, ext: Seq<char>) -> bool {
    exists|i: int|
        0 <= i < s.entries.len() && #[trigger] s.entries[i].external_id == ext && s.entries[i].feed_id
            != feed_id && owns(s, user, s.entries[i].feed_id)
}

/// The external ids of the entries of `feed` that no other feed of `user` holds.
pub open spec fn new_external_ids(s: FeedStoreView, user: u128, feed_id: i64, feed: RawFeedView, n: int) -> Set<
    Seq<char>,
> {
    Set::new(
        |e: Seq<char>|
            exists|k: int|
                0 <= k < n && #[trigger] entry_key(feed.entries[k]) == e && !held_elsewhere(s, user, feed_id, e),
    )
}

/// What a refresh changes in the store: the feeds stay; entries are only
/// added, all to the refreshed feed, whose external ids become the old ones
/// and those of the source that no other feed of the user holds.
pub open spec fn refreshed(old: FeedStoreView, new: FeedStoreView, user: u128, feed_id: i64, feed: RawFeedView) -> bool {
    &&& new.feeds == old.feeds
    &&& new.next_feed_id == old.next_feed_id
    &&& new.next_entry_id <= old.next_entry_id + feed.entries.len()
    &&& new.entries.len() >= old.entries.len()
    &&& new.entries.take(old.entries.len() as int) == old.entries
    &&& forall|k: int| old.entries.len() <= k < new.entries.len() ==> (#[trigger] new.entries[k]).feed_id == feed_id
    &&& external_ids(new, feed_id) == external_ids(old, feed_id).union(
        new_external_ids(old, user, feed_id, feed, feed.entries.len() as int),
    )
}

proof fn lemma_held_elsewhere_kept(old: FeedStoreView, cur: FeedStoreView, user: u128, feed_id: i64, e: Seq<char>)
    requires
        cur.feeds == old.feeds,
        cur.entries.len() >= old.entries.len(),
        cur.entries.take(old.entries.len() as int) == old.entries,
        forall|k: int| old.entries.len() <= k < cur.entries.len() ==> (#[trigger] cur.entries[k]).feed_id == feed_id,
    ensures
        held_elsewhere(cur, user, feed_id, e) == held_elsewhere(old, user, feed_id, e),
{
    if held_elsewhere(cur, user, feed_id, e) {
        let i = choose|i: int|
            0 <= i < cur.entries.len() && #[trigger] cur.entries[i].external_id == e && cur.entries[i].feed_id
                != feed_id && owns(cur, user, cur.entries[i].feed_id);
        assert(i < old.entries.len());
        assert(old.entries[i] == cur.entries.take(old.entries.len() as int)[i]);
        let j = choose|j: int| 0 <= j < cur.feeds.len() && #[trigger] cur.feeds[j].id == cur.entries[i].feed_id
            && cur.feeds[j].user_id == user;
        assert(old.feeds[j].id == old.entries[i].feed_id);
    }
    if held_elsewhere(old, user, feed_id, e) {
        let i = choose|i: int|
            0 <= i < old.entries.len() && #[trigger] old.entries[i].external_id == e && old.entries[i].feed_id
                != feed_id && owns(old, user, old.entries[i].feed_id);
        assert(old.entries[i] == cur.entries.take(old.entries.len() as int)[i]);
        assert(cur.entries[i] == old.entries[i]);
        let j = choose|j: int| 0 <= j < old.feeds.len() && #[trigger] old.feeds[j].id == old.entries[i].feed_id
            && old.feeds[j].user_id == user;
        assert(cur.feeds[j].id == cur.entries[i].feed_id);
        assert(cur.entries[i].external_id == e);
    }
}

/// Whether a user holds `e`: through another feed, or through `feed_id`
/// itself where it is theirs.
proof fn lemma_user_holds_split(s: FeedStoreView, user: u128, feed_id: i64, e: Seq<char>)
    ensures
        user_holds(s, user, e) == (held_elsewhere(s, user, feed_id, e) || (owns(s, user, feed_id)
            && entry_held(s, feed_id, e))),
{
    if user_holds(s, user, e) {
        let i = choose|i: int|
            0 <= i < s.entries.len() && #[trigger] s.entries[i].external_id == e && owns(s, user, s.entries[i].feed_id);
        if s.entries[i].feed_id == feed_id {
            assert(entry_held(s, feed_id, e));
        }
    }
    if owns(s, user, feed_id) && entry_held(s, feed_id, e) {
        let i = choose|i: int|
            0 <= i < s.entries.len() && #[trigger] s.entries[i].feed_id == feed_id && s.entries[i].external_id == e;
        assert(s.entries[i].external_id == e);
    }
}

/// The row that ingestion stores for the source entry `e`.
pub open spec fn ingested_entry(id: i64, feed_id: i64, e: RawEntryView, now: i64) -> FeedEntryView {
    FeedEntryView {
        id,
        feed_id,
        external_id: entry_key(e),
        url: first_url(e.links),
        title: text_or_empty(e.title),
        summary: text_or_empty(e.summary),
        created_at: now,
        authors: e.authors.map_values(|p: RawPersonView| spec_author(p)),
        read_at: None,
    }
}

/// Every row added from `old` to `new` is the row stored, at `now`, for one
/// of the entries of `f`.
pub open spec fn added_from(old: FeedStoreView, new: FeedStoreView, feed_id: i64, f: RawFeedView, now: i64) -> bool {
    forall|k: int|
        old.entries.len() <= k < new.entries.len() ==> exists|j: int|
            0 <= j < f.entries.len() && #[trigger] new.entries[k] == ingested_entry(
                new.entries[k].id,
                feed_id,
                f.entries[j],
                now,
            )
}

/// What ingesting the entries of `f` into the feed `feed_id` of `user` does,
/// by its result `r`.
pub open spec fn ingest_outcome(
    old: FeedStoreView,
    new: FeedStoreView,
    user: u128,
    feed_id: i64,
    f: RawFeedView,
    now: i64,
    r: Result<(), HandlerError>,
) -> bool {
    if !feed_exists(old, feed_id) {
        r == Err::<(), HandlerError>(HandlerError::NoSuchFeed) && new == old
    } else if !(old.next_entry_id + f.entries.len() < i64::MAX) {
        r == Err::<(), HandlerError>(HandlerError::IdsExhausted) && new == old
    } else {
        &&& r == Ok::<(), HandlerError>(())
        &&& refreshed(old, new, user, feed_id, f)
        &&& added_from(old, new, feed_id, f, now)
        &&& (forall|k: int| 0 <= k < f.entries.len() ==> user_holds(old, user, #[trigger] entry_key(f.entries[k])))
            ==> new == old
    }
}

/// The RefreshFeed job on the data fetched from the feed's URL: parses it as
/// a feed, then ingests its entries.
pub fn run_refresh_feed_job(store: &mut FeedStore, data: &RefreshFeedJobData, body: &[u8], now: i64) -> (r: Result<
    (),
    HandlerError,
>)
    requires
        store_wf(old(store)@),
    ensures
        store_wf(final(store)@),
        match spec_feed_of(body@) {
            None => r == Err::<(), HandlerError>(HandlerError::NotAFeed) && final(store)@ == old(store)@,
            Some(f) => ingest_outcome(old(store)@, final(store)@, data.user_id.0, data.feed_id.0, f, now, r),
        },
{
    let feed = match RawFeed::parse(body) {
        Ok(f) => f,
        Err(_) => return Err(HandlerError::NotAFeed),
    };
    ingest_feed_entries(store, data, &feed, now)
}

/// Stores, at time `now`, each entry of `feed` whose key no feed of the
/// job's user holds yet, as an entry of the job's feed.
pub fn ingest_feed_entries(store: &mut FeedStore, data: &RefreshFeedJobData, feed: &RawFeed, now: i64) -> (r: Result<
    (),
    HandlerError,
>)
    requires
        store_wf(old(store)@),
    ensures
        store_wf(final(store)@),
        ingest_outcome(old(store)@, final(store)@, data.user_id.0, data.feed_id.0, feed@, now, r),
{
    if !store.has_feed(data.feed_id) {
        return Err(HandlerError::NoSuchFeed);
    }
    if !store.has_entry_ids_for(feed.entries.len()) {
        return Err(HandlerError::IdsExhausted);
    }
    let ghost old_s = store@;
    let ghost fv = feed@;
    let ghost user = data.user_id.0;
    let ghost fid = data.feed_id.0;
    let mut i: usize = 0;
    assert(external_ids(store@, fid) =~= external_ids(old_s, fid).union(
        new_external_ids(old_s, user, fid, fv, 0),
    ));
    while i < feed.entries.len()
        invariant
            store_wf(store@),
            store_wf(old_s),
            fv == feed@,
            feed_exists(old_s, fid),
            user == data.user_id.0,
            fid == data.feed_id.0,
            i <= feed.entries@.len(),
            store@.next_entry_id <= old_s.next_entry_id + i,
            old_s.next_entry_id + fv.entries.len() < i64::MAX,
            store@.feeds == old_s.feeds,
            store@.next_feed_id == old_s.next_feed_id,
            store@.entries.len() >= old_s.entries.len(),
            store@.entries.take(old_s.entries.len() as int) == old_s.entries,
            forall|k: int|
                old_s.entries.len() <= k < store@.entries.len() ==> exists|j: int|
                    0 <= j < i && #[trigger] store@.entries[k] == ingested_entry(
                        store@.entries[k].id,
                        fid,
                        fv.entries[j],
                        now,
                    ),
            forall|k: int| old_s.entries.len() <= k < store@.entries.len() ==> (#[trigger] store@.entries[k]).feed_id == fid,
            external_ids(store@, fid) == external_ids(old_s, fid).union(
                new_external_ids(old_s, user, fid, fv, i as int),
            ),
            (forall|k: int| 0 <= k < fv.entries.len() ==> user_holds(old_s, user, #[trigger] entry_key(fv.entries[k])))
                ==> store@ == old_s,
        decreases feed.entries@.len() - i,
    {
        let entry = ParsedFeedEntry::from_raw_feed_entry(&feed.entries[i]);
        let ghost e = entry_key(fv.entries[i as int]);
        assert(entry.external_id@ == e);
        let ghost cur = store@;
        proof {
            lemma_held_elsewhere_kept(old_s, cur, user, fid, e);
            lemma_user_holds_split(cur, user, fid, e);
            if owns(cur, user, fid) != owns(old_s, user, fid) {
                assert(cur.feeds == old_s.feeds);
            }
        }
        if !store.entry_with_external_id_exists(data.user_id, entry.external_id.as_str()) {
            let ghost before = store@;
            let inserted = store.insert_entry(data.feed_id, &entry, now);
            proof {
                let after = store@;
                let ghost_e = fv.entries[i as int];
                assert(texts_view(entry.authors@) =~= ghost_e.authors.map_values(|p: RawPersonView| spec_author(p)));
                assert forall|k: int| old_s.entries.len() <= k < after.entries.len() implies exists|j: int|
                    0 <= j < i + 1 && #[trigger] after.entries[k] == ingested_entry(
                        after.entries[k].id,
                        fid,
                        fv.entries[j],
                        now,
                    ) by {
                    if k < before.entries.len() {
                        assert(after.entries[k] == before.entries[k]);
                        let j = choose|j: int|
                            0 <= j < i && #[trigger] before.entries[k] == ingested_entry(
                                before.entries[k].id,
                                fid,
                                fv.entries[j],
                                now,
                            );
                        assert(after.entries[k] == ingested_entry(after.entries[k].id, fid, fv.entries[j], now));
                    } else {
                        assert(after.entries[k] == ingested_entry(after.entries[k].id, fid, fv.entries[i as int], now));
                    }
                }
            }
            proof {
                let after = store@;
                assert(inserted is Ok);
                assert(after.entries.take(old_s.entries.len() as int) =~= old_s.entries) by {
                    assert(before.entries.take(old_s.entries.len() as int) == old_s.entries);
                }
                assert(entry_held(after, fid, e)) by {
                    if !entry_held(before, fid, e) {
                        assert(after.entries[before.entries.len() as int].external_id == e);
                        assert(after.entries[before.entries.len() as int].feed_id == fid);
                    } else {
                        let j = choose|j: int|
                            0 <= j < before.entries.len() && #[trigger] before.entries[j].feed_id == fid
                                && before.entries[j].external_id == e;
                        assert(after.entries[j] == before.entries[j]);
                    }
                }
                assert forall|x: Seq<char>| external_ids(after, fid).contains(x) == (external_ids(before, fid).contains(x)
                    || x == e) by {
                    if entry_held(after, fid, x) && x != e {
                        let j = choose|j: int|
                            0 <= j < after.entries.len() && #[trigger] after.entries[j].feed_id == fid
                                && after.entries[j].external_id == x;
                        assert(j < before.entries.len());
                        assert(before.entries[j] == after.entries[j]);
                    }
                    if entry_held(before, fid, x) {
                        let j = choose|j: int|
                            0 <= j < before.entries.len() && #[trigger] before.entries[j].feed_id == fid
                                && before.entries[j].external_id == x;
                        assert(after.entries[j] == before.entries[j]);
                    }
                }
                assert(external_ids(after, fid) =~= external_ids(old_s, fid).union(
                    new_external_ids(old_s, user, fid, fv, i as int + 1),
                )) by {
                    assert(new_external_ids(old_s, user, fid, fv, i as int + 1).contains(e));
                    assert forall|x: Seq<char>| new_external_ids(old_s, user, fid, fv, i as int + 1).contains(x)
                        == (new_external_ids(old_s, user, fid, fv, i as int).contains(x) || x == e) by {
                        if new_external_ids(old_s, user, fid, fv, i as int + 1).contains(x) && x != e {
                            let k = choose|k: int|
                                0 <= k < i + 1 && #[trigger] entry_key(fv.entries[k]) == x && !held_elsewhere(old_s, user, fid, x);
                            assert(k < i);
                        }
                    }
                }
                if forall|k: int| 0 <= k < fv.entries.len() ==> user_holds(old_s, user, #[trigger] entry_key(fv.entries[k])) {
                    assert(user_holds(old_s, user, entry_key(fv.entries[i as int])));
                }
            }
        } else {
            proof {
                assert(external_ids(store@, fid) =~= external_ids(old_s, fid).union(
                    new_external_ids(old_s, user, fid, fv, i as int + 1),
                )) by {
                    assert forall|x: Seq<char>| new_external_ids(old_s, user, fid, fv, i as int + 1).contains(x)
                        implies external_ids(store@, fid).contains(x) by {
                        if !new_external_ids(old_s, user, fid, fv, i as int).contains(x) {
                            let k = choose|k: int|
                                0 <= k < i + 1 && #[trigger] entry_key(fv.entries[k]) == x && !held_elsewhere(old_s, user, fid, x);
                            assert(k == i);
                        }
                    }
                    assert forall|x: Seq<char>| new_external_ids(old_s, user, fid, fv, i as int).contains(x)
                        implies new_external_ids(old_s, user, fid, fv, i as int + 1).contains(x) by {
                        let k = choose|k: int|
                            0 <= k < i && #[trigger] entry_key(fv.entries[k]) == x && !held_elsewhere(old_s, user, fid, x);
                    }
                }
            }
        }
        i = i + 1;
    }
    Ok(())
}

/// Refreshing again from the same source changes nothing: after one
/// successful ingestion into a feed of the user, every entry's key is held by
/// the user, so a second ingestion of the same entries leaves the store as it
/// was. It succeeds unless the ids ran out, which room for twice the entries
/// rules out.
pub proof fn lemma_second_refresh_is_a_no_op(
    s0: FeedStoreView,
    s1: FeedStoreView,
    s2: FeedStoreView,
    user: u128,
    feed_id: i64,
    f: RawFeedView,
    now1: i64,
    now2: i64,
    r2: Result<(), HandlerError>,
)
    requires
        owns(s0, user, feed_id),
        ingest_outcome(s0, s1, user, feed_id, f, now1, Ok(())),
        ingest_outcome(s1, s2, user, feed_id, f, now2, r2),
    ensures
        s2 == s1,
        r2 is Ok || r2 == Err::<(), HandlerError>(HandlerError::IdsExhausted),
        s0.next_entry_id + 2 * f.entries.len() < i64::MAX ==> r2 is Ok,
{
    assert(feed_exists(s0, feed_id));
    assert(owns(s1, user, feed_id));
    assert forall|k: int| 0 <= k < f.entries.len() implies user_holds(s1, user, #[trigger] entry_key(f.entries[k])) by {
        let e = entry_key(f.entries[k]);
        lemma_held_elsewhere_kept(s0, s1, user, feed_id, e);
        lemma_user_holds_split(s1, user, feed_id, e);
        if !held_elsewhere(s0, user, feed_id, e) {
            assert(new_external_ids(s0, user, feed_id, f, f.entries.len() as int).contains(e));
            assert(external_ids(s1, feed_id).contains(e));
        }
    }
}

/// The deduplication keys of the entries of a parsed feed.
pub open spec fn source_ids(feed: RawFeedView) -> Set<Seq<char>> {
    Set::new(|e: Seq<char>| exists|k: int| 0 <= k < feed.entries.len() && #[trigger] entry_key(feed.entries[k]) == e)
}

/// Entry dedup: where no other feed of the user holds the source's external
/// ids, a refresh leaves the feed with exactly its old external ids and those
/// of the source; and two refreshes in a row leave it with the union of all
/// three, whatever ids the sources share.
pub proof fn lemma_refresh_entry_dedup(
    s0: FeedStoreView,
    s1: FeedStoreView,
    s2: FeedStoreView,
    user: u128,
    feed_id: i64,
    f1: RawFeedView,
    f2: RawFeedView,
)
    requires
        refreshed(s0, s1, user, feed_id, f1),
        refreshed(s1, s2, user, feed_id, f2),
        forall|e: Seq<char>| !held_elsewhere(s0, user, feed_id, e),
    ensures
        external_ids(s1, feed_id) == external_ids(s0, feed_id).union(source_ids(f1)),
        external_ids(s2, feed_id) == external_ids(s0, feed_id).union(source_ids(f1)).union(source_ids(f2)),
{
    assert(new_external_ids(s0, user, feed_id, f1, f1.entries.len() as int) =~= source_ids(f1));
    assert forall|e: Seq<char>| !held_elsewhere(s1, user, feed_id, e) by {
        lemma_held_elsewhere_kept(s0, s1, user, feed_id, e);
    }
    assert(new_external_ids(s1, user, feed_id, f2, f2.entries.len() as int) =~= source_ids(f2));
}

/// Where the favicon is fetched from.
#[derive(Clone, Debug)]
pub enum FaviconSource {
    /// The address the site's page links to.
    Linked(String),
    /// The conventional `/favicon.ico` of the site.
    Fallback(String),
}

pub open spec fn favicon_path() -> Seq<char> {
    seq!['/', 'f', 'a', 'v', 'i', 'c', 'o', 'n', '.', 'i', 'c', 'o']
}

/// First step of the FetchFavicon job, once the site's page was fetched
/// (`None` where fetching it failed): the favicon the page links to, else
/// the conventional address on the site.
pub fn favicon_source(site_link: &str, page: Option<&[u8]>) -> (r: Result<FaviconSource, HandlerError>)
    ensures
        match (if page is Some { spec_find_favicon(site_link@, page.unwrap()@) } else { None }) {
            Some(u) => r matches Ok(FaviconSource::Linked(v)) && v@ == u,
            None => match url_join_of(site_link@, favicon_path()) {
                Some(u) => r matches Ok(FaviconSource::Fallback(v)) && v@ == u,
                None => r == Err::<FaviconSource, HandlerError>(HandlerError::InvalidFaviconUrl),
            },
        },
{
    if let Some(data) = page {
        if let Some(u) = find_favicon(site_link, data) {
            return Ok(FaviconSource::Linked(u));
        }
    }
    proof {
        reveal_strlit("/favicon.ico");
    }
    assert("/favicon.ico"@ =~= favicon_path());
    match join(site_link, "/favicon.ico") {
        Ok(u) => Ok(FaviconSource::Fallback(u)),
        Err(_) => Err(HandlerError::InvalidFaviconUrl),
    }
}

/// What to store once the favicon's address answered: a linked favicon is
/// taken as it comes; the conventional one only from a successful response.
pub open spec fn spec_favicon_to_store(source: FaviconSource, success: bool, body: Seq<u8>) -> Option<Seq<u8>> {
    match source {
        FaviconSource::Linked(_) => Some(body),
        FaviconSource::Fallback(_) => if success {
            Some(body)
        } else {
            None
        },
    }
}

/// Last step of the FetchFavicon job: stores what the favicon's address
/// answered, or records that the feed has no favicon. Either way the feed's
/// favicon flag leaves `Unknown`.
pub fn finish_fetch_favicon(
    store: &mut FeedStore,
    data: &FetchFaviconJobData,
    source: &FaviconSource,
    success: bool,
    body: Vec<u8>,
)
    requires
        store_wf(old(store)@),
    ensures
        store_wf(final(store)@),
        final(store)@.entries == old(store)@.entries,
        !feed_exists(old(store)@, data.feed_id.0) ==> final(store)@ == old(store)@,
        feed_exists(old(store)@, data.feed_id.0) ==> final(store)@.feeds == old(store)@.feeds.update(
            crate::feed_store::feed_index(old(store)@, data.feed_id.0),
            crate::feed_store::FeedView {
                site_favicon: spec_favicon_to_store(*source, success, body@),
                has_favicon: if spec_favicon_to_store(*source, success, body@) is Some {
                    FaviconState::Present
                } else {
                    FaviconState::Absent
                },
                ..old(store)@.feeds[crate::feed_store::feed_index(old(store)@, data.feed_id.0)]
            },
        ),
{
    let favicon = match source {
        FaviconSource::Linked(_) => Some(body),
        FaviconSource::Fallback(_) => if success {
            Some(body)
        } else {
            None
        },
    };
    store.set_favicon(data.feed_id, favicon);
}

/// Favicon progress: once the FetchFavicon job finishes, its feed's favicon
/// flag is no longer `Unknown`.
pub proof fn lemma_favicon_flag_leaves_unknown(
    old: FeedStoreView,
    new: FeedStoreView,
    feed_id: i64,
    stored: Option<Seq<u8>>,
)
    requires
        store_wf(old),
        feed_exists(old, feed_id),
        new.feeds == old.feeds.update(
            crate::feed_store::feed_index(old, feed_id),
            crate::feed_store::FeedView {
                site_favicon: stored,
                has_favicon: if stored is Some {
                    FaviconState::Present
                } else {
                    FaviconState::Absent
                },
                ..old.feeds[crate::feed_store::feed_index(old, feed_id)]
            },
        ),
    ensures
        forall|i: int|
            0 <= i < new.feeds.len() && #[trigger] new.feeds[i].id == feed_id ==> new.feeds[i].has_favicon
                != FaviconState::Unknown,
{
    let j = crate::feed_store::feed_index(old, feed_id);
    assert forall|i: int| 0 <= i < new.feeds.len() && #[trigger] new.feeds[i].id == feed_id implies new.feeds[i].has_favicon
        != FaviconState::Unknown by {
        if i != j {
            assert(old.feeds[i].id == feed_id);
            assert(old.feeds[j].id == feed_id);
        }
    }
}

} // verus!
