use crate::feed_store::{owns, store_wf, Feed, FeedEntry, FeedStore, FeedStoreView};
use crate::ids::{FeedEntryId, FeedId, UserId};
use vstd::prelude::*;

verus! {

/// Why a feed's entry list cannot be shown.
#[derive(Clone, Copy, Debug, PartialEq, Eq, Structural)]
pub enum FeedEntriesError {
    /// The user has no such feed.
    NotFound,
}

/// Why an entry cannot be shown.
#[derive(Clone, Copy, Debug, PartialEq, Eq, Structural)]
pub enum FeedEntryError {
    /// The user has no such feed.
    FeedNotFound,
    /// The feed has no such entry.
    EntryNotFound,
}

/// Whether the feed `feed_id` has the entry `entry_id`.
pub open spec fn has_entry(s: FeedStoreView, feed_id: i64, entry_id: i64) -> bool {
    exists|i: int|
        0 <= i < s.entries.len() && #[trigger] s.entries[i].id == entry_id && s.entries[i].feed_id == feed_id
}

/// A feed of the user and its entries, for the feed's page.
pub fn feed_with_entries(store: &FeedStore, user_id: UserId, feed_id: FeedId) -> (r: Result<
    (Feed, Vec<FeedEntry>),
    FeedEntriesError,
>)
    requires
        store_wf(store@),
    ensures
        !owns(store@, user_id.0, feed_id.0) ==> r == Err::<(Feed, Vec<FeedEntry>), FeedEntriesError>(
            FeedEntriesError::NotFound,
        ),
        owns(store@, user_id.0, feed_id.0) ==> (r matches Ok((f, es)) && f@.id == feed_id.0
            && f@.user_id == user_id.0 && store@.feeds.contains(f@) && es@.map_values(|e: FeedEntry| e@)
            == crate::feed_store::entries_of(store@, feed_id.0)),
{
    match store.get_feed(user_id, feed_id) {
        Some(feed) => {
            let entries = store.get_feed_entries(user_id, feed_id);
            Ok((feed, entries))
        },
        None => Err(FeedEntriesError::NotFound),
    }
}

/// An entry of a feed of the user, for the entry's page; the entry is
/// recorded as read at `now`.
pub fn open_feed_entry(
    store: &mut FeedStore,
    user_id: UserId,
    feed_id: FeedId,
    entry_id: FeedEntryId,
    now: i64,
) -> (r: Result<(Feed, FeedEntry), FeedEntryError>)
    requires
        store_wf(old(store)@),
    ensures
        store_wf(final(store)@),
        !owns(old(store)@, user_id.0, feed_id.0) ==> r == Err::<(Feed, FeedEntry), FeedEntryError>(
            FeedEntryError::FeedNotFound,
        ) && final(store)@ == old(store)@,
        owns(old(store)@, user_id.0, feed_id.0) && !has_entry(old(store)@, feed_id.0, entry_id.0) ==> r
            == Err::<(Feed, FeedEntry), FeedEntryError>(FeedEntryError::EntryNotFound) && final(store)@
            == old(store)@,
        owns(old(store)@, user_id.0, feed_id.0) && has_entry(old(store)@, feed_id.0, entry_id.0) ==> {
            &&& (r matches Ok((f, e)) && f@.id == feed_id.0 && f@.user_id == user_id.0
                && old(store)@.feeds.contains(f@) && e@.id == entry_id.0 && e@.feed_id == feed_id.0
                && old(store)@.entries.contains(e@))
            &&& final(store)@.feeds == old(store)@.feeds
            &&& forall|i: int|
                0 <= i < old(store)@.entries.len() ==> #[trigger] final(store)@.entries[i] == if old(
                    store,
                )@.entries[i].id == entry_id.0 {
                    crate::feed_store::FeedEntryView { read_at: Some(now), ..old(store)@.entries[i] }
                } else {
                    old(store)@.entries[i]
                }
            &&& final(store)@.entries.len() == old(store)@.entries.len()
        },
{
    let feed = match store.get_feed(user_id, feed_id) {
        Some(f) => f,
        None => return Err(FeedEntryError::FeedNotFound),
    };
    let entry = match store.get_feed_entry(user_id, feed_id, entry_id) {
        Some(e) => e,
        None => return Err(FeedEntryError::EntryNotFound),
    };
    let ghost before = store@;
    store.mark_feed_entry_as_read(user_id, feed_id, entry_id, now);
    proof {
        let i0 = choose|i: int|
            0 <= i < before.entries.len() && #[trigger] before.entries[i].id == entry_id.0
                && before.entries[i].feed_id == feed_id.0;
        assert forall|i: int| 0 <= i < before.entries.len() && before.entries[i].id == entry_id.0 implies before.entries[i].feed_id
            == feed_id.0 by {
            if i != i0 {
                assert(before.entries[i].id != before.entries[i0].id);
            }
        }
    }
    Ok((feed, entry))
}

/// The author shown for an entry: its first author, or nothing.
pub fn first_author(entry: &FeedEntry) -> (r: String)
    ensures
        entry@.authors.len() > 0 ==> r@ == entry@.authors[0],
        entry@.authors.len() == 0 ==> r@ == Seq::<char>::empty(),
{
    if entry.authors.len() > 0 {
        entry.authors[0].clone()
    } else {
        String::new()
    }
}

} // verus!
