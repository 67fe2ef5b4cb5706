use servare::feed::ParsedFeed;
use servare::feed_add::{
    feed_add_after_feed_fetch, feed_add_after_first_fetch, feed_add_store, feed_add_url,
    refresh_all_feeds, AfterFirstFetch, FeedAddError, FeedAddFormData,
};
use servare::feed_store::{FaviconState, FeedStore, StoreError};
use servare::feed::{RawEntry, RawFeed};
use servare::handlers::{favicon_source, finish_fetch_favicon, ingest_feed_entries, run_refresh_feed_job, FaviconSource, HandlerError};
use servare::ids::{FeedEntryId, FeedId, UserId};
use servare::job::{FetchFaviconJobData, Job, RefreshFeedJobData};
use servare::queue::JobTable;
use servare::reading::{feed_with_entries, first_author, open_feed_entry, FeedEntriesError, FeedEntryError};
use servare::runner::{create_fetch_favicons_jobs, MANAGE_JOBS_LIMIT};

fn parsed(url: &str, site_link: &str) -> ParsedFeed {
    ParsedFeed {
        url: url.to_string(),
        title: "Blog on Tailscale".to_string(),
        site_link: site_link.to_string(),
        description: "Recent content in Blog on Tailscale".to_string(),
    }
}

fn rss(ids: &[&str]) -> String {
    let items: String = ids
        .iter()
        .map(|id| format!("<item><guid>{}</guid><title>t{}</title></item>", id, id))
        .collect();
    format!(
        "<rss version=\"2.0\"><channel><title>T</title><link>https://example.com/</link><description>D</description>{}</channel></rss>",
        items
    )
}

fn external_ids(store: &FeedStore, user: UserId, feed: FeedId) -> Vec<String> {
    let mut ids: Vec<String> = store
        .get_feed_entries(user, feed)
        .into_iter()
        .map(|e| e.external_id)
        .collect();
    ids.sort();
    ids
}

#[test]
fn insert_feed_rejects_a_second_feed_with_the_same_url() {
    let mut store = FeedStore::new();
    let user = UserId(1);
    let id = store.insert_feed(user, &parsed("http://server/xml_feed1", "https://tailscale.com/blog/"), 10).unwrap();
    assert_eq!(id, FeedId(1));
    assert!(store.feed_with_url_exists(user, "http://server/xml_feed1"));
    assert!(!store.feed_with_url_exists(UserId(2), "http://server/xml_feed1"));
    assert_eq!(
        store.insert_feed(user, &parsed("http://server/xml_feed1", ""), 11),
        Err(StoreError::FeedExists)
    );
    let other = store.insert_feed(UserId(2), &parsed("http://server/xml_feed1", ""), 12).unwrap();
    assert_eq!(other, FeedId(2));
}

#[test]
fn foreign_rows_are_not_found() {
    let mut store = FeedStore::new();
    let owner = UserId(1);
    let stranger = UserId(2);
    let feed = store.insert_feed(owner, &parsed("http://server/feed", "https://example.com/"), 1).unwrap();
    run_refresh_feed_job(
        &mut store,
        &RefreshFeedJobData { user_id: owner, feed_id: feed, feed_url: "http://server/feed".to_string() },
        rss(&["e1"]).as_bytes(),
        2,
    )
    .unwrap();
    store.set_favicon(feed, Some(vec![1, 2, 3]));

    let got = store.get_feed(owner, feed).unwrap();
    assert_eq!(got.user_id, owner);
    assert_eq!(got.title, "Blog on Tailscale");
    assert!(store.get_feed(stranger, feed).is_none());
    assert_eq!(store.get_all_feeds(stranger).len(), 0);
    assert_eq!(store.get_feed_entries(stranger, feed).len(), 0);
    assert_eq!(store.get_feed_entries(owner, feed).len(), 1);
    assert!(store.get_feed_entry(stranger, feed, FeedEntryId(1)).is_none());
    assert!(store.get_feed_entry(owner, feed, FeedEntryId(1)).is_some());
    assert!(store.get_feed_favicon(stranger, feed).is_none());
    assert_eq!(store.get_feed_favicon(owner, feed), Some(vec![1, 2, 3]));
    assert_eq!(store.get_unread_entries(stranger).len(), 0);
    assert!(!store.entry_with_external_id_exists(stranger, "e1"));
    assert!(store.entry_with_external_id_exists(owner, "e1"));
}

#[test]
fn all_feeds_are_listed_newest_first() {
    let mut store = FeedStore::new();
    let user = UserId(1);
    store.insert_feed(user, &parsed("http://a/", ""), 20).unwrap();
    store.insert_feed(user, &parsed("http://b/", ""), 30).unwrap();
    store.insert_feed(user, &parsed("http://c/", ""), 10).unwrap();
    store.insert_feed(UserId(2), &parsed("http://d/", ""), 40).unwrap();
    let urls: Vec<String> = store.get_all_feeds(user).into_iter().map(|f| f.url).collect();
    assert_eq!(urls, vec!["http://b/", "http://a/", "http://c/"]);
}

#[test]
fn insert_entry_is_a_no_op_for_a_known_external_id() {
    let mut store = FeedStore::new();
    let feed = store.insert_feed(UserId(1), &parsed("http://a/", ""), 1).unwrap();
    let entry = servare::feed::ParsedFeedEntry {
        external_id: "e1".to_string(),
        url: None,
        title: "t".to_string(),
        summary: "s".to_string(),
        authors: vec![],
    };
    assert_eq!(store.insert_entry(feed, &entry, 2), Ok(true));
    assert_eq!(store.insert_entry(feed, &entry, 3), Ok(false));
    assert_eq!(store.insert_entry(FeedId(99), &entry, 3), Err(StoreError::NoSuchFeed));
    assert_eq!(store.get_feed_entries(UserId(1), feed).len(), 1);
}

#[test]
fn refresh_dedups_entries_by_external_id() {
    let mut store = FeedStore::new();
    let user = UserId(1);
    let feed = store.insert_feed(user, &parsed("http://server/feed", ""), 1).unwrap();
    let data = RefreshFeedJobData { user_id: user, feed_id: feed, feed_url: "http://server/feed".to_string() };

    run_refresh_feed_job(&mut store, &data, rss(&["e1"]).as_bytes(), 2).unwrap();
    assert_eq!(external_ids(&store, user, feed), vec!["e1"]);
    run_refresh_feed_job(&mut store, &data, rss(&["e1", "e2"]).as_bytes(), 3).unwrap();
    assert_eq!(external_ids(&store, user, feed), vec!["e1", "e2"]);
    run_refresh_feed_job(&mut store, &data, rss(&["e1", "e2", "e3"]).as_bytes(), 4).unwrap();
    assert_eq!(external_ids(&store, user, feed), vec!["e1", "e2", "e3"]);
    run_refresh_feed_job(&mut store, &data, rss(&["e1", "e2"]).as_bytes(), 5).unwrap();
    assert_eq!(external_ids(&store, user, feed), vec!["e1", "e2", "e3"]);
}

#[test]
fn refresh_errors_leave_the_store_alone() {
    let mut store = FeedStore::new();
    let user = UserId(1);
    let feed = store.insert_feed(user, &parsed("http://server/feed", ""), 1).unwrap();
    let data = RefreshFeedJobData { user_id: user, feed_id: feed, feed_url: "http://server/feed".to_string() };
    assert_eq!(run_refresh_feed_job(&mut store, &data, b"not a feed", 2), Err(HandlerError::NotAFeed));
    let missing = RefreshFeedJobData { user_id: user, feed_id: FeedId(7), feed_url: "http://x/".to_string() };
    assert_eq!(run_refresh_feed_job(&mut store, &missing, rss(&["e1"]).as_bytes(), 2), Err(HandlerError::NoSuchFeed));
    assert_eq!(store.get_feed_entries(user, feed).len(), 0);
}

#[test]
fn unread_entries_drop_read_ones() {
    let mut store = FeedStore::new();
    let user = UserId(1);
    let feed = store.insert_feed(user, &parsed("http://server/feed", ""), 1).unwrap();
    let data = RefreshFeedJobData { user_id: user, feed_id: feed, feed_url: "http://server/feed".to_string() };
    run_refresh_feed_job(&mut store, &data, rss(&["e1", "e2"]).as_bytes(), 2).unwrap();
    assert_eq!(store.get_unread_entries(user).len(), 2);
    store.mark_feed_entry_as_read(user, feed, FeedEntryId(1), 9);
    let unread = store.get_unread_entries(user);
    assert_eq!(unread.len(), 1);
    assert_eq!(unread[0].external_id, "e2");
    assert_eq!(store.get_feed_entry(user, feed, FeedEntryId(1)).unwrap().read_at, Some(9));
}

#[test]
fn favicon_link_in_html_is_fetched_and_stored() {
    let mut store = FeedStore::new();
    let user = UserId(1);
    let feed = store.insert_feed(user, &parsed("http://server/feed", "http://server/"), 1).unwrap();
    let page = "<head><link type=\"image/x-icon\" href=\"/icon.png\"></head>";
    let source = favicon_source("http://server/", Some(page.as_bytes())).unwrap();
    match &source {
        FaviconSource::Linked(u) => assert_eq!(u, "http://server/icon.png"),
        FaviconSource::Fallback(_) => panic!("expected a linked favicon"),
    }
    let data = FetchFaviconJobData { user_id: user, feed_id: feed, site_link: "http://server/".to_string() };
    finish_fetch_favicon(&mut store, &data, &source, true, vec![0xde, 0xad, 0xbe, 0xef]);
    assert_eq!(store.get_feed_favicon(user, feed), Some(vec![0xde, 0xad, 0xbe, 0xef]));
    assert_eq!(store.get_feed(user, feed).unwrap().has_favicon, FaviconState::Present);
}

#[test]
fn missing_favicon_flips_the_flag_and_stops_manage() {
    let mut store = FeedStore::new();
    let mut jobs = JobTable::new();
    let user = UserId(1);
    let feed = store.insert_feed(user, &parsed("http://server/feed", "http://server/blog/"), 1).unwrap();

    let mut remaining = MANAGE_JOBS_LIMIT;
    let queued = create_fetch_favicons_jobs(&store, &mut jobs, &mut remaining);
    assert_eq!(queued.len(), 1);
    assert_eq!(remaining, 0);
    assert_eq!(jobs.len(), 1);

    let source = favicon_source("http://server/blog/", Some(b"<html><head></head></html>".as_slice())).unwrap();
    match &source {
        FaviconSource::Fallback(u) => assert_eq!(u, "http://server/favicon.ico"),
        FaviconSource::Linked(_) => panic!("expected the conventional address"),
    }
    let data = FetchFaviconJobData { user_id: user, feed_id: feed, site_link: "http://server/blog/".to_string() };
    finish_fetch_favicon(&mut store, &data, &source, false, b"not found".to_vec());
    assert_eq!(store.get_feed_favicon(user, feed), None);
    assert_eq!(store.get_feed(user, feed).unwrap().has_favicon, FaviconState::Absent);

    let mut fresh = JobTable::new();
    let mut remaining = MANAGE_JOBS_LIMIT;
    assert_eq!(create_fetch_favicons_jobs(&store, &mut fresh, &mut remaining).len(), 0);
    assert_eq!(fresh.len(), 0);
}

#[test]
fn favicon_source_falls_back_when_the_page_could_not_be_fetched() {
    let source = favicon_source("https://example.com/a/b", None).unwrap();
    match source {
        FaviconSource::Fallback(u) => assert_eq!(u, "https://example.com/favicon.ico"),
        FaviconSource::Linked(_) => panic!("expected the conventional address"),
    }
    assert_eq!(favicon_source("not a url", None).err(), Some(HandlerError::InvalidFaviconUrl));
}

#[test]
fn manage_enqueues_at_most_the_limit_and_only_once() {
    let mut store = FeedStore::new();
    let mut jobs = JobTable::new();
    store.insert_feed(UserId(1), &parsed("http://a/", "http://a/"), 1).unwrap();
    store.insert_feed(UserId(1), &parsed("http://b/", "http://b/"), 2).unwrap();
    let mut remaining = MANAGE_JOBS_LIMIT;
    create_fetch_favicons_jobs(&store, &mut jobs, &mut remaining);
    let mut remaining = MANAGE_JOBS_LIMIT;
    create_fetch_favicons_jobs(&store, &mut jobs, &mut remaining);
    assert_eq!(jobs.len(), 1);
    match &jobs.rows()[0].job {
        Job::FetchFavicon(d) => assert_eq!(d.feed_id, FeedId(1)),
        Job::RefreshFeed(_) => panic!("expected a favicon job"),
    }
    let mut remaining = 5;
    create_fetch_favicons_jobs(&store, &mut jobs, &mut remaining);
    assert_eq!(remaining, 3);
    assert_eq!(jobs.len(), 2);
}

const TAILSCALE: &str = r#"<rss version="2.0"><channel>
<title>Blog on Tailscale</title>
<link>https://tailscale.com/blog/</link>
<description>Recent content in Blog on Tailscale</description>
</channel></rss>"#;

#[test]
fn add_feed_from_a_direct_feed_url() {
    let mut store = FeedStore::new();
    let mut jobs = JobTable::new();
    let user = UserId(1);
    let url = feed_add_url(&FeedAddFormData { url: "http://server/xml_feed1".to_string() }).unwrap();
    let feed = match feed_add_after_first_fetch(&url, TAILSCALE.as_bytes()).unwrap() {
        AfterFirstFetch::Feed(f) => f,
        AfterFirstFetch::FetchFeed(_) => panic!("expected a feed"),
    };
    let id = feed_add_store(&mut store, &mut jobs, user, &feed, 1).unwrap();
    let stored = store.get_feed(user, id).unwrap();
    assert_eq!(stored.title, "Blog on Tailscale");
    assert_eq!(stored.site_link, "https://tailscale.com/blog/");
    assert_eq!(stored.description, "Recent content in Blog on Tailscale");
    assert_eq!(jobs.len(), 2);
    assert_eq!(store.get_all_feeds(user).len(), 1);
    assert_eq!(feed_add_store(&mut store, &mut jobs, user, &feed, 2), Err(FeedAddError::FeedAlreadyExists));
}

#[test]
fn add_feed_through_an_html_page() {
    let mut store = FeedStore::new();
    let mut jobs = JobTable::new();
    let user = UserId(1);
    let page = r#"<link type="application/rss+xml" href="/xml_feed2">"#;
    let url = feed_add_url(&FeedAddFormData { url: "server/html_feed".to_string() }).unwrap();
    assert_eq!(url, "https://server/html_feed");
    let next = match feed_add_after_first_fetch(&url, page.as_bytes()).unwrap() {
        AfterFirstFetch::FetchFeed(u) => u,
        AfterFirstFetch::Feed(_) => panic!("expected a feed address"),
    };
    assert_eq!(next, "https://server/xml_feed2");
    let feed = feed_add_after_feed_fetch(&next, TAILSCALE.as_bytes()).unwrap();
    let id = feed_add_store(&mut store, &mut jobs, user, &feed, 1).unwrap();
    assert_eq!(store.get_feed(user, id).unwrap().url, "https://server/xml_feed2");
    assert_eq!(
        feed_add_after_feed_fetch(&next, page.as_bytes()).err(),
        Some(FeedAddError::URLNotAValidRSSFeed)
    );
    assert_eq!(
        feed_add_after_first_fetch(&url, b"<html></html>").err(),
        Some(FeedAddError::NoFeed)
    );
    assert_eq!(
        feed_add_url(&FeedAddFormData { url: "http://exa mple.com".to_string() }).err(),
        Some(FeedAddError::URLInvalid)
    );
}

#[test]
fn manual_refresh_queues_one_job_per_feed() {
    let mut store = FeedStore::new();
    let mut jobs = JobTable::new();
    store.insert_feed(UserId(1), &parsed("http://a/", ""), 1).unwrap();
    store.insert_feed(UserId(1), &parsed("http://b/", ""), 2).unwrap();
    store.insert_feed(UserId(2), &parsed("http://c/", ""), 3).unwrap();
    assert_eq!(refresh_all_feeds(&store, &mut jobs, UserId(1)).len(), 2);
    assert_eq!(refresh_all_feeds(&store, &mut jobs, UserId(1)).len(), 2);
    assert_eq!(jobs.len(), 2);
}

#[test]
fn feed_page_and_entry_page() {
    let mut store = FeedStore::new();
    let user = UserId(1);
    let feed = store.insert_feed(user, &parsed("http://server/feed", "https://example.com/blog/"), 1).unwrap();
    let data = RefreshFeedJobData { user_id: user, feed_id: feed, feed_url: "http://server/feed".to_string() };
    run_refresh_feed_job(&mut store, &data, rss(&["e1", "e2"]).as_bytes(), 2).unwrap();

    let (f, entries) = feed_with_entries(&store, user, feed).unwrap();
    assert_eq!(f.id, feed);
    assert_eq!(entries.len(), 2);
    assert_eq!(first_author(&entries[0]), "");
    assert_eq!(feed_with_entries(&store, UserId(2), feed).err(), Some(FeedEntriesError::NotFound));

    let (_, entry) = open_feed_entry(&mut store, user, feed, FeedEntryId(2), 7).unwrap();
    assert_eq!(entry.external_id, "e2");
    assert_eq!(store.get_feed_entry(user, feed, FeedEntryId(2)).unwrap().read_at, Some(7));
    assert_eq!(store.get_unread_entries(user).len(), 1);
    assert_eq!(
        open_feed_entry(&mut store, user, feed, FeedEntryId(9), 7).err(),
        Some(FeedEntryError::EntryNotFound)
    );
    assert_eq!(
        open_feed_entry(&mut store, UserId(2), feed, FeedEntryId(1), 7).err(),
        Some(FeedEntryError::FeedNotFound)
    );
    assert_eq!(f.site_link_as_url(), Some("https://example.com/blog/".to_string()));
}

#[test]
fn site_link_as_url_normalizes_or_rejects() {
    let mut store = FeedStore::new();
    let user = UserId(1);
    let a = store.insert_feed(user, &parsed("http://a/", "HTTPS://Example.COM"), 1).unwrap();
    let b = store.insert_feed(user, &parsed("http://b/", ""), 1).unwrap();
    assert_eq!(store.get_feed(user, a).unwrap().site_link_as_url(), Some("https://example.com/".to_string()));
    assert_eq!(store.get_feed(user, b).unwrap().site_link_as_url(), None);
}

#[test]
fn ingest_entries_of_a_given_feed() {
    let mut store = FeedStore::new();
    let user = UserId(1);
    let feed = store.insert_feed(user, &parsed("http://server/feed", ""), 1).unwrap();
    let other = store.insert_feed(user, &parsed("http://server/other", ""), 1).unwrap();
    let data = RefreshFeedJobData { user_id: user, feed_id: feed, feed_url: "http://server/feed".to_string() };
    let other_data = RefreshFeedJobData { user_id: user, feed_id: other, feed_url: "http://server/other".to_string() };
    let entry = |id: &str| RawEntry::new(id.to_string(), vec![], Some(format!("t{}", id)), None, vec![]);
    let source = RawFeed::new(None, None, vec![], vec![entry("e1"), entry("e2"), entry("e1")]);
    assert_eq!(ingest_feed_entries(&mut store, &data, &source, 2), Ok(()));
    assert_eq!(external_ids(&store, user, feed), vec!["e1", "e2"]);
    assert_eq!(ingest_feed_entries(&mut store, &data, &source, 3), Ok(()));
    assert_eq!(store.get_feed_entries(user, feed).len(), 2);
    // the user's first feed already holds e2: only e3 lands in the other one
    let more = RawFeed::new(None, None, vec![], vec![entry("e2"), entry("e3")]);
    assert_eq!(ingest_feed_entries(&mut store, &other_data, &more, 4), Ok(()));
    assert_eq!(external_ids(&store, user, other), vec!["e3"]);
    let missing = RefreshFeedJobData { user_id: user, feed_id: FeedId(40), feed_url: String::new() };
    assert_eq!(ingest_feed_entries(&mut store, &missing, &more, 5), Err(HandlerError::NoSuchFeed));
}

#[test]
fn a_second_post_reports_the_queued_job() {
    let mut jobs = JobTable::new();
    let first = servare::runner::post_refresh_feed_job(&mut jobs, UserId(1), FeedId(2), "u".to_string());
    let id = match first {
        servare::queue::Enqueued::Inserted(id) => id,
        _ => panic!("expected an insert"),
    };
    let again = servare::runner::post_refresh_feed_job(&mut jobs, UserId(5), FeedId(2), "v".to_string());
    assert_eq!(again, servare::queue::Enqueued::AlreadyEnqueued(id));
}
