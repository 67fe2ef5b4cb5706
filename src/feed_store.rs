use crate::feed::{ParsedFeed, ParsedFeedEntry};
use crate::ids::{FeedEntryId, FeedId, UserId};
use crate::urls::{str_equal, url_parse_of};
use vstd::prelude::*;

verus! {

/// Whether a feed's favicon was looked for, and found.
#[derive(Clone, Copy, Debug, PartialEq, Eq, Structural)]
pub enum FaviconState {
    /// Not looked for yet: a favicon job is due.
    Unknown,
    /// Found and stored.
    Present,
    /// Looked for and not found.
    Absent,
}

/// A feed row.
#[derive(Debug)]
pub struct Feed {
    pub id: FeedId,
    pub user_id: UserId,
    pub url: String,
    pub title: String,
    pub site_link: String,
    pub description: String,
    pub site_favicon: Option<Vec<u8>>,
    pub has_favicon: FaviconState,
    pub added_at: i64,
}

pub struct FeedView {
    pub id: i64,
    pub user_id: u128,
    pub url: Seq<char>,
    pub title: Seq<char>,
    pub site_link: Seq<char>,
    pub description: Seq<char>,
    pub site_favicon: Option<Seq<u8>>,
    pub has_favicon: FaviconState,
    pub added_at: i64,
}

pub open spec fn bytes_view(o: Option<Vec<u8>>) -> Option<Seq<u8>> {
    match o {
        Some(b) => Some(b@),
        None => None,
    }
}

impl View for Feed {
    type V = FeedView;

    open spec fn view(&self) -> FeedView {
        FeedView {
            id: self.id.0,
            user_id: self.user_id.0,
            url: self.url@,
            title: self.title@,
            site_link: self.site_link@,
            description: self.description@,
            site_favicon: bytes_view(self.site_favicon),
            has_favicon: self.has_favicon,
            added_at: self.added_at,
        }
    }
}

fn copy_bytes(o: &Option<Vec<u8>>) -> (r: Option<Vec<u8>>)
    ensures
        bytes_view(r) == bytes_view(*o),
{
    match o {
        Some(b) => Some(b.clone()),
        None => None,
    }
}

impl Feed {
    /// The site link as an absolute URL, where it is one.
    pub fn site_link_as_url(&self) -> (r: Option<String>)
        ensures
            match r {
                Some(u) => url_parse_of(self.site_link@) == Some(u@),
                None => url_parse_of(self.site_link@) is None,
            },
    {
        match crate::urls::parse(self.site_link.as_str()) {
            Ok(u) => Some(u),
            Err(_) => None,
        }
    }

    /// A copy of the row.
    pub fn duplicate(&self) -> (r: Feed)
        ensures
            r@ == self@,
    {
        Feed {
            id: self.id,
            user_id: self.user_id,
            url: self.url.clone(),
            title: self.title.clone(),
            site_link: self.site_link.clone(),
            description: self.description.clone(),
            site_favicon: copy_bytes(&self.site_favicon),
            has_favicon: self.has_favicon,
            added_at: self.added_at,
        }
    }
}

/// A feed entry row.
#[derive(Debug)]
pub struct FeedEntry {
    pub id: FeedEntryId,
    pub feed_id: FeedId,
    pub external_id: String,
    pub url: Option<String>,
    pub title: String,
    pub summary: String,
    pub created_at: i64,
    pub authors: Vec<String>,
    pub read_at: Option<i64>,
}

pub struct FeedEntryView {
    pub id: i64,
    pub feed_id: i64,
    pub external_id: Seq<char>,
    pub url: Option<Seq<char>>,
    pub title: Seq<char>,
    pub summary: Seq<char>,
    pub created_at: i64,
    pub authors: Seq<Seq<char>>,
    pub read_at: Option<i64>,
}

pub open spec fn text_view(o: Option<String>) -> Option<Seq<char>> {
    match o {
        Some(s) => Some(s@),
        None => None,
    }
}

pub open spec fn texts_view(v: Seq<String>) -> Seq<Seq<char>> {
    v.map_values(|s: String| s@)
}

impl View for FeedEntry {
    type V = FeedEntryView;

    open spec fn view(&self) -> FeedEntryView {
        FeedEntryView {
            id: self.id.0,
            feed_id: self.feed_id.0,
            external_id: self.external_id@,
            url: text_view(self.url),
            title: self.title@,
            summary: self.summary@,
            created_at: self.created_at,
            authors: texts_view(self.authors@),
            read_at: self.read_at,
        }
    }
}

fn copy_text(o: &Option<String>) -> (r: Option<String>)
    ensures
        text_view(r) == text_view(*o),
{
    match o {
        Some(s) => Some(s.clone()),
        None => None,
    }
}

fn copy_texts(v: &Vec<String>) -> (r: Vec<String>)
    ensures
        texts_view(r@) == texts_view(v@),
{
    let mut out: Vec<String> = Vec::new();
    let mut i: usize = 0;
    while i < v.len()
        invariant
            i <= v@.len(),
            out@.len() == i,
            forall|k: int| 0 <= k < i ==> (#[trigger] out@[k])@ == v@[k]@,
        decreases v@.len() - i,
    {
        out.push(v[i].clone());
        i = i + 1;
    }
    assert(texts_view(out@) =~= texts_view(v@));
    out
}

impl FeedEntry {
    /// A copy of the row.
    pub fn duplicate(&self) -> (r: FeedEntry)
        ensures
            r@ == self@,
    {
        FeedEntry {
            id: self.id,
            feed_id: self.feed_id,
            external_id: self.external_id.clone(),
            url: copy_text(&self.url),
            title: self.title.clone(),
            summary: self.summary.clone(),
            created_at: self.created_at,
            authors: copy_texts(&self.authors),
            read_at: self.read_at,
        }
    }
}

/// Errors of the feed store.
#[derive(Clone, Copy, Debug, PartialEq, Eq, Structural)]
pub enum StoreError {
    /// The user already has a feed with this URL.
    FeedExists,
    /// No feed has this id.
    NoSuchFeed,
    /// Every 64-bit id has been handed out.
    IdsExhausted,
}

/// The feed store's contents, as mathematical values.
pub struct FeedStoreView {
    pub feeds: Seq<FeedView>,
    pub entries: Seq<FeedEntryView>,
    pub next_feed_id: i64,
    pub next_entry_id: i64,
}

/// Whether the feed `feed_id` exists and belongs to `user`.
pub open spec fn owns(s: FeedStoreView, user: u128, feed_id: i64) -> bool {
    exists|i: int| 0 <= i < s.feeds.len() && #[trigger] s.feeds[i].id == feed_id && s.feeds[i].user_id == user
}

pub open spec fn feed_exists(s: FeedStoreView, feed_id: i64) -> bool {
    exists|i: int| 0 <= i < s.feeds.len() && #[trigger] s.feeds[i].id == feed_id
}

/// Whether `user` has a feed with the URL `url`.
pub open spec fn url_taken(s: FeedStoreView, user: u128, url: Seq<char>) -> bool {
    exists|i: int| 0 <= i < s.feeds.len() && #[trigger] s.feeds[i].user_id == user && s.feeds[i].url == url
}

/// Whether the feed `feed_id` has an entry with the external id `ext`.
pub open spec fn entry_held(s: FeedStoreView, feed_id: i64, ext: Seq<char>) -> bool {
    exists|i: int|
        0 <= i < s.entries.len() && #[trigger] s.entries[i].feed_id == feed_id && s.entries[i].external_id == ext
}

/// Whether some feed of `user` has an entry with the external id `ext`.
pub open spec fn user_holds(s: FeedStoreView, user: u128, ext: Seq<char>) -> bool {
    exists|i: int|
        0 <= i < s.entries.len() && #[trigger] s.entries[i].external_id == ext && owns(s, user, s.entries[i].feed_id)
}

/// The external ids of the entries of the feed `feed_id`.
pub open spec fn external_ids(s: FeedStoreView, feed_id: i64) -> Set<Seq<char>> {
    Set::new(|e: Seq<char>| entry_held(s, feed_id, e))
}

/// Ids are positive, unique and below the next ones handed out; a user has
/// one feed per URL and a feed one entry per external id; a stored favicon
/// goes with the `Present` flag.
pub open spec fn store_wf(s: FeedStoreView) -> bool {
    &&& 1 <= s.next_feed_id
    &&& 1 <= s.next_entry_id
    &&& forall|i: int| 0 <= i < s.feeds.len() ==> 1 <= #[trigger] s.feeds[i].id < s.next_feed_id
    &&& forall|i: int, j: int|
        0 <= i < s.feeds.len() && 0 <= j < s.feeds.len() && i != j ==> #[trigger] s.feeds[i].id
            != #[trigger] s.feeds[j].id
    &&& forall|i: int, j: int|
        0 <= i < s.feeds.len() && 0 <= j < s.feeds.len() && i != j && #[trigger] s.feeds[i].user_id
            == #[trigger] s.feeds[j].user_id ==> s.feeds[i].url != s.feeds[j].url
    &&& forall|i: int| 0 <= i < s.feeds.len() ==> ((#[trigger] s.feeds[i]).has_favicon == FaviconState::Present
        <==> s.feeds[i].site_favicon is Some)
    &&& forall|i: int| 0 <= i < s.entries.len() ==> 1 <= #[trigger] s.entries[i].id < s.next_entry_id
    &&& forall|i: int, j: int|
        0 <= i < s.entries.len() && 0 <= j < s.entries.len() && i != j ==> #[trigger] s.entries[i].id
            != #[trigger] s.entries[j].id
    &&& forall|i: int, j: int|
        0 <= i < s.entries.len() && 0 <= j < s.entries.len() && i != j && #[trigger] s.entries[i].feed_id
            == #[trigger] s.entries[j].feed_id ==> s.entries[i].external_id != s.entries[j].external_id
}

/// Persistence for feeds, their entries and their favicons. Every query that
/// returns user-owned rows goes through the owning user: a foreign row is
/// indistinguishable from a missing one.
pub struct FeedStore {
    feeds: Vec<Feed>,
    entries: Vec<FeedEntry>,
    next_feed_id: i64,
    next_entry_id: i64,
}

impl View for FeedStore {
    type V = FeedStoreView;

    closed spec fn view(&self) -> FeedStoreView {
        FeedStoreView {
            feeds: self.feeds@.map_values(|f: Feed| f@),
            entries: self.entries@.map_values(|e: FeedEntry| e@),
            next_feed_id: self.next_feed_id,
            next_entry_id: self.next_entry_id,
        }
    }
}

impl FeedStore {
    /// An empty store.
    pub fn new() -> (r: FeedStore)
        ensures
            r@.feeds == Seq::<FeedView>::empty(),
            r@.entries == Seq::<FeedEntryView>::empty(),
            store_wf(r@),
    {
        let r = FeedStore { feeds: Vec::new(), entries: Vec::new(), next_feed_id: 1, next_entry_id: 1 };
        assert(r@.feeds =~= Seq::<FeedView>::empty());
        assert(r@.entries =~= Seq::<FeedEntryView>::empty());
        r
    }

    /// Position of the feed `feed_id`.
    fn feed_pos(&self, feed_id: FeedId) -> (r: Option<usize>)
        requires
            store_wf(self@),
        ensures
            r is None <==> !feed_exists(self@, feed_id.0),
            r matches Some(i) ==> i < self@.feeds.len() && self@.feeds[i as int].id == feed_id.0,
    {
        let mut i: usize = 0;
        while i < self.feeds.len()
            invariant
                i <= self@.feeds.len(),
                self@.feeds.len() == self.feeds@.len(),
                forall|k: int| 0 <= k < i ==> self@.feeds[k].id != feed_id.0,
            decreases self.feeds@.len() - i,
        {
            assert(self@.feeds[i as int] == self.feeds@[i as int]@);
            if self.feeds[i].id.0 == feed_id.0 {
                assert(self@.feeds[i as int].id == feed_id.0);
                return Some(i);
            }
            i = i + 1;
        }
        None
    }

    /// Position of the feed `feed_id` where it belongs to `user_id`.
    fn owned_feed_pos(&self, user_id: UserId, feed_id: FeedId) -> (r: Option<usize>)
        requires
            store_wf(self@),
        ensures
            r is None <==> !owns(self@, user_id.0, feed_id.0),
            r matches Some(i) ==> i < self@.feeds.len() && self@.feeds[i as int].id == feed_id.0
                && self@.feeds[i as int].user_id == user_id.0,
    {
        match self.feed_pos(feed_id) {
            Some(i) => {
                assert(self@.feeds[i as int] == self.feeds@[i as int]@);
                if self.feeds[i].user_id.0 == user_id.0 {
                    Some(i)
                } else {
                    None
                }
            },
            None => None,
        }
    }

    /// Whether `user_id` already has a feed with the URL `url`.
    pub fn feed_with_url_exists(&self, user_id: UserId, url: &str) -> (r: bool)
        ensures
            r == url_taken(self@, user_id.0, url@),
    {
        let mut i: usize = 0;
        while i < self.feeds.len()
            invariant
                i <= self@.feeds.len(),
                self@.feeds.len() == self.feeds@.len(),
                forall|k: int| 0 <= k < i ==> !(self@.feeds[k].user_id == user_id.0 && self@.feeds[k].url == url@),
            decreases self.feeds@.len() - i,
        {
            assert(self@.feeds[i as int] == self.feeds@[i as int]@);
            if self.feeds[i].user_id.0 == user_id.0 && str_equal(self.feeds[i].url.as_str(), url) {
                assert(self@.feeds[i as int].user_id == user_id.0);
                return true;
            }
            i = i + 1;
        }
        false
    }

    /// Stores a new feed of `user_id`, added at time `now`; its favicon is not
    /// looked for yet. A user has one feed per URL.
    pub fn insert_feed(&mut self, user_id: UserId, feed: &ParsedFeed, now: i64) -> (r: Result<
        FeedId,
        StoreError,
    >)
        requires
            store_wf(old(self)@),
        ensures
            store_wf(final(self)@),
            url_taken(old(self)@, user_id.0, feed.url@) ==> r == Err::<FeedId, StoreError>(
                StoreError::FeedExists,
            ) && final(self)@ == old(self)@,
            !url_taken(old(self)@, user_id.0, feed.url@) && old(self)@.next_feed_id == i64::MAX ==> r
                == Err::<FeedId, StoreError>(StoreError::IdsExhausted) && final(self)@ == old(self)@,
            !url_taken(old(self)@, user_id.0, feed.url@) && old(self)@.next_feed_id < i64::MAX ==> {
                &&& r == Ok::<FeedId, StoreError>(FeedId(old(self)@.next_feed_id))
                &&& final(self)@.feeds == old(self)@.feeds.push(
                    FeedView {
                        id: old(self)@.next_feed_id,
                        user_id: user_id.0,
                        url: feed.url@,
                        title: feed.title@,
                        site_link: feed.site_link@,
                        description: feed.description@,
                        site_favicon: None,
                        has_favicon: FaviconState::Unknown,
                        added_at: now,
                    },
                )
                &&& final(self)@.entries == old(self)@.entries
                &&& final(self)@.next_feed_id == old(self)@.next_feed_id + 1
                &&& final(self)@.next_entry_id == old(self)@.next_entry_id
            },
    {
        if self.feed_with_url_exists(user_id, feed.url.as_str()) {
            return Err(StoreError::FeedExists);
        }
        if self.next_feed_id == i64::MAX {
            return Err(StoreError::IdsExhausted);
        }
        let id = FeedId(self.next_feed_id);
        let row = Feed {
            id,
            user_id,
            url: feed.url.clone(),
            title: feed.title.clone(),
            site_link: feed.site_link.clone(),
            description: feed.description.clone(),
            site_favicon: None,
            has_favicon: FaviconState::Unknown,
            added_at: now,
        };
        let ghost before = self@;
        self.feeds.push(row);
        self.next_feed_id = self.next_feed_id + 1;
        assert(self@.feeds =~= before.feeds.push(row@));
        assert(self@.entries =~= before.entries);
        proof {
            let s = self@;
            assert forall|i: int, j: int|
                0 <= i < s.feeds.len() && 0 <= j < s.feeds.len() && i != j && #[trigger] s.feeds[i].user_id
                    == #[trigger] s.feeds[j].user_id implies s.feeds[i].url != s.feeds[j].url by {
                if i == before.feeds.len() {
                    assert(!(before.feeds[j].user_id == user_id.0 && before.feeds[j].url == feed.url@));
                }
                if j == before.feeds.len() {
                    assert(!(before.feeds[i].user_id == user_id.0 && before.feeds[i].url == feed.url@));
                }
            }
        }
        Ok(id)
    }

    /// The feed `feed_id` of `user_id`.
    pub fn get_feed(&self, user_id: UserId, feed_id: FeedId) -> (r: Option<Feed>)
        requires
            store_wf(self@),
        ensures
            r is Some <==> owns(self@, user_id.0, feed_id.0),
            r matches Some(f) ==> f@.user_id == user_id.0 && f@.id == feed_id.0 && self@.feeds.contains(f@),
    {
        match self.owned_feed_pos(user_id, feed_id) {
            Some(i) => {
                assert(self@.feeds[i as int] == self.feeds@[i as int]@);
                Some(self.feeds[i].duplicate())
            },
            None => None,
        }
    }

    /// The favicon stored for the feed `feed_id` of `user_id`.
    pub fn get_feed_favicon(&self, user_id: UserId, feed_id: FeedId) -> (r: Option<Vec<u8>>)
        requires
            store_wf(self@),
        ensures
            match self.owned_feed_pos_spec(user_id.0, feed_id.0) {
                Some(f) => bytes_view(r) == f.site_favicon,
                None => r is None,
            },
    {
        match self.owned_feed_pos(user_id, feed_id) {
            Some(i) => {
                assert(self@.feeds[i as int] == self.feeds@[i as int]@);
                copy_bytes(&self.feeds[i].site_favicon)
            },
            None => None,
        }
    }

    /// The feed `feed_id` where it belongs to `user`.
    pub open spec fn owned_feed_pos_spec(&self, user: u128, feed_id: i64) -> Option<FeedView> {
        if owns(self@, user, feed_id) {
            Some(self@.feeds[feed_index(self@, feed_id)])
        } else {
            None
        }
    }

    /// Stores the favicon of the feed `feed_id`, or records that it has none:
    /// either way its favicon flag leaves `Unknown`.
    pub fn set_favicon(&mut self, feed_id: FeedId, data: Option<Vec<u8>>)
        requires
            store_wf(old(self)@),
        ensures
            store_wf(final(self)@),
            final(self)@.entries == old(self)@.entries,
            final(self)@.next_feed_id == old(self)@.next_feed_id,
            final(self)@.next_entry_id == old(self)@.next_entry_id,
            !feed_exists(old(self)@, feed_id.0) ==> final(self)@ == old(self)@,
            feed_exists(old(self)@, feed_id.0) ==> final(self)@.feeds == old(self)@.feeds.update(
                feed_index(old(self)@, feed_id.0),
                FeedView {
                    site_favicon: bytes_view(data),
                    has_favicon: if data is Some {
                        FaviconState::Present
                    } else {
                        FaviconState::Absent
                    },
                    ..old(self)@.feeds[feed_index(old(self)@, feed_id.0)]
                },
            ),
    {
        match self.feed_pos(feed_id) {
            Some(i) => {
                let ghost before = self@;
                proof {
                    lemma_feed_index(before, feed_id.0, i as int);
                }
                let mut row = self.feeds.remove(i);
                row.has_favicon = if data.is_some() {
                    FaviconState::Present
                } else {
                    FaviconState::Absent
                };
                row.site_favicon = data;
                self.feeds.insert(i, row);
                assert(self@.feeds =~= before.feeds.update(i as int, row@));
                assert(self@.entries =~= before.entries);
            },
            None => {},
        }
    }
}

/// Position of the feed `feed_id`; meaningful where it exists.
pub open spec fn feed_index(s: FeedStoreView, feed_id: i64) -> int {
    choose|i: int| 0 <= i < s.feeds.len() && #[trigger] s.feeds[i].id == feed_id
}

proof fn lemma_feed_index(s: FeedStoreView, feed_id: i64, i: int)
    requires
        store_wf(s),
        0 <= i < s.feeds.len(),
        s.feeds[i].id == feed_id,
    ensures
        feed_index(s, feed_id) == i,
{
    assert(feed_exists(s, feed_id));
    let j = feed_index(s, feed_id);
    assert(s.feeds[j].id == feed_id);
}

/// The entry row that `insert_entry` adds.
pub open spec fn new_entry_view(id: i64, feed_id: i64, entry: ParsedFeedEntry, now: i64) -> FeedEntryView {
    FeedEntryView {
        id,
        feed_id,
        external_id: entry.external_id@,
        url: text_view(entry.url),
        title: entry.title@,
        summary: entry.summary@,
        created_at: now,
        authors: texts_view(entry.authors@),
        read_at: None,
    }
}

proof fn lemma_filter_step<A>(s: Seq<A>, pred: spec_fn(A) -> bool, i: int)
    requires
        0 <= i < s.len(),
    ensures
        s.take(i + 1).filter(pred) == if pred(s[i]) {
            s.take(i).filter(pred).push(s[i])
        } else {
            s.take(i).filter(pred)
        },
{
    reveal(Seq::filter);
    assert(s.take(i + 1).drop_last() =~= s.take(i));
    assert(s.take(i + 1).last() == s[i]);
}

proof fn lemma_filter_none<A>(s: Seq<A>, pred: spec_fn(A) -> bool)
    requires
        forall|i: int| 0 <= i < s.len() ==> !pred(#[trigger] s[i]),
    ensures
        s.filter(pred) == Seq::<A>::empty(),
    decreases s.len(),
{
    reveal(Seq::filter);
    if s.len() > 0 {
        assert forall|i: int| 0 <= i < s.drop_last().len() implies !pred(#[trigger] s.drop_last()[i]) by {
            assert(s.drop_last()[i] == s[i]);
        }
        lemma_filter_none(s.drop_last(), pred);
    }
}

/// The entries of the feed `feed_id`, in the order they were stored.
pub open spec fn entries_of(s: FeedStoreView, feed_id: i64) -> Seq<FeedEntryView> {
    s.entries.filter(|e: FeedEntryView| e.feed_id == feed_id)
}

/// The unread entries of the feeds of `user`, in the order they were stored.
pub open spec fn unread_entries_of(s: FeedStoreView, user: u128) -> Seq<FeedEntryView> {
    s.entries.filter(|e: FeedEntryView| e.read_at is None && owns(s, user, e.feed_id))
}

/// The feeds whose favicon was not looked for yet, in the order they were stored.
pub open spec fn unknown_favicon_feeds(s: FeedStoreView) -> Seq<FeedView> {
    s.feeds.filter(|f: FeedView| f.has_favicon == FaviconState::Unknown)
}

impl FeedStore {
    /// Whether the feed `feed_id` has an entry with the external id `external_id`.
    fn entry_pos(&self, feed_id: FeedId, external_id: &str) -> (r: Option<usize>)
        ensures
            r is None <==> !entry_held(self@, feed_id.0, external_id@),
            r matches Some(i) ==> i < self@.entries.len() && self@.entries[i as int].feed_id == feed_id.0
                && self@.entries[i as int].external_id == external_id@,
    {
        let mut i: usize = 0;
        while i < self.entries.len()
            invariant
                i <= self@.entries.len(),
                self@.entries.len() == self.entries@.len(),
                forall|k: int|
                    0 <= k < i ==> !(#[trigger] self@.entries[k].feed_id == feed_id.0
                        && self@.entries[k].external_id == external_id@),
            decreases self.entries@.len() - i,
        {
            assert(self@.entries[i as int] == self.entries@[i as int]@);
            if self.entries[i].feed_id.0 == feed_id.0 && str_equal(
                self.entries[i].external_id.as_str(),
                external_id,
            ) {
                assert(self@.entries[i as int].feed_id == feed_id.0);
                return Some(i);
            }
            i = i + 1;
        }
        None
    }

    /// Stores `entry` as an entry of the feed `feed_id`, created at `now`,
    /// unless the feed already has an entry with its external id. Returns
    /// whether a row was added.
    pub fn insert_entry(&mut self, feed_id: FeedId, entry: &ParsedFeedEntry, now: i64) -> (r: Result<
        bool,
        StoreError,
    >)
        requires
            store_wf(old(self)@),
        ensures
            store_wf(final(self)@),
            final(self)@.feeds == old(self)@.feeds,
            final(self)@.next_feed_id == old(self)@.next_feed_id,
            !feed_exists(old(self)@, feed_id.0) ==> r == Err::<bool, StoreError>(StoreError::NoSuchFeed)
                && final(self)@ == old(self)@,
            feed_exists(old(self)@, feed_id.0) && entry_held(old(self)@, feed_id.0, entry.external_id@)
                ==> r == Ok::<bool, StoreError>(false) && final(self)@ == old(self)@,
            feed_exists(old(self)@, feed_id.0) && !entry_held(old(self)@, feed_id.0, entry.external_id@)
                && old(self)@.next_entry_id == i64::MAX ==> r == Err::<bool, StoreError>(
                StoreError::IdsExhausted,
            ) && final(self)@ == old(self)@,
            feed_exists(old(self)@, feed_id.0) && !entry_held(old(self)@, feed_id.0, entry.external_id@)
                && old(self)@.next_entry_id < i64::MAX ==> {
                &&& r == Ok::<bool, StoreError>(true)
                &&& final(self)@.entries == old(self)@.entries.push(
                    new_entry_view(old(self)@.next_entry_id, feed_id.0, *entry, now),
                )
                &&& final(self)@.next_entry_id == old(self)@.next_entry_id + 1
            },
    {
        if self.feed_pos(feed_id).is_none() {
            return Err(StoreError::NoSuchFeed);
        }
        if self.entry_pos(feed_id, entry.external_id.as_str()).is_some() {
            return Ok(false);
        }
        if self.next_entry_id == i64::MAX {
            return Err(StoreError::IdsExhausted);
        }
        let row = FeedEntry {
            id: FeedEntryId(self.next_entry_id),
            feed_id,
            external_id: entry.external_id.clone(),
            url: copy_text(&entry.url),
            title: entry.title.clone(),
            summary: entry.summary.clone(),
            created_at: now,
            authors: copy_texts(&entry.authors),
            read_at: None,
        };
        let ghost before = self@;
        self.entries.push(row);
        self.next_entry_id = self.next_entry_id + 1;
        assert(self@.entries =~= before.entries.push(row@));
        assert(self@.feeds =~= before.feeds);
        proof {
            let s = self@;
            let n = before.entries.len() as int;
            assert forall|i: int, j: int|
                0 <= i < s.entries.len() && 0 <= j < s.entries.len() && i != j && #[trigger] s.entries[i].feed_id
                    == #[trigger] s.entries[j].feed_id implies s.entries[i].external_id != s.entries[j].external_id by {
                if i == n {
                    assert(!(before.entries[j].feed_id == feed_id.0 && before.entries[j].external_id == entry.external_id@));
                }
                if j == n {
                    assert(!(before.entries[i].feed_id == feed_id.0 && before.entries[i].external_id == entry.external_id@));
                }
            }
        }
        Ok(true)
    }

    /// Whether some feed of `user_id` has an entry with the external id `external_id`.
    pub fn entry_with_external_id_exists(&self, user_id: UserId, external_id: &str) -> (r: bool)
        requires
            store_wf(self@),
        ensures
            r == user_holds(self@, user_id.0, external_id@),
    {
        let mut i: usize = 0;
        while i < self.entries.len()
            invariant
                store_wf(self@),
                i <= self@.entries.len(),
                self@.entries.len() == self.entries@.len(),
                forall|k: int|
                    0 <= k < i ==> !(#[trigger] self@.entries[k].external_id == external_id@ && owns(
                        self@,
                        user_id.0,
                        self@.entries[k].feed_id,
                    )),
            decreases self.entries@.len() - i,
        {
            assert(self@.entries[i as int] == self.entries@[i as int]@);
            if str_equal(self.entries[i].external_id.as_str(), external_id) {
                if self.owned_feed_pos(user_id, self.entries[i].feed_id).is_some() {
                    assert(self@.entries[i as int].external_id == external_id@);
                    return true;
                }
            }
            i = i + 1;
        }
        false
    }

    /// The entries of the feed `feed_id` of `user_id`; none where the feed is
    /// not the user's.
    pub fn get_feed_entries(&self, user_id: UserId, feed_id: FeedId) -> (r: Vec<FeedEntry>)
        requires
            store_wf(self@),
        ensures
            owns(self@, user_id.0, feed_id.0) ==> r@.map_values(|e: FeedEntry| e@) == entries_of(self@, feed_id.0),
            !owns(self@, user_id.0, feed_id.0) ==> r@.len() == 0,
    {
        let mut out: Vec<FeedEntry> = Vec::new();
        if self.owned_feed_pos(user_id, feed_id).is_none() {
            return out;
        }
        let ghost pred = |e: FeedEntryView| e.feed_id == feed_id.0;
        let mut i: usize = 0;
        while i < self.entries.len()
            invariant
                i <= self@.entries.len(),
                self@.entries.len() == self.entries@.len(),
                pred == (|e: FeedEntryView| e.feed_id == feed_id.0),
                out@.map_values(|e: FeedEntry| e@) == self@.entries.take(i as int).filter(pred),
            decreases self.entries@.len() - i,
        {
            proof {
                lemma_filter_step(self@.entries, pred, i as int);
            }
            assert(self@.entries[i as int] == self.entries@[i as int]@);
            let ghost prev = out@;
            if self.entries[i].feed_id.0 == feed_id.0 {
                out.push(self.entries[i].duplicate());
                assert(out@.map_values(|e: FeedEntry| e@) =~= prev.map_values(|e: FeedEntry| e@).push(
                    self@.entries[i as int],
                ));
            }
            i = i + 1;
        }
        assert(self@.entries.take(i as int) =~= self@.entries);
        out
    }

    /// The entry `entry_id` of the feed `feed_id` of `user_id`.
    pub fn get_feed_entry(&self, user_id: UserId, feed_id: FeedId, entry_id: FeedEntryId) -> (r: Option<
        FeedEntry,
    >)
        requires
            store_wf(self@),
        ensures
            r is Some <==> owns(self@, user_id.0, feed_id.0) && exists|i: int|
                0 <= i < self@.entries.len() && #[trigger] self@.entries[i].id == entry_id.0
                    && self@.entries[i].feed_id == feed_id.0,
            r matches Some(e) ==> e@.id == entry_id.0 && e@.feed_id == feed_id.0 && self@.entries.contains(e@),
    {
        if self.owned_feed_pos(user_id, feed_id).is_none() {
            return None;
        }
        let mut i: usize = 0;
        while i < self.entries.len()
            invariant
                owns(self@, user_id.0, feed_id.0),
                i <= self@.entries.len(),
                self@.entries.len() == self.entries@.len(),
                forall|k: int|
                    0 <= k < i ==> !(#[trigger] self@.entries[k].id == entry_id.0 && self@.entries[k].feed_id
                        == feed_id.0),
            decreases self.entries@.len() - i,
        {
            assert(self@.entries[i as int] == self.entries@[i as int]@);
            if self.entries[i].id.0 == entry_id.0 && self.entries[i].feed_id.0 == feed_id.0 {
                assert(self@.entries[i as int].id == entry_id.0);
                return Some(self.entries[i].duplicate());
            }
            i = i + 1;
        }
        None
    }

    /// Records that the entry `entry_id` of the feed `feed_id` of `user_id`
    /// was read at `now`. Nothing changes where there is no such entry.
    pub fn mark_feed_entry_as_read(&mut self, user_id: UserId, feed_id: FeedId, entry_id: FeedEntryId, now: i64)
        requires
            store_wf(old(self)@),
        ensures
            store_wf(final(self)@),
            final(self)@.feeds == old(self)@.feeds,
            final(self)@.next_feed_id == old(self)@.next_feed_id,
            final(self)@.next_entry_id == old(self)@.next_entry_id,
            final(self)@.entries.len() == old(self)@.entries.len(),
            forall|i: int|
                0 <= i < old(self)@.entries.len() ==> #[trigger] final(self)@.entries[i] == if owns(
                    old(self)@,
                    user_id.0,
                    feed_id.0,
                ) && old(self)@.entries[i].id == entry_id.0 && old(self)@.entries[i].feed_id == feed_id.0 {
                    FeedEntryView { read_at: Some(now), ..old(self)@.entries[i] }
                } else {
                    old(self)@.entries[i]
                },
    {
        if self.owned_feed_pos(user_id, feed_id).is_none() {
            return;
        }
        let mut i: usize = 0;
        while i < self.entries.len()
            invariant
                store_wf(old(self)@),
                owns(old(self)@, user_id.0, feed_id.0),
                i <= self@.entries.len(),
                self@.entries.len() == self.entries@.len(),
                self@.feeds == old(self)@.feeds,
                self@.next_feed_id == old(self)@.next_feed_id,
                self@.next_entry_id == old(self)@.next_entry_id,
                self@.entries == old(self)@.entries,
                forall|k: int|
                    0 <= k < i ==> !(#[trigger] self@.entries[k].id == entry_id.0 && self@.entries[k].feed_id
                        == feed_id.0),
            decreases self.entries@.len() - i,
        {
            assert(self@.entries[i as int] == self.entries@[i as int]@);
            if self.entries[i].id.0 == entry_id.0 && self.entries[i].feed_id.0 == feed_id.0 {
                let ghost before = self@;
                let mut row = self.entries.remove(i);
                row.read_at = Some(now);
                self.entries.insert(i, row);
                assert(self@.entries =~= before.entries.update(i as int, row@));
                assert(self@.feeds =~= before.feeds);
                proof {
                    let s = self@;
                    assert forall|k: int| 0 <= k < s.entries.len() && k != i implies #[trigger] s.entries[k]
                        == before.entries[k] && before.entries[k].id != entry_id.0 by {
                        assert(before.entries[k].id != before.entries[i as int].id);
                    }
                    assert forall|a: int, b: int|
                        0 <= a < s.entries.len() && 0 <= b < s.entries.len() && a != b implies #[trigger] s.entries[a].id
                            != #[trigger] s.entries[b].id && (s.entries[a].feed_id == s.entries[b].feed_id
                            ==> s.entries[a].external_id != s.entries[b].external_id) by {
                        assert(s.entries[a].id == before.entries[a].id);
                        assert(s.entries[a].feed_id == before.entries[a].feed_id);
                        assert(s.entries[a].external_id == before.entries[a].external_id);
                        assert(s.entries[b].id == before.entries[b].id);
                        assert(s.entries[b].feed_id == before.entries[b].feed_id);
                        assert(s.entries[b].external_id == before.entries[b].external_id);
                        assert(before.entries[a].id != before.entries[b].id);
                        if before.entries[a].feed_id == before.entries[b].feed_id {
                            assert(before.entries[a].external_id != before.entries[b].external_id);
                        }
                    }
                    assert forall|k: int| 0 <= k < s.entries.len() implies 1 <= #[trigger] s.entries[k].id
                        < s.next_entry_id by {
                        assert(s.entries[k].id == before.entries[k].id);
                    }
                }
                return;
            }
            i = i + 1;
        }
    }

    /// The unread entries of all the feeds of `user_id`.
    pub fn get_unread_entries(&self, user_id: UserId) -> (r: Vec<FeedEntry>)
        requires
            store_wf(self@),
        ensures
            r@.map_values(|e: FeedEntry| e@) == unread_entries_of(self@, user_id.0),
    {
        let mut out: Vec<FeedEntry> = Vec::new();
        let ghost s = self@;
        let ghost pred = |e: FeedEntryView| e.read_at is None && owns(s, user_id.0, e.feed_id);
        let mut i: usize = 0;
        while i < self.entries.len()
            invariant
                store_wf(self@),
                s == self@,
                i <= self@.entries.len(),
                self@.entries.len() == self.entries@.len(),
                pred == (|e: FeedEntryView| e.read_at is None && owns(s, user_id.0, e.feed_id)),
                out@.map_values(|e: FeedEntry| e@) == self@.entries.take(i as int).filter(pred),
            decreases self.entries@.len() - i,
        {
            proof {
                lemma_filter_step(self@.entries, pred, i as int);
            }
            assert(self@.entries[i as int] == self.entries@[i as int]@);
            let ghost prev = out@;
            if self.entries[i].read_at.is_none() && self.owned_feed_pos(user_id, self.entries[i].feed_id).is_some() {
                out.push(self.entries[i].duplicate());
                assert(out@.map_values(|e: FeedEntry| e@) =~= prev.map_values(|e: FeedEntry| e@).push(
                    self@.entries[i as int],
                ));
            }
            i = i + 1;
        }
        assert(self@.entries.take(i as int) =~= self@.entries);
        out
    }

    /// Up to `limit` feeds whose favicon was not looked for yet, in the order
    /// they were stored.
    pub fn feeds_with_unknown_favicon(&self, limit: usize) -> (r: Vec<Feed>)
        ensures
            r@.map_values(|f: Feed| f@) == if limit < unknown_favicon_feeds(self@).len() {
                unknown_favicon_feeds(self@).take(limit as int)
            } else {
                unknown_favicon_feeds(self@)
            },
    {
        let mut out: Vec<Feed> = Vec::new();
        let ghost pred = |f: FeedView| f.has_favicon == FaviconState::Unknown;
        let mut i: usize = 0;
        while i < self.feeds.len() && out.len() < limit
            invariant
                i <= self@.feeds.len(),
                self@.feeds.len() == self.feeds@.len(),
                out@.len() <= limit,
                pred == (|f: FeedView| f.has_favicon == FaviconState::Unknown),
                out@.map_values(|f: Feed| f@) == self@.feeds.take(i as int).filter(pred),
            decreases self.feeds@.len() - i,
        {
            proof {
                lemma_filter_step(self@.feeds, pred, i as int);
            }
            assert(self@.feeds[i as int] == self.feeds@[i as int]@);
            let ghost prev = out@;
            if self.feeds[i].has_favicon == FaviconState::Unknown {
                out.push(self.feeds[i].duplicate());
                assert(out@.map_values(|f: Feed| f@) =~= prev.map_values(|f: Feed| f@).push(
                    self@.feeds[i as int],
                ));
            }
            i = i + 1;
        }
        proof {
            lemma_filter_prefix(self@.feeds, pred, i as int);
            let p = unknown_favicon_feeds(self@);
            let q = self@.feeds.take(i as int).filter(pred);
            if i == self@.feeds.len() {
                assert(self@.feeds.take(i as int) =~= self@.feeds);
            } else {
                assert(q.len() == limit);
                if limit >= p.len() {
                    assert(p =~= p.take(limit as int));
                }
            }
        }
        out
    }
}

/// The filtered prefix of a sequence is a prefix of the filtered sequence.
proof fn lemma_filter_prefix<A>(s: Seq<A>, pred: spec_fn(A) -> bool, i: int)
    requires
        0 <= i <= s.len(),
    ensures
        s.take(i).filter(pred).len() <= s.filter(pred).len(),
        s.take(i).filter(pred) == s.filter(pred).take(s.take(i).filter(pred).len() as int),
    decreases s.len(),
{
    reveal(Seq::filter);
    if i == s.len() {
        assert(s.take(i) =~= s);
        assert(s.filter(pred) =~= s.filter(pred).take(s.filter(pred).len() as int));
    } else {
        assert(s.take(i) =~= s.drop_last().take(i));
        lemma_filter_prefix(s.drop_last(), pred, i);
        let q = s.take(i).filter(pred);
        assert(s.filter(pred).take(q.len() as int) =~= s.drop_last().filter(pred).take(q.len() as int));
    }
}

/// Whether the feeds are ordered by the time they were added, newest first.
pub open spec fn newest_first(fs: Seq<FeedView>) -> bool {
    forall|a: int, b: int| 0 <= a < b < fs.len() ==> (#[trigger] fs[a]).added_at >= (#[trigger] fs[b]).added_at
}

/// The feeds of `user`, in the order they were stored.
pub open spec fn feeds_of(s: FeedStoreView, user: u128) -> Seq<FeedView> {
    s.feeds.filter(|f: FeedView| f.user_id == user)
}

impl FeedStore {
    /// All the feeds of `user_id`, newest first, each once.
    #[verifier::rlimit(80)]
    pub fn get_all_feeds(&self, user_id: UserId) -> (r: Vec<Feed>)
        requires
            store_wf(self@),
        ensures
            forall|a: int, b: int| 0 <= a < b < r@.len() ==> (#[trigger] r@[a]).id != (#[trigger] r@[b]).id,
            newest_first(r@.map_values(|f: Feed| f@)),
            r@.len() == feeds_of(self@, user_id.0).len(),
            forall|m: int| 0 <= m < r@.len() ==> (#[trigger] r@[m])@.user_id == user_id.0 && self@.feeds.contains(r@[m]@),
            forall|k: int|
                0 <= k < self@.feeds.len() && (#[trigger] self@.feeds[k]).user_id == user_id.0 ==> r@.map_values(
                    |f: Feed| f@,
                ).contains(self@.feeds[k]),
    {
        let mut out: Vec<Feed> = Vec::new();
        let ghost pred = |f: FeedView| f.user_id == user_id.0;
        let mut i: usize = 0;
        while i < self.feeds.len()
            invariant
                i <= self@.feeds.len(),
                self@.feeds.len() == self.feeds@.len(),
                pred == (|f: FeedView| f.user_id == user_id.0),
                out@.len() == self@.feeds.take(i as int).filter(pred).len(),
                newest_first(out@.map_values(|f: Feed| f@)),
                store_wf(self@),
                forall|m: int| 0 <= m < out@.len() ==> exists|k: int| 0 <= k < i && self@.feeds[k] == (#[trigger] out@[m])@,
                forall|a: int, b: int| 0 <= a < b < out@.len() ==> (#[trigger] out@[a]).id != (#[trigger] out@[b]).id,
                forall|m: int| 0 <= m < out@.len() ==> (#[trigger] out@[m])@.user_id == user_id.0 && self@.feeds.contains(out@[m]@),
                forall|k: int|
                    0 <= k < i && (#[trigger] self@.feeds[k]).user_id == user_id.0 ==> out@.map_values(
                        |f: Feed| f@,
                    ).contains(self@.feeds[k]),
            decreases self.feeds@.len() - i,
        {
            proof {
                lemma_filter_step(self@.feeds, pred, i as int);
            }
            assert(self@.feeds[i as int] == self.feeds@[i as int]@);
            if self.feeds[i].user_id.0 == user_id.0 {
                let added_at = self.feeds[i].added_at;
                let mut j: usize = 0;
                while j < out.len() && out[j].added_at >= added_at
                    invariant
                        j <= out@.len(),
                        forall|m: int| 0 <= m < j ==> (#[trigger] out@[m]).added_at >= added_at,
                    decreases out@.len() - j,
                {
                    j = j + 1;
                }
                let ghost before = out@.map_values(|f: Feed| f@);
                let ghost prev = out@;
                let row = self.feeds[i].duplicate();
                out.insert(j, row);
                proof {
                    let fi = self@.feeds[i as int];
                    assert forall|m: int| 0 <= m < out@.len() implies exists|k: int| 0 <= k < i + 1 && self@.feeds[k] == (#[trigger] out@[m])@ by {
                        if m < j {
                            assert(out@[m] == prev[m]);
                            let k = choose|k: int| 0 <= k < i && self@.feeds[k] == prev[m]@;
                        } else if m == j {
                            assert(self@.feeds[i as int] == out@[m]@);
                        } else {
                            assert(out@[m] == prev[m - 1]);
                            let k = choose|k: int| 0 <= k < i && self@.feeds[k] == prev[m - 1]@;
                        }
                    }
                    assert forall|m: int| 0 <= m < prev.len() implies (#[trigger] prev[m]).id.0 != fi.id by {
                        let k = choose|k: int| 0 <= k < i && self@.feeds[k] == prev[m]@;
                        assert(self@.feeds[k].id != self@.feeds[i as int].id);
                    }
                    assert forall|a: int, b: int| 0 <= a < b < out@.len() implies (#[trigger] out@[a]).id != (#[trigger] out@[b]).id by {
                        let pa = if a < j { a } else { a - 1 };
                        let pb = if b < j { b } else { b - 1 };
                        if a == j {
                            assert(out@[b] == prev[pb]);
                            assert(prev[pb].id.0 != fi.id);
                        } else if b == j {
                            assert(out@[a] == prev[pa]);
                            assert(prev[pa].id.0 != fi.id);
                        } else {
                            assert(out@[a] == prev[pa]);
                            assert(out@[b] == prev[pb]);
                            assert(pa < pb);
                        }
                    }
                }
                proof {
                    let after = out@.map_values(|f: Feed| f@);
                    assert(after =~= before.insert(j as int, self@.feeds[i as int]));
                    assert forall|a: int, b: int| 0 <= a < b < after.len() implies (#[trigger] after[a]).added_at
                        >= (#[trigger] after[b]).added_at by {
                        if a < j && b < j {
                            assert(after[a] == before[a] && after[b] == before[b]);
                        } else if a < j && b == j {
                            assert(after[a] == before[a]);
                        } else if a < j {
                            assert(after[a] == before[a] && after[b] == before[b - 1]);
                        } else if a == j {
                            assert(after[b] == before[b - 1]);
                            assert(before[j as int].added_at < added_at);
                            if b - 1 > j {
                                assert(before[j as int].added_at >= before[b - 1].added_at);
                            }
                        } else {
                            assert(after[a] == before[a - 1] && after[b] == before[b - 1]);
                        }
                    }
                    assert forall|m: int| 0 <= m < out@.len() implies (#[trigger] out@[m])@.user_id == user_id.0
                        && self@.feeds.contains(out@[m]@) by {
                        if m < j {
                            assert(out@[m] == prev[m]);
                        } else if m == j {
                            assert(self@.feeds[i as int] == out@[m]@);
                        } else {
                            assert(out@[m] == prev[m - 1]);
                        }
                    }
                    assert forall|k: int|
                        0 <= k < i + 1 && (#[trigger] self@.feeds[k]).user_id == user_id.0 implies after.contains(
                        self@.feeds[k],
                    ) by {
                        if k == i {
                            assert(after[j as int] == self@.feeds[k]);
                        } else {
                            let m = choose|m: int| 0 <= m < before.len() && before[m] == self@.feeds[k];
                            if m < j {
                                assert(after[m] == self@.feeds[k]);
                            } else {
                                assert(after[m + 1] == self@.feeds[k]);
                            }
                        }
                    }
                }
            }
            i = i + 1;
        }
        assert(self@.feeds.take(i as int) =~= self@.feeds);
        out
    }
}

impl FeedStore {
    /// Whether the feed `feed_id` exists.
    pub fn has_feed(&self, feed_id: FeedId) -> (r: bool)
        requires
            store_wf(self@),
        ensures
            r == feed_exists(self@, feed_id.0),
    {
        self.feed_pos(feed_id).is_some()
    }

    /// Whether `n` more entries can be given ids.
    pub fn has_entry_ids_for(&self, n: usize) -> (r: bool)
        requires
            store_wf(self@),
        ensures
            r == (self@.next_entry_id + n < i64::MAX),
    {
        let room: u64 = (i64::MAX - self.next_entry_id) as u64;
        (n as u64) < room
    }
}

/// Feed ownership, for the entry queries: every unread entry listed for a
/// user belongs to one of that user's feeds.
pub proof fn lemma_unread_entries_owned(s: FeedStoreView, user: u128, k: int)
    requires
        0 <= k < unread_entries_of(s, user).len(),
    ensures
        owns(s, user, unread_entries_of(s, user)[k].feed_id),
        unread_entries_of(s, user)[k].read_at is None,
{
    let pred = |e: FeedEntryView| e.read_at is None && owns(s, user, e.feed_id);
    s.entries.lemma_filter_pred(pred, k);
}

/// Feed ownership, for a feed's entries: the entries listed for a feed of
/// the user all belong to that feed, and so to the user.
pub proof fn lemma_feed_entries_owned(s: FeedStoreView, user: u128, feed_id: i64, k: int)
    requires
        owns(s, user, feed_id),
        0 <= k < entries_of(s, feed_id).len(),
    ensures
        entries_of(s, feed_id)[k].feed_id == feed_id,
        owns(s, user, entries_of(s, feed_id)[k].feed_id),
{
    let pred = |e: FeedEntryView| e.feed_id == feed_id;
    s.entries.lemma_filter_pred(pred, k);
}

} // verus!
