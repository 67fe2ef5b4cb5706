use crate::ids::{FeedId, UserId};
use vstd::bytes::{spec_u64_to_le_bytes, u64_to_le_bytes};
use vstd::prelude::*;

verus! {

/// Name of the 64-byte BLAKE2b digest of `data`.
pub uninterp spec fn blake2b512_of(data: Seq<u8>) -> Seq<u8>;

/// Relies on `blake2::Blake2b512` through `Digest::digest`: the 64-byte BLAKE2b
/// digest of `data`, which depends on the bytes alone.
#[verifier::external_body]
fn blake2b512(data: &[u8]) -> (r: Vec<u8>)
    ensures
        r@ == blake2b512_of(data@),
        r@.len() == 64,
{
    <blake2::Blake2b512 as blake2::Digest>::digest(data).to_vec()
}

/// Payload of a job that refreshes the entries of a feed.
#[derive(Clone, Debug)]
pub struct RefreshFeedJobData {
    pub user_id: UserId,
    pub feed_id: FeedId,
    pub feed_url: String,
}

/// Payload of a job that looks for the favicon of a feed's site.
#[derive(Clone, Debug)]
pub struct FetchFaviconJobData {
    pub user_id: UserId,
    pub feed_id: FeedId,
    pub site_link: String,
}

/// A unit of background work. The set of job kinds is closed.
#[derive(Clone, Debug)]
pub enum Job {
    FetchFavicon(FetchFaviconJobData),
    RefreshFeed(RefreshFeedJobData),
}

/// What a job holds, as mathematical values.
pub enum JobView {
    FetchFavicon { user_id: u128, feed_id: i64, site_link: Seq<char> },
    RefreshFeed { user_id: u128, feed_id: i64, feed_url: Seq<char> },
}

impl View for Job {
    type V = JobView;

    open spec fn view(&self) -> JobView {
        match self {
            Job::FetchFavicon(d) => JobView::FetchFavicon {
                user_id: d.user_id.0,
                feed_id: d.feed_id.0,
                site_link: d.site_link@,
            },
            Job::RefreshFeed(d) => JobView::RefreshFeed {
                user_id: d.user_id.0,
                feed_id: d.feed_id.0,
                feed_url: d.feed_url@,
            },
        }
    }
}

impl JobView {
    /// The discriminator of the job's kind, as stored in the payload.
    pub open spec fn tag(self) -> Seq<char> {
        match self {
            JobView::FetchFavicon { .. } => fetch_favicon_tag(),
            JobView::RefreshFeed { .. } => refresh_feed_tag(),
        }
    }

    /// The feed a job works on: its only identifying field besides the tag.
    pub open spec fn feed_id(self) -> i64 {
        match self {
            JobView::FetchFavicon { feed_id, .. } => feed_id,
            JobView::RefreshFeed { feed_id, .. } => feed_id,
        }
    }

    pub open spec fn user_id(self) -> u128 {
        match self {
            JobView::FetchFavicon { user_id, .. } => user_id,
            JobView::RefreshFeed { user_id, .. } => user_id,
        }
    }

    /// What the fingerprint hash absorbs: the tag's bytes, then the feed id in
    /// little-endian order.
    pub open spec fn fingerprint_input(self) -> Seq<u8> {
        ascii_bytes(self.tag()) + spec_u64_to_le_bytes(feed_id_bits(self.feed_id()))
    }

    /// The fingerprint of the job.
    pub open spec fn fingerprint(self) -> Seq<u8> {
        blake2b512_of(self.fingerprint_input())
    }
}

pub open spec fn fetch_favicon_tag() -> Seq<char> {
    seq!['f', 'e', 't', 'c', 'h', '_', 'f', 'a', 'v', 'i', 'c', 'o', 'n']
}

pub open spec fn refresh_feed_tag() -> Seq<char> {
    seq!['r', 'e', 'f', 'r', 'e', 's', 'h', '_', 'f', 'e', 'e', 'd']
}

/// The two's-complement bits of a feed id.
pub open spec fn feed_id_bits(v: i64) -> u64 {
    #[verifier::truncate]
    (v as u64)
}

/// ASCII bytes of a string of ASCII characters.
pub open spec fn ascii_bytes(s: Seq<char>) -> Seq<u8> {
    Seq::new(s.len(), |i: int| s[i] as u8)
}

impl Job {
    pub fn tag(&self) -> (r: String)
        ensures
            r@ == self@.tag(),
    {
        proof {
            reveal_strlit("fetch_favicon");
            reveal_strlit("refresh_feed");
        }
        match self {
            Job::FetchFavicon(_) => {
                let r = String::from_str("fetch_favicon");
                assert(r@ =~= fetch_favicon_tag());
                r
            }
            Job::RefreshFeed(_) => {
                let r = String::from_str("refresh_feed");
                assert(r@ =~= refresh_feed_tag());
                r
            }
        }
    }

    pub fn feed_id(&self) -> (r: FeedId)
        ensures
            r.0 == self@.feed_id(),
    {
        match self {
            Job::FetchFavicon(d) => d.feed_id,
            Job::RefreshFeed(d) => d.feed_id,
        }
    }

    pub fn user_id(&self) -> (r: UserId)
        ensures
            r.0 == self@.user_id(),
    {
        match self {
            Job::FetchFavicon(d) => d.user_id,
            Job::RefreshFeed(d) => d.user_id,
        }
    }

    /// A copy of the job.
    pub fn duplicate(&self) -> (r: Job)
        ensures
            r@ == self@,
    {
        match self {
            Job::FetchFavicon(d) => Job::FetchFavicon(FetchFaviconJobData {
                user_id: d.user_id,
                feed_id: d.feed_id,
                site_link: d.site_link.clone(),
            }),
            Job::RefreshFeed(d) => Job::RefreshFeed(RefreshFeedJobData {
                user_id: d.user_id,
                feed_id: d.feed_id,
                feed_url: d.feed_url.clone(),
            }),
        }
    }

    /// ASCII bytes of the tag.
    fn tag_bytes(&self) -> (r: Vec<u8>)
        ensures
            r@ == ascii_bytes(self@.tag()),
    {
        match self {
            Job::FetchFavicon(_) => {
                let r: Vec<u8> = vec![102u8, 101, 116, 99, 104, 95, 102, 97, 118, 105, 99, 111, 110];
                assert(r@ =~= ascii_bytes(fetch_favicon_tag()));
                r
            }
            Job::RefreshFeed(_) => {
                let r: Vec<u8> = vec![114u8, 101, 102, 114, 101, 115, 104, 95, 102, 101, 101, 100];
                assert(r@ =~= ascii_bytes(refresh_feed_tag()));
                r
            }
        }
    }

    /// The bytes the fingerprint is computed over.
    pub fn fingerprint_bytes(&self) -> (r: Vec<u8>)
        ensures
            r@ == self@.fingerprint_input(),
    {
        let mut out = self.tag_bytes();
        let mut id_bytes = u64_to_le_bytes(self.feed_id().0 as u64);
        out.append(&mut id_bytes);
        out
    }

    /// The job's fingerprint: the semantic identity used for idempotent enqueue.
    pub fn fingerprint(&self) -> (r: Vec<u8>)
        ensures
            r@ == self@.fingerprint(),
            r@.len() == 64,
    {
        let input = self.fingerprint_bytes();
        blake2b512(input.as_slice())
    }

}

/// The fingerprint of a job is a function of its tag and its feed id alone:
/// the user id and the URL carried in the payload do not change it.
pub proof fn lemma_fingerprint_deterministic(a: JobView, b: JobView)
    requires
        a.tag() == b.tag(),
        a.feed_id() == b.feed_id(),
    ensures
        a.fingerprint_input() == b.fingerprint_input(),
        a.fingerprint() == b.fingerprint(),
{
}

/// Two jobs absorb the same bytes into the hash exactly when they have the
/// same tag and work on the same feed: the hashed input identifies the work.
pub proof fn lemma_fingerprint_input_identifies_work(a: JobView, b: JobView)
    ensures
        a.fingerprint_input() == b.fingerprint_input() <==> (a.tag() == b.tag()
            && a.feed_id() == b.feed_id()),
{
    vstd::bytes::lemma_auto_spec_u64_to_from_le_bytes();
    let ia = a.fingerprint_input();
    let ib = b.fingerprint_input();
    let ta = ascii_bytes(a.tag());
    let tb = ascii_bytes(b.tag());
    let xa = feed_id_bits(a.feed_id());
    let xb = feed_id_bits(b.feed_id());
    let la = spec_u64_to_le_bytes(xa);
    let lb = spec_u64_to_le_bytes(xb);
    assert(ia == ta + la);
    assert(ib == tb + lb);
    assert(ia.len() == ta.len() + 8);
    assert(ib.len() == tb.len() + 8);
    if ia == ib {
        assert(ta.len() == tb.len());
        assert(a.tag() =~= b.tag());
        assert(la =~= ia.subrange(ta.len() as int, ia.len() as int));
        assert(lb =~= ib.subrange(tb.len() as int, ib.len() as int));
        assert(xa == xb);
        let (p, q) = (a.feed_id(), b.feed_id());
        assert(feed_id_bits(p) == feed_id_bits(q) ==> p == q) by (bit_vector);
    }
}

} // verus!
