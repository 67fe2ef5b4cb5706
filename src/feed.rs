use crate::urls::url_parse_of;
use crate::html::{
    find_link_by_priority, find_link_in_document, spec_document_links, spec_find_link,
    spec_find_link_by_priority, Document, FindLinkCriteria, LinkCriteria,
};
use feed_rs::model::Text;
use feed_rs::parser::Builder;
use vstd::prelude::*;

verus! {

/// A link of a feed as its source gives it.
#[derive(Clone, Debug)]
pub struct RawLink {
    pub href: String,
    pub rel: Option<String>,
}

/// An author of an entry as its source gives it.
#[derive(Clone, Debug)]
pub struct RawPerson {
    pub name: String,
    pub email: Option<String>,
}

/// An entry of a feed as its source gives it.
#[derive(Clone, Debug)]
pub struct RawEntry {
    /// The id the source gives the entry; empty where it gives none.
    pub id: String,
    /// The hrefs of the entry's links, in source order.
    pub links: Vec<String>,
    pub title: Option<String>,
    pub summary: Option<String>,
    pub authors: Vec<RawPerson>,
}

/// An RSS or Atom feed as its source gives it, reduced to what ingestion reads.
#[derive(Clone, Debug)]
pub struct RawFeed {
    pub title: Option<String>,
    pub description: Option<String>,
    pub links: Vec<RawLink>,
    pub entries: Vec<RawEntry>,
}

pub struct RawLinkView {
    pub href: Seq<char>,
    pub rel: Option<Seq<char>>,
}

pub struct RawPersonView {
    pub name: Seq<char>,
    pub email: Option<Seq<char>>,
}

pub struct RawEntryView {
    pub id: Seq<char>,
    pub links: Seq<Seq<char>>,
    pub title: Option<Seq<char>>,
    pub summary: Option<Seq<char>>,
    pub authors: Seq<RawPersonView>,
}

pub struct RawFeedView {
    pub title: Option<Seq<char>>,
    pub description: Option<Seq<char>>,
    pub links: Seq<RawLinkView>,
    pub entries: Seq<RawEntryView>,
}

pub open spec fn opt_view(o: Option<String>) -> Option<Seq<char>> {
    match o {
        Some(s) => Some(s@),
        None => None,
    }
}

/// A link given as its href and its `rel` attribute.
pub open spec fn link_of_pair(p: (String, Option<String>)) -> RawLinkView {
    RawLinkView { href: p.0@, rel: opt_view(p.1) }
}

/// An author given as their name and their email.
pub open spec fn person_of_pair(p: (String, Option<String>)) -> RawPersonView {
    RawPersonView { name: p.0@, email: opt_view(p.1) }
}

fn copy_opt(o: &Option<String>) -> (r: Option<String>)
    ensures
        opt_view(r) == opt_view(*o),
{
    match o {
        Some(s) => Some(s.clone()),
        None => None,
    }
}

impl RawEntry {
    /// An entry; its authors are given as (name, email) pairs.
    pub fn new(
        id: String,
        links: Vec<String>,
        title: Option<String>,
        summary: Option<String>,
        authors: Vec<(String, Option<String>)>,
    ) -> (r: RawEntry)
        ensures
            r@.id == id@,
            r@.links == links@.map_values(|l: String| l@),
            r@.title == opt_view(title),
            r@.summary == opt_view(summary),
            r@.authors == authors@.map_values(|p: (String, Option<String>)| person_of_pair(p)),
    {
        let mut people: Vec<RawPerson> = Vec::new();
        let mut i: usize = 0;
        while i < authors.len()
            invariant
                i <= authors@.len(),
                people@.len() == i,
                forall|k: int| 0 <= k < i ==> (#[trigger] people@[k])@ == person_of_pair(authors@[k]),
            decreases authors@.len() - i,
        {
            people.push(RawPerson { name: authors[i].0.clone(), email: copy_opt(&authors[i].1) });
            i = i + 1;
        }
        let r = RawEntry { id, links, title, summary, authors: people };
        assert(r@.authors =~= authors@.map_values(|p: (String, Option<String>)| person_of_pair(p)));
        r
    }
}

impl RawFeed {
    /// A feed; its links are given as (href, rel) pairs.
    pub fn new(
        title: Option<String>,
        description: Option<String>,
        links: Vec<(String, Option<String>)>,
        entries: Vec<RawEntry>,
    ) -> (r: RawFeed)
        ensures
            r@.title == opt_view(title),
            r@.description == opt_view(description),
            r@.links == links@.map_values(|p: (String, Option<String>)| link_of_pair(p)),
            r@.entries == entries@.map_values(|e: RawEntry| e@),
    {
        let mut out: Vec<RawLink> = Vec::new();
        let mut i: usize = 0;
        while i < links.len()
            invariant
                i <= links@.len(),
                out@.len() == i,
                forall|k: int| 0 <= k < i ==> (#[trigger] out@[k])@ == link_of_pair(links@[k]),
            decreases links@.len() - i,
        {
            out.push(RawLink { href: links[i].0.clone(), rel: copy_opt(&links[i].1) });
            i = i + 1;
        }
        let r = RawFeed { title, description, links: out, entries };
        assert(r@.links =~= links@.map_values(|p: (String, Option<String>)| link_of_pair(p)));
        r
    }
}

impl View for RawLink {
    type V = RawLinkView;

    open spec fn view(&self) -> RawLinkView {
        RawLinkView { href: self.href@, rel: opt_view(self.rel) }
    }
}

impl View for RawPerson {
    type V = RawPersonView;

    open spec fn view(&self) -> RawPersonView {
        RawPersonView { name: self.name@, email: opt_view(self.email) }
    }
}

impl View for RawEntry {
    type V = RawEntryView;

    open spec fn view(&self) -> RawEntryView {
        RawEntryView {
            id: self.id@,
            links: self.links@.map_values(|l: String| l@),
            title: opt_view(self.title),
            summary: opt_view(self.summary),
            authors: self.authors@.map_values(|p: RawPerson| p@),
        }
    }
}

impl View for RawFeed {
    type V = RawFeedView;

    open spec fn view(&self) -> RawFeedView {
        RawFeedView {
            title: opt_view(self.title),
            description: opt_view(self.description),
            links: self.links@.map_values(|l: RawLink| l@),
            entries: self.entries@.map_values(|e: RawEntry| e@),
        }
    }
}

/// Name of what the feed parser makes of `data`: the feed it holds, or
/// nothing where `data` is not an RSS, Atom or JSON feed.
pub uninterp spec fn feed_parse_of(data: Seq<u8>) -> Option<RawFeedView>;

/// Relies on `feed_rs::parser::Builder` and `Parser::parse`: parses an RSS,
/// Atom or JSON feed and hands out the fields that ingestion reads. No id is
/// generated for an entry that has none (its id stays empty), so the result
/// depends on `data` alone. The parser panics on some Media RSS and iTunes
/// timings (a `u64` parse is unwrapped); it reads them only in elements whose
/// namespace is declared with one of the two URIs, and `media_free` rules out
/// every byte string whose decoded text could hold them.
#[verifier::external_body]
fn parse_raw_feed(data: &[u8]) -> (r: Option<RawFeed>)
    requires
        media_free(data@),
    ensures
        match r {
            Some(f) => feed_parse_of(data@) == Some(f@),
            None => feed_parse_of(data@) is None,
        },
{
    let f = Builder::new().id_generator(|_, _, _| absent_entry_id()).build().parse(data).ok()?;
    let text = |t: Text| t.content;
    Some(RawFeed::new(
        f.title.map(text),
        f.description.map(text),
        f.links.into_iter().map(|l| (l.href, l.rel)).collect(),
        f.entries.into_iter().map(|e| RawEntry::new(e.id, e.links.into_iter().map(|l| l.href).collect(),
            e.title.map(text), e.summary.map(text),
            e.authors.into_iter().map(|p| (p.name, p.email)).collect())).collect(),
    ))
}

/// The id given to an entry that has none: empty, so that the library's own
/// key applies (see `entry_key`).
pub fn absent_entry_id() -> (r: String)
    ensures
        r@ == Seq::<char>::empty(),
{
    String::new()
}

/// The namespace URI of Media RSS, as bytes.
pub open spec fn media_rss_uri() -> Seq<u8> {
    seq![104u8, 116u8, 116u8, 112u8, 58u8, 47u8, 47u8, 115u8, 101u8, 97u8, 114u8, 99u8, 104u8, 46u8, 121u8, 97u8, 104u8, 111u8, 111u8, 46u8, 99u8, 111u8, 109u8, 47u8, 109u8, 114u8, 115u8, 115u8, 47u8]
}

/// The namespace URI of the iTunes podcast extension, as bytes.
pub open spec fn itunes_uri() -> Seq<u8> {
    seq![104u8, 116u8, 116u8, 112u8, 58u8, 47u8, 47u8, 119u8, 119u8, 119u8, 46u8, 105u8, 116u8, 117u8, 110u8, 101u8, 115u8, 46u8, 99u8, 111u8, 109u8, 47u8, 100u8, 116u8, 100u8, 115u8, 47u8, 112u8, 111u8, 100u8, 99u8, 97u8, 115u8, 116u8, 45u8, 49u8, 46u8, 48u8, 46u8, 100u8, 116u8, 100u8]
}

/// Whether `pat` occurs in `data` at position `i`.
pub open spec fn occurs_at(data: Seq<u8>, i: int, pat: Seq<u8>) -> bool {
    0 <= i && i + pat.len() <= data.len() && data.subrange(i, i + pat.len()) == pat
}

/// Whether `data` holds no NUL and no ESC byte. Without them, no text
/// encoding that the parser supports turns bytes other than those of an
/// ASCII string into that string.
pub open spec fn encoding_safe(data: Seq<u8>) -> bool {
    forall|i: int| 0 <= i < data.len() ==> #[trigger] data[i] != 0u8 && data[i] != 27u8
}

/// Whether the parser can meet no Media RSS or iTunes element in `data`.
pub open spec fn media_free(data: Seq<u8>) -> bool {
    &&& encoding_safe(data)
    &&& forall|i: int| 0 <= i < data.len() ==> !#[trigger] occurs_at(data, i, media_rss_uri())
    &&& forall|i: int| 0 <= i < data.len() ==> !#[trigger] occurs_at(data, i, itunes_uri())
}

/// `data` with the first `h` of every Media RSS or iTunes namespace URI made
/// an `H`, so that the parser treats those elements as unknown and skips
/// them. Ingestion reads nothing from them.
pub open spec fn neutralized(data: Seq<u8>) -> Seq<u8> {
    Seq::new(
        data.len(),
        |i: int|
            if occurs_at(data, i, media_rss_uri()) || occurs_at(data, i, itunes_uri()) {
                72u8
            } else {
                data[i]
            },
    )
}

/// The feed that `RawFeed::parse` reads from `data`.
pub open spec fn spec_feed_of(data: Seq<u8>) -> Option<RawFeedView> {
    if encoding_safe(data) && media_free(neutralized(data)) {
        feed_parse_of(neutralized(data))
    } else {
        None
    }
}

fn occurs_at_exec(data: &[u8], i: usize, pat: &Vec<u8>) -> (r: bool)
    ensures
        r == occurs_at(data@, i as int, pat@),
{
    if i > data.len() || pat.len() > data.len() - i {
        return false;
    }
    let n = data.len();
    let mut k: usize = 0;
    while k < pat.len()
        invariant
            n == data@.len(),
            i as int + pat@.len() <= data@.len(),
            k <= pat@.len(),
            forall|m: int| 0 <= m < k ==> data@[i + m] == pat@[m],
        decreases pat@.len() - k,
    {
        assert(i as int + k < n);
        if data[i + k] != pat[k] {
            assert(data@.subrange(i as int, i + pat@.len())[k as int] != pat@[k as int]);
            return false;
        }
        k = k + 1;
    }
    assert(data@.subrange(i as int, i + pat@.len()) =~= pat@);
    true
}

fn media_rss_uri_exec() -> (r: Vec<u8>)
    ensures
        r@ == media_rss_uri(),
{
    let r: Vec<u8> = vec![104u8, 116, 116, 112, 58, 47, 47, 115, 101, 97, 114, 99, 104, 46, 121, 97, 104, 111, 111, 46, 99, 111, 109, 47, 109, 114, 115, 115, 47];
    assert(r@ =~= media_rss_uri());
    r
}

fn itunes_uri_exec() -> (r: Vec<u8>)
    ensures
        r@ == itunes_uri(),
{
    let r: Vec<u8> = vec![104u8, 116, 116, 112, 58, 47, 47, 119, 119, 119, 46, 105, 116, 117, 110, 101, 115, 46, 99, 111, 109, 47, 100, 116, 100, 115, 47, 112, 111, 100, 99, 97, 115, 116, 45, 49, 46, 48, 46, 100, 116, 100];
    assert(r@ =~= itunes_uri());
    r
}

/// Whether the parser can meet no Media RSS or iTunes element in `data`.
fn is_media_free(data: &[u8]) -> (r: bool)
    ensures
        r == media_free(data@),
{
    let mrss = media_rss_uri_exec();
    let itunes = itunes_uri_exec();
    let mut i: usize = 0;
    while i < data.len()
        invariant
            i <= data@.len(),
            mrss@ == media_rss_uri(),
            itunes@ == itunes_uri(),
            forall|k: int| 0 <= k < i ==> #[trigger] data@[k] != 0u8 && data@[k] != 27u8,
            forall|k: int| 0 <= k < i ==> !#[trigger] occurs_at(data@, k, media_rss_uri()),
            forall|k: int| 0 <= k < i ==> !#[trigger] occurs_at(data@, k, itunes_uri()),
        decreases data@.len() - i,
    {
        if data[i] == 0 || data[i] == 27 || occurs_at_exec(data, i, &mrss) || occurs_at_exec(data, i, &itunes) {
            return false;
        }
        i = i + 1;
    }
    true
}

/// The bytes handed to the parser: `data` with the Media RSS and iTunes
/// namespaces neutralized; nothing where `data` is not encoding-safe or
/// still mentions one of them.
fn prepare_feed_bytes(data: &[u8]) -> (r: Option<Vec<u8>>)
    ensures
        match r {
            Some(v) => encoding_safe(data@) && media_free(neutralized(data@)) && v@ == neutralized(data@),
            None => !(encoding_safe(data@) && media_free(neutralized(data@))),
        },
{
    let mrss = media_rss_uri_exec();
    let itunes = itunes_uri_exec();
    let mut out: Vec<u8> = Vec::new();
    let mut i: usize = 0;
    while i < data.len()
        invariant
            i <= data@.len(),
            mrss@ == media_rss_uri(),
            itunes@ == itunes_uri(),
            out@.len() == i,
            forall|k: int| 0 <= k < i ==> #[trigger] data@[k] != 0u8 && data@[k] != 27u8,
            forall|k: int| 0 <= k < i ==> #[trigger] out@[k] == neutralized(data@)[k],
        decreases data@.len() - i,
    {
        if data[i] == 0 || data[i] == 27 {
            return None;
        }
        let b = if occurs_at_exec(data, i, &mrss) || occurs_at_exec(data, i, &itunes) {
            72u8
        } else {
            data[i]
        };
        out.push(b);
        i = i + 1;
    }
    assert(out@ =~= neutralized(data@));
    if is_media_free(out.as_slice()) {
        Some(out)
    } else {
        None
    }
}

/// Error of bytes that are not a feed.
#[derive(Clone, Copy, Debug, PartialEq, Eq, Structural)]
pub enum ParseError {
    NotAFeed,
}

impl RawFeed {
    /// Parses the RSS, Atom or JSON feed in `data`. Media RSS and iTunes
    /// elements are skipped (see `neutralized`). Bytes holding a NUL or an
    /// ESC, which is how UTF-16 and ISO-2022-JP text looks, are refused as
    /// not a feed: in those encodings the namespace of an element cannot be
    /// told from the bytes.
    pub fn parse(data: &[u8]) -> (r: Result<RawFeed, ParseError>)
        ensures
            match r {
                Ok(f) => spec_feed_of(data@) == Some(f@),
                Err(_) => spec_feed_of(data@) is None,
            },
    {
        let bytes = match prepare_feed_bytes(data) {
            Some(b) => b,
            None => return Err(ParseError::NotAFeed),
        };
        match parse_raw_feed(bytes.as_slice()) {
            Some(f) => Ok(f),
            None => Err(ParseError::NotAFeed),
        }
    }
}

/// The href of the first link without a `rel` attribute; empty where every
/// link has one.
pub open spec fn spec_site_link(links: Seq<RawLinkView>) -> Seq<char>
    decreases links.len(),
{
    if links.len() == 0 {
        Seq::empty()
    } else if links[0].rel is None {
        links[0].href
    } else {
        spec_site_link(links.drop_first())
    }
}

pub open spec fn text_or_empty(t: Option<Seq<char>>) -> Seq<char> {
    match t {
        Some(s) => s,
        None => Seq::empty(),
    }
}

/// Feed data extracted from a parsed source.
#[derive(Clone, Debug)]
pub struct ParsedFeed {
    /// The feed's own endpoint.
    pub url: String,
    pub title: String,
    /// Canonical site URL as stored text; empty where the feed gives none.
    pub site_link: String,
    pub description: String,
}

fn text_content(t: &Option<String>) -> (r: String)
    ensures
        r@ == text_or_empty(opt_view(*t)),
{
    match t {
        Some(s) => s.clone(),
        None => String::new(),
    }
}

impl ParsedFeed {
    /// The site link of a feed: the first link that has no `rel` attribute.
    pub fn get_site_link(feed: &RawFeed) -> (r: String)
        ensures
            r@ == spec_site_link(feed@.links),
    {
        let ghost all = feed@.links;
        let mut i: usize = 0;
        assert(all.skip(0) =~= all);
        while i < feed.links.len()
            invariant
                i <= feed.links@.len(),
                all == feed@.links,
                spec_site_link(all) == spec_site_link(all.skip(i as int)),
            decreases feed.links@.len() - i,
        {
            let link = &feed.links[i];
            assert(all.skip(i as int)[0] == link@);
            assert(all.skip(i as int).drop_first() =~= all.skip(i as int + 1));
            if link.rel.is_none() {
                return link.href.clone();
            }
            i = i + 1;
        }
        assert(all.skip(i as int).len() == 0);
        String::new()
    }

    /// Extracts the feed data of `feed`, found at `url`.
    pub fn from_raw_feed(url: &str, feed: &RawFeed) -> (r: ParsedFeed)
        ensures
            r.url@ == url@,
            r.title@ == text_or_empty(feed@.title),
            r.site_link@ == spec_site_link(feed@.links),
            r.description@ == text_or_empty(feed@.description),
    {
        ParsedFeed {
            url: url.to_string(),
            title: text_content(&feed.title),
            site_link: Self::get_site_link(feed),
            description: text_content(&feed.description),
        }
    }

    /// Parses the feed in `data`, found at `url`.
    pub fn parse(url: &str, data: &[u8]) -> (r: Result<ParsedFeed, ParseError>)
        ensures
            match spec_feed_of(data@) {
                Some(f) => r matches Ok(p) && p.url@ == url@ && p.title@ == text_or_empty(f.title)
                    && p.site_link@ == spec_site_link(f.links) && p.description@ == text_or_empty(
                    f.description,
                ),
                None => r == Err::<ParsedFeed, ParseError>(ParseError::NotAFeed),
            },
    {
        match RawFeed::parse(data) {
            Ok(f) => Ok(Self::from_raw_feed(url, &f)),
            Err(e) => Err(e),
        }
    }
}

/// The site link is the href of the first link without `rel`, wherever the
/// links that carry a `rel` stand.
pub proof fn lemma_site_link_first_without_rel(links: Seq<RawLinkView>, i: int)
    requires
        0 <= i < links.len(),
        links[i].rel is None,
        forall|j: int| 0 <= j < i ==> (#[trigger] links[j]).rel is Some,
    ensures
        spec_site_link(links) == links[i].href,
    decreases i,
{
    if i > 0 {
        assert forall|j: int| 0 <= j < i - 1 implies (#[trigger] links.drop_first()[j]).rel is Some by {
            assert(links.drop_first()[j] == links[j + 1]);
        }
        lemma_site_link_first_without_rel(links.drop_first(), i - 1);
    }
}

/// Taking out a link that carries a `rel` does not change the site link.
pub proof fn lemma_site_link_ignores_rel_links(links: Seq<RawLinkView>, k: int)
    requires
        0 <= k < links.len(),
        links[k].rel is Some,
    ensures
        spec_site_link(links.remove(k)) == spec_site_link(links),
    decreases links.len(),
{
    if k == 0 {
        assert(links.remove(0) =~= links.drop_first());
    } else if links[0].rel is None {
        assert(links.remove(k)[0] == links[0]);
    } else {
        assert(links.remove(k).drop_first() =~= links.drop_first().remove(k - 1));
        lemma_site_link_ignores_rel_links(links.drop_first(), k - 1);
    }
}

/// Entry data extracted from a parsed source.
#[derive(Clone, Debug)]
pub struct ParsedFeedEntry {
    /// The identifier the source gives the entry: the deduplication key.
    pub external_id: String,
    /// The entry's first link that parses as an absolute URL.
    pub url: Option<String>,
    pub title: String,
    pub summary: String,
    pub authors: Vec<String>,
}

/// An author as stored: the email where there is one, else the name.
pub open spec fn spec_author(p: RawPersonView) -> Seq<char> {
    match p.email {
        Some(e) => e,
        None => p.name,
    }
}

/// Name of the id that feed-rs gives an entry without one, from the href of
/// its first link and its title.
pub uninterp spec fn link_title_id_of(href: Seq<char>, title: Option<Seq<char>>) -> Seq<char>;

/// Relies on `feed_rs::parser::generate_id_from_link_and_title`: the id that
/// feed-rs gives an entry without one but with a link, a SipHash with fixed
/// keys of the link's href and the title's content, so a function of the two.
#[verifier::external_body]
fn link_title_id(href: &String, title: &Option<String>) -> (r: String)
    ensures
        r@ == link_title_id_of(href@, opt_view(*title)),
{
    let link = feed_rs::model::Link {
        href: href.clone(),
        rel: None,
        media_type: None,
        href_lang: None,
        title: None,
        length: None,
    };
    let title = title.clone().map(|content| Text { content_type: mime::TEXT_PLAIN, src: None, content });
    feed_rs::parser::generate_id_from_link_and_title(&link, &title)
}

/// The deduplication key of an entry: the id its source gives it; for an
/// entry without one but with a link, the id feed-rs derives from its first
/// link and its title. feed-rs gives an entry with neither id nor link a
/// random id, which could not deduplicate; such an entry is keyed by its
/// title instead (empty where it has none).
pub open spec fn entry_key(e: RawEntryView) -> Seq<char> {
    if e.id.len() > 0 {
        e.id
    } else if e.links.len() > 0 {
        link_title_id_of(e.links[0], e.title)
    } else {
        text_or_empty(e.title)
    }
}

/// The deduplication key of `entry`.
pub fn entry_key_of(entry: &RawEntry) -> (r: String)
    ensures
        r@ == entry_key(entry@),
{
    if entry.id.as_str().unicode_len() > 0 {
        return entry.id.clone();
    }
    if entry.links.len() > 0 {
        return link_title_id(&entry.links[0], &entry.title);
    }
    text_content(&entry.title)
}

/// The first of `links` that parses as an absolute URL, serialized.
pub open spec fn first_url(links: Seq<Seq<char>>) -> Option<Seq<char>>
    decreases links.len(),
{
    if links.len() == 0 {
        None
    } else {
        match url_parse_of(links[0]) {
            Some(u) => Some(u),
            None => first_url(links.drop_first()),
        }
    }
}

/// The URL of `entry`: its first link that parses as an absolute URL.
pub fn entry_url_of(entry: &RawEntry) -> (r: Option<String>)
    ensures
        opt_view(r) == first_url(entry@.links),
{
    let ghost all = entry@.links;
    let mut i: usize = 0;
    assert(all.skip(0) =~= all);
    while i < entry.links.len()
        invariant
            i <= entry.links@.len(),
            all == entry@.links,
            first_url(all) == first_url(all.skip(i as int)),
        decreases entry.links@.len() - i,
    {
        assert(all.skip(i as int)[0] == entry.links@[i as int]@);
        assert(all.skip(i as int).drop_first() =~= all.skip(i as int + 1));
        match crate::urls::parse(entry.links[i].as_str()) {
            Ok(u) => {
                return Some(u);
            },
            Err(_) => {},
        }
        i = i + 1;
    }
    assert(all.skip(i as int).len() == 0);
    None
}

impl ParsedFeedEntry {
    /// Extracts the entry data of `entry`.
    pub fn from_raw_feed_entry(entry: &RawEntry) -> (r: ParsedFeedEntry)
        ensures
            r.external_id@ == entry_key(entry@),
            opt_view(r.url) == first_url(entry@.links),
            r.title@ == text_or_empty(entry@.title),
            r.summary@ == text_or_empty(entry@.summary),
            r.authors@.len() == entry@.authors.len(),
            forall|i: int|
                0 <= i < r.authors@.len() ==> (#[trigger] r.authors@[i])@ == spec_author(
                    entry@.authors[i],
                ),
    {
        let mut authors: Vec<String> = Vec::new();
        let mut i: usize = 0;
        while i < entry.authors.len()
            invariant
                i <= entry.authors@.len(),
                authors@.len() == i,
                forall|k: int|
                    0 <= k < i ==> (#[trigger] authors@[k])@ == spec_author(entry@.authors[k]),
            decreases entry.authors@.len() - i,
        {
            let person = &entry.authors[i];
            assert(entry@.authors[i as int] == person@);
            let author = match &person.email {
                Some(email) => email.clone(),
                None => person.name.clone(),
            };
            authors.push(author);
            i = i + 1;
        }
        ParsedFeedEntry {
            external_id: entry_key_of(entry),
            url: entry_url_of(entry),
            title: text_content(&entry.title),
            summary: text_content(&entry.summary),
            authors,
        }
    }
}

pub open spec fn rss_type() -> Seq<char> {
    seq!['a', 'p', 'p', 'l', 'i', 'c', 'a', 't', 'i', 'o', 'n', '/', 'r', 's', 's', '+', 'x', 'm', 'l']
}

pub open spec fn atom_type() -> Seq<char> {
    seq!['a', 'p', 'p', 'l', 'i', 'c', 'a', 't', 'i', 'o', 'n', '/', 'a', 't', 'o', 'm', '+', 'x', 'm', 'l']
}

/// The criteria that find a feed link in an HTML document: a `type` of RSS or Atom.
pub open spec fn feed_link_criteria() -> LinkCriteria {
    LinkCriteria::AnyType(seq![rss_type(), atom_type()])
}

/// The criteria that find a feed link in an HTML document.
pub fn feed_link_criteria_exec() -> (r: FindLinkCriteria)
    ensures
        r@ == feed_link_criteria(),
{
    proof {
        reveal_strlit("application/rss+xml");
        reveal_strlit("application/atom+xml");
    }
    let rss = String::from_str("application/rss+xml");
    let atom = String::from_str("application/atom+xml");
    assert(rss@ =~= rss_type());
    assert(atom@ =~= atom_type());
    let mut types: Vec<String> = Vec::new();
    types.push(rss);
    types.push(atom);
    assert(types@.map_values(|t: String| t@) =~= seq![rss_type(), atom_type()]);
    FindLinkCriteria::AnyType(types)
}


/// What was found at an address.
#[derive(Debug)]
pub enum FoundFeed {
    /// The address of a feed, linked from an HTML document.
    Url(String),
    /// The data is itself a feed.
    Raw(RawFeed),
}

/// Error of data that is neither a feed nor a document that links to one.
#[derive(Clone, Copy, Debug, PartialEq, Eq, Structural)]
pub enum FindError {
    NoFeed,
}

/// What `find_feed` finds in `data`, fetched from `url`: the feed itself, or
/// else the target of the first feed link of the HTML document.
pub open spec fn spec_found_feed_url(url: Seq<char>, data: Seq<u8>) -> Option<Seq<char>> {
    match spec_document_links(data) {
        Some(links) => spec_find_link(url, links, feed_link_criteria()),
        None => None,
    }
}

/// Decides what the data fetched from `url` is: a feed, an HTML document
/// that links to a feed, or neither.
pub fn find_feed(url: &str, data: &[u8]) -> (r: Result<FoundFeed, FindError>)
    ensures
        match spec_feed_of(data@) {
            Some(f) => r matches Ok(FoundFeed::Raw(g)) && g@ == f,
            None => match spec_found_feed_url(url@, data@) {
                Some(u) => r matches Ok(FoundFeed::Url(v)) && v@ == u,
                None => r == Err::<FoundFeed, FindError>(FindError::NoFeed),
            },
        },
{
    if let Ok(feed) = RawFeed::parse(data) {
        return Ok(FoundFeed::Raw(feed));
    }
    if let Some(document) = Document::parse(data) {
        if let Some(u) = find_link_in_document(url, &document, &feed_link_criteria_exec()) {
            return Ok(FoundFeed::Url(u));
        }
    }
    Err(FindError::NoFeed)
}

pub open spec fn x_icon_type() -> Seq<char> {
    seq!['i', 'm', 'a', 'g', 'e', '/', 'x', '-', 'i', 'c', 'o', 'n']
}

pub open spec fn icon_type() -> Seq<char> {
    seq!['i', 'm', 'a', 'g', 'e', '/', 'i', 'c', 'o', 'n']
}

pub open spec fn icon_rel() -> Seq<char> {
    seq!['i', 'c', 'o', 'n']
}

/// The favicon criteria in priority order: `type="image/x-icon"`, then
/// `type="image/icon"`, then `rel="icon"`.
pub open spec fn favicon_criteria() -> Seq<LinkCriteria> {
    seq![
        LinkCriteria::AnyType(seq![x_icon_type()]),
        LinkCriteria::AnyType(seq![icon_type()]),
        LinkCriteria::Rel(icon_rel()),
    ]
}

fn one_type(t: String) -> (r: FindLinkCriteria)
    ensures
        r@ == LinkCriteria::AnyType(seq![t@]),
{
    let mut types: Vec<String> = Vec::new();
    types.push(t);
    assert(types@.map_values(|t: String| t@) =~= seq![types@[0]@]);
    FindLinkCriteria::AnyType(types)
}

/// The favicon criteria in priority order.
pub fn favicon_criteria_exec() -> (r: Vec<FindLinkCriteria>)
    ensures
        crate::html::criteria_views(r@) == favicon_criteria(),
{
    proof {
        reveal_strlit("image/x-icon");
        reveal_strlit("image/icon");
        reveal_strlit("icon");
    }
    let x_icon = String::from_str("image/x-icon");
    let icon = String::from_str("image/icon");
    let rel = String::from_str("icon");
    assert(x_icon@ =~= x_icon_type());
    assert(icon@ =~= icon_type());
    assert(rel@ =~= icon_rel());
    let mut r: Vec<FindLinkCriteria> = Vec::new();
    r.push(one_type(x_icon));
    r.push(one_type(icon));
    r.push(FindLinkCriteria::Rel(rel));
    assert(crate::html::criteria_views(r@) =~= favicon_criteria());
    r
}

/// The favicon that the HTML document in `data`, fetched from `url`, links to.
pub open spec fn spec_find_favicon(url: Seq<char>, data: Seq<u8>) -> Option<Seq<char>> {
    match spec_document_links(data) {
        Some(links) => spec_find_link_by_priority(url, links, favicon_criteria()),
        None => None,
    }
}

/// Finds the favicon address in the HTML document `data` fetched from the
/// site at `url`; nothing where no link matches.
pub fn find_favicon(url: &str, data: &[u8]) -> (r: Option<String>)
    ensures
        match r {
            Some(u) => spec_find_favicon(url@, data@) == Some(u@),
            None => spec_find_favicon(url@, data@) is None,
        },
{
    match Document::parse(data) {
        Some(document) => find_link_by_priority(url, &document, &favicon_criteria_exec()),
        None => None,
    }
}

} // verus!
