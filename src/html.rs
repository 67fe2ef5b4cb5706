use crate::urls::{resolve, spec_resolve, str_equal};
use vstd::prelude::*;

verus! {

/// The attributes of a `<link>` element that link discovery reads; an absent
/// attribute is the empty string.
#[derive(Clone, Debug)]
pub struct HtmlLink {
    pub href: String,
    pub rel: String,
    pub link_type: String,
}

/// An HTML link's attributes, as mathematical values.
pub struct HtmlLinkView {
    pub href: Seq<char>,
    pub rel: Seq<char>,
    pub link_type: Seq<char>,
}

impl View for HtmlLink {
    type V = HtmlLinkView;

    open spec fn view(&self) -> HtmlLinkView {
        HtmlLinkView { href: self.href@, rel: self.rel@, link_type: self.link_type@ }
    }
}

/// Most start tags of a document that link discovery reads; it reads the
/// document up to the start tag after them. The HTML parser copies the
/// document tree by one recursive call per nesting level, and nesting is
/// bounded by a small multiple of the number of start tags (each start tag
/// opens at most one element, and at most one more is reopened for each
/// formatting tag). A thousand start tags keep that recursion well within
/// the 2 MiB stack of a spawned thread; the `<link>` elements of a page sit
/// in its head, near the start.
pub const MAX_START_TAGS: usize = 1000;

/// The `(href, rel, type)` attributes of a `<link>` element; `None` where
/// the attribute is absent.
pub type LinkAttrs = (Option<Seq<char>>, Option<Seq<char>>, Option<Seq<char>>);

/// Name of the `(href, rel, type)` attributes of the `<link>` elements of the
/// HTML document in `data`, in document order; nothing where `data` is not a
/// document.
pub uninterp spec fn html_links_of(data: Seq<u8>) -> Option<Seq<LinkAttrs>>;

pub open spec fn text_opt(o: Option<String>) -> Option<Seq<char>> {
    match o {
        Some(s) => Some(s@),
        None => None,
    }
}

pub open spec fn attrs_view(t: (Option<String>, Option<String>, Option<String>)) -> LinkAttrs {
    (text_opt(t.0), text_opt(t.1), text_opt(t.2))
}

pub open spec fn or_empty(o: Option<Seq<char>>) -> Seq<char> {
    match o {
        Some(s) => s,
        None => Seq::empty(),
    }
}

/// A link as discovery reads it: an absent attribute is the empty string.
pub open spec fn attrs_link(a: LinkAttrs) -> HtmlLinkView {
    HtmlLinkView { href: or_empty(a.0), rel: or_empty(a.1), link_type: or_empty(a.2) }
}

pub open spec fn is_ascii_letter(b: u8) -> bool {
    (65u8 <= b <= 90u8) || (97u8 <= b <= 122u8)
}

/// Whether a start tag opens at position `i`: `<` followed by a letter.
pub open spec fn start_tag_at(data: Seq<u8>, i: int) -> bool {
    0 <= i && i + 1 < data.len() && data[i] == 60u8 && is_ascii_letter(data[i + 1])
}

/// The number of start tags that open before position `n`.
pub open spec fn start_tags_before(data: Seq<u8>, n: int) -> nat
    decreases n,
{
    if n <= 0 {
        0
    } else {
        start_tags_before(data, n - 1) + if start_tag_at(data, n - 1) {
            1nat
        } else {
            0nat
        }
    }
}

/// Whether `data` has few enough start tags to be parsed safely.
pub open spec fn tags_bounded(data: Seq<u8>) -> bool {
    start_tags_before(data, data.len() as int) <= MAX_START_TAGS
}

/// Where reading stops, scanning from `i` with `count` start tags seen: at
/// the start tag after the first `MAX_START_TAGS`, or at the end.
pub open spec fn cut_from(data: Seq<u8>, i: int, count: nat) -> int
    decreases data.len() - i,
{
    if i >= data.len() {
        data.len() as int
    } else if start_tag_at(data, i) {
        if count >= MAX_START_TAGS {
            i
        } else {
            cut_from(data, i + 1, count + 1)
        }
    } else {
        cut_from(data, i + 1, count)
    }
}

/// The part of `data` that link discovery reads: up to the start tag after
/// the first `MAX_START_TAGS` ones.
pub open spec fn discovery_prefix(data: Seq<u8>) -> Seq<u8> {
    data.take(cut_from(data, 0, 0))
}

/// The `<link>` elements of the HTML document in `data`, in document order,
/// among those that link discovery reads; nothing where that part is not a
/// document.
pub open spec fn spec_document_links(data: Seq<u8>) -> Option<Seq<HtmlLinkView>> {
    match html_links_of(discovery_prefix(data)) {
        Some(ls) => Some(ls.map_values(|a: LinkAttrs| attrs_link(a))),
        None => None,
    }
}

/// Relies on `select::document::Document::from_read`, `Document::find` with
/// `Name("link")` and `Node::attr`: the `<link>` elements of an HTML document
/// in document order, with their `href`, `rel` and `type` attributes.
/// `from_read` copies the tree recursively, one call per nesting level, so
/// the number of start tags is bounded.
#[verifier::external_body]
fn html_links(data: &[u8]) -> (r: Option<Vec<(Option<String>, Option<String>, Option<String>)>>)
    requires
        tags_bounded(data@),
    ensures
        match r {
            Some(v) => html_links_of(data@) == Some(v@.map_values(|t: (Option<String>, Option<String>, Option<String>)| attrs_view(t))),
            None => html_links_of(data@) is None,
        },
{
    let document = select::document::Document::from_read(data).ok()?;
    let mut links = Vec::new();
    for node in document.find(select::predicate::Name("link")) {
        let attr = |name: &str| node.attr(name).map(String::from);
        links.push((attr("href"), attr("rel"), attr("type")));
    }
    Some(links)
}

/// Where link discovery stops reading `data`.
fn discovery_cut(data: &[u8]) -> (r: usize)
    ensures
        r == cut_from(data@, 0, 0),
        r <= data@.len(),
        tags_bounded(data@.take(r as int)),
{
    let n = data.len();
    let mut count: usize = 0;
    let mut i: usize = 0;
    while i < n
        invariant
            n == data@.len(),
            i <= n,
            count == start_tags_before(data@, i as int),
            count <= MAX_START_TAGS,
            cut_from(data@, 0, 0) == cut_from(data@, i as int, count as nat),
        decreases n - i,
    {
        if i + 1 < n && data[i] == 60 && ((65 <= data[i + 1] && data[i + 1] <= 90) || (97 <= data[i + 1]
            && data[i + 1] <= 122)) {
            if count == MAX_START_TAGS {
                proof {
                    lemma_prefix_tags(data@, i as int, i as int);
                }
                return i;
            }
            count = count + 1;
        }
        i = i + 1;
    }
    proof {
        assert(data@.take(n as int) =~= data@);
    }
    n
}

/// Cutting `data` before a byte that is not a letter keeps the start tags
/// that open before the cut.
proof fn lemma_prefix_tags(data: Seq<u8>, i: int, k: int)
    requires
        0 <= k <= i < data.len(),
        !is_ascii_letter(data[i]),
    ensures
        start_tags_before(data.take(i), k) == start_tags_before(data, k),
    decreases k,
{
    if k > 0 {
        lemma_prefix_tags(data, i, k - 1);
        if k < i {
            assert(data.take(i)[k - 1] == data[k - 1]);
            assert(data.take(i)[k] == data[k]);
        }
    }
}

proof fn lemma_start_tags_grow(data: Seq<u8>, a: int, b: int)
    requires
        0 <= a <= b,
    ensures
        start_tags_before(data, a) <= start_tags_before(data, b),
    decreases b - a,
{
    if a < b {
        lemma_start_tags_grow(data, a, b - 1);
    }
}

fn or_empty_exec(o: &Option<String>) -> (r: String)
    ensures
        r@ == or_empty(text_opt(*o)),
{
    match o {
        Some(s) => s.clone(),
        None => String::new(),
    }
}

/// An HTML document, reduced to what link discovery reads: its `<link>`
/// elements in document order.
#[derive(Clone, Debug)]
pub struct Document {
    pub links: Vec<HtmlLink>,
}

impl Document {
    pub open spec fn spec_links(&self) -> Seq<HtmlLinkView> {
        self.links@.map_values(|l: HtmlLink| l@)
    }

    /// Parses the HTML document in `data`, up to the start tag after the
    /// first `MAX_START_TAGS` ones.
    pub fn parse(data: &[u8]) -> (r: Option<Document>)
        ensures
            match r {
                Some(d) => spec_document_links(data@) == Some(d.spec_links()),
                None => spec_document_links(data@) is None,
            },
    {
        let cut = discovery_cut(data);
        let prefix = vstd::slice::slice_subrange(data, 0, cut);
        assert(prefix@ =~= discovery_prefix(data@));
        let attrs = match html_links(prefix) {
            Some(v) => v,
            None => return None,
        };
        let ghost av = attrs@.map_values(|t: (Option<String>, Option<String>, Option<String>)| attrs_view(t));
        let mut links: Vec<HtmlLink> = Vec::new();
        let mut i: usize = 0;
        while i < attrs.len()
            invariant
                i <= attrs@.len(),
                av == attrs@.map_values(|t: (Option<String>, Option<String>, Option<String>)| attrs_view(t)),
                links@.len() == i,
                forall|k: int| 0 <= k < i ==> (#[trigger] links@[k])@ == attrs_link(av[k]),
            decreases attrs@.len() - i,
        {
            let t = &attrs[i];
            links.push(HtmlLink { href: or_empty_exec(&t.0), rel: or_empty_exec(&t.1), link_type: or_empty_exec(&t.2) });
            i = i + 1;
        }
        let d = Document { links };
        assert(d.spec_links() =~= av.map_values(|a: LinkAttrs| attrs_link(a)));
        Some(d)
    }
}

/// Criteria when finding a link in a document.
#[derive(Clone, Debug)]
pub enum FindLinkCriteria {
    /// The `rel` attribute has this value.
    Rel(String),
    /// The `type` attribute has one of these values.
    AnyType(Vec<String>),
}

/// Link criteria, as mathematical values.
pub enum LinkCriteria {
    Rel(Seq<char>),
    AnyType(Seq<Seq<char>>),
}

impl View for FindLinkCriteria {
    type V = LinkCriteria;

    open spec fn view(&self) -> LinkCriteria {
        match self {
            FindLinkCriteria::Rel(r) => LinkCriteria::Rel(r@),
            FindLinkCriteria::AnyType(ts) => LinkCriteria::AnyType(ts@.map_values(|t: String| t@)),
        }
    }
}

impl LinkCriteria {
    pub open spec fn matches(self, l: HtmlLinkView) -> bool {
        match self {
            LinkCriteria::Rel(rel) => l.rel == rel,
            LinkCriteria::AnyType(types) => types.contains(l.link_type),
        }
    }
}

impl FindLinkCriteria {
    /// Whether `link` meets the criteria.
    pub fn is_met_by(&self, link: &HtmlLink) -> (r: bool)
        ensures
            r == self@.matches(link@),
    {
        match self {
            FindLinkCriteria::Rel(rel) => str_equal(link.rel.as_str(), rel.as_str()),
            FindLinkCriteria::AnyType(types) => {
                let ghost tv = types@.map_values(|t: String| t@);
                let mut i: usize = 0;
                while i < types.len()
                    invariant
                        self@ == LinkCriteria::AnyType(tv),
                        tv == types@.map_values(|t: String| t@),
                        i <= types@.len(),
                        forall|k: int| 0 <= k < i ==> tv[k] != link@.link_type,
                    decreases types@.len() - i,
                {
                    if str_equal(types[i].as_str(), link.link_type.as_str()) {
                        assert(tv[i as int] == link@.link_type);
                        return true;
                    }
                    i = i + 1;
                }
                false
            },
        }
    }
}

/// The first link, in document order, that meets `criteria` and whose target
/// resolves against `base`; its resolved target.
pub open spec fn spec_find_link(
    base: Seq<char>,
    links: Seq<HtmlLinkView>,
    criteria: LinkCriteria,
) -> Option<Seq<char>>
    decreases links.len(),
{
    if links.len() == 0 {
        None
    } else {
        let l = links[0];
        if criteria.matches(l) && spec_resolve(base, l.href) is Some {
            spec_resolve(base, l.href)
        } else {
            spec_find_link(base, links.drop_first(), criteria)
        }
    }
}

/// Finds the first link in `document` that meets `criteria` and whose target
/// resolves against `url`, the document's own address; returns the target.
pub fn find_link_in_document(url: &str, document: &Document, criteria: &FindLinkCriteria) -> (r:
    Option<String>)
    ensures
        match r {
            Some(u) => spec_find_link(url@, document.spec_links(), criteria@) == Some(u@),
            None => spec_find_link(url@, document.spec_links(), criteria@) is None,
        },
{
    let links = &document.links;
    let ghost all = document.spec_links();
    let mut i: usize = 0;
    assert(all.skip(0) =~= all);
    while i < links.len()
        invariant
            i <= links@.len(),
            all == document.spec_links(),
            links@ == document.links@,
            spec_find_link(url@, all, criteria@) == spec_find_link(url@, all.skip(i as int), criteria@),
        decreases links@.len() - i,
    {
        let link = &links[i];
        assert(all.skip(i as int)[0] == link@);
        assert(all.skip(i as int).drop_first() =~= all.skip(i as int + 1));
        if criteria.is_met_by(link) {
            match resolve(url, link.href.as_str()) {
                Some(target) => {
                    return Some(target);
                },
                None => {},
            }
        }
        i = i + 1;
    }
    assert(all.skip(i as int).len() == 0);
    None
}

/// The target of the first criterion, in priority order, that some link meets.
pub open spec fn spec_find_link_by_priority(
    base: Seq<char>,
    links: Seq<HtmlLinkView>,
    criteria: Seq<LinkCriteria>,
) -> Option<Seq<char>>
    decreases criteria.len(),
{
    if criteria.len() == 0 {
        None
    } else {
        match spec_find_link(base, links, criteria[0]) {
            Some(u) => Some(u),
            None => spec_find_link_by_priority(base, links, criteria.drop_first()),
        }
    }
}

pub open spec fn criteria_views(cs: Seq<FindLinkCriteria>) -> Seq<LinkCriteria> {
    cs.map_values(|c: FindLinkCriteria| c@)
}

/// Finds a link by a list of criteria in priority order: the first criterion
/// that some link meets decides, and among its links the first in document
/// order wins.
pub fn find_link_by_priority(url: &str, document: &Document, criteria: &Vec<FindLinkCriteria>) -> (r:
    Option<String>)
    ensures
        match r {
            Some(u) => spec_find_link_by_priority(url@, document.spec_links(), criteria_views(criteria@))
                == Some(u@),
            None => spec_find_link_by_priority(url@, document.spec_links(), criteria_views(criteria@))
                is None,
        },
{
    let ghost cs = criteria_views(criteria@);
    let mut i: usize = 0;
    assert(cs.skip(0) =~= cs);
    while i < criteria.len()
        invariant
            i <= criteria@.len(),
            cs == criteria_views(criteria@),
            spec_find_link_by_priority(url@, document.spec_links(), cs)
                == spec_find_link_by_priority(url@, document.spec_links(), cs.skip(i as int)),
        decreases criteria@.len() - i,
    {
        assert(cs.skip(i as int)[0] == criteria@[i as int]@);
        assert(cs.skip(i as int).drop_first() =~= cs.skip(i as int + 1));
        match find_link_in_document(url, document, &criteria[i]) {
            Some(u) => {
                return Some(u);
            },
            None => {},
        }
        i = i + 1;
    }
    assert(cs.skip(i as int).len() == 0);
    None
}

} // verus!
