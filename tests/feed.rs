use servare::feed::{entry_key_of, find_favicon, find_feed, FoundFeed, ParsedFeed, ParsedFeedEntry, RawFeed};
use servare::html::{find_link_in_document, Document, FindLinkCriteria, MAX_START_TAGS};
use servare::urls::guess_url;
use url::Url;

const FEED_IN_ORDER: &str = r#"
<rss xmlns:atom="http://www.w3.org/2005/Atom" version="2.0">
<channel>
<title>Foo</title>
<link>https://example.com/blog/</link>
<description>Foo</description>
<atom:link href="https://example.com/blog/index.xml" rel="self" type="application/rss+xml"/>
</channel>
</rss>"#;

const FEED_NOT_IN_ORDER: &str = r#"
<rss xmlns:atom="http://www.w3.org/2005/Atom" version="2.0">
<channel>
<atom:link href="https://example.com/blog/index.xml" rel="self" type="application/rss+xml"/>
<title>Foo</title>
<description>Foo</description>
<link>https://example.com/blog/</link>
</channel>
</rss>"#;

#[test]
fn feed_feed_parse_should_work() {
    let url = Url::parse("https://example.com/blog/").unwrap();

    let feed = ParsedFeed::parse(url.as_str(), FEED_IN_ORDER.as_bytes()).unwrap();
    assert_eq!(feed.title, "Foo");
    assert_eq!(feed.site_link, "https://example.com/blog/");
    assert_eq!(feed.description, "Foo");
}

#[test]
fn feed_feed_parse_should_work_even_with_links_not_in_order() {
    let url = Url::parse("https://example.com/blog/").unwrap();

    let feed = ParsedFeed::parse(url.as_str(), FEED_NOT_IN_ORDER.as_bytes()).unwrap();
    assert_eq!(feed.title, "Foo");
    assert_eq!(feed.site_link, "https://example.com/blog/");
    assert_eq!(feed.description, "Foo");
}

#[test]
fn parsed_feed_feed_parse_should_work() {
    let url = Url::parse("https://example.com/blog/").unwrap();

    let feed = ParsedFeed::parse(url.as_str(), FEED_IN_ORDER.as_bytes()).unwrap();
    assert_eq!(feed.title, "Foo");
    assert_eq!(Url::parse(&feed.site_link).ok(), Some(url));
    assert_eq!(feed.description, "Foo");
}

#[test]
fn parsed_feed_feed_parse_should_work_even_with_links_not_in_order() {
    let url = Url::parse("https://example.com/blog/").unwrap();

    let feed = ParsedFeed::parse(url.as_str(), FEED_NOT_IN_ORDER.as_bytes()).unwrap();
    assert_eq!(feed.title, "Foo");
    assert_eq!(Url::parse(&feed.site_link).ok(), Some(url));
    assert_eq!(feed.description, "Foo");
}

#[test]
fn find_link_in_document_with_rel() {
    let url = Url::parse("https://example.com").unwrap();
    let document = Document::parse(
        r#"
            <html>
            <head>
            <link rel="foobar" href="/hello">
            </head>
            </html>
        "#
        .as_bytes(),
    )
    .unwrap();

    let link = find_link_in_document(
        url.as_str(),
        &document,
        &FindLinkCriteria::Rel("foobar".to_string()),
    );
    assert!(link.is_some());
    assert_eq!("https://example.com/hello", link.unwrap())
}

#[test]
fn find_link_in_document_with_type() {
    let url = Url::parse("https://example.com").unwrap();
    let document = Document::parse(
        r#"
            <html>
            <head>
            <link href="/yesterday" type="foo">
            </head>
            </html>
        "#
        .as_bytes(),
    )
    .unwrap();

    let link = find_link_in_document(
        url.as_str(),
        &document,
        &FindLinkCriteria::AnyType(vec!["foo".to_string()]),
    );
    assert!(link.is_some());
    assert_eq!("https://example.com/yesterday", link.unwrap())
}

#[test]
fn guess_uri_should_work_with_and_without_a_scheme() {
    let url1 = guess_url("http://127.0.0.1/foo".to_string()).unwrap();
    let url2 = guess_url("127.0.0.1/foo".to_string()).unwrap();
    assert_eq!(url1, url2);

    let url1 = guess_url("http://localhost/foo".to_string()).unwrap();
    let url2 = guess_url("localhost/foo".to_string()).unwrap();
    assert_eq!(url1, url2);

    let url1 = guess_url("https://example.com/foo".to_string()).unwrap();
    let url2 = guess_url("example.com/foo".to_string()).unwrap();
    assert_eq!(url1, url2);
}

#[test]
fn guess_url_serializes_the_parsed_address() {
    assert_eq!(guess_url("example.com".to_string()).unwrap(), "https://example.com/");
    assert_eq!(guess_url("localhost:8000/a/../b".to_string()).unwrap(), "http://localhost:8000/b");
}

#[test]
fn guess_url_rejects_an_invalid_address() {
    assert!(guess_url("http://exa mple.com".to_string()).is_err());
}

#[test]
fn site_link_is_empty_when_every_link_has_a_rel() {
    let data = r#"
<feed xmlns="http://www.w3.org/2005/Atom">
<title>Bar</title>
<id>urn:bar</id>
<updated>2024-01-01T00:00:00Z</updated>
<link rel="self" href="https://example.com/feed.xml"/>
<link rel="alternate" href="https://example.com/"/>
</feed>"#;
    let feed = ParsedFeed::parse("https://example.com/feed.xml", data.as_bytes()).unwrap();
    assert_eq!(feed.title, "Bar");
    assert_eq!(feed.site_link, "");
    assert_eq!(feed.description, "");
}

#[test]
fn parse_rejects_bytes_that_are_not_a_feed() {
    assert!(ParsedFeed::parse("https://example.com/", b"hello world").is_err());
    assert!(RawFeed::parse(b"<html><body>no feed</body></html>").is_err());
}

const FEED_WITH_ENTRIES: &str = r#"
<rss version="2.0">
<channel>
<title>Blog on Tailscale</title>
<link>https://tailscale.com/blog/</link>
<description>Recent content in Blog on Tailscale</description>
<item>
<title>First</title>
<guid>e1</guid>
<description>one</description>
<author>alice@example.com (Alice)</author>
</item>
<item>
<guid>e2</guid>
</item>
</channel>
</rss>"#;

#[test]
fn find_feed_returns_the_feed_when_the_data_is_one() {
    let found = find_feed("http://server/xml_feed1", FEED_WITH_ENTRIES.as_bytes()).unwrap();
    let feed = match found {
        FoundFeed::Raw(raw) => ParsedFeed::from_raw_feed("http://server/xml_feed1", &raw),
        FoundFeed::Url(_) => panic!("expected a FoundFeed::Raw"),
    };
    assert_eq!("Blog on Tailscale", feed.title);
    assert_eq!("https://tailscale.com/blog/", feed.site_link);
    assert_eq!("Recent content in Blog on Tailscale", feed.description);
    assert_eq!("http://server/xml_feed1", feed.url);
}

#[test]
fn find_feed_follows_the_first_feed_link_of_a_page() {
    let page = r#"
        <html><head>
        <link rel="stylesheet" href="/style.css">
        <link type="application/rss+xml" href="/xml_feed2">
        <link type="application/atom+xml" href="/atom">
        </head></html>
        "#;
    let found = find_feed("http://server/html_feed", page.as_bytes()).unwrap();
    match found {
        FoundFeed::Url(u) => assert_eq!(u, "http://server/xml_feed2"),
        FoundFeed::Raw(_) => panic!("expected a FoundFeed::Url"),
    }
}

#[test]
fn find_feed_fails_without_feed() {
    let page = "<html><head><link rel=\"icon\" href=\"/i.png\"></head></html>";
    assert!(find_feed("http://server/", page.as_bytes()).is_err());
}

const ATOM_WITH_AUTHORS: &str = r#"
<feed xmlns="http://www.w3.org/2005/Atom">
<title>Authors</title>
<id>urn:authors</id>
<updated>2024-01-01T00:00:00Z</updated>
<entry>
<id>e1</id>
<title>First</title>
<summary>one</summary>
<updated>2024-01-01T00:00:00Z</updated>
<author><name>Alice</name><email>alice@example.com</email></author>
<author><name>Bob</name></author>
</entry>
<entry>
<id>e2</id>
<updated>2024-01-01T00:00:00Z</updated>
</entry>
</feed>"#;

#[test]
fn entries_take_email_else_name_as_author() {
    let raw = RawFeed::parse(ATOM_WITH_AUTHORS.as_bytes()).unwrap();
    assert_eq!(raw.entries.len(), 2);
    let first = ParsedFeedEntry::from_raw_feed_entry(&raw.entries[0]);
    assert_eq!(first.external_id, "e1");
    assert_eq!(first.title, "First");
    assert_eq!(first.summary, "one");
    assert_eq!(first.authors, vec!["alice@example.com".to_string(), "Bob".to_string()]);
    let second = ParsedFeedEntry::from_raw_feed_entry(&raw.entries[1]);
    assert_eq!(second.external_id, "e2");
    assert_eq!(second.title, "");
    assert_eq!(second.summary, "");
    assert!(second.authors.is_empty());
    assert!(second.url.is_none());
}

#[test]
fn favicon_priority_prefers_x_icon_type() {
    let page = r#"
        <html><head>
        <link rel="icon" href="/rel.png">
        <link type="image/icon" href="/icon.png">
        <link type="image/x-icon" href="/x.ico">
        </head></html>
        "#;
    let url = find_favicon("https://example.com/", page.as_bytes());
    assert_eq!(url, Some("https://example.com/x.ico".to_string()));
}

#[test]
fn favicon_falls_back_to_rel_icon_and_absolute_links() {
    let page = r#"<html><head><link rel="icon" href="https://cdn.example.org/i.png"></head></html>"#;
    let url = find_favicon("https://example.com/", page.as_bytes());
    assert_eq!(url, Some("https://cdn.example.org/i.png".to_string()));
    let none = find_favicon("https://example.com/", b"<html><head></head></html>");
    assert_eq!(none, None);
}

#[test]
fn entries_without_id_are_keyed_like_feed_rs_does() {
    let data = r#"<rss version="2.0"><channel><title>T</title>
<item><title>a</title><link>https://example.com/a</link></item>
<item><title>b</title></item>
<item><description>only a summary</description></item>
</channel></rss>"#;
    let raw = RawFeed::parse(data.as_bytes()).unwrap();
    assert_eq!(raw.entries[0].id, "");
    assert_eq!(raw.entries[0].links, vec!["https://example.com/a".to_string()]);
    let keys: Vec<String> = raw
        .entries
        .iter()
        .map(|e| ParsedFeedEntry::from_raw_feed_entry(e).external_id)
        .collect();
    let by_feed_rs = feed_rs::parser::parse(data.as_bytes()).unwrap();
    assert_eq!(keys[0], by_feed_rs.entries[0].id);
    assert_eq!(keys[1], "b");
    assert_eq!(keys[2], "");
    let again = RawFeed::parse(data.as_bytes()).unwrap();
    assert_eq!(entry_key_of(&again.entries[0]), keys[0]);
}

#[test]
fn entry_url_is_the_first_link_that_parses() {
    let data = r#"<feed xmlns="http://www.w3.org/2005/Atom"><title>T</title><id>urn:t</id>
<updated>2024-01-01T00:00:00Z</updated>
<entry><id>e1</id><title>x</title><updated>2024-01-01T00:00:00Z</updated>
<link href="not a url"/><link href="https://Example.com/a"/></entry>
<entry><id>e2</id><title>y</title><updated>2024-01-01T00:00:00Z</updated></entry>
</feed>"#;
    let raw = RawFeed::parse(data.as_bytes()).unwrap();
    let first = ParsedFeedEntry::from_raw_feed_entry(&raw.entries[0]);
    assert_eq!(first.url, Some("https://example.com/a".to_string()));
    let second = ParsedFeedEntry::from_raw_feed_entry(&raw.entries[1]);
    assert_eq!(second.url, None);
}

#[test]
fn huge_itunes_duration_is_skipped_not_fatal() {
    let data = r#"<rss version="2.0" xmlns:itunes="http://www.itunes.com/dtds/podcast-1.0.dtd"
 xmlns:media="http://search.yahoo.com/mrss/"><channel><title>Pod</title>
<link>https://pod.example/</link><description>d</description>
<item><guid>p1</guid><title>Episode</title>
<itunes:duration>123456789012345678901234567890</itunes:duration>
<media:text start="99999999999999999999999999:00:00">x</media:text>
</item></channel></rss>"#;
    let feed = RawFeed::parse(data.as_bytes()).unwrap();
    assert_eq!(feed.entries.len(), 1);
    assert_eq!(feed.entries[0].id, "p1");
    let parsed = ParsedFeed::parse("https://pod.example/feed", data.as_bytes()).unwrap();
    assert_eq!(parsed.title, "Pod");
    assert_eq!(parsed.site_link, "https://pod.example/");
}

#[test]
fn bytes_with_nul_or_escape_are_not_a_feed() {
    let mut data = FEED_IN_ORDER.as_bytes().to_vec();
    data.push(0);
    assert!(RawFeed::parse(&data).is_err());
    let mut data = FEED_IN_ORDER.as_bytes().to_vec();
    data.insert(10, 27);
    assert!(RawFeed::parse(&data).is_err());
}

#[test]
fn discovery_reads_a_document_up_to_the_start_tag_bound() {
    let mut deep = String::from("<html><head><link type=\"application/rss+xml\" href=\"/f\"></head><body>");
    for _ in 0..200_000 {
        deep.push_str("<div>");
    }
    deep.push_str("<link rel=\"icon\" href=\"/late.ico\">");
    let document = Document::parse(deep.as_bytes()).unwrap();
    assert_eq!(document.links.len(), 1);
    match find_feed("http://server/", deep.as_bytes()).unwrap() {
        FoundFeed::Url(u) => assert_eq!(u, "http://server/f"),
        FoundFeed::Raw(_) => panic!("expected a feed address"),
    }
    assert_eq!(find_favicon("http://server/", deep.as_bytes()), None);

    let mut wide = String::from("<html><head></head><body>");
    for _ in 0..(MAX_START_TAGS - 10) {
        wide.push_str("<p>x</p>");
    }
    wide.push_str("<link rel=\"icon\" href=\"/i.ico\">");
    assert_eq!(find_favicon("http://server/", wide.as_bytes()), Some("http://server/i.ico".to_string()));
}

#[test]
fn absent_link_attributes_read_as_empty() {
    let document = Document::parse(b"<link href=\"/a\"><link rel=\"icon\">").unwrap();
    assert_eq!(document.links.len(), 2);
    assert_eq!(document.links[0].rel, "");
    assert_eq!(document.links[0].link_type, "");
    assert_eq!(document.links[1].href, "");
    assert_eq!(document.links[1].rel, "icon");
}
