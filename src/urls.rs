use vstd::prelude::*;

verus! {

/// Name of what `url::Url::parse` makes of `s`: the serialization of the
/// absolute URL it denotes, or nothing where `s` is not one.
pub uninterp spec fn url_parse_of(s: Seq<char>) -> Option<Seq<char>>;

/// Name of the serialization of `href` resolved against the absolute URL
/// `base`, or nothing where it does not resolve.
pub uninterp spec fn url_join_of(base: Seq<char>, href: Seq<char>) -> Option<Seq<char>>;

/// Relies on `url::Url::parse`: parses an absolute URL and returns its
/// serialization; the result depends on `s` alone.
#[verifier::external_body]
fn parse_url(s: &str) -> (r: Option<String>)
    ensures
        match r {
            Some(u) => url_parse_of(s@) == Some(u@),
            None => url_parse_of(s@) is None,
        },
{
    url::Url::parse(s).ok().map(String::from)
}

/// Relies on `url::Url::join`, on the base as `url::Url::parse` reads it:
/// resolves `href` against `base`; the result depends on the two strings alone.
#[verifier::external_body]
fn join_url(base: &str, href: &str) -> (r: Option<String>)
    ensures
        match r {
            Some(u) => url_join_of(base@, href@) == Some(u@),
            None => url_join_of(base@, href@) is None,
        },
{
    url::Url::parse(base).ok()?.join(href).ok().map(String::from)
}

/// Error of a string that is not a well-formed absolute URL.
#[derive(Clone, Copy, Debug, PartialEq, Eq, Structural)]
pub enum UrlError {
    Invalid,
}

/// Whether `prefix` is a prefix of `s`.
pub fn has_prefix(s: &str, prefix: &str) -> (r: bool)
    ensures
        r == prefix@.is_prefix_of(s@),
{
    let n = prefix.unicode_len();
    let m = s.unicode_len();
    if n > m {
        return false;
    }
    let mut i: usize = 0;
    while i < n
        invariant
            n == prefix@.len(),
            m == s@.len(),
            n <= m,
            i <= n,
            forall|k: int| 0 <= k < i ==> prefix@[k] == s@[k],
        decreases n - i,
    {
        if prefix.get_char(i) != s.get_char(i) {
            return false;
        }
        i = i + 1;
    }
    true
}

/// Whether two strings hold the same characters.
pub fn str_equal(a: &str, b: &str) -> (r: bool)
    ensures
        r == (a@ == b@),
{
    let r = a.unicode_len() == b.unicode_len() && has_prefix(a, b);
    proof {
        if r {
            assert(a@ =~= b@);
        }
    }
    r
}

/// Parses an absolute URL, returning its serialization.
pub fn parse(s: &str) -> (r: Result<String, UrlError>)
    ensures
        match r {
            Ok(u) => url_parse_of(s@) == Some(u@),
            Err(_) => url_parse_of(s@) is None,
        },
{
    match parse_url(s) {
        Some(u) => Ok(u),
        None => Err(UrlError::Invalid),
    }
}

/// Resolves `href` against the absolute URL `base`.
pub fn join(base: &str, href: &str) -> (r: Result<String, UrlError>)
    ensures
        match r {
            Ok(u) => url_join_of(base@, href@) == Some(u@),
            Err(_) => url_join_of(base@, href@) is None,
        },
{
    match join_url(base, href) {
        Some(u) => Ok(u),
        None => Err(UrlError::Invalid),
    }
}

pub open spec fn http_prefix() -> Seq<char> {
    seq!['h', 't', 't', 'p']
}

/// A link target taken as it is where it starts with `http`, and resolved
/// against `base` otherwise.
pub open spec fn spec_resolve(base: Seq<char>, href: Seq<char>) -> Option<Seq<char>> {
    if http_prefix().is_prefix_of(href) {
        url_parse_of(href)
    } else {
        url_join_of(base, href)
    }
}

/// Resolves a link target found in the document at `base`.
pub fn resolve(base: &str, href: &str) -> (r: Option<String>)
    ensures
        match r {
            Some(u) => spec_resolve(base@, href@) == Some(u@),
            None => spec_resolve(base@, href@) is None,
        },
{
    proof {
        reveal_strlit("http");
    }
    let absolute = has_prefix(href, "http");
    assert("http"@ =~= http_prefix());
    if absolute {
        parse_url(href)
    } else {
        join_url(base, href)
    }
}

pub open spec fn https_scheme() -> Seq<char> {
    seq!['h', 't', 't', 'p', 's', ':', '/', '/']
}

pub open spec fn http_scheme() -> Seq<char> {
    seq!['h', 't', 't', 'p', ':', '/', '/']
}

pub open spec fn localhost() -> Seq<char> {
    seq!['l', 'o', 'c', 'a', 'l', 'h', 'o', 's', 't']
}

pub open spec fn loopback() -> Seq<char> {
    seq!['1', '2', '7', '.', '0', '.', '0', '.', '1']
}

/// The string that is parsed for a URL typed by a user: as it is where it
/// has a scheme; with `http://` in front for a local host; with `https://`
/// in front otherwise.
pub open spec fn spec_guess_input(s: Seq<char>) -> Seq<char> {
    if https_scheme().is_prefix_of(s) || http_scheme().is_prefix_of(s) {
        s
    } else if localhost().is_prefix_of(s) || loopback().is_prefix_of(s) {
        http_scheme() + s
    } else {
        https_scheme() + s
    }
}

/// Makes an absolute URL of what a user typed, which may lack a scheme.
pub fn guess_url(url: String) -> (r: Result<String, UrlError>)
    ensures
        match r {
            Ok(u) => url_parse_of(spec_guess_input(url@)) == Some(u@),
            Err(_) => url_parse_of(spec_guess_input(url@)) is None,
        },
{
    proof {
        reveal_strlit("https://");
        reveal_strlit("http://");
        reveal_strlit("localhost");
        reveal_strlit("127.0.0.1");
    }
    assert("https://"@ =~= https_scheme());
    assert("http://"@ =~= http_scheme());
    assert("localhost"@ =~= localhost());
    assert("127.0.0.1"@ =~= loopback());
    if has_prefix(url.as_str(), "https://") || has_prefix(url.as_str(), "http://") {
        return parse(url.as_str());
    }
    let full = if has_prefix(url.as_str(), "localhost") || has_prefix(url.as_str(), "127.0.0.1") {
        String::from_str("http://").concat(url.as_str())
    } else {
        String::from_str("https://").concat(url.as_str())
    };
    parse(full.as_str())
}

} // verus!
