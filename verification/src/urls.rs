//! URL parsing through the `url` crate.

use vstd::prelude::*;

use crate::text::opt_chars;

verus! {

/// Whether `url::Url::parse` accepts the string.
pub uninterp spec fn url_valid(s: Seq<char>) -> bool;

/// `Url::host_str` of the parsed URL, when it parses and has a host.
pub uninterp spec fn url_host(s: Seq<char>) -> Option<Seq<char>>;

/// `Url::path` of the parsed URL, when it parses.
pub uninterp spec fn url_path(s: Seq<char>) -> Option<Seq<char>>;

/// `Url::scheme` of the parsed URL, when it parses.
pub uninterp spec fn url_scheme(s: Seq<char>) -> Option<Seq<char>>;

/// The serialized result of `Url::join(input)` on the parsed base URL, when
/// the base parses and the join succeeds.
pub uninterp spec fn url_joined(base: Seq<char>, input: Seq<char>) -> Option<Seq<char>>;

/// Lower-case ASCII letters, each dot followed by a letter.
pub open spec fn letters_and_dots(h: Seq<char>) -> bool
    decreases h.len(),
{
    if h.len() == 0 {
        true
    } else {
        &&& ('a' <= h[0] && h[0] <= 'z') || (h[0] == '.' && h.len() > 1 && h[1] != '.')
        &&& letters_and_dots(h.drop_first())
    }
}

/// A host that URL parsing keeps as written: non-empty labels of lower-case
/// ASCII letters, separated by single dots.
pub open spec fn letter_host(h: Seq<char>) -> bool {
    h.len() > 0 && h[0] != '.' && letters_and_dots(h)
}

/// A path of ASCII letters, digits, `/`, `.`, `-` and `_`.
pub open spec fn plain_path(p: Seq<char>) -> bool {
    forall|i: int|
        0 <= i < p.len() ==> {
            let c = #[trigger] p[i];
            ('a' <= c && c <= 'z') || ('A' <= c && c <= 'Z') || ('0' <= c && c <= '9') || c
                == '/' || c == '.' || c == '-' || c == '_'
        }
}

/// Whether `url` is `https://`, a letter host ending at position `k`, then
/// `/` and a plain path.
pub open spec fn plain_https_split(url: Seq<char>, k: int) -> bool {
    &&& url.len() > 8
    &&& url.take(8) == "https://"@
    &&& 8 < k < url.len()
    &&& url[k] == '/'
    &&& letter_host(url.subrange(8, k))
    &&& plain_path(url.skip(k + 1))
}

/// The host of a URL of the form `https://host/path` with a letter host and
/// a plain path.
pub open spec fn plain_https_host(url: Seq<char>) -> Option<Seq<char>> {
    if exists|k: int| plain_https_split(url, k) {
        Some(url.subrange(8, choose|k: int| plain_https_split(url, k)))
    } else {
        None
    }
}

/// The host that URL parsing gives: stated for plain `https` URLs, named
/// otherwise.
pub open spec fn host_as_parsed(url: Seq<char>) -> Option<Seq<char>> {
    if plain_https_host(url) is Some {
        plain_https_host(url)
    } else {
        url_host(url)
    }
}

/// The host of `url` (`Url::parse(url).ok()?.host_str()`). The WHATWG
/// parsing is named, not described; stated are that a host comes from a URL
/// that parses, and the host of `https://host/path` when the host is made of
/// lower-case ASCII letters and single dots and the path of ASCII letters,
/// digits and `/ . - _`: such a host passes IDNA processing unchanged, is no
/// IPv4 number, and ends at the first `/`.
#[verifier::external_body]
pub fn host_of(url: &str) -> (r: Option<String>)
    ensures
        opt_chars(r) == url_host(url@),
        r is Some ==> url_valid(url@),
        plain_https_host(url@) is Some ==> opt_chars(r) == plain_https_host(url@),
{
    url::Url::parse(url).ok()?.host_str().map(|h| h.to_string())
}

/// The path of `url` (`Url::parse(url).ok()?.path()`), `None` when it does
/// not parse.
#[verifier::external_body]
pub fn path_of(url: &str) -> (r: Option<String>)
    ensures
        opt_chars(r) == url_path(url@),
        r is Some <==> url_valid(url@),
{
    url::Url::parse(url).ok().map(|u| u.path().to_string())
}

/// The scheme of `url` (`Url::scheme`), `None` when it does not parse.
#[verifier::external_body]
pub fn scheme_of(url: &str) -> (r: Option<String>)
    ensures
        opt_chars(r) == url_scheme(url@),
        r is Some <==> url_valid(url@),
{
    url::Url::parse(url).ok().map(|u| u.scheme().to_string())
}

/// `Url::parse(base)` then `join(input)`, serialized; `None` when either fails.
#[verifier::external_body]
pub fn join_url(base: &str, input: &str) -> (r: Option<String>)
    ensures
        opt_chars(r) == url_joined(base@, input@),
        r is Some ==> url_valid(base@),
{
    url::Url::parse(base).ok()?.join(input).ok().map(|u| u.to_string())
}

} // verus!
