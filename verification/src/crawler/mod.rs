//! The registry of supported sites and the helpers that every site parser
//! shares: URL resolution, query encoding and chapter HTML cleaning.

pub mod brightnovels;
pub mod novelbin;
pub mod novelfull;
pub mod novelishuniverse;
pub mod royalroad;
pub mod scribblehub;
pub mod webnovel;

use vstd::prelude::*;

use crate::text::{
    all_ascii, chars_of, lower_text, matches_at, occurs_at, push_str, starts_with,
    string_from_chars, to_lowercase,
};
use crate::models::str_eq;
pub use crate::html::{select_first_attr, select_first_html, select_first_text};
use crate::html::{
    detach_matches, edit_fragment, first_of, fragment_html, fragment_without, parse_fragment,
    select_all, selection, selector_parses, trimmed_attr, trimmed_text, NodeView, Page,
};
use crate::models::{Chapter, Novel};
use crate::text::opt_chars;
use crate::text::replace_all;
use crate::urls::{
    host_as_parsed, host_of, join_url, letter_host, letters_and_dots, plain_https_host,
    plain_https_split, plain_path, url_joined, url_valid,
};

verus! {

// ── Registry ─────────────────────────────────────────────────────────────────

/// The supported sites, one per crawler.
#[derive(Clone, Copy, Debug, PartialEq, Eq, Structural)]
pub enum CrawlerKind {
    BrightNovels,
    RoyalRoad,
    NovelFull,
    ScribbleHub,
    Webnovel,
    NovelBin,
    NovelishUniverse,
}

/// `s` with every leading repetition of `p` removed (`str::trim_start_matches`).
pub open spec fn strip_prefixes(s: Seq<char>, p: Seq<char>) -> Seq<char>
    decreases s.len(),
{
    if p.len() > 0 && occurs_at(s, p, 0) {
        strip_prefixes(s.skip(p.len() as int), p)
    } else {
        s
    }
}

/// The crawler for a lower-cased host without its `www.` prefixes.
pub open spec fn kind_for_host(h: Seq<char>) -> Option<CrawlerKind> {
    if h == "brightnovels.com"@ {
        Some(CrawlerKind::BrightNovels)
    } else if h == "royalroad.com"@ {
        Some(CrawlerKind::RoyalRoad)
    } else if h == "novelfull.com"@ || h == "novelfull.net"@ {
        Some(CrawlerKind::NovelFull)
    } else if h == "scribblehub.com"@ {
        Some(CrawlerKind::ScribbleHub)
    } else if h == "webnovel.com"@ || h == "m.webnovel.com"@ {
        Some(CrawlerKind::Webnovel)
    } else if h == "novelbin.com"@ || h == "novelbin.me"@ {
        Some(CrawlerKind::NovelBin)
    } else if h == "novelishuniverse.com"@ {
        Some(CrawlerKind::NovelishUniverse)
    } else {
        None
    }
}

/// The crawler that handles `url`, decided by its host.
pub open spec fn crawler_for_url(url: Seq<char>) -> Option<CrawlerKind> {
    match host_as_parsed(url) {
        None => None,
        Some(h) => kind_for_host(strip_prefixes(lower_text(h), "www."@)),
    }
}

/// Removes every leading `p` from `s`.
pub fn trim_start_matches(s: &str, p: &str) -> (r: String)
    ensures
        r@ == strip_prefixes(s@, p@),
{
    let cs = chars_of(s);
    let ps = chars_of(p);
    let mut i: usize = 0;
    assert(cs@.skip(0) == cs@);
    while ps.len() > 0 && matches_at(&cs, &ps, i)
        invariant
            i <= cs.len(),
            strip_prefixes(cs@.skip(i as int), ps@) == strip_prefixes(s@, p@),
            cs@ == s@,
            ps@ == p@,
        decreases cs.len() - i,
    {
        proof {
            let t = cs@.skip(i as int);
            assert(t.subrange(0, ps@.len() as int) == cs@.subrange(i as int, i + ps@.len()));
            assert(t.skip(ps@.len() as int) == cs@.skip(i + ps@.len()));
        }
        i = i + ps.len();
    }
    proof {
        let t = cs@.skip(i as int);
        if ps@.len() > 0 && occurs_at(t, ps@, 0) {
            assert(t.subrange(0, ps@.len() as int) == cs@.subrange(i as int, i + ps@.len()));
        }
    }
    let mut out: Vec<char> = Vec::new();
    let mut k: usize = i;
    while k < cs.len()
        invariant
            i <= k <= cs.len(),
            out@ == cs@.subrange(i as int, k as int),
        decreases cs.len() - k,
    {
        out.push(cs[k]);
        k = k + 1;
        assert(out@ == cs@.subrange(i as int, k as int));
    }
    assert(out@ == cs@.skip(i as int));
    string_from_chars(&out)
}

/// Return the crawler for `url`, or `None` if its site is unsupported.
pub fn create_crawler(url: &str) -> (r: Option<CrawlerKind>)
    ensures
        r == crawler_for_url(url@),
{
    let host = host_of(url)?;
    let lower = to_lowercase(host.as_str());
    let h = trim_start_matches(lower.as_str(), "www.");
    let h = h.as_str();
    if str_eq(h, "brightnovels.com") {
        Some(CrawlerKind::BrightNovels)
    } else if str_eq(h, "royalroad.com") {
        Some(CrawlerKind::RoyalRoad)
    } else if str_eq(h, "novelfull.com") || str_eq(h, "novelfull.net") {
        Some(CrawlerKind::NovelFull)
    } else if str_eq(h, "scribblehub.com") {
        Some(CrawlerKind::ScribbleHub)
    } else if str_eq(h, "webnovel.com") || str_eq(h, "m.webnovel.com") {
        Some(CrawlerKind::Webnovel)
    } else if str_eq(h, "novelbin.com") || str_eq(h, "novelbin.me") {
        Some(CrawlerKind::NovelBin)
    } else if str_eq(h, "novelishuniverse.com") {
        Some(CrawlerKind::NovelishUniverse)
    } else {
        None
    }
}

/// Every registered crawler, in registration order.
pub open spec fn registered() -> Seq<CrawlerKind> {
    seq![
        CrawlerKind::BrightNovels,
        CrawlerKind::RoyalRoad,
        CrawlerKind::NovelFull,
        CrawlerKind::ScribbleHub,
        CrawlerKind::Webnovel,
        CrawlerKind::NovelBin,
        CrawlerKind::NovelishUniverse,
    ]
}

/// Convenience: all registered crawlers, for search.
pub fn all_crawlers() -> (r: Vec<CrawlerKind>)
    ensures
        r@ == registered(),
{
    let mut v: Vec<CrawlerKind> = Vec::new();
    v.push(CrawlerKind::BrightNovels);
    v.push(CrawlerKind::RoyalRoad);
    v.push(CrawlerKind::NovelFull);
    v.push(CrawlerKind::ScribbleHub);
    v.push(CrawlerKind::Webnovel);
    v.push(CrawlerKind::NovelBin);
    v.push(CrawlerKind::NovelishUniverse);
    v
}

/// Convenience: the registered crawlers that support search, in order.
pub fn search_crawlers() -> (r: Vec<CrawlerKind>)
    ensures
        r@ == registered().filter(|k: CrawlerKind| kind_supports_search(k)),
{
    let all = all_crawlers();
    let mut r: Vec<CrawlerKind> = Vec::new();
    let mut i: usize = 0;
    while i < all.len()
        invariant
            i <= all.len(),
            all@ == registered(),
            r@ == all@.take(i as int).filter(|k: CrawlerKind| kind_supports_search(k)),
        decreases all.len() - i,
    {
        proof {
            reveal_with_fuel(Seq::<_>::filter, 1);
            assert(all@.take(i + 1).drop_last() == all@.take(i as int));
        }
        if all[i].supports_search() {
            r.push(all[i]);
        }
        i = i + 1;
    }
    assert(all@.take(i as int) == all@);
    r
}

/// Whether the crawler of a site can search it.
pub open spec fn kind_supports_search(k: CrawlerKind) -> bool {
    true
}

impl CrawlerKind {
    /// The display name of the site.
    pub fn name(&self) -> (r: &'static str)
        ensures
            r@ == kind_name(*self),
    {
        match self {
            CrawlerKind::BrightNovels => "BrightNovels",
            CrawlerKind::RoyalRoad => "Royal Road",
            CrawlerKind::NovelFull => "NovelFull",
            CrawlerKind::ScribbleHub => "ScribbleHub",
            CrawlerKind::Webnovel => "Webnovel",
            CrawlerKind::NovelBin => "NovelBin",
            CrawlerKind::NovelishUniverse => "NovelishUniverse",
        }
    }

    /// The base URLs the site is served from.
    pub fn base_urls(&self) -> (r: Vec<&'static str>)
        ensures
            str_views(r@) == kind_base_urls(*self),
    {
        let mut v: Vec<&'static str> = Vec::new();
        match self {
            CrawlerKind::BrightNovels => v.push("https://brightnovels.com"),
            CrawlerKind::RoyalRoad => v.push("https://www.royalroad.com"),
            CrawlerKind::NovelFull => {
                v.push("https://novelfull.com");
                v.push("https://novelfull.net");
            },
            CrawlerKind::ScribbleHub => v.push("https://www.scribblehub.com"),
            CrawlerKind::Webnovel => {
                v.push("https://www.webnovel.com");
                v.push("https://m.webnovel.com");
            },
            CrawlerKind::NovelBin => {
                v.push("https://novelbin.com");
                v.push("https://novelbin.me");
            },
            CrawlerKind::NovelishUniverse => v.push("https://novelishuniverse.com"),
        }
        assert(str_views(v@) =~= kind_base_urls(*self));
        v
    }

    /// The language of the site's novels.
    pub fn language(&self) -> (r: &'static str)
        ensures
            r@ == "en"@,
    {
        "en"
    }

    /// Whether the site can be searched.
    pub fn supports_search(&self) -> (r: bool)
        ensures
            r == kind_supports_search(*self),
    {
        true
    }
}

/// The characters of each string.
pub open spec fn str_views(v: Seq<&'static str>) -> Seq<Seq<char>> {
    v.map_values(|u: &'static str| u@)
}

/// The display name of a site.
pub open spec fn kind_name(k: CrawlerKind) -> Seq<char> {
    match k {
        CrawlerKind::BrightNovels => "BrightNovels"@,
        CrawlerKind::RoyalRoad => "Royal Road"@,
        CrawlerKind::NovelFull => "NovelFull"@,
        CrawlerKind::ScribbleHub => "ScribbleHub"@,
        CrawlerKind::Webnovel => "Webnovel"@,
        CrawlerKind::NovelBin => "NovelBin"@,
        CrawlerKind::NovelishUniverse => "NovelishUniverse"@,
    }
}

/// The base URLs of a site.
pub open spec fn kind_base_urls(k: CrawlerKind) -> Seq<Seq<char>> {
    match k {
        CrawlerKind::BrightNovels => seq!["https://brightnovels.com"@],
        CrawlerKind::RoyalRoad => seq!["https://www.royalroad.com"@],
        CrawlerKind::NovelFull => seq!["https://novelfull.com"@, "https://novelfull.net"@],
        CrawlerKind::ScribbleHub => seq!["https://www.scribblehub.com"@],
        CrawlerKind::Webnovel => seq!["https://www.webnovel.com"@, "https://m.webnovel.com"@],
        CrawlerKind::NovelBin => seq!["https://novelbin.com"@, "https://novelbin.me"@],
        CrawlerKind::NovelishUniverse => seq!["https://novelishuniverse.com"@],
    }
}

/// The host part of a base URL: what follows its `https://`.
pub open spec fn base_host(b: Seq<char>) -> Seq<char> {
    b.skip(8)
}

/// Every crawler's base URLs lead back to that crawler: each is `https://`
/// followed by a host that names the crawler, and a URL made of a base URL,
/// `/` and a plain path is handled by the same crawler.
#[verifier::spinoff_prover]
#[verifier::rlimit(40)]
pub proof fn lemma_base_urls_lead_back(k: CrawlerKind, i: int, path: Seq<char>)
    requires
        0 <= i < kind_base_urls(k).len(),
        plain_path(path),
    ensures
        kind_base_urls(k)[i] == "https://"@ + base_host(kind_base_urls(k)[i]),
        kind_for_host(strip_prefixes(base_host(kind_base_urls(k)[i]), "www."@)) == Some(k),
        crawler_for_url(kind_base_urls(k)[i] + "/"@ + path) == Some(k),
{
    reveal_strlit("/");
    reveal_strlit("https://");
    reveal_strlit("www.");
    reveal_strlit("https://brightnovels.com");
    reveal_strlit("https://www.royalroad.com");
    reveal_strlit("https://novelfull.com");
    reveal_strlit("https://novelfull.net");
    reveal_strlit("https://www.scribblehub.com");
    reveal_strlit("https://www.webnovel.com");
    reveal_strlit("https://m.webnovel.com");
    reveal_strlit("https://novelbin.com");
    reveal_strlit("https://novelbin.me");
    reveal_strlit("https://novelishuniverse.com");
    reveal_strlit("brightnovels.com");
    reveal_strlit("royalroad.com");
    reveal_strlit("novelfull.com");
    reveal_strlit("novelfull.net");
    reveal_strlit("scribblehub.com");
    reveal_strlit("webnovel.com");
    reveal_strlit("m.webnovel.com");
    reveal_strlit("novelbin.com");
    reveal_strlit("novelbin.me");
    reveal_strlit("novelishuniverse.com");
    let b = kind_base_urls(k)[i];
    let h = base_host(b);
    assert(b == "https://"@ + h);
    if h[0] == 'w' {
        assert(h.subrange(0, 4) =~= "www."@);
        assert(h.skip(4)[0] == h[4] && h.skip(4)[1] == h[5]);
        lemma_no_www_prefix(h.skip(4));
        assert(strip_prefixes(h, "www."@) == h.skip(4));
    } else {
        lemma_no_www_prefix(h);
    }
    let bare = strip_prefixes(h, "www."@);
    match k {
        CrawlerKind::BrightNovels => {
            assert(bare =~= "brightnovels.com"@);
        },
        CrawlerKind::RoyalRoad => {
            assert(bare =~= "royalroad.com"@);
        },
        CrawlerKind::NovelFull => {
            assert("novelfull.com"@[0] != "royalroad.com"@[0]);
            assert("novelfull.net"@[0] != "royalroad.com"@[0]);
            if i == 0 {
                assert(bare =~= "novelfull.com"@);
            } else {
                assert(bare =~= "novelfull.net"@);
            }
        },
        CrawlerKind::ScribbleHub => {
            assert(bare =~= "scribblehub.com"@);
        },
        CrawlerKind::Webnovel => {
            if i == 0 {
                assert(bare =~= "webnovel.com"@);
            } else {
                assert(bare =~= "m.webnovel.com"@);
            }
        },
        CrawlerKind::NovelBin => {
            assert("novelbin.com"@[0] != "webnovel.com"@[0]);
            if i == 0 {
                assert(bare =~= "novelbin.com"@);
            } else {
                assert(bare =~= "novelbin.me"@);
            }
        },
        CrawlerKind::NovelishUniverse => {
            assert(bare =~= "novelishuniverse.com"@);
        },
    }
    assert(letter_host(h)) by {
        reveal_with_fuel(letters_and_dots, 25);
    }
    let u = b + "/"@ + path;
    let e: int = 8 + h.len() as int;
    assert(u.take(8) =~= "https://"@);
    assert(u.subrange(8, e) =~= h);
    assert(u.skip(e + 1) =~= path);
    assert(u[e] == '/');
    assert(plain_https_split(u, e));
    lemma_letter_host_chars(h);
    assert forall|j: int| plain_https_split(u, j) implies j == e by {
        lemma_letter_host_chars(u.subrange(8, j));
        if j < e {
            assert(u[j] == h[j - 8]);
        } else if j > e {
            assert(u.subrange(8, j)[e - 8] == u[e]);
        }
    }
    assert(plain_https_host(u) == Some(h));
    assert(host_as_parsed(u) == Some(h));
    assert(all_ascii(h));
    assert(lower_text(h) =~= h);
}

/// The characters of a letter host are lower-case ASCII letters and dots.
proof fn lemma_letter_host_chars(h: Seq<char>)
    requires
        letters_and_dots(h),
    ensures
        forall|j: int| 0 <= j < h.len() ==> ('a' <= #[trigger] h[j] && h[j] <= 'z') || h[j] == '.',
    decreases h.len(),
{
    if h.len() > 0 {
        lemma_letter_host_chars(h.drop_first());
        assert forall|j: int| 0 <= j < h.len() implies ('a' <= #[trigger] h[j] && h[j] <= 'z') || h[j]
            == '.' by {
            if j > 0 {
                assert(h[j] == h.drop_first()[j - 1]);
            }
        }
    }
}

/// A string that does not start with `ww` has no `www.` prefix to strip.
proof fn lemma_no_www_prefix(s: Seq<char>)
    requires
        s.len() > 1,
        s[0] != 'w' || s[1] != 'w',
    ensures
        strip_prefixes(s, "www."@) == s,
{
    reveal_strlit("www.");
    if s.len() >= 4 {
        assert(s.subrange(0, 4)[0] == s[0] && s.subrange(0, 4)[1] == s[1]);
    }
}

// ── URL helpers ──────────────────────────────────────────────────────────────

/// `href` itself when it starts with `http`, else `base` followed by `href`.
pub open spec fn absolute(base: Seq<char>, href: Seq<char>) -> Seq<char> {
    if "http"@.is_prefix_of(href) {
        href
    } else {
        base + href
    }
}

/// Resolve `href` to an absolute URL.  If `href` already starts with `http`
/// it is returned unchanged; otherwise it is appended to `base`.
pub fn absolute_url(base: &str, href: &str) -> (r: String)
    ensures
        r@ == absolute(base@, href@),
{
    if starts_with(href, "http") {
        href.to_owned()
    } else {
        let mut out: Vec<char> = Vec::new();
        push_str(&mut out, base);
        push_str(&mut out, href);
        string_from_chars(&out)
    }
}

/// Bytes that `percent_encode` keeps as they are: ASCII letters, digits and
/// `-_.~`.
pub open spec fn unreserved(b: u8) -> bool {
    (65 <= b <= 90) || (97 <= b <= 122) || (48 <= b <= 57) || b == 45 || b == 95 || b == 46
        || b == 126
}

/// Whether `c` is an upper-case hexadecimal digit.
pub open spec fn upper_hex(c: char) -> bool {
    ('0' <= c && c <= '9') || ('A' <= c && c <= 'F')
}

/// The length of the encoding of a byte string: one character for each
/// unreserved byte or space, three for every other byte.
pub open spec fn encoded_len(bs: Seq<u8>) -> nat
    decreases bs.len(),
{
    if bs.len() == 0 {
        0
    } else {
        (if unreserved(bs[0]) || bs[0] == 32 {
            1nat
        } else {
            3nat
        }) + encoded_len(bs.drop_first())
    }
}

/// The upper-case hexadecimal digit for `d < 16`.
pub open spec fn hex_upper(d: nat) -> char {
    if d < 10 {
        ((48 + d) as u8) as char
    } else {
        ((55 + d) as u8) as char
    }
}

/// The encoding of one byte: itself when unreserved, `+` for a space, else
/// `%` and two upper-case hex digits.
pub open spec fn encode_byte(b: u8) -> Seq<char> {
    if unreserved(b) {
        seq![b as char]
    } else if b == 32 {
        seq!['+']
    } else {
        seq!['%', hex_upper(b as nat / 16), hex_upper(b as nat % 16)]
    }
}

/// The encoding of a byte string, byte by byte.
pub open spec fn percent_encoded(bs: Seq<u8>) -> Seq<char>
    decreases bs.len(),
{
    if bs.len() == 0 {
        Seq::empty()
    } else {
        encode_byte(bs[0]) + percent_encoded(bs.drop_first())
    }
}

proof fn lemma_percent_encoded_push(bs: Seq<u8>, b: u8)
    ensures
        percent_encoded(bs.push(b)) == percent_encoded(bs) + encode_byte(b),
    decreases bs.len(),
{
    if bs.len() == 0 {
        assert(bs.push(b).drop_first() == Seq::<u8>::empty());
        assert(encode_byte(b) + Seq::<char>::empty() == encode_byte(b));
        assert(Seq::<char>::empty() + encode_byte(b) == encode_byte(b));
        assert(percent_encoded(Seq::<u8>::empty()) == Seq::<char>::empty());
        assert(percent_encoded(bs.push(b)) == encode_byte(b) + percent_encoded(Seq::<u8>::empty()));
    } else {
        assert(bs.push(b).drop_first() == bs.drop_first().push(b));
        assert(bs.push(b)[0] == bs[0]);
        lemma_percent_encoded_push(bs.drop_first(), b);
        let x = encode_byte(bs[0]);
        let y = percent_encoded(bs.drop_first());
        let z = encode_byte(b);
        assert(x + (y + z) == (x + y) + z);
        assert(percent_encoded(bs.push(b)) == x + percent_encoded(bs.drop_first().push(b)));
        assert(percent_encoded(bs) == x + y);
    }
}

fn hex_digit(d: u8) -> (c: char)
    requires
        d < 16,
    ensures
        c == hex_upper(d as nat),
{
    if d < 10 {
        (48 + d) as char
    } else {
        (55 + d) as char
    }
}

/// Percent-encode a string for safe embedding in a query parameter.
/// Spaces are encoded as `+`; all other non-unreserved bytes are hex-escaped.
pub fn percent_encode(s: &str) -> (r: String)
    ensures
        r@ == percent_encoded(vstd::utf8::encode_utf8(s@)),
{
    let bytes = s.as_bytes();
    let mut out: Vec<char> = Vec::new();
    let mut i: usize = 0;
    assert(bytes@.take(0) == Seq::<u8>::empty());
    while i < bytes.len()
        invariant
            i <= bytes@.len(),
            out@ == percent_encoded(bytes@.take(i as int)),
        decreases bytes.len() - i,
    {
        let b = bytes[i];
        proof {
            assert(bytes@.take(i + 1) == bytes@.take(i as int).push(b));
            lemma_percent_encoded_push(bytes@.take(i as int), b);
        }
        if (65 <= b && b <= 90) || (97 <= b && b <= 122) || (48 <= b && b <= 57) || b == 45 || b
            == 95 || b == 46 || b == 126 {
            out.push(b as char);
        } else if b == 32 {
            out.push('+');
        } else {
            out.push('%');
            out.push(hex_digit(b / 16));
            out.push(hex_digit(b % 16));
        }
        i = i + 1;
    }
    assert(bytes@.take(i as int) == bytes@);
    string_from_chars(&out)
}

/// The value of a hexadecimal digit (0 for any other character).
pub open spec fn hex_value(c: char) -> int {
    if '0' <= c && c <= '9' {
        c as int - 48
    } else if 'A' <= c && c <= 'F' {
        c as int - 55
    } else if 'a' <= c && c <= 'f' {
        c as int - 87
    } else {
        0
    }
}

/// Decoding of `application/x-www-form-urlencoded` text: `%XY` gives the byte
/// with hex value `XY`, `+` gives a space, any other character its own code.
pub open spec fn percent_decoded(s: Seq<char>) -> Seq<u8>
    decreases s.len(),
{
    if s.len() == 0 {
        Seq::empty()
    } else if s[0] == '%' && s.len() >= 3 {
        seq![(hex_value(s[1]) * 16 + hex_value(s[2])) as u8] + percent_decoded(s.skip(3))
    } else if s[0] == '+' {
        seq![32u8] + percent_decoded(s.drop_first())
    } else {
        seq![s[0] as u8] + percent_decoded(s.drop_first())
    }
}

/// Whether a character can appear in a query value unescaped.
pub open spec fn query_safe(c: char) -> bool {
    ('A' <= c && c <= 'Z') || ('a' <= c && c <= 'z') || ('0' <= c && c <= '9') || c == '-' || c
        == '_' || c == '.' || c == '~' || c == '+' || c == '%'
}

/// The form of `percent_encode`'s result: one character for each unreserved
/// byte or space and three for every other byte, and every `%` followed by
/// two upper-case hexadecimal digits.
pub proof fn lemma_percent_encode_shape(bs: Seq<u8>)
    ensures
        percent_encoded(bs).len() == encoded_len(bs),
        forall|i: int|
            0 <= i < percent_encoded(bs).len() && #[trigger] percent_encoded(bs)[i] == '%' ==> i + 2
                < percent_encoded(bs).len() && upper_hex(percent_encoded(bs)[i + 1]) && upper_hex(
                percent_encoded(bs)[i + 2],
            ),
    decreases bs.len(),
{
    if bs.len() > 0 {
        let b = bs[0];
        let rest = bs.drop_first();
        lemma_percent_encode_shape(rest);
        let e = encode_byte(b);
        let er = percent_encoded(rest);
        let all = e + er;
        assert(percent_encoded(bs) == all);
        let hi = b as nat / 16;
        let lo = b as nat % 16;
        assert(upper_hex(hex_upper(hi)));
        assert(upper_hex(hex_upper(lo)));
        assert forall|i: int| 0 <= i < all.len() && #[trigger] all[i] == '%' implies i + 2 < all.len()
            && upper_hex(all[i + 1]) && upper_hex(all[i + 2]) by {
            if i >= e.len() {
                assert(all[i] == er[i - e.len()]);
                assert(all[i + 1] == er[i + 1 - e.len()]);
                assert(all[i + 2] == er[i + 2 - e.len()]);
            } else if unreserved(b) {
                assert(all[i] == b as char);
            } else if b == 32 {
                assert(all[i] == '+');
            } else {
                assert(all[1] == hex_upper(hi));
                assert(all[2] == hex_upper(lo));
                if i > 0 {
                    assert(all[i] == hex_upper(hi) || all[i] == hex_upper(lo));
                }
            }
        }
    }
}

/// `percent_encode` is lossless and safe: decoding its result gives back the
/// bytes of the input, and every character of the result is a letter, a
/// digit or one of `-_.~+%`.
pub proof fn lemma_percent_encode_round_trip(bs: Seq<u8>)
    ensures
        percent_decoded(percent_encoded(bs)) == bs,
        forall|i: int|
            0 <= i < percent_encoded(bs).len() ==> query_safe(#[trigger] percent_encoded(bs)[i]),
    decreases bs.len(),
{
    if bs.len() > 0 {
        let b = bs[0];
        let rest = bs.drop_first();
        lemma_percent_encode_round_trip(rest);
        let e = encode_byte(b);
        let er = percent_encoded(rest);
        assert(percent_encoded(bs) == e + er);
        if unreserved(b) {
            assert((e + er).drop_first() == er);
        } else if b == 32 {
            assert((e + er).drop_first() == er);
        } else {
            assert((e + er).skip(3) == er);
            assert(hex_value(hex_upper(b as nat / 16)) == b as nat / 16);
            assert(hex_value(hex_upper(b as nat % 16)) == b as nat % 16);
        }
        assert(percent_decoded(e + er) == seq![b] + rest);
        assert(seq![b] + rest == bs);
        assert forall|i: int| 0 <= i < (e + er).len() implies query_safe(#[trigger] (e + er)[i]) by {
            if i >= e.len() {
                assert((e + er)[i] == er[i - e.len()]);
            }
        }
    }
}

// ── Chapter HTML cleaning ────────────────────────────────────────────────────

/// The selectors of elements removed from chapter HTML: scripts, styles and
/// ad containers.
pub open spec fn bad_selectors() -> Seq<Seq<char>> {
    seq!["script"@, "style"@, ".ads"@, "#ads"@, "[class*='ad-']"@]
}

/// The outer HTML of every element of the fragment that one of the bad
/// selectors matches, selector by selector, each in the order of
/// `selection`.
pub open spec fn bad_outer_htmls(html: Seq<char>, sels: Seq<Seq<char>>) -> Seq<Seq<char>>
    decreases sels.len(),
{
    if sels.len() == 0 {
        Seq::empty()
    } else {
        bad_outer_htmls(html, sels.drop_last()) + match selection(html, true, sels.last()) {
            Some(v) => v.map_values(|n: NodeView| n.html),
            None => Seq::empty(),
        }
    }
}

/// What a match `src="/path` of the image-source pattern becomes: `src="`
/// and the path joined onto the base URL, or the match itself when the join
/// fails.
pub open spec fn resolved_src(base: Seq<char>, whole: Seq<char>, path: Seq<char>) -> Seq<char> {
    match url_joined(base, path) {
        Some(u) => "src=\""@ + u,
        None => whole,
    }
}

/// The replacement for one match of `src="(/[^"]*)`.
pub fn resolve_src(base: &str, whole: &str, path: &str) -> (r: String)
    ensures
        r@ == resolved_src(base@, whole@, path@),
{
    match join_url(base, path) {
        Some(u) => {
            let mut out: Vec<char> = Vec::new();
            push_str(&mut out, "src=\"");
            push_str(&mut out, u.as_str());
            string_from_chars(&out)
        },
        None => whole.to_owned(),
    }
}

/// The length of the run of characters other than `"` that starts `t`.
pub open spec fn quote_free_run(t: Seq<char>) -> nat
    decreases t.len(),
{
    if t.len() == 0 || t[0] == '"' {
        0
    } else {
        1 + quote_free_run(t.drop_first())
    }
}

/// A run never reaches past the end of its text.
pub proof fn lemma_quote_free_run_bounded(t: Seq<char>)
    ensures
        quote_free_run(t) <= t.len(),
    decreases t.len(),
{
    if t.len() > 0 && t[0] != '"' {
        lemma_quote_free_run_bounded(t.drop_first());
    }
}

/// `text` with every match of the regular expression `src="(/[^"]*)`
/// replaced by `resolved_src(base, match, group 1)`: matches are taken
/// leftmost first and do not overlap, and each one runs from `src="/` to
/// the next `"` (or the end of the text), which it does not include.
pub open spec fn src_paths_resolved(text: Seq<char>, base: Seq<char>) -> Seq<char>
    decreases text.len(),
{
    if text.len() == 0 {
        text
    } else if "src=\"/"@.is_prefix_of(text) {
        proof {
            reveal_strlit("src=\"/");
            assert(text.len() >= 6);
            lemma_quote_free_run_bounded(text.skip(5));
        }
        let end: int = 5 + quote_free_run(text.skip(5)) as int;
        resolved_src(base, text.take(end), text.subrange(5, end)) + src_paths_resolved(
            text.skip(end),
            base,
        )
    } else {
        seq![text[0]] + src_paths_resolved(text.drop_first(), base)
    }
}

/// `Regex::replace_all` of `src="(/[^"]*)` on `text`, each match handed to
/// `resolve_src`. The regex crate replaces the leftmost-first,
/// non-overlapping matches, and `[^"]*` is greedy, so each match ends at the
/// next `"`; the replacement of each match is `resolve_src`'s, which is
/// verified.
#[verifier::external_body]
fn resolve_src_paths(text: &str, base: &str) -> (r: String)
    ensures
        r@ == src_paths_resolved(text@, base@),
{
    regex::Regex::new(r#"src="(/[^"]*)"#).unwrap().replace_all(
        text,
        |c: &regex::Captures| resolve_src(base, &c[0], &c[1]),
    ).to_string()
}

/// The cleaned form of chapter HTML: when a script, style or ad element is
/// found, the fragment with those elements removed, else the HTML as it is;
/// then, when `base_url` parses, every root-relative image source resolved
/// against it.
pub open spec fn cleaned_chapter(html: Seq<char>, base_url: Seq<char>) -> Seq<char> {
    let stripped = if bad_outer_htmls(html, bad_selectors()).len() == 0 {
        html
    } else {
        fragment_without(html, bad_selectors().filter(|sel: Seq<char>| selector_parses(sel)))
    };
    if url_valid(base_url) {
        src_paths_resolved(stripped, base_url)
    } else {
        stripped
    }
}

/// Strip unwanted tags/attributes from chapter HTML to produce clean XHTML.
pub fn clean_chapter_html(html: &str, base_url: &str) -> (r: String)
    ensures
        r@ == cleaned_chapter(html@, base_url@),
{
    let fragment = parse_fragment(html);
    let mut bad: Vec<&str> = Vec::new();
    bad.push("script");
    bad.push("style");
    bad.push(".ads");
    bad.push("#ads");
    bad.push("[class*='ad-']");
    let ghost sels = bad@.map_values(|s: &str| s@);
    assert(sels =~= bad_selectors());
    let mut found = false;
    let mut k: usize = 0;
    while k < bad.len()
        invariant
            k <= bad.len(),
            sels == bad@.map_values(|s: &str| s@),
            fragment.source() == html@,
            fragment.is_fragment(),
            found == (bad_outer_htmls(html@, sels.take(k as int)).len() > 0),
        decreases bad.len() - k,
    {
        proof {
            assert(sels.take(k + 1).drop_last() == sels.take(k as int));
            assert(sels.take(k + 1).last() == bad@[k as int]@);
        }
        match select_all(&fragment, bad[k]) {
            Some(nodes) => {
                if nodes.len() > 0 {
                    found = true;
                }
            },
            None => {},
        }
        k = k + 1;
    }
    assert(sels.take(k as int) == sels);
    let stripped = if found {
        let ghost parses = |sel: Seq<char>| selector_parses(sel);
        let mut frag = edit_fragment(html);
        let mut j: usize = 0;
        while j < bad.len()
            invariant
                j <= bad.len(),
                sels == bad@.map_values(|s: &str| s@),
                parses == (|sel: Seq<char>| selector_parses(sel)),
                frag.source() == html@,
                frag.removed() == sels.take(j as int).filter(parses),
            decreases bad.len() - j,
        {
            proof {
                reveal_with_fuel(Seq::<_>::filter, 1);
                assert(sels.take(j + 1).drop_last() == sels.take(j as int));
                assert(sels.take(j + 1).last() == bad@[j as int]@);
            }
            detach_matches(&mut frag, bad[j]);
            j = j + 1;
        }
        assert(sels.take(j as int) == sels);
        fragment_html(&frag)
    } else {
        html.to_owned()
    };
    if scheme_valid(base_url) {
        resolve_src_paths(stripped.as_str(), base_url)
    } else {
        stripped
    }
}

/// Whether `url::Url::parse` accepts `url`.
pub fn scheme_valid(url: &str) -> (r: bool)
    ensures
        r == url_valid(url@),
{
    crate::urls::scheme_of(url).is_some()
}

// ── Shared parsing helpers ───────────────────────────────────────────────────

/// The values that are present, in order.
pub open spec fn filter_some<T>(s: Seq<Option<T>>) -> Seq<T>
    decreases s.len(),
{
    if s.len() == 0 {
        Seq::empty()
    } else {
        let before = filter_some(s.drop_last());
        match s.last() {
            Some(x) => before.push(x),
            None => before,
        }
    }
}

/// Every value kept by `filter_some` is one of the values present, so it
/// has each property that all present values have.
pub proof fn lemma_filter_some_all<T>(s: Seq<Option<T>>, prop: spec_fn(T) -> bool)
    requires
        forall|k: int| 0 <= k < s.len() && (#[trigger] s[k]) is Some ==> prop(s[k]->0),
    ensures
        forall|k: int| 0 <= k < filter_some(s).len() ==> prop(#[trigger] filter_some(s)[k]),
    decreases s.len(),
{
    if s.len() > 0 {
        let d = s.drop_last();
        assert forall|k: int| 0 <= k < d.len() && (#[trigger] d[k]) is Some implies prop(d[k]->0) by {
            assert(d[k] == s[k]);
        }
        lemma_filter_some_all(d, prop);
        let before = filter_some(d);
        if s.last() is Some {
            assert(s[s.len() - 1] is Some);
            assert(filter_some(s) == before.push(s.last()->0));
            assert forall|k: int| 0 <= k < filter_some(s).len() implies prop(
                #[trigger] filter_some(s)[k],
            ) by {
                if k < before.len() {
                    assert(filter_some(s)[k] == before[k]);
                }
            }
        } else {
            assert(filter_some(s) == before);
        }
    }
}

/// The trimmed text of the first match of the first selector, among `sels`,
/// whose first match exists.
pub open spec fn text_among(src: Seq<char>, fragment: bool, sels: Seq<Seq<char>>) -> Option<
    Seq<char>,
>
    decreases sels.len(),
{
    if sels.len() == 0 {
        None
    } else {
        match trimmed_text(first_of(selection(src, fragment, sels[0]))) {
            Some(t) => Some(t),
            None => text_among(src, fragment, sels.drop_first()),
        }
    }
}

/// The same for an attribute: the trimmed attribute of the first match of the
/// first selector whose first match has that attribute.
pub open spec fn attr_among(src: Seq<char>, fragment: bool, sels: Seq<Seq<char>>, name: Seq<char>) -> Option<
    Seq<char>,
>
    decreases sels.len(),
{
    if sels.len() == 0 {
        None
    } else {
        match trimmed_attr(first_of(selection(src, fragment, sels[0])), name) {
            Some(t) => Some(t),
            None => attr_among(src, fragment, sels.drop_first(), name),
        }
    }
}

/// `select_first_text` with the selectors tried in turn (`or_else`).
pub fn first_text_among(page: &Page, sels: &Vec<&str>) -> (r: Option<String>)
    ensures
        opt_chars(r) == text_among(page.source(), page.is_fragment(), sels@.map_values(|s: &str| s@)),
{
    let ghost all = sels@.map_values(|s: &str| s@);
    let mut i: usize = 0;
    assert(all.skip(0) == all);
    while i < sels.len()
        invariant
            i <= sels.len(),
            all == sels@.map_values(|s: &str| s@),
            text_among(page.source(), page.is_fragment(), all.skip(i as int)) == text_among(
                page.source(),
                page.is_fragment(),
                all,
            ),
        decreases sels.len() - i,
    {
        proof {
            assert(all.skip(i as int)[0] == sels@[i as int]@);
            assert(all.skip(i as int).drop_first() == all.skip(i + 1));
        }
        match select_first_text(page, sels[i]) {
            Some(t) => {
                return Some(t);
            },
            None => {},
        }
        i = i + 1;
    }
    None
}

/// `select_first_attr` with the selectors tried in turn (`or_else`).
pub fn first_attr_among(page: &Page, sels: &Vec<&str>, name: &str) -> (r: Option<String>)
    ensures
        opt_chars(r) == attr_among(
            page.source(),
            page.is_fragment(),
            sels@.map_values(|s: &str| s@),
            name@,
        ),
{
    let ghost all = sels@.map_values(|s: &str| s@);
    let mut i: usize = 0;
    assert(all.skip(0) == all);
    while i < sels.len()
        invariant
            i <= sels.len(),
            all == sels@.map_values(|s: &str| s@),
            attr_among(page.source(), page.is_fragment(), all.skip(i as int), name@) == attr_among(
                page.source(),
                page.is_fragment(),
                all,
                name@,
            ),
        decreases sels.len() - i,
    {
        proof {
            assert(all.skip(i as int)[0] == sels@[i as int]@);
            assert(all.skip(i as int).drop_first() == all.skip(i + 1));
        }
        match select_first_attr(page, sels[i], name) {
            Some(t) => {
                return Some(t);
            },
            None => {},
        }
        i = i + 1;
    }
    None
}

/// Whether `chs` are the chapters numbered 1, 2, ... with the given titles
/// and URLs, no volume and no body.
pub open spec fn numbered(chs: Seq<Chapter>, pairs: Seq<(Seq<char>, Seq<char>)>) -> bool {
    &&& chs.len() == pairs.len()
    &&& forall|i: int|
        0 <= i < chs.len() ==> {
            &&& (#[trigger] chs[i]).id == i + 1
            &&& chs[i].title@ == pairs[i].0
            &&& chs[i].url@ == pairs[i].1
            &&& chs[i].volume_id is None
            &&& chs[i].body is None
        }
}

/// The views of (title, URL) pairs.
pub open spec fn pair_views(v: Seq<(String, String)>) -> Seq<(Seq<char>, Seq<char>)> {
    v.map_values(|p: (String, String)| (p.0@, p.1@))
}

/// Adds the links found on one more page after those of the pages before.
pub fn append_links(pairs: &mut Vec<(String, String)>, batch: Vec<(String, String)>)
    ensures
        final(pairs)@ == old(pairs)@ + batch@,
{
    let mut batch = batch;
    pairs.append(&mut batch);
}

/// Chapters numbered from 1 with the given titles and URLs.
pub fn number_chapters(pairs: &Vec<(String, String)>) -> (r: Vec<Chapter>)
    ensures
        numbered(r@, pair_views(pairs@)),
{
    let mut r: Vec<Chapter> = Vec::new();
    let mut i: usize = 0;
    while i < pairs.len()
        invariant
            i <= pairs.len(),
            numbered(r@, pair_views(pairs@).take(i as int)),
        decreases pairs.len() - i,
    {
        r.push(Chapter::new(i + 1, pairs[i].0.as_str(), pairs[i].1.as_str()));
        i = i + 1;
        assert(pair_views(pairs@).take(i as int)[i - 1] == (pairs@[i - 1].0@, pairs@[i - 1].1@));
    }
    assert(pair_views(pairs@).take(i as int) == pair_views(pairs@));
    r
}

/// A new novel for `url` with its metadata filled in and no chapters yet.
pub fn novel_with(
    url: &str,
    title: String,
    author: Option<String>,
    cover_url: Option<String>,
    synopsis: Option<String>,
) -> (r: Novel)
    ensures
        r.url@ == url@,
        r.title == title,
        r.author == author,
        r.cover_url == cover_url,
        r.synopsis == synopsis,
        r.language@ == "en"@,
        r.volumes@.len() == 0,
        r.chapters@.len() == 0,
{
    let mut n = Novel::new(url);
    n.title = title;
    n.author = author;
    n.cover_url = cover_url;
    n.synopsis = synopsis;
    n
}

/// The chapter body a page gives: `Some` cleaned HTML when the content
/// element is found.
pub open spec fn body_update(old: Option<String>, found: Option<Seq<char>>, url: Seq<char>) -> Option<
    Seq<char>,
> {
    match found {
        Some(inner) => Some(cleaned_chapter(inner, url)),
        None => opt_chars(old),
    }
}

} // verus!
