//! Parsing of the pages of https://brightnovels.com
//!
//! BrightNovels is a Laravel + Inertia.js application: the data of a page is
//! JSON in the `data-page` attribute of its app element, and
//! `/series/{slug}/chapters` returns the chapter list as JSON.

use vstd::prelude::*;

use crate::crawler::royalroad::result_views;
use crate::crawler::{
    body_update, clean_chapter_html, filter_some, number_chapters, numbered, pair_views,
    percent_encode, percent_encoded,
};
use crate::html::{attr_of, first_match, opt_attr, parse_document, select_first};
use crate::json::{
    jarray, jbool, jget, jpath, json_parsed, json_views, jstr, key_views, parse_json, str_at,
    Json, JsonView,
};
use crate::models::{Chapter, Novel, SearchResult, SearchResultView};
use crate::output::epub::xml_escaped;
use crate::text::{
    chars_of, decimal, decimal_chars, occurs_at, opt_chars, push_all, push_str, replace_all,
    split_once, split_once_chars, strip_leading, strip_prefix_chars, string_from_chars,
};
use crate::urls::url_path;

verus! {

pub const BRIGHT_NOVELS: &'static str = "https://brightnovels.com";

pub const BRIGHT_STORAGE: &'static str = "https://brightnovels.com/storage/";

pub struct BrightNovelsCrawler;

/// The series slug of a URL `…/series/{slug}[/…]`.
pub open spec fn bn_slug(url: Seq<char>) -> Option<Seq<char>> {
    match url_path(url) {
        None => None,
        Some(p) => {
            let (a, rest) = split_once(strip_prefix_chars(p, '/'), '/');
            if a == "series"@ {
                match rest {
                    Some(r) => {
                        let b = split_once(r, '/').0;
                        if b.len() > 0 {
                            Some(b)
                        } else {
                            None
                        }
                    },
                    None => None,
                }
            } else {
                None
            }
        },
    }
}

/// The entity `t` starts with, among `&amp;`, `&lt;`, `&gt;`, `&quot;`,
/// `&#039;`, `&apos;` and `&nbsp;`: the character it stands for and its
/// length.
pub open spec fn entity_at_start(t: Seq<char>) -> Option<(char, nat)> {
    if "&amp;"@.is_prefix_of(t) {
        Some(('&', 5))
    } else if "&lt;"@.is_prefix_of(t) {
        Some(('<', 4))
    } else if "&gt;"@.is_prefix_of(t) {
        Some(('>', 4))
    } else if "&quot;"@.is_prefix_of(t) {
        Some(('"', 6))
    } else if "&#039;"@.is_prefix_of(t) {
        Some(('\'', 6))
    } else if "&apos;"@.is_prefix_of(t) {
        Some(('\'', 6))
    } else if "&nbsp;"@.is_prefix_of(t) {
        Some(('\u{00A0}', 6))
    } else {
        None
    }
}

/// One level of entity encoding undone: read left to right, each of the
/// seven entities is replaced by its character once, and every other
/// character is kept.
pub open spec fn decoded(s: Seq<char>) -> Seq<char>
    decreases s.len(),
{
    if s.len() == 0 {
        s
    } else {
        match entity_at_start(s) {
            Some((c, n)) => if 0 < n <= s.len() {
                seq![c] + decoded(s.skip(n as int))
            } else {
                seq![s[0]] + decoded(s.drop_first())
            },
            None => seq![s[0]] + decoded(s.drop_first()),
        }
    }
}

/// The text that XML escaping writes for one character: its entity for the
/// five special characters, the character itself otherwise.
pub open spec fn escaped_char(c: char) -> Seq<char> {
    if c == '&' {
        "&amp;"@
    } else if c == '<' {
        "&lt;"@
    } else if c == '>' {
        "&gt;"@
    } else if c == '"' {
        "&quot;"@
    } else if c == '\'' {
        "&apos;"@
    } else {
        seq![c]
    }
}

/// Replacing a single character distributes over concatenation.
proof fn lemma_replace_char_concat(a: Seq<char>, b: Seq<char>, p: char, r: Seq<char>)
    ensures
        replace_all(a + b, seq![p], r) == replace_all(a, seq![p], r) + replace_all(b, seq![p], r),
    decreases a.len(),
{
    let pat = seq![p];
    if a.len() == 0 {
        assert(a + b =~= b);
    } else {
        let t = a + b;
        assert(occurs_at(t, pat, 0) <==> t[0] == p) by {
            if t[0] == p {
                assert(t.subrange(0, 1) =~= pat);
            }
            if occurs_at(t, pat, 0) {
                assert(t.subrange(0, 1)[0] == t[0]);
            }
        }
        assert(occurs_at(a, pat, 0) <==> a[0] == p) by {
            if a[0] == p {
                assert(a.subrange(0, 1) =~= pat);
            }
            if occurs_at(a, pat, 0) {
                assert(a.subrange(0, 1)[0] == a[0]);
            }
        }
        assert(t.skip(1) =~= a.skip(1) + b);
        assert(t.drop_first() =~= a.drop_first() + b);
        assert(a.skip(1) =~= a.drop_first());
        lemma_replace_char_concat(a.drop_first(), b, p, r);
        if a[0] == p {
            assert(replace_all(t, pat, r) == r + replace_all(t.skip(1), pat, r));
            assert(replace_all(a, pat, r) == r + replace_all(a.skip(1), pat, r));
        } else {
            assert(replace_all(t, pat, r) == seq![t[0]] + replace_all(t.drop_first(), pat, r));
            assert(replace_all(a, pat, r) == seq![a[0]] + replace_all(a.drop_first(), pat, r));
        }
    }
}

/// Replacing a character that does not occur changes nothing.
proof fn lemma_replace_char_absent(t: Seq<char>, p: char, r: Seq<char>)
    requires
        forall|i: int| 0 <= i < t.len() ==> t[i] != p,
    ensures
        replace_all(t, seq![p], r) == t,
    decreases t.len(),
{
    if t.len() > 0 {
        assert(!occurs_at(t, seq![p], 0)) by {
            if occurs_at(t, seq![p], 0) {
                assert(t.subrange(0, 1)[0] == t[0]);
            }
        }
        lemma_replace_char_absent(t.drop_first(), p, r);
        assert(seq![t[0]] + t.drop_first() =~= t);
    }
}

/// Replacing a character in the one-character text made of it.
proof fn lemma_replace_char_single(p: char, r: Seq<char>)
    ensures
        replace_all(seq![p], seq![p], r) == r,
{
    let t = seq![p];
    assert(t.subrange(0, 1) =~= t);
    assert(occurs_at(t, t, 0));
    assert(t.skip(1) =~= Seq::<char>::empty());
    assert(replace_all(t.skip(1), t, r) == Seq::<char>::empty());
    assert(replace_all(t, t, r) == r + replace_all(t.skip(1), t, r));
    assert(r + Seq::<char>::empty() =~= r);
}

/// A pattern that differs from the text at position `k` is no prefix of it.
proof fn lemma_not_prefix_at(pat: Seq<char>, t: Seq<char>, k: int)
    requires
        0 <= k < pat.len(),
        k < t.len(),
        pat[k] != t[k],
    ensures
        !pat.is_prefix_of(t),
{
    if pat.is_prefix_of(t) {
        assert(t.subrange(0, pat.len() as int)[k] == t[k]);
    }
}

/// A pattern whose first character differs from the text's is no prefix of it.
proof fn lemma_not_prefix_first(pat: Seq<char>, t: Seq<char>)
    requires
        pat.len() > 0,
        t.len() > 0,
        pat[0] != t[0],
    ensures
        !pat.is_prefix_of(t),
{
    lemma_not_prefix_at(pat, t, 0);
}

/// XML escaping of one character.
proof fn lemma_escape_one(c: char)
    ensures
        xml_escaped(seq![c]) == escaped_char(c),
{
    reveal_strlit("&");
    reveal_strlit("<");
    reveal_strlit(">");
    reveal_strlit("\"");
    reveal_strlit("'");
    reveal_strlit("&amp;");
    reveal_strlit("&lt;");
    reveal_strlit("&gt;");
    reveal_strlit("&quot;");
    reveal_strlit("&apos;");
    assert("&"@ =~= seq!['&']);
    assert("<"@ =~= seq!['<']);
    assert(">"@ =~= seq!['>']);
    assert("\""@ =~= seq!['"']);
    assert("'"@ =~= seq!['\'']);
    let t0 = seq![c];
    let t1 = replace_all(t0, "&"@, "&amp;"@);
    if c == '&' {
        lemma_replace_char_single('&', "&amp;"@);
    } else {
        lemma_replace_char_absent(t0, '&', "&amp;"@);
    }
    let t2 = replace_all(t1, "<"@, "&lt;"@);
    if c == '<' {
        lemma_replace_char_single('<', "&lt;"@);
    } else {
        lemma_replace_char_absent(t1, '<', "&lt;"@);
    }
    let t3 = replace_all(t2, ">"@, "&gt;"@);
    if c == '>' {
        lemma_replace_char_single('>', "&gt;"@);
    } else {
        lemma_replace_char_absent(t2, '>', "&gt;"@);
    }
    let t4 = replace_all(t3, "\""@, "&quot;"@);
    if c == '"' {
        lemma_replace_char_single('"', "&quot;"@);
    } else {
        lemma_replace_char_absent(t3, '"', "&quot;"@);
    }
    if c == '\'' {
        lemma_replace_char_single('\'', "&apos;"@);
    } else {
        lemma_replace_char_absent(t4, '\'', "&apos;"@);
    }
}

/// XML escaping works character by character.
proof fn lemma_escape_concat(a: Seq<char>, b: Seq<char>)
    ensures
        xml_escaped(a + b) == xml_escaped(a) + xml_escaped(b),
{
    reveal_strlit("&");
    reveal_strlit("<");
    reveal_strlit(">");
    reveal_strlit("\"");
    reveal_strlit("'");
    assert("&"@ =~= seq!['&']);
    assert("<"@ =~= seq!['<']);
    assert(">"@ =~= seq!['>']);
    assert("\""@ =~= seq!['"']);
    assert("'"@ =~= seq!['\'']);
    let a1 = replace_all(a, "&"@, "&amp;"@);
    let b1 = replace_all(b, "&"@, "&amp;"@);
    lemma_replace_char_concat(a, b, '&', "&amp;"@);
    let a2 = replace_all(a1, "<"@, "&lt;"@);
    let b2 = replace_all(b1, "<"@, "&lt;"@);
    lemma_replace_char_concat(a1, b1, '<', "&lt;"@);
    let a3 = replace_all(a2, ">"@, "&gt;"@);
    let b3 = replace_all(b2, ">"@, "&gt;"@);
    lemma_replace_char_concat(a2, b2, '>', "&gt;"@);
    let a4 = replace_all(a3, "\""@, "&quot;"@);
    let b4 = replace_all(b3, "\""@, "&quot;"@);
    lemma_replace_char_concat(a3, b3, '"', "&quot;"@);
    lemma_replace_char_concat(a4, b4, '\'', "&apos;"@);
}

/// Decoding a character's escaped text, followed by anything, gives back the
/// character followed by the decoding of what follows.
proof fn lemma_decode_escaped_char(c: char, rest: Seq<char>)
    ensures
        decoded(escaped_char(c) + rest) == seq![c] + decoded(rest),
{
    reveal_strlit("&amp;");
    reveal_strlit("&lt;");
    reveal_strlit("&gt;");
    reveal_strlit("&quot;");
    reveal_strlit("&#039;");
    reveal_strlit("&apos;");
    reveal_strlit("&nbsp;");
    let e = escaped_char(c);
    let t = e + rest;
    assert(t.len() > 0);
    if e.len() == 1 {
        assert(t[0] == c && c != '&');
        lemma_not_prefix_first("&amp;"@, t);
        lemma_not_prefix_first("&lt;"@, t);
        lemma_not_prefix_first("&gt;"@, t);
        lemma_not_prefix_first("&quot;"@, t);
        lemma_not_prefix_first("&#039;"@, t);
        lemma_not_prefix_first("&apos;"@, t);
        lemma_not_prefix_first("&nbsp;"@, t);
        assert(entity_at_start(t) is None);
        assert(t.drop_first() =~= rest);
    } else {
        assert(t.subrange(0, e.len() as int) =~= e);
        assert(e.is_prefix_of(t));
        assert(t.skip(e.len() as int) =~= rest);
        assert(t[1] == e[1] && t[2] == e[2]);
        if c != '&' {
            if c == '\'' {
                lemma_not_prefix_at("&amp;"@, t, 2);
            } else {
                lemma_not_prefix_at("&amp;"@, t, 1);
            }
        }
        if c != '&' && c != '<' {
            lemma_not_prefix_at("&lt;"@, t, 1);
        }
        if c != '&' && c != '<' && c != '>' {
            lemma_not_prefix_at("&gt;"@, t, 1);
        }
        if c == '\'' {
            lemma_not_prefix_at("&quot;"@, t, 1);
            lemma_not_prefix_at("&#039;"@, t, 1);
        }
        assert(entity_at_start(t) == Some((c, e.len())));
    }
}

/// Decoding undoes exactly one level of XML escaping: every string comes
/// back from `decode_entities(xml_escape(s))` unchanged.
pub proof fn lemma_decode_undoes_escape(s: Seq<char>)
    ensures
        decoded(xml_escaped(s)) == s,
    decreases s.len(),
{
    if s.len() == 0 {
        lemma_escape_empty();
    } else {
        let rest = s.drop_first();
        assert(s =~= seq![s[0]] + rest);
        lemma_escape_concat(seq![s[0]], rest);
        lemma_escape_one(s[0]);
        lemma_decode_escaped_char(s[0], xml_escaped(rest));
        lemma_decode_undoes_escape(rest);
    }
}

/// Escaping the empty string gives the empty string.
proof fn lemma_escape_empty()
    ensures
        xml_escaped(Seq::<char>::empty()) == Seq::<char>::empty(),
{
}

/// Whether `pat` starts at position `i` of `cs`.
fn prefix_at(cs: &Vec<char>, i: usize, pat: &str) -> (r: bool)
    requires
        i <= cs@.len(),
    ensures
        r == pat@.is_prefix_of(cs@.skip(i as int)),
{
    let p = chars_of(pat);
    let m = crate::text::matches_at(cs, &p, i);
    proof {
        let t = cs@.skip(i as int);
        if m {
            assert(t.subrange(0, p@.len() as int) =~= cs@.subrange(i as int, i + p@.len()));
        }
        if pat@.is_prefix_of(t) {
            assert(t.subrange(0, p@.len() as int) =~= cs@.subrange(i as int, i + p@.len()));
        }
    }
    m
}

/// The entity that starts at position `i` of `cs`.
fn entity_at(cs: &Vec<char>, i: usize) -> (r: Option<(char, usize)>)
    requires
        i <= cs@.len(),
    ensures
        match r {
            Some((c, n)) => entity_at_start(cs@.skip(i as int)) == Some((c, n as nat)),
            None => entity_at_start(cs@.skip(i as int)) is None,
        },
{
    if prefix_at(cs, i, "&amp;") {
        Some(('&', 5))
    } else if prefix_at(cs, i, "&lt;") {
        Some(('<', 4))
    } else if prefix_at(cs, i, "&gt;") {
        Some(('>', 4))
    } else if prefix_at(cs, i, "&quot;") {
        Some(('"', 6))
    } else if prefix_at(cs, i, "&#039;") {
        Some(('\'', 6))
    } else if prefix_at(cs, i, "&apos;") {
        Some(('\'', 6))
    } else if prefix_at(cs, i, "&nbsp;") {
        Some(('\u{00A0}', 6))
    } else {
        None
    }
}

/// The `data-page` attribute of the first element that has one.
pub open spec fn inertia_text(body: Seq<char>) -> Option<Seq<char>> {
    attr_of(first_match(body, false, "[data-page]"@), "data-page"@)
}

/// The Inertia page data of an HTML page.
pub open spec fn inertia_data(body: Seq<char>) -> Option<JsonView> {
    match inertia_text(body) {
        Some(t) => json_parsed(t),
        None => None,
    }
}

/// `page.props.series`.
pub open spec fn series_of(page: JsonView) -> JsonView {
    jpath(page, seq!["props"@, "series"@])
}

/// The title of a series, `"Unknown Title"` when it has none.
pub open spec fn bn_title(series: JsonView) -> Seq<char> {
    match jstr(jget(series, "title"@)) {
        Some(t) => t,
        None => "Unknown Title"@,
    }
}

/// `item.user.name`.
pub open spec fn bn_author(item: JsonView) -> Option<Seq<char>> {
    jstr(jpath(item, seq!["user"@, "name"@]))
}

/// The decoded `item.description`.
pub open spec fn bn_synopsis(item: JsonView) -> Option<Seq<char>> {
    match jstr(jget(item, "description"@)) {
        Some(d) => Some(decoded(d)),
        None => None,
    }
}

/// The storage URL of `item.cover.path`.
pub open spec fn bn_cover(item: JsonView) -> Option<Seq<char>> {
    match jstr(jpath(item, seq!["cover"@, "path"@])) {
        Some(p) => Some(BRIGHT_STORAGE@ + p),
        None => None,
    }
}

/// Whether a chapter of the chapter list is readable without paying.
pub open spec fn is_free(ch: JsonView) -> bool {
    jbool(jget(ch, "is_premium"@)) != Some(true)
}

/// The chapters of the list, newest first as the site gives them.
pub open spec fn listed_chapters(api: JsonView) -> Seq<JsonView> {
    match jarray(jget(api, "chapters"@)) {
        Some(a) => a,
        None => Seq::empty(),
    }
}

/// The free chapters, oldest first.
pub open spec fn free_chapters(api: JsonView) -> Seq<JsonView> {
    filter_some(
        listed_chapters(api).reverse().map_values(
            |c: JsonView|
                if is_free(c) {
                    Some(c)
                } else {
                    None
                },
        ),
    )
}

/// The URL of a chapter of a series.
pub open spec fn bn_chapter_url(slug: Seq<char>, ch_slug: Seq<char>) -> Seq<char> {
    BRIGHT_NOVELS@ + "/series/"@ + slug + "/"@ + ch_slug
}

/// The (title, URL) of the `i`-th free chapter.
pub open spec fn bn_chapter_link(slug: Seq<char>, i: int, ch: JsonView) -> (Seq<char>, Seq<char>) {
    (
        match jstr(jget(ch, "name"@)) {
            Some(n) => n,
            None => "Chapter "@ + decimal((i + 1) as nat),
        },
        bn_chapter_url(
            slug,
            match jstr(jget(ch, "slug"@)) {
                Some(s) => s,
                None => Seq::empty(),
            },
        ),
    )
}

/// The (title, URL) of each free chapter, oldest first.
pub open spec fn bn_chapter_links(slug: Seq<char>, api: JsonView) -> Seq<(Seq<char>, Seq<char>)> {
    let f = free_chapters(api);
    Seq::new(f.len(), |i: int| bn_chapter_link(slug, i, f[i]))
}

/// Whether `n` is the novel at `url` that the series data and chapter list
/// describe.
pub open spec fn bn_novel(n: Novel, url: Seq<char>, slug: Seq<char>, page: JsonView, api: JsonView) -> bool {
    let series = series_of(page);
    &&& n.url@ == url
    &&& n.title@ == bn_title(series)
    &&& opt_chars(n.author) == bn_author(series)
    &&& opt_chars(n.synopsis) == bn_synopsis(series)
    &&& opt_chars(n.cover_url) == bn_cover(series)
    &&& n.language@ == "en"@
    &&& n.volumes@.len() == 0
    &&& numbered(n.chapters@, bn_chapter_links(slug, api))
}

/// Why no novel could be read.
#[derive(Clone, Copy, Debug, PartialEq, Eq, Structural)]
pub enum BrightError {
    /// The URL names no series
    NoSlug,
    /// The series page carries no Inertia data
    NoPageData,
    /// The chapter list is no JSON
    ChaptersNotJson,
}

/// The content of a chapter page, `props.chapter.content`.
pub open spec fn bn_chapter_content(body: Seq<char>) -> Option<Seq<char>> {
    match inertia_data(body) {
        Some(v) => jstr(jpath(v, seq!["props"@, "chapter"@, "content"@])),
        None => None,
    }
}

/// The search result for one series item.
pub open spec fn bn_search_item(item: JsonView) -> Option<SearchResultView> {
    let title = match jstr(jget(item, "title"@)) {
        Some(t) => t,
        None => Seq::empty(),
    };
    let slug = match jstr(jget(item, "slug"@)) {
        Some(s) => s,
        None => Seq::empty(),
    };
    if title.len() == 0 || slug.len() == 0 {
        None
    } else {
        Some(
            SearchResultView {
                title,
                url: BRIGHT_NOVELS@ + "/series/"@ + slug,
                author: bn_author(item),
                cover_url: bn_cover(item),
                synopsis: bn_synopsis(item),
                source_name: "BrightNovels"@,
            },
        )
    }
}

/// The series items of a JSON search answer: the array itself, or its
/// `data` or `series` array.
pub open spec fn json_items(v: JsonView) -> Seq<JsonView> {
    match jarray(v) {
        Some(a) => a,
        None => match jarray(jget(v, "data"@)) {
            Some(a) => a,
            None => match jarray(jget(v, "series"@)) {
                Some(a) => a,
                None => Seq::empty(),
            },
        },
    }
}

/// The series items of an Inertia search page: `props.series`, or
/// `props.series.data`.
pub open spec fn page_items(page: JsonView) -> Seq<JsonView> {
    match jarray(jpath(page, seq!["props"@, "series"@])) {
        Some(a) => a,
        None => match jarray(jpath(page, seq!["props"@, "series"@, "data"@])) {
            Some(a) => a,
            None => Seq::empty(),
        },
    }
}

/// The search results of an answer that is JSON, or else an Inertia page.
pub open spec fn bn_search_results(body: Seq<char>) -> Seq<SearchResultView> {
    let items = match json_parsed(body) {
        Some(v) => json_items(v),
        None => match inertia_data(body) {
            Some(p) => page_items(p),
            None => Seq::empty(),
        },
    };
    filter_some(items.map_values(|it: JsonView| bn_search_item(it)))
}

/// `Some(s)`'s string, or the empty string.
fn or_empty(s: Option<String>) -> (r: String)
    ensures
        r@ == match opt_chars(s) {
            Some(x) => x,
            None => Seq::<char>::empty(),
        },
{
    match s {
        Some(x) => x,
        None => String::new(),
    }
}

/// A path of keys as a vector.
fn keys2(a: &'static str, b: &'static str) -> (r: Vec<&'static str>)
    ensures
        key_views(r@) == seq![a@, b@],
{
    let mut v: Vec<&'static str> = Vec::new();
    v.push(a);
    v.push(b);
    assert(key_views(v@) =~= seq![a@, b@]);
    v
}

/// `item.user.name`, copied out.
fn author_of(item: &Json) -> (r: Option<String>)
    ensures
        opt_chars(r) == bn_author(item@),
{
    str_at(item, &keys2("user", "name"))
}

/// The decoded `item.description`.
fn synopsis_of(item: &Json) -> (r: Option<String>)
    ensures
        opt_chars(r) == bn_synopsis(item@),
{
    match item.get("description") {
        Some(d) => match d.as_str() {
            Some(s) => Some(BrightNovelsCrawler::decode_entities(s.as_str())),
            None => None,
        },
        None => None,
    }
}

/// The storage URL of `item.cover.path`.
fn cover_of(item: &Json) -> (r: Option<String>)
    ensures
        opt_chars(r) == bn_cover(item@),
{
    match str_at(item, &keys2("cover", "path")) {
        Some(p) => {
            let mut u: Vec<char> = Vec::new();
            push_str(&mut u, BRIGHT_STORAGE);
            push_str(&mut u, p.as_str());
            Some(string_from_chars(&u))
        },
        None => None,
    }
}

/// The search result for one series item.
fn search_item(item: &Json) -> (r: Option<SearchResult>)
    ensures
        match r {
            Some(x) => bn_search_item(item@) == Some(x@),
            None => bn_search_item(item@) is None,
        },
{
    let title = or_empty(
        match item.get("title") {
            Some(t) => t.as_str(),
            None => None,
        },
    );
    let slug = or_empty(
        match item.get("slug") {
            Some(t) => t.as_str(),
            None => None,
        },
    );
    if title.as_str().unicode_len() == 0 || slug.as_str().unicode_len() == 0 {
        return None;
    }
    let mut u: Vec<char> = Vec::new();
    push_str(&mut u, BRIGHT_NOVELS);
    push_str(&mut u, "/series/");
    push_str(&mut u, slug.as_str());
    Some(
        SearchResult {
            title,
            url: string_from_chars(&u),
            author: author_of(item),
            cover_url: cover_of(item),
            synopsis: synopsis_of(item),
            source_name: "BrightNovels".to_owned(),
        },
    )
}

/// The search results of some series items, in order: those with both a
/// title and a slug.
pub fn results_from_items(items: &Vec<Json>) -> (r: Vec<SearchResult>)
    ensures
        result_views(r@) == filter_some(
            json_views(items@).map_values(|it: JsonView| bn_search_item(it)),
        ),
{
    let ghost views = json_views(items@);
    let ghost f = |it: JsonView| bn_search_item(it);
    let mut r: Vec<SearchResult> = Vec::new();
    let mut i: usize = 0;
    while i < items.len()
        invariant
            i <= items.len(),
            views == json_views(items@),
            f == (|it: JsonView| bn_search_item(it)),
            result_views(r@) == filter_some(views.take(i as int).map_values(f)),
        decreases items.len() - i,
    {
        proof {
            assert(views.take(i + 1).map_values(f).drop_last() == views.take(i as int).map_values(f));
            assert(views.take(i + 1).map_values(f).last() == f(views[i as int]));
        }
        match search_item(&items[i]) {
            Some(x) => {
                let ghost before = r@;
                r.push(x);
                assert(result_views(r@) == result_views(before).push(x@));
            },
            None => {},
        }
        i = i + 1;
    }
    assert(views.take(i as int) == views);
    r
}

impl BrightNovelsCrawler {
    pub fn new() -> (r: BrightNovelsCrawler) {
        BrightNovelsCrawler
    }

    /// Extract the series slug from a BrightNovels URL:
    /// `https://brightnovels.com/series/some-slug[/chapter1]` → `some-slug`.
    pub fn slug_from_url(url: &str) -> (r: Option<String>)
        ensures
            opt_chars(r) == bn_slug(url@),
    {
        let path = crate::urls::path_of(url)?;
        let p = strip_leading(&chars_of(path.as_str()), '/');
        let (a, rest) = split_once_chars(&p, '/');
        let a = string_from_chars(&a);
        if !crate::models::str_eq(a.as_str(), "series") {
            return None;
        }
        match rest {
            Some(r) => {
                let (b, _) = split_once_chars(&r, '/');
                if b.len() > 0 {
                    Some(string_from_chars(&b))
                } else {
                    None
                }
            },
            None => None,
        }
    }

    /// The Inertia.js page data in the `data-page` attribute of a page.
    pub fn parse_inertia_data(html_body: &str) -> (r: Option<Json>)
        ensures
            match r {
                Some(j) => inertia_data(html_body@) == Some(j@),
                None => inertia_data(html_body@) is None,
            },
    {
        let doc = parse_document(html_body);
        let el = select_first(&doc, "[data-page]");
        let data = opt_attr(&el, "data-page")?;
        parse_json(data.as_str())
    }

    /// Decode the HTML entities that BrightNovels stores inside JSON string
    /// fields (their HTML is entity-encoded a second time).
    pub fn decode_entities(s: &str) -> (r: String)
        ensures
            r@ == decoded(s@),
    {
        let cs = chars_of(s);
        let mut out: Vec<char> = Vec::new();
        let mut i: usize = 0;
        assert(cs@.skip(0) == cs@);
        while i < cs.len()
            invariant
                i <= cs.len(),
                cs@ == s@,
                out@ + decoded(cs@.skip(i as int)) == decoded(s@),
            decreases cs.len() - i,
        {
            let ghost t = cs@.skip(i as int);
            match entity_at(&cs, i) {
                Some((c, n)) => {
                    proof {
                        reveal_strlit("&amp;");
                        reveal_strlit("&lt;");
                        reveal_strlit("&gt;");
                        reveal_strlit("&quot;");
                        reveal_strlit("&#039;");
                        reveal_strlit("&apos;");
                        reveal_strlit("&nbsp;");
                        assert(0 < n <= t.len());
                        assert(t.skip(n as int) == cs@.skip(i + n));
                    }
                    out.push(c);
                    i = i + n;
                },
                None => {
                    proof {
                        assert(t.drop_first() == cs@.skip(i + 1));
                        assert(t[0] == cs@[i as int]);
                    }
                    out.push(cs[i]);
                    i = i + 1;
                },
            }
        }
        assert(cs@.skip(i as int).len() == 0);
        assert(out@ + Seq::<char>::empty() == out@);
        string_from_chars(&out)
    }

    /// The URL of the chapter list of a series.
    pub fn chapters_api_url(slug: &str) -> (r: String)
        ensures
            r@ == BRIGHT_NOVELS@ + "/series/"@ + slug@ + "/chapters"@,
    {
        let mut u: Vec<char> = Vec::new();
        push_str(&mut u, BRIGHT_NOVELS);
        push_str(&mut u, "/series/");
        push_str(&mut u, slug);
        push_str(&mut u, "/chapters");
        string_from_chars(&u)
    }

    /// The (title, URL) of each free chapter of the chapter list, oldest
    /// first: the list comes newest first, premium chapters are skipped, and
    /// an unnamed chapter is called `Chapter {n}` after its place.
    pub fn chapter_links(slug: &str, api: &Json) -> (r: Vec<(String, String)>)
        ensures
            pair_views(r@) == bn_chapter_links(slug@, api@),
    {
        let ghost all = listed_chapters(api@);
        let ghost rev = all.reverse();
        let ghost g = |c: JsonView|
            if is_free(c) {
                Some(c)
            } else {
                None
            };
        let empty: Vec<Json> = Vec::new();
        let list: &Vec<Json> = match api.get("chapters") {
            Some(c) => match c.as_array() {
                Some(a) => a,
                None => &empty,
            },
            None => &empty,
        };
        assert(json_views(list@) == all);
        let mut links: Vec<(String, String)> = Vec::new();
        let mut k: usize = 0;
        while k < list.len()
            invariant
                k <= list.len(),
                all == json_views(list@),
                rev == all.reverse(),
                g == (|c: JsonView|
                    if is_free(c) {
                        Some(c)
                    } else {
                        None
                    }),
                pair_views(links@) == ({
                    let f = filter_some(rev.take(k as int).map_values(g));
                    Seq::new(f.len(), |i: int| bn_chapter_link(slug@, i, f[i]))
                }),
            decreases list.len() - k,
        {
            let j = list.len() - 1 - k;
            let ch = &list[j];
            let ghost f0 = filter_some(rev.take(k as int).map_values(g));
            proof {
                assert(rev[k as int] == all[j as int]);
                assert(rev.take(k + 1).map_values(g).drop_last() == rev.take(k as int).map_values(g));
                assert(rev.take(k + 1).map_values(g).last() == g(rev[k as int]));
            }
            let premium = match ch.get("is_premium") {
                Some(p) => p.as_bool(),
                None => None,
            };
            let free = match premium {
                Some(b) => !b,
                None => true,
            };
            if free {
                let n = links.len();
                let name = match ch.get("name") {
                    Some(x) => x.as_str(),
                    None => None,
                };
                let name = match name {
                    Some(x) => x,
                    None => {
                        let mut t: Vec<char> = Vec::new();
                        push_str(&mut t, "Chapter ");
                        let d = decimal_chars(n as u128 + 1);
                        push_all(&mut t, &d);
                        string_from_chars(&t)
                    },
                };
                let cs = or_empty(
                    match ch.get("slug") {
                        Some(x) => x.as_str(),
                        None => None,
                    },
                );
                let mut u: Vec<char> = Vec::new();
                push_str(&mut u, BRIGHT_NOVELS);
                push_str(&mut u, "/series/");
                push_str(&mut u, slug);
                push_str(&mut u, "/");
                push_str(&mut u, cs.as_str());
                let ghost before = links@;
                assert(pair_views(before).len() == before.len());
                assert(n == f0.len());
                links.push((name, string_from_chars(&u)));
                proof {
                    let f1 = f0.push(rev[k as int]);
                    assert(filter_some(rev.take(k + 1).map_values(g)) == f1);
                    assert(bn_chapter_link(slug@, n as int, rev[k as int]) == (links@[n as int].0@, links@[n as int].1@));
                    assert forall|i: int| 0 <= i < n implies #[trigger] pair_views(links@)[i] == bn_chapter_link(slug@, i, f1[i]) by {
                        assert(pair_views(links@)[i] == pair_views(before)[i]);
                        assert(f1[i] == f0[i]);
                    }
                    assert(pair_views(links@) =~= Seq::new(f1.len(), |i: int| bn_chapter_link(slug@, i, f1[i])));
                }
            } else {
                proof {
                    assert(filter_some(rev.take(k + 1).map_values(g)) == f0);
                }
            }
            k = k + 1;
        }
        assert(rev.take(k as int) == rev);
        links
    }

    /// The novel from the Inertia data of its series page and the chapter
    /// list.
    pub fn novel_from_data(url: &str, slug: &str, page: &Json, api: &Json) -> (r: Novel)
        ensures
            bn_novel(r, url@, slug@, page@, api@),
    {
        let mut path: Vec<&str> = Vec::new();
        path.push("props");
        path.push("series");
        assert(key_views(path@) =~= seq!["props"@, "series"@]);
        let null = Json::Null;
        let series: &Json = match page.at(&path) {
            Some(s) => s,
            None => &null,
        };
        assert(series@ == series_of(page@));
        let title = match series.get("title") {
            Some(t) => t.as_str(),
            None => None,
        };
        let title = match title {
            Some(t) => t,
            None => "Unknown Title".to_owned(),
        };
        let mut n = crate::crawler::novel_with(
            url,
            title,
            author_of(series),
            cover_of(series),
            synopsis_of(series),
        );
        let links = Self::chapter_links(slug, api);
        n.chapters = number_chapters(&links);
        n
    }

    /// The novel from its URL, its series page and the text of its chapter
    /// list; which of the three failed, when one did.
    pub fn novel_from_pages(url: &str, body: &str, chapters_json: &str) -> (r: Result<
        Novel,
        BrightError,
    >)
        ensures
            match r {
                Ok(n) => bn_slug(url@) matches Some(slug) && inertia_data(body@) matches Some(
                    page,
                ) && json_parsed(chapters_json@) matches Some(api) && bn_novel(
                    n,
                    url@,
                    slug,
                    page,
                    api,
                ),
                Err(BrightError::NoSlug) => bn_slug(url@) is None,
                Err(BrightError::NoPageData) => bn_slug(url@) is Some && inertia_data(body@) is None,
                Err(BrightError::ChaptersNotJson) => bn_slug(url@) is Some && inertia_data(
                    body@,
                ) is Some && json_parsed(chapters_json@) is None,
            },
    {
        let slug = match Self::slug_from_url(url) {
            Some(s) => s,
            None => {
                return Err(BrightError::NoSlug);
            },
        };
        let page = match Self::parse_inertia_data(body) {
            Some(p) => p,
            None => {
                return Err(BrightError::NoPageData);
            },
        };
        let api = match parse_json(chapters_json) {
            Some(a) => a,
            None => {
                return Err(BrightError::ChaptersNotJson);
            },
        };
        Ok(Self::novel_from_data(url, slug.as_str(), &page, &api))
    }

    /// Sets the chapter body from its page: the `props.chapter.content` of
    /// its Inertia data, entity-decoded and cleaned; left as it was when
    /// there is none.
    pub fn read_chapter_body(&self, chapter: &mut Chapter, body: &str)
        ensures
            opt_chars(final(chapter).body) == body_update(
                old(chapter).body,
                match bn_chapter_content(body@) {
                    Some(c) => Some(decoded(c)),
                    None => None,
                },
                old(chapter).url@,
            ),
            final(chapter).id == old(chapter).id,
            final(chapter).title == old(chapter).title,
            final(chapter).url == old(chapter).url,
            final(chapter).volume_id == old(chapter).volume_id,
    {
        let content = match Self::parse_inertia_data(body) {
            Some(v) => {
                let mut path: Vec<&str> = Vec::new();
                path.push("props");
                path.push("chapter");
                path.push("content");
                assert(key_views(path@) =~= seq!["props"@, "chapter"@, "content"@]);
                str_at(&v, &path)
            },
            None => None,
        };
        match content {
            Some(encoded) => {
                let html = Self::decode_entities(encoded.as_str());
                chapter.body = Some(clean_chapter_html(html.as_str(), chapter.url.as_str()));
            },
            None => {},
        }
    }

    /// The URL of the search answer for `query`.
    pub fn search_url(&self, query: &str) -> (r: String)
        ensures
            r@ == BRIGHT_NOVELS@ + "/series?search="@ + percent_encoded(
                vstd::utf8::encode_utf8(query@),
            ),
    {
        let mut out: Vec<char> = Vec::new();
        push_str(&mut out, BRIGHT_NOVELS);
        push_str(&mut out, "/series?search=");
        let q = percent_encode(query);
        push_str(&mut out, q.as_str());
        string_from_chars(&out)
    }

    /// The search results of an answer: JSON when it parses as JSON, else
    /// the Inertia data of an HTML page.
    pub fn parse_search(&self, body: &str) -> (r: Vec<SearchResult>)
        ensures
            result_views(r@) == bn_search_results(body@),
    {
        let empty: Vec<Json> = Vec::new();
        match parse_json(body) {
            Some(v) => {
                let data: Option<&Vec<Json>> = match v.get("data") {
                    Some(d) => d.as_array(),
                    None => None,
                };
                let series: Option<&Vec<Json>> = match v.get("series") {
                    Some(d) => d.as_array(),
                    None => None,
                };
                let items: &Vec<Json> = match v.as_array() {
                    Some(a) => a,
                    None => match data {
                        Some(a) => a,
                        None => match series {
                            Some(a) => a,
                            None => &empty,
                        },
                    },
                };
                assert(json_views(items@) == json_items(v@));
                results_from_items(items)
            },
            None => match Self::parse_inertia_data(body) {
                Some(p) => {
                    let mut path: Vec<&str> = Vec::new();
                    path.push("props");
                    path.push("series");
                    assert(key_views(path@) =~= seq!["props"@, "series"@]);
                    let mut path2: Vec<&str> = Vec::new();
                    path2.push("props");
                    path2.push("series");
                    path2.push("data");
                    assert(key_views(path2@) =~= seq!["props"@, "series"@, "data"@]);
                    let first: Option<&Vec<Json>> = match p.at(&path) {
                        Some(s) => s.as_array(),
                        None => None,
                    };
                    let items: &Vec<Json> = match first {
                        Some(a) => a,
                        None => match p.at(&path2) {
                            Some(s) => match s.as_array() {
                                Some(a) => a,
                                None => &empty,
                            },
                            None => &empty,
                        },
                    };
                    assert(json_views(items@) == page_items(p@));
                    results_from_items(items)
                },
                None => {
                    let r: Vec<SearchResult> = Vec::new();
                    assert(result_views(r@) =~= Seq::<SearchResultView>::empty());
                    r
                },
            },
        }
    }

    pub fn name(&self) -> (r: &'static str)
        ensures
            r@ == "BrightNovels"@,
    {
        "BrightNovels"
    }

    pub fn supports_search(&self) -> (r: bool)
        ensures
            r,
    {
        true
    }
}

} // verus!
