//! Parsing of the pages of https://novelbin.com (served from novelbin.me)
//!
//! The series page at `novelbin.me/b/{slug}` carries the metadata and a CSRF
//! token, the chapter archive at `/ajax/chapter-archive?novelId={slug}` the
//! chapter list, and `/ajax/show-full-content` each chapter as JSON.

use vstd::prelude::*;

use crate::crawler::novelfull::{find_info_author, info_author, link_title, single};
use crate::crawler::royalroad::result_views;
use crate::crawler::{
    absolute, absolute_url, clean_chapter_html, cleaned_chapter, filter_some, first_text_among,
    novel_with, number_chapters, numbered, pair_views, percent_encode, percent_encoded, text_among,
};
use crate::html::{
    attr_in, attr_of, cell, first_match, node_attr, node_views, opt_attr, opt_text, parse_document,
    row_view, scoped_selection, scoped_views, select_all, select_first_attr, select_within,
    selection, take_cell, trimmed, trimmed_attr, trimmed_text, Node, NodeView,
};
use crate::json::{jbool, jget, json_parsed, jstr, parse_json, Json, JsonView};
use crate::models::{Chapter, Novel, SearchResult, SearchResultView};
use crate::session::{contains_text, str_contains};
use crate::text::{
    chars_of, delimited, delimited_chars, lowercase, opt_chars, push_all, push_str, replace_all,
    slice_chars, replace_chars, split_on, split_once, split_once_chars, strip_leading,
    strip_prefix_chars, strip_suffix_chars, string_from_chars, to_lowercase, trim_matches_char,
    uppercase_of,
};
use crate::urls::url_path;

verus! {

pub const NOVELBIN: &'static str = "https://novelbin.me";

pub const CSRF_NEEDLE: &'static str = "const csrf = \"";

/// The NovelBin site. Chapter downloads need a CSRF token from a series page,
/// which the caller keeps between downloads.
pub struct NovelBinCrawler;

/// The novel slug of a URL `…/b/{slug}` or `…/novel-book/{slug}[/…]`.
pub open spec fn nb_slug(url: Seq<char>) -> Option<Seq<char>> {
    match url_path(url) {
        None => None,
        Some(p) => {
            let (a, rest) = split_once(strip_prefix_chars(p, '/'), '/');
            if a == "b"@ || a == "novel-book"@ {
                match rest {
                    Some(r) => {
                        let b = split_once(r, '/').0;
                        if b.len() > 0 {
                            Some(b)
                        } else {
                            None
                        }
                    },
                    None => None,
                }
            } else {
                None
            }
        },
    }
}

/// The token in `const csrf = "TOKEN";`, when present and not empty.
pub open spec fn csrf_token(body: Seq<char>) -> Option<Seq<char>> {
    match delimited(body, CSRF_NEEDLE@, seq!['"']) {
        Some(t) => if t.len() > 0 {
            Some(t)
        } else {
            None
        },
        None => None,
    }
}

/// A word with its first character upper-cased.
pub open spec fn capitalized(w: Seq<char>) -> Seq<char> {
    if w.len() == 0 {
        Seq::empty()
    } else {
        uppercase_of(w[0]) + w.drop_first()
    }
}

/// A slug as a title: its `-`-separated words capitalized and joined with
/// spaces.
pub open spec fn slug_title(slug: Seq<char>) -> Seq<char> {
    crate::text::joined_with(split_on(slug, '-').map_values(|w: Seq<char>| capitalized(w)), ' ')
}

/// The title on a series page.
pub open spec fn nb_page_title(body: Seq<char>) -> Seq<char> {
    match text_among(body, false, seq!["h3.title"@, ".book h3"@, "h1"@]) {
        Some(t) => t,
        None => "Unknown Title"@,
    }
}

/// The title of the novel: the page's title, or the slug's words when the
/// page gave none or says "not found".
pub open spec fn nb_title(body: Seq<char>, slug: Seq<char>) -> Seq<char> {
    let t = nb_page_title(body);
    if t == "Unknown Title"@ || contains_text(lowercase(t), "not found"@) {
        slug_title(slug)
    } else {
        t
    }
}

/// The author on a series page.
pub open spec fn nb_author(body: Seq<char>) -> Option<Seq<char>> {
    match scoped_selection(body, false, ".info-meta li"@, seq!["a"@]) {
        Some(rows) => info_author(rows),
        None => None,
    }
}

/// The cover on a series page, resolved against the site.
pub open spec fn nb_cover(body: Seq<char>, base: Seq<char>) -> Option<Seq<char>> {
    match trimmed_attr(first_match(body, false, ".book img"@), "src"@) {
        Some(s) => Some(absolute(base, s)),
        None => None,
    }
}

/// The chapter-archive fragment wrapped into a document.
pub open spec fn archive_document(fragment: Seq<char>) -> Seq<char> {
    "<html><body>"@ + fragment + "</body></html>"@
}

/// The URL prefix of the chapters of a novel.
pub open spec fn chapter_prefix(slug: Seq<char>) -> Seq<char> {
    NOVELBIN@ + "/novel-book/"@ + slug + seq!['/']
}

/// The (chapter slug, title) of one archive link, when its URL carries a
/// chapter slug under the novel's prefix.
pub open spec fn archive_item(a: NodeView, slug: Seq<char>) -> Option<(Seq<char>, Seq<char>)> {
    let href = match attr_in(a.attrs, "href"@) {
        Some(h) => h,
        None => Seq::empty(),
    };
    let p = chapter_prefix(slug);
    let rest = if p.is_prefix_of(href) {
        href.skip(p.len() as int)
    } else {
        Seq::empty()
    };
    let ch = strip_suffix_chars(strip_prefix_chars(rest, '/'), '/');
    if ch.len() == 0 {
        None
    } else {
        Some((ch, link_title(a, replace_all(ch, seq!['-'], seq![' ']))))
    }
}

/// The chapters listed in the archive fragment, as (chapter slug, title).
pub open spec fn archive_chapters(fragment: Seq<char>, slug: Seq<char>) -> Seq<
    (Seq<char>, Seq<char>),
> {
    match selection(archive_document(fragment), false, "ul.list-chapter li a"@) {
        Some(items) => filter_some(items.map_values(|a: NodeView| archive_item(a, slug))),
        None => Seq::empty(),
    }
}

/// The URL of a chapter.
pub open spec fn chapter_url(slug: Seq<char>, ch: Seq<char>) -> Seq<char> {
    NOVELBIN@ + "/novel-book/"@ + slug + seq!['/'] + ch
}

/// The (title, URL) of each archived chapter.
pub open spec fn archive_links(fragment: Seq<char>, slug: Seq<char>) -> Seq<
    (Seq<char>, Seq<char>),
> {
    archive_chapters(fragment, slug).map_values(
        |p: (Seq<char>, Seq<char>)| (p.1, chapter_url(slug, p.0)),
    )
}

/// The novel and chapter slugs of a chapter URL `…/novel-book/{novel}/{chapter}`.
pub open spec fn chapter_slugs_of(path: Seq<char>) -> (Seq<char>, Seq<char>) {
    let (a, r1) = split_once(strip_prefix_chars(path, '/'), '/');
    match r1 {
        None => (Seq::empty(), Seq::empty()),
        Some(r) => {
            let (n, r2) = split_once(r, '/');
            (
                n,
                match r2 {
                    Some(x) => split_once(x, '/').0,
                    None => Seq::empty(),
                },
            )
        },
    }
}

/// Why no chapter slugs could be taken from a chapter URL.
#[derive(Clone, Copy, Debug, PartialEq, Eq, Structural)]
pub enum SlugError {
    /// The URL does not parse
    InvalidUrl,
    /// The novel or chapter slug is empty
    MissingSlug,
}

/// The search result for one row of the result list.
pub open spec fn nb_search_item(row: (NodeView, Seq<Option<NodeView>>)) -> Option<
    SearchResultView,
> {
    let t = cell(row.1, 0);
    let title = match trimmed_text(t) {
        Some(x) => x,
        None => Seq::empty(),
    };
    let url = match attr_of(t, "href"@) {
        Some(h) => absolute(NOVELBIN@, h),
        None => Seq::empty(),
    };
    if title.len() == 0 || url.len() == 0 {
        None
    } else {
        Some(
            SearchResultView {
                title,
                url,
                author: trimmed_text(cell(row.1, 2)),
                cover_url: match attr_of(cell(row.1, 1), "src"@) {
                    Some(s) => Some(s),
                    None => attr_of(cell(row.1, 1), "data-src"@),
                },
                synopsis: trimmed_text(cell(row.1, 3)),
                source_name: "NovelBin"@,
            },
        )
    }
}

/// The inner selectors of a search row: title link, cover, author, synopsis.
pub open spec fn search_cells() -> Seq<Seq<char>> {
    seq!["h3.novel-title a"@, "img.cover"@, ".author"@, ".novel-item .list-inline"@]
}

/// The search results of a result page.
pub open spec fn nb_search_results(body: Seq<char>) -> Seq<SearchResultView> {
    match scoped_selection(body, false, ".list-novel .row"@, search_cells()) {
        Some(rows) => filter_some(
            rows.map_values(|r: (NodeView, Seq<Option<NodeView>>)| nb_search_item(r)),
        ),
        None => Seq::empty(),
    }
}

/// Why a chapter answer of `show-full-content` was not taken.
#[derive(Clone, Copy, Debug, PartialEq, Eq, Structural)]
pub enum ContentError {
    /// The answer is no JSON
    NotJson,
    /// The answer's `success` is not `true`
    Refused,
}

/// The `content` of a chapter answer, empty when it has none.
pub open spec fn nb_content(v: JsonView) -> Seq<char> {
    match jstr(jget(v, "content"@)) {
        Some(c) => c,
        None => Seq::empty(),
    }
}

/// Whether a chapter answer says `success: true`.
pub open spec fn nb_success(v: JsonView) -> bool {
    jbool(jget(v, "success"@)) == Some(true)
}

/// The body a chapter gets from a successful answer: the cleaned content,
/// or the body it had when the content is empty.
pub open spec fn nb_body(old_body: Option<String>, v: JsonView, url: Seq<char>) -> Option<Seq<char>> {
    if nb_content(v).len() > 0 {
        Some(cleaned_chapter(nb_content(v), url))
    } else {
        opt_chars(old_body)
    }
}

fn slug_of_rest(rest: &Option<Vec<char>>) -> (r: Option<String>)
    ensures
        opt_chars(r) == match rest {
            Some(r) => {
                let b = split_once(r@, '/').0;
                if b.len() > 0 {
                    Some(b)
                } else {
                    None::<Seq<char>>
                }
            },
            None => None,
        },
{
    match rest {
        Some(r) => {
            let (b, _) = split_once_chars(r, '/');
            if b.len() > 0 {
                Some(string_from_chars(&b))
            } else {
                None
            }
        },
        None => None,
    }
}

fn capitalize(w: &Vec<char>) -> (r: Vec<char>)
    ensures
        r@ == capitalized(w@),
{
    let mut r: Vec<char> = Vec::new();
    if w.len() == 0 {
        return r;
    }
    let up = char_upper(w[0]);
    push_all(&mut r, &up);
    let mut k: usize = 1;
    while k < w.len()
        invariant
            1 <= k <= w.len(),
            r@ == uppercase_of(w@[0]) + w@.subrange(1, k as int),
        decreases w.len() - k,
    {
        r.push(w[k]);
        k = k + 1;
        assert(r@ == uppercase_of(w@[0]) + w@.subrange(1, k as int));
    }
    assert(w@.subrange(1, k as int) == w@.drop_first());
    r
}

fn char_upper(c: char) -> (r: Vec<char>)
    ensures
        r@ == uppercase_of(c),
{
    let s = crate::text::char_to_uppercase(c);
    chars_of(s.as_str())
}

impl NovelBinCrawler {
    pub fn new() -> (r: NovelBinCrawler) {
        NovelBinCrawler
    }

    /// Extract the novel slug from any supported NovelBin URL variant.
    pub fn slug_from_url(url: &str) -> (r: Option<String>)
        ensures
            opt_chars(r) == nb_slug(url@),
    {
        let path = crate::urls::path_of(url)?;
        let p = strip_leading(&chars_of(path.as_str()), '/');
        let (a, rest) = split_once_chars(&p, '/');
        let a = string_from_chars(&a);
        if crate::models::str_eq(a.as_str(), "b") || crate::models::str_eq(a.as_str(), "novel-book") {
            slug_of_rest(&rest)
        } else {
            None
        }
    }

    /// Extract the CSRF token embedded in a NovelBin HTML page; `None` when
    /// it is absent or empty (e.g. on 404 pages).
    pub fn extract_csrf(html_body: &str) -> (r: Option<String>)
        ensures
            opt_chars(r) == csrf_token(html_body@),
    {
        let s = chars_of(html_body);
        let needle = chars_of(CSRF_NEEDLE);
        match delimited_chars(&s, &needle, &single('"')) {
            Some(t) => if t.len() > 0 {
                Some(string_from_chars(&t))
            } else {
                None
            },
            None => None,
        }
    }

    /// Pretty-print a URL slug as a title: `"the-regressor"` → `"The Regressor"`.
    pub fn title_from_slug(slug: &str) -> (r: String)
        ensures
            r@ == slug_title(slug@),
    {
        let cs = chars_of(slug);
        let ghost f = |w: Seq<char>| capitalized(w);
        let mut out: Vec<char> = Vec::new();
        let mut cur: Vec<char> = Vec::new();
        let mut any = false;
        let ghost mut done: Seq<Seq<char>> = Seq::empty();
        assert(cs@.take(0) == Seq::<char>::empty());
        let mut i: usize = 0;
        while i < cs.len()
            invariant
                i <= cs.len(),
                f == (|w: Seq<char>| capitalized(w)),
                split_on(cs@.take(i as int), '-') == done.push(cur@),
                out@ == crate::text::joined_with(done.map_values(f), ' '),
                any == (done.len() > 0),
            decreases cs.len() - i,
        {
            let c = cs[i];
            proof {
                assert(cs@.take(i + 1).drop_last() == cs@.take(i as int));
                assert(cs@.take(i + 1).last() == c);
            }
            if c == '-' {
                let w = capitalize(&cur);
                proof {
                    assert(done.push(cur@).map_values(f).drop_last() == done.map_values(f));
                    assert(done.push(cur@).map_values(f).last() == capitalized(cur@));
                }
                if any {
                    out.push(' ');
                }
                push_all(&mut out, &w);
                proof {
                    done = done.push(cur@);
                }
                any = true;
                cur = Vec::new();
            } else {
                let ghost old_cur = cur@;
                cur.push(c);
                assert(done.push(old_cur).update(done.len() as int, old_cur.push(c)) == done.push(
                    cur@,
                ));
            }
            i = i + 1;
        }
        assert(cs@.take(i as int) == cs@);
        let w = capitalize(&cur);
        proof {
            assert(done.push(cur@).map_values(f).drop_last() == done.map_values(f));
            assert(done.push(cur@).map_values(f).last() == capitalized(cur@));
        }
        if any {
            out.push(' ');
        }
        push_all(&mut out, &w);
        string_from_chars(&out)
    }

    /// The title, author, cover URL and synopsis of a series page.
    pub fn parse_series_page(body: &str, base_url: &str) -> (r: (
        String,
        Option<String>,
        Option<String>,
        Option<String>,
    ))
        ensures
            r.0@ == nb_page_title(body@),
            opt_chars(r.1) == nb_author(body@),
            opt_chars(r.2) == nb_cover(body@, base_url@),
            opt_chars(r.3) == text_among(body@, false, seq!["div.desc"@]),
    {
        let doc = parse_document(body);
        let mut sels: Vec<&str> = Vec::new();
        sels.push("h3.title");
        sels.push(".book h3");
        sels.push("h1");
        assert(sels@.map_values(|s: &str| s@) =~= seq!["h3.title"@, ".book h3"@, "h1"@]);
        let title = match first_text_among(&doc, &sels) {
            Some(t) => t,
            None => "Unknown Title".to_owned(),
        };
        let mut inner: Vec<&str> = Vec::new();
        inner.push("a");
        assert(inner@.map_values(|s: &str| s@) =~= seq!["a"@]);
        let author = match select_within(&doc, ".info-meta li", &inner) {
            Some(rows) => {
                let mut rows = rows;
                find_info_author(&mut rows)
            },
            None => None,
        };
        let cover = match select_first_attr(&doc, ".book img", "src") {
            Some(src) => Some(absolute_url(base_url, src.as_str())),
            None => None,
        };
        let mut sels: Vec<&str> = Vec::new();
        sels.push("div.desc");
        assert(sels@.map_values(|s: &str| s@) =~= seq!["div.desc"@]);
        let synopsis = first_text_among(&doc, &sels);
        (title, author, cover, synopsis)
    }

    /// The chapters of the chapter-archive fragment, as (chapter slug, title).
    pub fn parse_chapter_archive(html_fragment: &str, novel_slug: &str) -> (r: Vec<
        (String, String),
    >)
        ensures
            pair_views(r@) == archive_chapters(html_fragment@, novel_slug@),
    {
        let mut full: Vec<char> = Vec::new();
        push_str(&mut full, "<html><body>");
        push_str(&mut full, html_fragment);
        push_str(&mut full, "</body></html>");
        let full = string_from_chars(&full);
        let doc = parse_document(full.as_str());
        match select_all(&doc, "ul.list-chapter li a") {
            None => {
                let pairs: Vec<(String, String)> = Vec::new();
                assert(pair_views(pairs@) =~= Seq::<(Seq<char>, Seq<char>)>::empty());
                pairs
            },
            Some(items) => Self::archive_links_from(&items, novel_slug),
        }
    }

    /// The (chapter slug, title) of each archive link whose target is a
    /// chapter of the novel `novel_slug`, in order.
    pub fn archive_links_from(items: &Vec<Node>, novel_slug: &str) -> (r: Vec<(String, String)>)
        ensures
            pair_views(r@) == filter_some(
                node_views(items@).map_values(|a: NodeView| archive_item(a, novel_slug@)),
            ),
    {
        let mut prefix: Vec<char> = Vec::new();
        push_str(&mut prefix, NOVELBIN);
        push_str(&mut prefix, "/novel-book/");
        push_str(&mut prefix, novel_slug);
        prefix.push('/');
        let mut pairs: Vec<(String, String)> = Vec::new();
        let ghost views = node_views(items@);
        let ghost f = |a: NodeView| archive_item(a, novel_slug@);
        let mut i: usize = 0;
        while i < items.len()
            invariant
                i <= items.len(),
                views == node_views(items@),
                f == (|a: NodeView| archive_item(a, novel_slug@)),
                prefix@ == chapter_prefix(novel_slug@),
                pair_views(pairs@) == filter_some(views.take(i as int).map_values(f)),
            decreases items.len() - i,
        {
            proof {
                assert(views.take(i + 1).map_values(f).drop_last() == views.take(i as int).map_values(
                    f,
                ));
                assert(views.take(i + 1).map_values(f).last() == f(views[i as int]));
            }
            match archive_entry(&items[i], &prefix) {
                Some(p) => {
                    let ghost before = pairs@;
                    pairs.push(p);
                    assert(pair_views(pairs@) == pair_views(before).push(
                        (pairs@.last().0@, pairs@.last().1@),
                    ));
                },
                None => {},
            }
            i = i + 1;
        }
        assert(views.take(i as int) == views);
        pairs
    }

    /// The novel from its series page and chapter archive: `None` when the
    /// archive lists no chapter.
    pub fn novel_from_pages(url: &str, slug: &str, series_body: &str, archive_body: &str) -> (r:
        Option<Novel>)
        ensures
            archive_chapters(archive_body@, slug@).len() == 0 <==> r is None,
            r matches Some(n) ==> {
                &&& n.url@ == url@
                &&& n.title@ == nb_title(series_body@, slug@)
                &&& opt_chars(n.author) == nb_author(series_body@)
                &&& opt_chars(n.cover_url) == nb_cover(series_body@, NOVELBIN@)
                &&& opt_chars(n.synopsis) == text_among(series_body@, false, seq!["div.desc"@])
                &&& n.language@ == "en"@
                &&& n.volumes@.len() == 0
                &&& numbered(n.chapters@, archive_links(archive_body@, slug@))
            },
    {
        let (title, author, cover, synopsis) = Self::parse_series_page(series_body, NOVELBIN);
        let lower = to_lowercase(title.as_str());
        let title = if crate::models::str_eq(title.as_str(), "Unknown Title") || str_contains(
            lower.as_str(),
            "not found",
        ) {
            Self::title_from_slug(slug)
        } else {
            title
        };
        let pairs = Self::parse_chapter_archive(archive_body, slug);
        if pairs.len() == 0 {
            return None;
        }
        let mut links: Vec<(String, String)> = Vec::new();
        let mut i: usize = 0;
        while i < pairs.len()
            invariant
                i <= pairs.len(),
                pair_views(links@) == pair_views(pairs@).take(i as int).map_values(
                    |p: (Seq<char>, Seq<char>)| (p.1, chapter_url(slug@, p.0)),
                ),
            decreases pairs.len() - i,
        {
            let mut u: Vec<char> = Vec::new();
            push_str(&mut u, NOVELBIN);
            push_str(&mut u, "/novel-book/");
            push_str(&mut u, slug);
            u.push('/');
            push_str(&mut u, pairs[i].0.as_str());
            assert(u@ =~= chapter_url(slug@, pairs@[i as int].0@));
            let ghost before = links@;
            links.push((pairs[i].1.clone(), string_from_chars(&u)));
            i = i + 1;
            assert(pair_views(links@) == pair_views(before).push(
                (pairs@[i - 1].1@, chapter_url(slug@, pairs@[i - 1].0@)),
            ));
            assert(pair_views(pairs@).take(i as int) == pair_views(pairs@).take((i - 1) as int).push(
                (pairs@[i - 1].0@, pairs@[i - 1].1@),
            ));
        }
        assert(pair_views(pairs@).take(i as int) == pair_views(pairs@));
        let mut novel = novel_with(url, title, author, cover, synopsis);
        novel.chapters = number_chapters(&links);
        Some(novel)
    }

    /// The novel and chapter slugs of a stored chapter URL.
    pub fn chapter_slugs(url: &str) -> (r: Result<(String, String), SlugError>)
        ensures
            match r {
                Ok((n, c)) => url_path(url@) matches Some(p) && chapter_slugs_of(p) == (n@, c@)
                    && n@.len() > 0 && c@.len() > 0,
                Err(SlugError::InvalidUrl) => url_path(url@) is None,
                Err(SlugError::MissingSlug) => url_path(url@) matches Some(p) && (chapter_slugs_of(
                    p,
                ).0.len() == 0 || chapter_slugs_of(p).1.len() == 0),
            },
    {
        let path = match crate::urls::path_of(url) {
            Some(p) => p,
            None => {
                return Err(SlugError::InvalidUrl);
            },
        };
        let p = strip_leading(&chars_of(path.as_str()), '/');
        let (_a, r1) = split_once_chars(&p, '/');
        let (n, c) = match r1 {
            None => (Vec::new(), Vec::new()),
            Some(r) => {
                let (n, r2) = split_once_chars(&r, '/');
                let c = match r2 {
                    Some(x) => split_once_chars(&x, '/').0,
                    None => Vec::new(),
                };
                (n, c)
            },
        };
        if n.len() == 0 || c.len() == 0 {
            return Err(SlugError::MissingSlug);
        }
        Ok((string_from_chars(&n), string_from_chars(&c)))
    }

    /// The cached CSRF token, when there is a non-empty one.
    pub fn usable_csrf(cached: &Option<String>) -> (r: Option<String>)
        ensures
            match *cached {
                Some(c) => if c@.len() > 0 {
                    opt_chars(r) == Some(c@)
                } else {
                    r is None
                },
                None => r is None,
            },
    {
        match cached {
            Some(c) => if c.as_str().unicode_len() > 0 {
                Some(c.clone())
            } else {
                None
            },
            None => None,
        }
    }

    /// The URL of the series page of a novel.
    pub fn series_url(slug: &str) -> (r: String)
        ensures
            r@ == NOVELBIN@ + "/b/"@ + slug@,
    {
        let mut u: Vec<char> = Vec::new();
        push_str(&mut u, NOVELBIN);
        push_str(&mut u, "/b/");
        push_str(&mut u, slug);
        string_from_chars(&u)
    }

    /// The URL of the chapter archive of a novel.
    pub fn archive_url(slug: &str) -> (r: String)
        ensures
            r@ == NOVELBIN@ + "/ajax/chapter-archive?novelId="@ + slug@,
    {
        let mut u: Vec<char> = Vec::new();
        push_str(&mut u, NOVELBIN);
        push_str(&mut u, "/ajax/chapter-archive?novelId=");
        push_str(&mut u, slug);
        string_from_chars(&u)
    }

    /// Takes a chapter answer of `show-full-content`: refused unless its
    /// `success` is `true`; a non-empty `content` becomes the cleaned body.
    pub fn chapter_from_json(&self, chapter: &mut Chapter, answer: &Json) -> (r: Result<
        (),
        ContentError,
    >)
        ensures
            r is Ok <==> nb_success(answer@),
            r is Err ==> r == Err::<(), ContentError>(ContentError::Refused) && *final(chapter) == *old(chapter),
            r is Ok ==> opt_chars(final(chapter).body) == nb_body(old(chapter).body, answer@, old(chapter).url@),
            final(chapter).id == old(chapter).id,
            final(chapter).title == old(chapter).title,
            final(chapter).url == old(chapter).url,
            final(chapter).volume_id == old(chapter).volume_id,
    {
        let ok = match answer.get("success") {
            Some(x) => x.as_bool(),
            None => None,
        };
        match ok {
            Some(true) => {},
            _ => {
                return Err(ContentError::Refused);
            },
        }
        let content = match answer.get("content") {
            Some(x) => x.as_str(),
            None => None,
        };
        let content = match content {
            Some(c) => c,
            None => String::new(),
        };
        if content.as_str().unicode_len() > 0 {
            chapter.body = Some(clean_chapter_html(content.as_str(), chapter.url.as_str()));
        }
        Ok(())
    }

    /// Takes the text of a chapter answer of `show-full-content`.
    pub fn read_chapter_response(&self, chapter: &mut Chapter, text: &str) -> (r: Result<
        (),
        ContentError,
    >)
        ensures
            r == Err::<(), ContentError>(ContentError::NotJson) <==> json_parsed(text@) is None,
            r is Err ==> *final(chapter) == *old(chapter),
            json_parsed(text@) matches Some(v) ==> {
                &&& (r is Ok <==> nb_success(v))
                &&& (r is Ok ==> opt_chars(final(chapter).body) == nb_body(old(chapter).body, v, old(chapter).url@))
            },
            final(chapter).id == old(chapter).id,
            final(chapter).title == old(chapter).title,
            final(chapter).url == old(chapter).url,
            final(chapter).volume_id == old(chapter).volume_id,
    {
        match parse_json(text) {
            Some(v) => self.chapter_from_json(chapter, &v),
            None => Err(ContentError::NotJson),
        }
    }

    /// The URL of the search page for `query`.
    pub fn search_url(&self, query: &str) -> (r: String)
        ensures
            r@ == NOVELBIN@ + "/search?keyword="@ + percent_encoded(vstd::utf8::encode_utf8(query@)),
    {
        let mut out: Vec<char> = Vec::new();
        push_str(&mut out, NOVELBIN);
        push_str(&mut out, "/search?keyword=");
        let q = percent_encode(query);
        push_str(&mut out, q.as_str());
        string_from_chars(&out)
    }

    /// The search results on a result page.
    pub fn parse_search(&self, body: &str) -> (r: Vec<SearchResult>)
        ensures
            result_views(r@) == nb_search_results(body@),
    {
        let doc = parse_document(body);
        let mut inner: Vec<&str> = Vec::new();
        inner.push("h3.novel-title a");
        inner.push("img.cover");
        inner.push(".author");
        inner.push(".novel-item .list-inline");
        assert(inner@.map_values(|s: &str| s@) =~= search_cells());
        match select_within(&doc, ".list-novel .row", &inner) {
            None => {
                let r: Vec<SearchResult> = Vec::new();
                assert(result_views(r@) =~= Seq::<SearchResultView>::empty());
                r
            },
            Some(rows) => Self::results_from_rows(rows),
        }
    }

    /// The search results of the rows of a result list, each row with its
    /// first title link, cover, author and synopsis element.
    pub fn results_from_rows(rows: Vec<(Node, Vec<Option<Node>>)>) -> (r: Vec<SearchResult>)
        ensures
            result_views(r@) == filter_some(
                scoped_views(rows@).map_values(
                    |row: (NodeView, Seq<Option<NodeView>>)| nb_search_item(row),
                ),
            ),
    {
        let mut r: Vec<SearchResult> = Vec::new();
        let ghost views = scoped_views(rows@);
        let ghost f = |row: (NodeView, Seq<Option<NodeView>>)| nb_search_item(row);
        let mut rows = rows;
        let mut i: usize = 0;
        while i < rows.len()
            invariant
                i <= rows.len(),
                views.len() == rows.len(),
                f == (|row: (NodeView, Seq<Option<NodeView>>)| nb_search_item(row)),
                forall|k: int| i <= k < rows.len() ==> scoped_views(rows@)[k] == views[k],
                result_views(r@) == filter_some(views.take(i as int).map_values(f)),
            decreases rows.len() - i,
        {
            proof {
                assert(views.take(i + 1).map_values(f).drop_last() == views.take(i as int).map_values(
                    f,
                ));
                assert(views.take(i + 1).map_values(f).last() == f(views[i as int]));
            }
            let ghost before_row = rows@[i as int];
            assert(views[i as int] == (before_row.0@, row_view(before_row.1)));
            let ghost cells = row_view(before_row.1);
            let mut cells_vec = Vec::new();
            std::mem::swap(&mut cells_vec, &mut rows[i].1);
            let item = search_row(&mut cells_vec, Ghost(cells));
            match item {
                Some(x) => {
                    let ghost before = r@;
                    r.push(x);
                    assert(result_views(r@) == result_views(before).push(x@));
                },
                None => {},
            }
            i = i + 1;
        }
        assert(views.take(i as int) == views);
        r
    }

    pub fn name(&self) -> (r: &'static str)
        ensures
            r@ == "NovelBin"@,
    {
        "NovelBin"
    }

    pub fn supports_search(&self) -> (r: bool)
        ensures
            r,
    {
        true
    }
}

/// The (chapter slug, title) of one archive link.
fn archive_entry(a: &Node, prefix: &Vec<char>) -> (r: Option<(String, String)>)
    requires
        exists|slug: Seq<char>| prefix@ == chapter_prefix(slug),
    ensures
        forall|slug: Seq<char>|
            prefix@ == chapter_prefix(slug) ==> match r {
                Some(p) => archive_item(a@, slug) == Some((p.0@, p.1@)),
                None => archive_item(a@, slug) is None,
            },
{
    let href = match node_attr(a, "href") {
        Some(h) => chars_of(h.as_str()),
        None => Vec::new(),
    };
    let is_prefix = crate::text::matches_at(&href, prefix, 0);
    proof {
        if prefix@.is_prefix_of(href@) {
            assert(href@.subrange(0, prefix@.len() as int) == prefix@);
        }
        if is_prefix {
            assert forall|k: int| 0 <= k < prefix@.len() implies prefix@[k] == href@[k] by {
                assert(href@.subrange(0, prefix@.len() as int)[k] == href@[k]);
            }
        }
    }
    let rest = if is_prefix {
        let v = slice_chars(&href, prefix.len(), href.len());
        assert(v@ == href@.skip(prefix@.len() as int));
        v
    } else {
        Vec::new()
    };
    let ch = trim_matches_char(&rest, '/');
    if ch.len() == 0 {
        return None;
    }
    let title = match node_attr(a, "title") {
        Some(t) => trimmed(&t),
        None => {
            let t = trimmed(&a.text);
            if t.as_str().unicode_len() > 0 {
                t
            } else {
                string_from_chars(&replace_chars(&ch, &single('-'), &single(' ')))
            }
        },
    };
    Some((string_from_chars(&ch), title))
}

/// The search result of one row's cells.
fn search_row(cells: &mut Vec<Option<Node>>, Ghost(view): Ghost<Seq<Option<NodeView>>>) -> (r:
    Option<SearchResult>)
    requires
        row_view(*old(cells)) == view,
    ensures
        forall|scope: NodeView|
            match r {
                Some(x) => nb_search_item((scope, view)) == Some(x@),
                None => nb_search_item((scope, view)) is None,
            },
{
    let t = take_cell(cells, 0);
    let title = match opt_text(&t) {
        Some(x) => x,
        None => String::new(),
    };
    let url = match opt_attr(&t, "href") {
        Some(h) => absolute_url(NOVELBIN, h.as_str()),
        None => String::new(),
    };
    if title.as_str().unicode_len() == 0 || url.as_str().unicode_len() == 0 {
        return None;
    }
    let ghost c1 = row_view(*cells);
    let cover_el = take_cell(cells, 1);
    let cover_url = match opt_attr(&cover_el, "src") {
        Some(s) => Some(s),
        None => opt_attr(&cover_el, "data-src"),
    };
    let author_el = take_cell(cells, 2);
    let author = opt_text(&author_el);
    let syn_el = take_cell(cells, 3);
    let synopsis = opt_text(&syn_el);
    Some(
        SearchResult {
            title,
            url,
            author,
            cover_url,
            synopsis,
            source_name: "NovelBin".to_owned(),
        },
    )
}

} // verus!
