//! Parsing of the pages of https://novelfull.com and https://novelfull.net

use vstd::prelude::*;

use crate::crawler::{
    absolute, absolute_url, clean_chapter_html, cleaned_chapter, filter_some, first_text_among,
    lemma_filter_some_all,
    novel_with, number_chapters, numbered, pair_views, text_among,
};
use crate::crawler::royalroad::result_views;
use crate::html::{
    attr_in, attr_of, cell, first_match, node_attr, node_views, opt_attr, opt_text, parse_document,
    parse_fragment, scoped_selection, scoped_views, select_all, select_first, select_first_attr,
    select_within, selection, take_cell, trimmed, trimmed_attr, trimmed_text, Node, NodeView,
};
use crate::models::{Chapter, Novel, SearchResult, SearchResultView};
use crate::session::{contains_text, str_contains};
use crate::text::{
    chars_of, decimal, decimal_chars, lowercase, opt_chars, push_all, push_str, replace_all,
    string_from_chars, to_lowercase, trim,
};
use crate::urls::{url_host, url_scheme};

verus! {

pub const NOVELFULL: &'static str = "https://novelfull.com";

/// The most chapter-list pages read for one novel.
pub const MAX_LIST_PAGES: u32 = 500;

pub struct NovelFullCrawler;

/// The site prefix (`scheme://host`) of a NovelFull URL; the host defaults to
/// `novelfull.com`, and the whole to `https://novelfull.com` when the URL
/// does not parse.
pub open spec fn nf_base(url: Seq<char>) -> Seq<char> {
    match url_scheme(url) {
        Some(s) => s + "://"@ + match url_host(url) {
            Some(h) => h,
            None => "novelfull.com"@,
        },
        None => NOVELFULL@,
    }
}

/// The title a chapter link shows: its `title` attribute trimmed, else its
/// trimmed text when that is not empty, else `default`.
pub open spec fn link_title(a: NodeView, default: Seq<char>) -> Seq<char> {
    match attr_in(a.attrs, "title"@) {
        Some(t) => trim(t),
        None => if trim(a.text).len() > 0 {
            trim(a.text)
        } else {
            default
        },
    }
}

/// The links of one chapter-list page, numbering untitled chapters after the
/// `count` chapters already collected; links without `href` are skipped.
pub open spec fn nf_links(items: Seq<NodeView>, base: Seq<char>, count: nat) -> Seq<
    (Seq<char>, Seq<char>),
>
    decreases items.len(),
{
    if items.len() == 0 {
        Seq::empty()
    } else {
        let before = nf_links(items.drop_last(), base, count);
        let a = items.last();
        let href = match attr_in(a.attrs, "href"@) {
            Some(h) => h,
            None => Seq::empty(),
        };
        if href.len() == 0 {
            before
        } else {
            before.push(
                (
                    link_title(a, "Chapter "@ + decimal(count + before.len() + 1)),
                    absolute(base, href),
                ),
            )
        }
    }
}

/// The chapter links on one page of the chapter list.
pub open spec fn nf_page_links(base: Seq<char>, html: Seq<char>, count: nat) -> Seq<
    (Seq<char>, Seq<char>),
> {
    match selection(html, false, "ul.list-chapter li a"@) {
        Some(items) => nf_links(items, base, count),
        None => Seq::empty(),
    }
}

/// The next page of the chapter list, when the page links one.
pub open spec fn nf_next_page(base: Seq<char>, html: Seq<char>) -> Option<Seq<char>> {
    match attr_of(first_match(html, false, "li.next a[href]"@), "href"@) {
        Some(h) => if h.len() > 0 && h != "#"@ {
            Some(absolute(base, h))
        } else {
            None
        },
        None => None,
    }
}

/// The author: the text of the first link inside the first `.info-meta li`
/// whose text mentions "author" (in any case).
pub open spec fn info_author(rows: Seq<(NodeView, Seq<Option<NodeView>>)>) -> Option<Seq<char>>
    decreases rows.len(),
{
    if rows.len() == 0 {
        None
    } else if contains_text(lowercase(rows[0].0.text), "author"@) {
        trimmed_text(cell(rows[0].1, 0))
    } else {
        info_author(rows.drop_first())
    }
}

/// The author of a novel page.
pub open spec fn nf_author(body: Seq<char>) -> Option<Seq<char>> {
    match scoped_selection(body, false, ".info-meta li"@, seq!["a"@]) {
        Some(rows) => info_author(rows),
        None => None,
    }
}

/// The title of a novel page.
pub open spec fn nf_title(body: Seq<char>) -> Seq<char> {
    match text_among(body, false, seq!["h3.title"@, ".book h3"@, "h1"@]) {
        Some(t) => t,
        None => "Unknown Title"@,
    }
}

/// The cover of a novel page, resolved against the site prefix.
pub open spec fn nf_cover(base: Seq<char>, body: Seq<char>) -> Option<Seq<char>> {
    match trimmed_attr(first_match(body, false, ".book img"@), "src"@) {
        Some(s) => Some(absolute(base, s)),
        None => None,
    }
}

/// The search result for the inner HTML of one result row.
pub open spec fn nf_search_item(item: Seq<char>) -> Option<SearchResultView> {
    let t = first_match(item, true, "h3.truyen-title a"@);
    let title = match trimmed_text(t) {
        Some(x) => x,
        None => Seq::empty(),
    };
    if title.len() == 0 {
        None
    } else {
        Some(
            SearchResultView {
                title,
                url: match attr_of(t, "href"@) {
                    Some(h) => absolute(NOVELFULL@, h),
                    None => Seq::empty(),
                },
                author: trimmed_text(first_match(item, true, ".author"@)),
                cover_url: match attr_of(first_match(item, true, "img"@), "src"@) {
                    Some(s) => Some(absolute(NOVELFULL@, s)),
                    None => None,
                },
                synopsis: None,
                source_name: "NovelFull"@,
            },
        )
    }
}

/// The search results of a result page.
pub open spec fn nf_search_results(body: Seq<char>) -> Seq<SearchResultView> {
    match selection(body, false, ".col-truyen-main .row[itemtype*='Book']"@) {
        Some(items) => filter_some(items.map_values(|n: NodeView| nf_search_item(n.inner_html))),
        None => Seq::empty(),
    }
}

/// A search result links to the novel's page on the site: its URL is the
/// title link's `href` when that already starts with `http`, else
/// `https://novelfull.com` followed by the `href`; either way it starts with
/// `http`.
pub proof fn lemma_nf_result_url_resolved(item: Seq<char>)
    ensures
        match (
            nf_search_item(item),
            attr_of(first_match(item, true, "h3.truyen-title a"@), "href"@),
        ) {
            (Some(r), Some(h)) => {
                &&& r.url == (if "http"@.is_prefix_of(h) {
                    h
                } else {
                    "https://novelfull.com"@ + h
                })
                &&& "http"@.is_prefix_of(r.url)
            },
            _ => true,
        },
{
    reveal_strlit("https://novelfull.com");
    reveal_strlit("http");
    let h = attr_of(first_match(item, true, "h3.truyen-title a"@), "href"@);
    if nf_search_item(item) is Some && h is Some {
        let hh = h->0;
        if !"http"@.is_prefix_of(hh) {
            let u = "https://novelfull.com"@ + hh;
            assert(u.subrange(0, 4) =~= "http"@);
        }
    }
}

/// Every search result of a page has either no URL (its title has no link)
/// or an absolute one, starting with `http`.
pub proof fn lemma_nf_results_absolute(body: Seq<char>)
    ensures
        forall|k: int|
            0 <= k < nf_search_results(body).len() ==> {
                let u = #[trigger] nf_search_results(body)[k].url;
                u.len() == 0 || "http"@.is_prefix_of(u)
            },
{
    match selection(body, false, ".col-truyen-main .row[itemtype*='Book']"@) {
        Some(items) => {
            let s = items.map_values(|n: NodeView| nf_search_item(n.inner_html));
            let prop = |r: SearchResultView| r.url.len() == 0 || "http"@.is_prefix_of(r.url);
            assert forall|k: int| 0 <= k < s.len() && (#[trigger] s[k]) is Some implies prop(
                s[k]->0,
            ) by {
                lemma_nf_result_url_resolved(items[k].inner_html);
            }
            lemma_filter_some_all(s, prop);
        },
        None => {},
    }
}

/// The text of the first link in the first row whose own text mentions
/// "author".
pub fn find_info_author(rows: &mut Vec<(Node, Vec<Option<Node>>)>) -> (r: Option<String>)
    ensures
        opt_chars(r) == info_author(scoped_views(old(rows)@)),
{
    let ghost views = scoped_views(rows@);
    let mut i: usize = 0;
    assert(views.skip(0) == views);
    while i < rows.len()
        invariant
            i <= rows.len(),
            views.len() == rows.len(),
            views == scoped_views(old(rows)@),
            forall|k: int| i <= k < rows.len() ==> scoped_views(rows@)[k] == views[k],
            info_author(views.skip(i as int)) == info_author(views),
        decreases rows.len() - i,
    {
        proof {
            assert(views.skip(i as int)[0] == views[i as int]);
            assert(views.skip(i as int).drop_first() == views.skip(i + 1));
        }
        let lower = to_lowercase(rows[i].0.text.as_str());
        if str_contains(lower.as_str(), "author") {
            let ghost before = rows@[i as int];
            assert(views[i as int] == (before.0@, crate::html::row_view(before.1)));
            let a = take_cell(&mut rows[i].1, 0);
            return opt_text(&a);
        }
        i = i + 1;
    }
    None
}

impl NovelFullCrawler {
    pub fn new() -> (r: NovelFullCrawler) {
        NovelFullCrawler
    }

    /// Return the host prefix (e.g. "https://novelfull.com") extracted from a URL.
    pub fn base_from_url(url: &str) -> (r: String)
        ensures
            r@ == nf_base(url@),
    {
        match crate::urls::scheme_of(url) {
            Some(scheme) => {
                let mut out: Vec<char> = Vec::new();
                push_str(&mut out, scheme.as_str());
                push_str(&mut out, "://");
                match crate::urls::host_of(url) {
                    Some(h) => push_str(&mut out, h.as_str()),
                    None => push_str(&mut out, "novelfull.com"),
                }
                string_from_chars(&out)
            },
            None => NOVELFULL.to_owned(),
        }
    }

    /// The metadata of a novel page at `url` (its chapters are collected page
    /// by page with `chapter_page`).
    pub fn parse_novel_page(&self, url: &str, body: &str) -> (r: Novel)
        ensures
            r.url@ == url@,
            r.title@ == nf_title(body@),
            opt_chars(r.author) == nf_author(body@),
            opt_chars(r.cover_url) == nf_cover(nf_base(url@), body@),
            opt_chars(r.synopsis) == text_among(body@, false, seq![".desc-text"@]),
            r.language@ == "en"@,
            r.volumes@.len() == 0,
            r.chapters@.len() == 0,
    {
        let base = Self::base_from_url(url);
        let doc = parse_document(body);
        let mut sels: Vec<&str> = Vec::new();
        sels.push("h3.title");
        sels.push(".book h3");
        sels.push("h1");
        assert(sels@.map_values(|s: &str| s@) =~= seq!["h3.title"@, ".book h3"@, "h1"@]);
        let title = match first_text_among(&doc, &sels) {
            Some(t) => t,
            None => "Unknown Title".to_owned(),
        };
        let mut inner: Vec<&str> = Vec::new();
        inner.push("a");
        assert(inner@.map_values(|s: &str| s@) =~= seq!["a"@]);
        let author = match select_within(&doc, ".info-meta li", &inner) {
            Some(rows) => {
                let mut rows = rows;
                find_info_author(&mut rows)
            },
            None => None,
        };
        let cover = match select_first_attr(&doc, ".book img", "src") {
            Some(src) => Some(absolute_url(base.as_str(), src.as_str())),
            None => None,
        };
        let mut sels: Vec<&str> = Vec::new();
        sels.push(".desc-text");
        assert(sels@.map_values(|s: &str| s@) =~= seq![".desc-text"@]);
        let synopsis = first_text_among(&doc, &sels);
        novel_with(url, title, author, cover, synopsis)
    }

    /// The chapter links of one page of the chapter list and the URL of the
    /// next page, numbering untitled chapters after the `count` already found.
    pub fn chapter_page(&self, base: &str, html: &str, count: usize) -> (r: (
        Vec<(String, String)>,
        Option<String>,
    ))
        ensures
            pair_views(r.0@) == nf_page_links(base@, html@, count as nat),
            opt_chars(r.1) == nf_next_page(base@, html@),
    {
        let doc = parse_document(html);
        let batch = match select_all(&doc, "ul.list-chapter li a") {
            Some(items) => Self::links_from_items(base, &items, count),
            None => {
                let batch: Vec<(String, String)> = Vec::new();
                assert(pair_views(batch@) =~= Seq::<(Seq<char>, Seq<char>)>::empty());
                batch
            },
        };
        let next = match select_first_attr_raw(&doc, "li.next a[href]", "href") {
            Some(h) => {
                if h.as_str().unicode_len() > 0 && !crate::models::str_eq(h.as_str(), "#") {
                    Some(absolute_url(base, h.as_str()))
                } else {
                    None
                }
            },
            None => None,
        };
        (batch, next)
    }

    /// The chapter links among the links of a chapter-list page: those with a
    /// target, resolved against `base`, titled by their `title` attribute or
    /// text, else numbered after the `count` chapters found before.
    pub fn links_from_items(base: &str, items: &Vec<Node>, count: usize) -> (r: Vec<
        (String, String),
    >)
        ensures
            pair_views(r@) == nf_links(node_views(items@), base@, count as nat),
    {
        let mut batch: Vec<(String, String)> = Vec::new();
        let ghost views = node_views(items@);
        let mut i: usize = 0;
        while i < items.len()
            invariant
                i <= items.len(),
                views == node_views(items@),
                pair_views(batch@) == nf_links(views.take(i as int), base@, count as nat),
                batch@.len() <= i,
            decreases items.len() - i,
        {
            proof {
                assert(views.take(i + 1).drop_last() == views.take(i as int));
                assert(views.take(i + 1).last() == items@[i as int]@);
            }
            let a = &items[i];
            let href = match node_attr(a, "href") {
                Some(h) => h,
                None => String::new(),
            };
            if href.as_str().unicode_len() > 0 {
                let title = match node_attr(a, "title") {
                    Some(t) => trimmed(&t),
                    None => {
                        let t = trimmed(&a.text);
                        if t.as_str().unicode_len() > 0 {
                            t
                        } else {
                            let mut d: Vec<char> = Vec::new();
                            push_str(&mut d, "Chapter ");
                            let n = decimal_chars(count as u128 + batch.len() as u128 + 1);
                            push_all(&mut d, &n);
                            string_from_chars(&d)
                        }
                    },
                };
                let url = absolute_url(base, href.as_str());
                let ghost before = batch@;
                batch.push((title, url));
                assert(pair_views(batch@) == pair_views(before).push((title@, url@)));
            }
            i = i + 1;
        }
        assert(views.take(i as int) == views);
        batch
    }

    /// The next chapter-list page to read, numbered after `page`: none when
    /// the page links no next one or the last allowed page was read.
    pub fn next_list_page(page: u32, next: Option<String>) -> (r: Option<(u32, String)>)
        ensures
            match next {
                Some(u) => if page >= MAX_LIST_PAGES {
                    r is None
                } else {
                    r matches Some(p) && p.0 == page + 1 && p.1 == u
                },
                None => r is None,
            },
    {
        match next {
            Some(u) => if page >= MAX_LIST_PAGES {
                None
            } else {
                Some((page + 1, u))
            },
            None => None,
        }
    }

    /// The chapters of the novel, numbered from 1, from the links of all pages.
    pub fn chapters_from(&self, pairs: &Vec<(String, String)>) -> (r: Vec<Chapter>)
        ensures
            numbered(r@, pair_views(pairs@)),
    {
        number_chapters(pairs)
    }

    /// Sets the chapter body from the HTML of its page: the cleaned inner HTML
    /// of `#chapter-content`, else of `.chapter-body`, else no body.
    pub fn read_chapter_body(&self, chapter: &mut Chapter, body: &str)
        ensures
            opt_chars(final(chapter).body) == match first_match(body@, false, "#chapter-content"@) {
                Some(n) => Some(cleaned_chapter(n.inner_html, old(chapter).url@)),
                None => match first_match(body@, false, ".chapter-body"@) {
                    Some(n) => Some(cleaned_chapter(n.inner_html, old(chapter).url@)),
                    None => None,
                },
            },
            final(chapter).id == old(chapter).id,
            final(chapter).title == old(chapter).title,
            final(chapter).url == old(chapter).url,
            final(chapter).volume_id == old(chapter).volume_id,
    {
        let doc = parse_document(body);
        let inner = match select_first(&doc, "#chapter-content") {
            Some(el) => Some(el.inner_html),
            None => match select_first(&doc, ".chapter-body") {
                Some(el) => Some(el.inner_html),
                None => None,
            },
        };
        chapter.body = match inner {
            Some(h) => Some(clean_chapter_html(h.as_str(), chapter.url.as_str())),
            None => None,
        };
    }

    /// The URL of the search page for `query` (spaces become `+`).
    pub fn search_url(&self, query: &str) -> (r: String)
        ensures
            r@ == "https://novelfull.com/search?keyword="@ + replace_all(query@, seq![' '], seq!['+']),
    {
        let mut out: Vec<char> = Vec::new();
        push_str(&mut out, "https://novelfull.com/search?keyword=");
        let q = crate::text::replace_chars(&chars_of(query), &single(' '), &single('+'));
        push_all(&mut out, &q);
        string_from_chars(&out)
    }

    /// The search results on a result page.
    pub fn parse_search(&self, body: &str) -> (r: Vec<SearchResult>)
        ensures
            result_views(r@) == nf_search_results(body@),
    {
        let doc = parse_document(body);
        let mut r: Vec<SearchResult> = Vec::new();
        match select_all(&doc, ".col-truyen-main .row[itemtype*='Book']") {
            None => {
                assert(result_views(r@) =~= Seq::<SearchResultView>::empty());
                r
            },
            Some(items) => {
                let ghost views = node_views(items@);
                let ghost f = |n: NodeView| nf_search_item(n.inner_html);
                let mut i: usize = 0;
                while i < items.len()
                    invariant
                        i <= items.len(),
                        views == node_views(items@),
                        f == (|n: NodeView| nf_search_item(n.inner_html)),
                        result_views(r@) == filter_some(views.take(i as int).map_values(f)),
                    decreases items.len() - i,
                {
                    proof {
                        assert(views.take(i + 1).map_values(f).drop_last() == views.take(
                            i as int,
                        ).map_values(f));
                        assert(views.take(i + 1).map_values(f).last() == f(views[i as int]));
                    }
                    match search_item(items[i].inner_html.as_str()) {
                        Some(x) => {
                            let ghost before = r@;
                            r.push(x);
                            assert(result_views(r@) == result_views(before).push(x@));
                        },
                        None => {},
                    }
                    i = i + 1;
                }
                assert(views.take(i as int) == views);
                r
            },
        }
    }

    pub fn name(&self) -> (r: &'static str)
        ensures
            r@ == "NovelFull"@,
    {
        "NovelFull"
    }

    pub fn supports_search(&self) -> (r: bool)
        ensures
            r,
    {
        true
    }
}

/// A one-character vector.
pub fn single(c: char) -> (r: Vec<char>)
    ensures
        r@ == seq![c],
{
    let mut v: Vec<char> = Vec::new();
    v.push(c);
    v
}

/// The attribute of the first match, as it is (not trimmed).
fn select_first_attr_raw(page: &crate::html::Page, selector: &str, name: &str) -> (r: Option<
    String,
>)
    ensures
        opt_chars(r) == attr_of(
            crate::html::first_of(selection(page.source(), page.is_fragment(), selector@)),
            name@,
        ),
{
    let n = select_first(page, selector);
    opt_attr(&n, name)
}

/// The search result in the inner HTML of one result row.
fn search_item(item: &str) -> (r: Option<SearchResult>)
    ensures
        match r {
            Some(x) => nf_search_item(item@) == Some(x@),
            None => nf_search_item(item@) is None,
        },
{
    let frag = parse_fragment(item);
    let t = select_first(&frag, "h3.truyen-title a");
    let title = match opt_text(&t) {
        Some(x) => x,
        None => String::new(),
    };
    if title.as_str().unicode_len() == 0 {
        return None;
    }
    let url = match opt_attr(&t, "href") {
        Some(h) => absolute_url(NOVELFULL, h.as_str()),
        None => String::new(),
    };
    let author = opt_text(&select_first(&frag, ".author"));
    let cover_url = match opt_attr(&select_first(&frag, "img"), "src") {
        Some(s) => Some(absolute_url(NOVELFULL, s.as_str())),
        None => None,
    };
    Some(
        SearchResult {
            title,
            url,
            author,
            cover_url,
            synopsis: None,
            source_name: "NovelFull".to_owned(),
        },
    )
}

} // verus!
