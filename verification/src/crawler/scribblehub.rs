//! Parsing of the pages of https://www.scribblehub.com
//!
//! The table of contents comes page by page from the site's AJAX endpoint,
//! newest chapter first; the caller asks for pages until one adds nothing.

use vstd::prelude::*;

use crate::crawler::royalroad::result_views;
use crate::crawler::{
    attr_among, body_update, clean_chapter_html, filter_some, first_attr_among, first_text_among,
    novel_with, number_chapters, numbered, pair_views, text_among,
};
use crate::html::{
    attr_in, attr_of, first_match, node_views, opt_attr, opt_text, parse_document,
    parse_fragment, select_all, select_first, selection, trimmed, trimmed_text, Node, NodeView,
};
use crate::models::{Chapter, Novel, SearchResult, SearchResultView};
use crate::patterns::{regex_first_group, regex_group1, regex_valid};
use crate::text::{
    decimal, decimal_chars, opt_chars, parse_u64, parsed_u64, push_all, push_str, replace_all,
    replace_str, string_from_chars, trim,
};

verus! {

pub const SCRIBBLE_HUB: &'static str = "https://www.scribblehub.com";

/// The fiction id in a series URL.
pub const POST_ID_PATTERN: &'static str = "/series/(\\d+)/";

/// The most table-of-contents pages asked for.
pub const MAX_TOC_PAGE: u32 = 1000;

pub struct ScribbleHubCrawler;

/// The fiction id of a URL `…/series/{id}/…`, when it fits in a `u64`.
pub open spec fn sh_post_id(url: Seq<char>) -> Option<u64> {
    if regex_valid(POST_ID_PATTERN@) {
        match regex_group1(POST_ID_PATTERN@, url) {
            Some(g) => parsed_u64(g),
            None => None,
        }
    } else {
        None
    }
}

/// The title of a table-of-contents link: its trimmed `title` attribute,
/// else its trimmed text when not empty, else `Chapter {n + 1}`.
pub open spec fn sh_title(a: NodeView, n: nat) -> Seq<char> {
    match attr_in(a.attrs, "title"@) {
        Some(t) => trim(t),
        None => if trim(a.text).len() > 0 {
            trim(a.text)
        } else {
            "Chapter "@ + decimal(n + 1)
        },
    }
}

/// The link target of an element, empty when it has none.
pub open spec fn href_of(a: NodeView) -> Seq<char> {
    match attr_in(a.attrs, "href"@) {
        Some(h) => h,
        None => Seq::empty(),
    }
}

/// The (title, URL) of the links that have a target, `count` chapters having
/// been found before them.
pub open spec fn sh_toc(items: Seq<NodeView>, count: nat) -> Seq<(Seq<char>, Seq<char>)>
    decreases items.len(),
{
    if items.len() == 0 {
        Seq::empty()
    } else {
        let prev = sh_toc(items.drop_last(), count);
        let a = items.last();
        if href_of(a).len() > 0 {
            prev.push((sh_title(a, count + prev.len()), href_of(a)))
        } else {
            prev
        }
    }
}

/// The chapters a table-of-contents page adds after `count` others.
pub open spec fn sh_toc_page(body: Seq<char>, count: nat) -> Seq<(Seq<char>, Seq<char>)> {
    match selection(body, true, "li.toc_w a"@) {
        Some(items) => sh_toc(items, count),
        None => Seq::empty(),
    }
}

/// The title of a novel page.
pub open spec fn sh_novel_title(body: Seq<char>) -> Seq<char> {
    match text_among(body, false, seq![".fic-title h1"@, "h1"@]) {
        Some(t) => t,
        None => "Unknown Title"@,
    }
}

/// Whether `n` is the novel at `url` that the page and the table of
/// contents (newest first) describe.
pub open spec fn sh_novel(n: Novel, url: Seq<char>, body: Seq<char>, toc: Seq<(Seq<char>, Seq<char>)>) -> bool {
    &&& n.url@ == url
    &&& n.title@ == sh_novel_title(body)
    &&& opt_chars(n.author) == text_among(body, false, seq![".auth a"@])
    &&& opt_chars(n.cover_url) == attr_among(body, false, seq![".fic-header img"@], "src"@)
    &&& opt_chars(n.synopsis) == text_among(body, false, seq![".wi_fic_desc"@])
    &&& n.language@ == "en"@
    &&& n.volumes@.len() == 0
    &&& numbered(n.chapters@, toc.reverse())
}

/// The search result for the HTML of one result item.
pub open spec fn sh_search_item(item: Seq<char>) -> Option<SearchResultView> {
    let t = first_match(item, true, ".search_title a"@);
    let title = match trimmed_text(t) {
        Some(x) => x,
        None => Seq::empty(),
    };
    let img = first_match(item, true, "img.lazy"@);
    if title.len() == 0 {
        None
    } else {
        Some(
            SearchResultView {
                title,
                url: match attr_of(t, "href"@) {
                    Some(h) => h,
                    None => Seq::empty(),
                },
                author: trimmed_text(first_match(item, true, ".search_author"@)),
                cover_url: match attr_of(img, "data-src"@) {
                    Some(c) => Some(c),
                    None => attr_of(img, "src"@),
                },
                synopsis: None,
                source_name: "ScribbleHub"@,
            },
        )
    }
}

/// The search results of a result page.
pub open spec fn sh_search_results(body: Seq<char>) -> Seq<SearchResultView> {
    match selection(body, false, ".search_main_box"@) {
        Some(items) => filter_some(items.map_values(|n: NodeView| sh_search_item(n.inner_html))),
        None => Seq::empty(),
    }
}

/// The title of one table-of-contents link.
fn toc_title(a: &Node, n: u128) -> (r: String)
    requires
        n < u128::MAX,
    ensures
        r@ == sh_title(a@, n as nat),
{
    match crate::html::node_attr(a, "title") {
        Some(t) => trimmed(&t),
        None => {
            let t = trimmed(&a.text);
            if t.as_str().unicode_len() > 0 {
                t
            } else {
                let mut s: Vec<char> = Vec::new();
                push_str(&mut s, "Chapter ");
                let d = decimal_chars(n + 1);
                push_all(&mut s, &d);
                string_from_chars(&s)
            }
        },
    }
}

/// The search result in the HTML of one result item.
fn search_item(item: &str) -> (r: Option<SearchResult>)
    ensures
        match r {
            Some(x) => sh_search_item(item@) == Some(x@),
            None => sh_search_item(item@) is None,
        },
{
    let frag = parse_fragment(item);
    let t = select_first(&frag, ".search_title a");
    let title = match opt_text(&t) {
        Some(x) => x,
        None => String::new(),
    };
    if title.as_str().unicode_len() == 0 {
        return None;
    }
    let url = match opt_attr(&t, "href") {
        Some(h) => h,
        None => String::new(),
    };
    let img = select_first(&frag, "img.lazy");
    let cover_url = match opt_attr(&img, "data-src") {
        Some(c) => Some(c),
        None => opt_attr(&img, "src"),
    };
    Some(
        SearchResult {
            title,
            url,
            author: opt_text(&select_first(&frag, ".search_author")),
            cover_url,
            synopsis: None,
            source_name: "ScribbleHub".to_owned(),
        },
    )
}

impl ScribbleHubCrawler {
    pub fn new() -> (r: ScribbleHubCrawler) {
        ScribbleHubCrawler
    }

    /// Extract the fiction numeric ID from a ScribbleHub URL:
    /// `/series/12345/my-novel/` → `12345`.
    pub fn extract_post_id(url: &str) -> (r: Option<u64>)
        ensures
            r == sh_post_id(url@),
    {
        let g = regex_first_group(POST_ID_PATTERN, url)?;
        parse_u64(g.as_str())
    }

    /// The form fields of the request for one table-of-contents page.
    pub fn toc_form(post_id: u64, page: u32) -> (r: Vec<(String, String)>)
        ensures
            pair_views(r@) == seq![
                ("action"@, "wi_getreleases_n"@),
                ("pagenum"@, decimal(page as nat)),
                ("mypostid"@, decimal(post_id as nat)),
            ],
    {
        let mut r: Vec<(String, String)> = Vec::new();
        r.push(("action".to_owned(), "wi_getreleases_n".to_owned()));
        r.push(("pagenum".to_owned(), string_from_chars(&decimal_chars(page as u128))));
        r.push(("mypostid".to_owned(), string_from_chars(&decimal_chars(post_id as u128))));
        assert(pair_views(r@) =~= seq![
            ("action"@, "wi_getreleases_n"@),
            ("pagenum"@, decimal(page as nat)),
            ("mypostid"@, decimal(post_id as nat)),
        ]);
        r
    }

    /// The chapters that one table-of-contents page adds, `count` chapters
    /// having been found on the pages before it: every link with a target,
    /// in page order.
    pub fn parse_toc_page(body: &str, count: usize) -> (r: Vec<(String, String)>)
        ensures
            pair_views(r@) == sh_toc_page(body@, count as nat),
    {
        let frag = parse_fragment(body);
        match select_all(&frag, "li.toc_w a") {
            None => {
                let pairs: Vec<(String, String)> = Vec::new();
                assert(pair_views(pairs@) =~= Seq::<(Seq<char>, Seq<char>)>::empty());
                pairs
            },
            Some(items) => Self::toc_from_items(&items, count),
        }
    }

    /// The chapters among the links of a table-of-contents page, `count`
    /// chapters having been found before: every link with a target, titled
    /// by its `title` attribute or text, else numbered.
    pub fn toc_from_items(items: &Vec<Node>, count: usize) -> (r: Vec<(String, String)>)
        ensures
            pair_views(r@) == sh_toc(node_views(items@), count as nat),
    {
        let mut pairs: Vec<(String, String)> = Vec::new();
        let ghost views = node_views(items@);
        let mut i: usize = 0;
        assert(views.take(0) =~= Seq::<NodeView>::empty());
        while i < items.len()
            invariant
                i <= items.len(),
                views == node_views(items@),
                pair_views(pairs@) == sh_toc(views.take(i as int), count as nat),
            decreases items.len() - i,
        {
            proof {
                assert(views.take(i + 1).drop_last() == views.take(i as int));
                assert(views.take(i + 1).last() == items@[i as int]@);
            }
            let url = match crate::html::node_attr(&items[i], "href") {
                Some(h) => h,
                None => String::new(),
            };
            if url.as_str().unicode_len() > 0 {
                let n = pairs.len();
                assert(pair_views(pairs@).len() == n);
                let title = toc_title(&items[i], count as u128 + n as u128);
                let ghost before = pairs@;
                pairs.push((title, url));
                assert(pair_views(pairs@) == pair_views(before).push(
                    (pairs@.last().0@, pairs@.last().1@),
                ));
            }
            i = i + 1;
        }
        assert(views.take(i as int) == views);
        pairs
    }

    /// The page to ask for after `page` when that page added `added`
    /// chapters: none once a page adds nothing or the last page was asked for.
    pub fn next_toc_page(page: u32, added: usize) -> (r: Option<u32>)
        ensures
            r == if added == 0 || page >= MAX_TOC_PAGE {
                None::<u32>
            } else {
                Some((page + 1) as u32)
            },
    {
        if added == 0 || page >= MAX_TOC_PAGE {
            None
        } else {
            Some(page + 1)
        }
    }

    /// The novel from its page and the table of contents gathered page by
    /// page (newest first): chapters oldest first, numbered from 1.
    pub fn novel_from_page(url: &str, body: &str, toc: &Vec<(String, String)>) -> (r: Novel)
        ensures
            sh_novel(r, url@, body@, pair_views(toc@)),
    {
        let doc = parse_document(body);
        let mut sels: Vec<&str> = Vec::new();
        sels.push(".fic-title h1");
        sels.push("h1");
        assert(sels@.map_values(|s: &str| s@) =~= seq![".fic-title h1"@, "h1"@]);
        let title = match first_text_among(&doc, &sels) {
            Some(t) => t,
            None => "Unknown Title".to_owned(),
        };
        let mut a: Vec<&str> = Vec::new();
        a.push(".auth a");
        assert(a@.map_values(|s: &str| s@) =~= seq![".auth a"@]);
        let author = first_text_among(&doc, &a);
        let mut c: Vec<&str> = Vec::new();
        c.push(".fic-header img");
        assert(c@.map_values(|s: &str| s@) =~= seq![".fic-header img"@]);
        let cover = first_attr_among(&doc, &c, "src");
        let mut d: Vec<&str> = Vec::new();
        d.push(".wi_fic_desc");
        assert(d@.map_values(|s: &str| s@) =~= seq![".wi_fic_desc"@]);
        let synopsis = first_text_among(&doc, &d);
        let mut novel = novel_with(url, title, author, cover, synopsis);
        let mut rev: Vec<(String, String)> = Vec::new();
        let mut k: usize = toc.len();
        while k > 0
            invariant
                k <= toc.len(),
                pair_views(rev@) == pair_views(toc@).subrange(k as int, toc@.len() as int).reverse(),
            decreases k,
        {
            k = k - 1;
            let ghost before = rev@;
            rev.push((toc[k].0.clone(), toc[k].1.clone()));
            assert(pair_views(rev@) == pair_views(before).push((toc@[k as int].0@, toc@[k as int].1@)));
            assert(pair_views(toc@).subrange(k as int, toc@.len() as int).reverse() =~= pair_views(
                toc@,
            ).subrange(k + 1, toc@.len() as int).reverse().push(pair_views(toc@)[k as int]));
        }
        assert(pair_views(toc@).subrange(0, toc@.len() as int) == pair_views(toc@));
        novel.chapters = number_chapters(&rev);
        novel
    }

    /// Sets the chapter body from its page: the cleaned inner HTML of the
    /// first `.chp_raw` element; left as it was when there is none.
    pub fn read_chapter_body(&self, chapter: &mut Chapter, body: &str)
        ensures
            opt_chars(final(chapter).body) == body_update(
                old(chapter).body,
                match first_match(body@, false, ".chp_raw"@) {
                    Some(n) => Some(n.inner_html),
                    None => None,
                },
                old(chapter).url@,
            ),
            final(chapter).id == old(chapter).id,
            final(chapter).title == old(chapter).title,
            final(chapter).url == old(chapter).url,
            final(chapter).volume_id == old(chapter).volume_id,
    {
        let doc = parse_document(body);
        match select_first(&doc, ".chp_raw") {
            Some(el) => {
                chapter.body = Some(clean_chapter_html(el.inner_html.as_str(), chapter.url.as_str()));
            },
            None => {},
        }
    }

    /// The URL of the search page for `query`, spaces written as `+`.
    pub fn search_url(&self, query: &str) -> (r: String)
        ensures
            r@ == SCRIBBLE_HUB@ + "/?s="@ + replace_all(query@, " "@, "+"@) + "&post_type=fictionposts"@,
    {
        proof {
            reveal_strlit(" ");
        }
        let mut out: Vec<char> = Vec::new();
        push_str(&mut out, SCRIBBLE_HUB);
        push_str(&mut out, "/?s=");
        let q = replace_str(query, " ", "+");
        push_str(&mut out, q.as_str());
        push_str(&mut out, "&post_type=fictionposts");
        string_from_chars(&out)
    }

    /// The search results on a result page.
    pub fn parse_search(&self, body: &str) -> (r: Vec<SearchResult>)
        ensures
            result_views(r@) == sh_search_results(body@),
    {
        let doc = parse_document(body);
        let mut r: Vec<SearchResult> = Vec::new();
        match select_all(&doc, ".search_main_box") {
            None => {
                assert(result_views(r@) =~= Seq::<SearchResultView>::empty());
                r
            },
            Some(items) => {
                let ghost views = node_views(items@);
                let ghost f = |n: NodeView| sh_search_item(n.inner_html);
                let mut i: usize = 0;
                while i < items.len()
                    invariant
                        i <= items.len(),
                        views == node_views(items@),
                        f == (|n: NodeView| sh_search_item(n.inner_html)),
                        result_views(r@) == filter_some(views.take(i as int).map_values(f)),
                    decreases items.len() - i,
                {
                    proof {
                        assert(views.take(i + 1).map_values(f).drop_last() == views.take(
                            i as int,
                        ).map_values(f));
                        assert(views.take(i + 1).map_values(f).last() == f(views[i as int]));
                    }
                    match search_item(items[i].inner_html.as_str()) {
                        Some(x) => {
                            let ghost before = r@;
                            r.push(x);
                            assert(result_views(r@) == result_views(before).push(x@));
                        },
                        None => {},
                    }
                    i = i + 1;
                }
                assert(views.take(i as int) == views);
                r
            },
        }
    }

    pub fn name(&self) -> (r: &'static str)
        ensures
            r@ == "ScribbleHub"@,
    {
        "ScribbleHub"
    }

    pub fn supports_search(&self) -> (r: bool)
        ensures
            r,
    {
        true
    }
}

} // verus!
