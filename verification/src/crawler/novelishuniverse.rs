//! Parsing of the pages of https://novelishuniverse.com
//!
//! A WordPress site with the "lightnovel" theme. Series pages list their
//! chapters newest first; chapters marked with a lock or a star are paid and
//! skipped.

use vstd::prelude::*;

use crate::crawler::royalroad::result_views;
use crate::crawler::{
    clean_chapter_html, cleaned_chapter, filter_some, first_text_among, novel_with,
    number_chapters, numbered, pair_views, text_among,
};
use crate::html::{
    attr_in, attr_of, cell, first_match, node_attr, opt_attr, opt_text, parse_document,
    row_view, scoped_selection, scoped_views, select_first, select_within, take_cell, trimmed,
    trimmed_text, Node, NodeView,
};
use crate::models::{Chapter, Novel, SearchResult, SearchResultView};
use crate::session::{contains_text, str_contains};
use crate::text::{
    chars_of, lowercase, opt_chars, push_str, replace_all, replace_str, starts_with,
    string_from_chars, to_lowercase, trim,
};

verus! {

pub const NOVELISH_UNIVERSE: &'static str = "https://novelishuniverse.com";

pub struct NovelishUniverseCrawler;

/// The title of a series page.
pub open spec fn nu_title(body: Seq<char>) -> Seq<char> {
    match text_among(body, false, seq!["h1.entry-title"@]) {
        Some(t) => t,
        None => "Unknown Title"@,
    }
}

/// Whether a row of the series table is the author's: its name cell's
/// trimmed, lower-cased text mentions "author".
pub open spec fn is_author_row(row: (NodeView, Seq<Option<NodeView>>)) -> bool {
    match cell(row.1, 0) {
        Some(n) => contains_text(lowercase(trim(n.text)), "author"@),
        None => false,
    }
}

/// The trimmed value cell of the first author row.
pub open spec fn nu_author_of(rows: Seq<(NodeView, Seq<Option<NodeView>>)>) -> Option<Seq<char>>
    decreases rows.len(),
{
    if rows.len() == 0 {
        None
    } else if is_author_row(rows[0]) {
        trimmed_text(cell(rows[0].1, 1))
    } else {
        nu_author_of(rows.drop_first())
    }
}

/// The author on a series page.
pub open spec fn nu_author(body: Seq<char>) -> Option<Seq<char>> {
    match scoped_selection(body, false, ".sertoauth .serl"@, seq![".sername"@, ".serval"@]) {
        Some(rows) => nu_author_of(rows),
        None => None,
    }
}

/// An image's lazy-loading source or else its source, unless it is inline
/// `data:`.
pub open spec fn image_source(img: Option<NodeView>) -> Option<Seq<char>> {
    let c = match attr_of(img, "data-src"@) {
        Some(x) => Some(x),
        None => attr_of(img, "src"@),
    };
    match c {
        Some(x) => if "data:"@.is_prefix_of(x) {
            None
        } else {
            Some(x)
        },
        None => None,
    }
}

/// Whether a chapter title carries a paid-chapter mark (🔒 🔐 🔏 ⭐).
pub open spec fn has_lock_mark(t: Seq<char>) -> bool {
    t.contains('\u{1F512}') || t.contains('\u{1F510}') || t.contains('\u{1F50F}') || t.contains(
        '\u{2B50}',
    )
}

/// The (title, URL) of one chapter link, when it has a target and no paid
/// mark.
pub open spec fn nu_link(row: (NodeView, Seq<Option<NodeView>>)) -> Option<(Seq<char>, Seq<char>)> {
    let href = match attr_in(row.0.attrs, "href"@) {
        Some(h) => h,
        None => Seq::empty(),
    };
    let title = match trimmed_text(cell(row.1, 0)) {
        Some(t) => t,
        None => Seq::empty(),
    };
    if href.len() == 0 || has_lock_mark(title) {
        None
    } else {
        Some((title, href))
    }
}

/// The free chapter links of a series page, newest first.
pub open spec fn nu_links(body: Seq<char>) -> Seq<(Seq<char>, Seq<char>)> {
    match scoped_selection(body, false, ".eplister ul li a"@, seq![".epl-num"@]) {
        Some(rows) => filter_some(
            rows.map_values(|r: (NodeView, Seq<Option<NodeView>>)| nu_link(r)),
        ),
        None => Seq::empty(),
    }
}

/// The body a chapter gets from its page: none behind a paywall, else the
/// cleaned inner HTML of the content element when there is one.
pub open spec fn nu_body(body: Seq<char>, url: Seq<char>) -> Option<Seq<char>> {
    if first_match(body, false, ".mycred-sell-this-wrapper"@) is Some {
        None
    } else {
        match first_match(body, false, ".epcontent.entry-content"@) {
            Some(n) => Some(cleaned_chapter(n.inner_html, url)),
            None => None,
        }
    }
}

/// The search result for one result item and its first link and image.
pub open spec fn nu_search_item(row: (NodeView, Seq<Option<NodeView>>)) -> Option<SearchResultView> {
    match cell(row.1, 0) {
        None => None,
        Some(a) => {
            let href = match attr_in(a.attrs, "href"@) {
                Some(h) => h,
                None => Seq::empty(),
            };
            let title = match attr_in(a.attrs, "title"@) {
                Some(t) => trim(t),
                None => trim(a.text),
            };
            if title.len() == 0 || href.len() == 0 {
                None
            } else {
                Some(
                    SearchResultView {
                        title,
                        url: href,
                        author: None,
                        cover_url: image_source(cell(row.1, 1)),
                        synopsis: None,
                        source_name: "NovelishUniverse"@,
                    },
                )
            }
        },
    }
}

/// The search results of a result page.
pub open spec fn nu_search_results(body: Seq<char>) -> Seq<SearchResultView> {
    match scoped_selection(body, false, ".bs .bsx"@, seq!["a"@, "img"@]) {
        Some(rows) => filter_some(
            rows.map_values(|r: (NodeView, Seq<Option<NodeView>>)| nu_search_item(r)),
        ),
        None => Seq::empty(),
    }
}

/// An image's source as `image_source` picks it.
fn pick_image(img: &Option<Node>) -> (r: Option<String>)
    ensures
        opt_chars(r) == image_source(crate::html::opt_node(*img)),
{
    let c = match opt_attr(img, "data-src") {
        Some(x) => Some(x),
        None => opt_attr(img, "src"),
    };
    match c {
        Some(x) => {
            if starts_with(x.as_str(), "data:") {
                None
            } else {
                Some(x)
            }
        },
        None => None,
    }
}

/// Whether a title carries a paid-chapter mark.
fn lock_marked(t: &String) -> (r: bool)
    ensures
        r == has_lock_mark(t@),
{
    let cs = chars_of(t.as_str());
    let mut i: usize = 0;
    while i < cs.len()
        invariant
            i <= cs.len(),
            cs@ == t@,
            forall|k: int|
                0 <= k < i ==> cs@[k] != '\u{1F512}' && cs@[k] != '\u{1F510}' && cs@[k]
                    != '\u{1F50F}' && cs@[k] != '\u{2B50}',
        decreases cs.len() - i,
    {
        let c = cs[i];
        if c == '\u{1F512}' || c == '\u{1F510}' || c == '\u{1F50F}' || c == '\u{2B50}' {
            assert(t@[i as int] == c);
            return true;
        }
        i = i + 1;
    }
    false
}

/// The chapter link of one row of the chapter list.
fn chapter_link(row: &mut (Node, Vec<Option<Node>>)) -> (r: Option<(String, String)>)
    ensures
        match r {
            Some(p) => nu_link((old(row).0@, row_view(old(row).1))) == Some((p.0@, p.1@)),
            None => nu_link((old(row).0@, row_view(old(row).1))) is None,
        },
{
    let href = match node_attr(&row.0, "href") {
        Some(h) => h,
        None => String::new(),
    };
    let num = take_cell(&mut row.1, 0);
    let title = match opt_text(&num) {
        Some(t) => t,
        None => String::new(),
    };
    if href.as_str().unicode_len() == 0 || lock_marked(&title) {
        None
    } else {
        Some((title, href))
    }
}

/// The search result of one result item.
fn search_row(row: &mut (Node, Vec<Option<Node>>)) -> (r: Option<SearchResult>)
    ensures
        match r {
            Some(x) => nu_search_item((old(row).0@, row_view(old(row).1))) == Some(x@),
            None => nu_search_item((old(row).0@, row_view(old(row).1))) is None,
        },
{
    let ghost cells = row_view(row.1);
    let a = take_cell(&mut row.1, 0);
    let a = match a {
        Some(a) => a,
        None => {
            return None;
        },
    };
    let href = match node_attr(&a, "href") {
        Some(h) => h,
        None => String::new(),
    };
    let title = match node_attr(&a, "title") {
        Some(t) => trimmed(&t),
        None => trimmed(&a.text),
    };
    if title.as_str().unicode_len() == 0 || href.as_str().unicode_len() == 0 {
        return None;
    }
    let img = take_cell(&mut row.1, 1);
    assert(cell(cells, 1) == crate::html::opt_node(img));
    Some(
        SearchResult {
            title,
            url: href,
            author: None,
            cover_url: pick_image(&img),
            synopsis: None,
            source_name: "NovelishUniverse".to_owned(),
        },
    )
}

impl NovelishUniverseCrawler {
    pub fn new() -> (r: NovelishUniverseCrawler) {
        NovelishUniverseCrawler
    }

    /// The author of a series page.
    pub fn parse_author(body: &str) -> (r: Option<String>)
        ensures
            opt_chars(r) == nu_author(body@),
    {
        let doc = parse_document(body);
        let mut inner: Vec<&str> = Vec::new();
        inner.push(".sername");
        inner.push(".serval");
        assert(inner@.map_values(|s: &str| s@) =~= seq![".sername"@, ".serval"@]);
        match select_within(&doc, ".sertoauth .serl", &inner) {
            Some(rows) => Self::author_from_rows(rows),
            None => None,
        }
    }

    /// The trimmed value of the first row of the series table whose name
    /// mentions "author" (in any case); each row with its name and value
    /// elements.
    pub fn author_from_rows(rows: Vec<(Node, Vec<Option<Node>>)>) -> (r: Option<String>)
        ensures
            opt_chars(r) == nu_author_of(scoped_views(rows@)),
    {
        let ghost views = scoped_views(rows@);
        let mut rs = rows;
        let mut i: usize = 0;
        assert(views.skip(0) == views);
        while i < rs.len()
            invariant
                i <= rs.len(),
                views.len() == rs.len(),
                forall|k: int| i <= k < rs.len() ==> scoped_views(rs@)[k] == views[k],
                nu_author_of(views.skip(i as int)) == nu_author_of(views),
                views == scoped_views(rows@),
            decreases rs.len() - i,
        {
            proof {
                assert(views.skip(i as int)[0] == views[i as int]);
                assert(views.skip(i as int).drop_first() == views.skip(i + 1));
            }
            let ghost cells = row_view(rs@[i as int].1);
            assert(views[i as int].1 == cells);
            let name = take_cell(&mut rs[i].1, 0);
            let is_author = match &name {
                Some(n) => {
                    let t = trimmed(&n.text);
                    let lower = to_lowercase(t.as_str());
                    str_contains(lower.as_str(), "author")
                },
                None => false,
            };
            if is_author {
                let v = take_cell(&mut rs[i].1, 1);
                assert(cell(cells, 1) == crate::html::opt_node(v));
                return opt_text(&v);
            }
            i = i + 1;
        }
        None
    }

    /// The free chapter links of a series page, newest first, as
    /// (title, URL).
    pub fn chapter_links(body: &str) -> (r: Vec<(String, String)>)
        ensures
            pair_views(r@) == nu_links(body@),
    {
        let doc = parse_document(body);
        let mut inner: Vec<&str> = Vec::new();
        inner.push(".epl-num");
        assert(inner@.map_values(|s: &str| s@) =~= seq![".epl-num"@]);
        match select_within(&doc, ".eplister ul li a", &inner) {
            None => {
                let links: Vec<(String, String)> = Vec::new();
                assert(pair_views(links@) =~= Seq::<(Seq<char>, Seq<char>)>::empty());
                links
            },
            Some(rows) => Self::links_from_rows(rows),
        }
    }

    /// The free chapter links among chapter-list links, each with its first
    /// `.epl-num` element, as (title, URL) in list order.
    pub fn links_from_rows(rows: Vec<(Node, Vec<Option<Node>>)>) -> (r: Vec<(String, String)>)
        ensures
            pair_views(r@) == filter_some(
                scoped_views(rows@).map_values(
                    |r: (NodeView, Seq<Option<NodeView>>)| nu_link(r),
                ),
            ),
    {
        let mut links: Vec<(String, String)> = Vec::new();
        let ghost views = scoped_views(rows@);
        let ghost f = |r: (NodeView, Seq<Option<NodeView>>)| nu_link(r);
        let mut rows = rows;
        let mut i: usize = 0;
        while i < rows.len()
            invariant
                i <= rows.len(),
                views.len() == rows.len(),
                f == (|r: (NodeView, Seq<Option<NodeView>>)| nu_link(r)),
                forall|k: int| i <= k < rows.len() ==> scoped_views(rows@)[k] == views[k],
                pair_views(links@) == filter_some(views.take(i as int).map_values(f)),
            decreases rows.len() - i,
        {
            proof {
                assert(views.take(i + 1).map_values(f).drop_last() == views.take(i as int).map_values(
                    f,
                ));
                assert(views.take(i + 1).map_values(f).last() == f(views[i as int]));
            }
            let ghost before_row = rows@[i as int];
            assert(views[i as int] == (before_row.0@, row_view(before_row.1)));
            match chapter_link(&mut rows[i]) {
                Some(p) => {
                    let ghost before = links@;
                    links.push(p);
                    assert(pair_views(links@) == pair_views(before).push(
                        (links@.last().0@, links@.last().1@),
                    ));
                },
                None => {},
            }
            i = i + 1;
        }
        assert(views.take(i as int) == views);
        links
    }

    /// The novel of a series page: its metadata and its free chapters,
    /// oldest first and numbered from 1.
    pub fn parse_novel_page(url: &str, body: &str) -> (r: Novel)
        ensures
            r.url@ == url@,
            r.title@ == nu_title(body@),
            opt_chars(r.author) == nu_author(body@),
            opt_chars(r.cover_url) == image_source(first_match(body@, false, ".sertothumb img"@)),
            opt_chars(r.synopsis) == text_among(body@, false, seq![".sersys.entry-content"@]),
            r.language@ == "en"@,
            r.volumes@.len() == 0,
            numbered(r.chapters@, nu_links(body@).reverse()),
    {
        let doc = parse_document(body);
        let mut t: Vec<&str> = Vec::new();
        t.push("h1.entry-title");
        assert(t@.map_values(|s: &str| s@) =~= seq!["h1.entry-title"@]);
        let title = match first_text_among(&doc, &t) {
            Some(x) => x,
            None => "Unknown Title".to_owned(),
        };
        let author = Self::parse_author(body);
        let cover = pick_image(&select_first(&doc, ".sertothumb img"));
        let mut d: Vec<&str> = Vec::new();
        d.push(".sersys.entry-content");
        assert(d@.map_values(|s: &str| s@) =~= seq![".sersys.entry-content"@]);
        let synopsis = first_text_among(&doc, &d);
        let mut novel = novel_with(url, title, author, cover, synopsis);
        let links = Self::chapter_links(body);
        let mut rev: Vec<(String, String)> = Vec::new();
        let mut k: usize = links.len();
        while k > 0
            invariant
                k <= links.len(),
                pair_views(rev@) == pair_views(links@).subrange(k as int, links@.len() as int).reverse(),
            decreases k,
        {
            k = k - 1;
            let ghost before = rev@;
            rev.push((links[k].0.clone(), links[k].1.clone()));
            assert(pair_views(rev@) == pair_views(before).push((links@[k as int].0@, links@[k as int].1@)));
            assert(pair_views(links@).subrange(k as int, links@.len() as int).reverse() =~= pair_views(
                links@,
            ).subrange(k + 1, links@.len() as int).reverse().push(pair_views(links@)[k as int]));
        }
        assert(pair_views(links@).subrange(0, links@.len() as int) == pair_views(links@));
        novel.chapters = number_chapters(&rev);
        novel
    }

    /// Sets the chapter body from its page: nothing behind a paywall, else
    /// the cleaned inner HTML of the content element, or nothing when there
    /// is none.
    pub fn read_chapter_body(&self, chapter: &mut Chapter, body: &str)
        ensures
            opt_chars(final(chapter).body) == nu_body(body@, old(chapter).url@),
            final(chapter).id == old(chapter).id,
            final(chapter).title == old(chapter).title,
            final(chapter).url == old(chapter).url,
            final(chapter).volume_id == old(chapter).volume_id,
    {
        let doc = parse_document(body);
        let inner = select_first(&doc, ".epcontent.entry-content");
        let paywall = select_first(&doc, ".mycred-sell-this-wrapper");
        chapter.body = match paywall {
            Some(_) => None,
            None => match inner {
                Some(el) => Some(clean_chapter_html(el.inner_html.as_str(), chapter.url.as_str())),
                None => None,
            },
        };
    }

    /// The URL of the search page for `query`, spaces written as `+`.
    pub fn search_url(&self, query: &str) -> (r: String)
        ensures
            r@ == NOVELISH_UNIVERSE@ + "/?s="@ + replace_all(query@, " "@, "+"@),
    {
        proof {
            reveal_strlit(" ");
        }
        let mut out: Vec<char> = Vec::new();
        push_str(&mut out, NOVELISH_UNIVERSE);
        push_str(&mut out, "/?s=");
        let q = replace_str(query, " ", "+");
        push_str(&mut out, q.as_str());
        string_from_chars(&out)
    }

    /// The search results on a result page.
    pub fn parse_search(&self, body: &str) -> (r: Vec<SearchResult>)
        ensures
            result_views(r@) == nu_search_results(body@),
    {
        let doc = parse_document(body);
        let mut inner: Vec<&str> = Vec::new();
        inner.push("a");
        inner.push("img");
        assert(inner@.map_values(|s: &str| s@) =~= seq!["a"@, "img"@]);
        match select_within(&doc, ".bs .bsx", &inner) {
            None => {
                let r: Vec<SearchResult> = Vec::new();
                assert(result_views(r@) =~= Seq::<SearchResultView>::empty());
                r
            },
            Some(rows) => Self::results_from_rows(rows),
        }
    }

    /// The search results of result items, each with its first link and
    /// image, in order.
    pub fn results_from_rows(rows: Vec<(Node, Vec<Option<Node>>)>) -> (r: Vec<SearchResult>)
        ensures
            result_views(r@) == filter_some(
                scoped_views(rows@).map_values(
                    |row: (NodeView, Seq<Option<NodeView>>)| nu_search_item(row),
                ),
            ),
    {
        let mut r: Vec<SearchResult> = Vec::new();
        let ghost views = scoped_views(rows@);
        let ghost f = |row: (NodeView, Seq<Option<NodeView>>)| nu_search_item(row);
        let mut rows = rows;
        let mut i: usize = 0;
        while i < rows.len()
            invariant
                i <= rows.len(),
                views.len() == rows.len(),
                f == (|row: (NodeView, Seq<Option<NodeView>>)| nu_search_item(row)),
                forall|k: int| i <= k < rows.len() ==> scoped_views(rows@)[k] == views[k],
                result_views(r@) == filter_some(views.take(i as int).map_values(f)),
            decreases rows.len() - i,
        {
            proof {
                assert(views.take(i + 1).map_values(f).drop_last() == views.take(i as int).map_values(
                    f,
                ));
                assert(views.take(i + 1).map_values(f).last() == f(views[i as int]));
            }
            let ghost before_row = rows@[i as int];
            assert(views[i as int] == (before_row.0@, row_view(before_row.1)));
            match search_row(&mut rows[i]) {
                Some(x) => {
                    let ghost before = r@;
                    r.push(x);
                    assert(result_views(r@) == result_views(before).push(x@));
                },
                None => {},
            }
            i = i + 1;
        }
        assert(views.take(i as int) == views);
        r
    }

    pub fn name(&self) -> (r: &'static str)
        ensures
            r@ == "NovelishUniverse"@,
    {
        "NovelishUniverse"
    }

    pub fn supports_search(&self) -> (r: bool)
        ensures
            r,
    {
        true
    }
}

} // verus!
