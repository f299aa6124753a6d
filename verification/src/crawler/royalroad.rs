//! Parsing of the pages of https://www.royalroad.com

use vstd::prelude::*;

use crate::crawler::{
    absolute, absolute_url, attr_among, body_update, clean_chapter_html, filter_some,
    first_attr_among, first_text_among, novel_with, number_chapters, numbered, pair_views,
    percent_encode, percent_encoded, text_among,
};
use crate::html::{
    attr_of, cell, first_match, node_views, opt_attr, opt_text, parse_document, parse_fragment,
    scoped_selection, scoped_views, select_all, select_first, select_within, selection, take_cell,
    trimmed, trimmed_text, Node, NodeView,
};
use crate::models::{Chapter, Novel, SearchResult, SearchResultView};
use crate::text::{opt_chars, push_str, string_from_chars, trim};

verus! {

pub const ROYAL_ROAD: &'static str = "https://www.royalroad.com";

pub struct RoyalRoadCrawler;

/// The title of a novel page.
pub open spec fn rr_title(body: Seq<char>) -> Seq<char> {
    match text_among(body, false, seq!["h1.font-white"@, ".fic-title h1"@, "h1"@]) {
        Some(t) => t,
        None => "Unknown Title"@,
    }
}

/// The author of a novel page.
pub open spec fn rr_author(body: Seq<char>) -> Option<Seq<char>> {
    text_among(body, false, seq!["span[property='name']"@, ".author-name-badge"@])
}

/// The cover image of a novel page.
pub open spec fn rr_cover(body: Seq<char>) -> Option<Seq<char>> {
    attr_among(body, false, seq![".thumbnail"@, ".fic-header img"@], "src"@)
}

/// The synopsis of a novel page.
pub open spec fn rr_synopsis(body: Seq<char>) -> Option<Seq<char>> {
    text_among(body, false, seq![".description .hidden-content"@, ".description"@])
}

/// The (title, URL) of the chapter link in a row of the chapter table.
pub open spec fn rr_row_link(row: (NodeView, Seq<Option<NodeView>>)) -> Option<(Seq<char>, Seq<char>)> {
    match cell(row.1, 0) {
        Some(a) => Some(
            (
                trim(a.text),
                absolute(
                    ROYAL_ROAD@,
                    match attr_of(Some(a), "href"@) {
                        Some(h) => h,
                        None => Seq::empty(),
                    },
                ),
            ),
        ),
        None => None,
    }
}

/// The chapter links of a novel page, in table order.
pub open spec fn rr_chapter_links(body: Seq<char>) -> Seq<(Seq<char>, Seq<char>)> {
    match scoped_selection(body, false, "tr.chapter-row"@, seq!["td a"@]) {
        Some(rows) => filter_some(
            rows.map_values(|r: (NodeView, Seq<Option<NodeView>>)| rr_row_link(r)),
        ),
        None => Seq::empty(),
    }
}

/// The search result for the HTML of one item of the result list, when it
/// has both a title and a URL.
pub open spec fn rr_search_item(item: Seq<char>) -> Option<SearchResultView> {
    let t = first_match(item, true, "h2.fiction-title a"@);
    let title = match trimmed_text(t) {
        Some(x) => x,
        None => Seq::empty(),
    };
    let url = match attr_of(t, "href"@) {
        Some(h) => absolute(ROYAL_ROAD@, h),
        None => Seq::empty(),
    };
    if title.len() == 0 || url.len() == 0 {
        None
    } else {
        Some(
            SearchResultView {
                title,
                url,
                author: trimmed_text(first_match(item, true, ".author"@)),
                cover_url: attr_of(first_match(item, true, "img"@), "src"@),
                synopsis: trimmed_text(first_match(item, true, ".fiction-description p"@)),
                source_name: "Royal Road"@,
            },
        )
    }
}

/// The search results of a result page, in page order.
pub open spec fn rr_search_results(body: Seq<char>) -> Seq<SearchResultView> {
    match selection(body, false, ".fiction-list-item"@) {
        Some(items) => filter_some(items.map_values(|n: NodeView| rr_search_item(n.html))),
        None => Seq::empty(),
    }
}

/// The views of some search results.
pub open spec fn result_views(v: Seq<SearchResult>) -> Seq<SearchResultView> {
    v.map_values(|r: SearchResult| r@)
}

impl RoyalRoadCrawler {
    pub fn new() -> (r: RoyalRoadCrawler) {
        RoyalRoadCrawler
    }

    /// The novel described by the HTML of its page at `url`, with its
    /// chapter list.
    pub fn parse_novel_info(&self, url: &str, body: &str) -> (r: Novel)
        ensures
            r.url@ == url@,
            r.title@ == rr_title(body@),
            opt_chars(r.author) == rr_author(body@),
            opt_chars(r.cover_url) == rr_cover(body@),
            opt_chars(r.synopsis) == rr_synopsis(body@),
            r.language@ == "en"@,
            r.volumes@.len() == 0,
            numbered(r.chapters@, rr_chapter_links(body@)),
    {
        let doc = parse_document(body);
        let mut sels: Vec<&str> = Vec::new();
        sels.push("h1.font-white");
        sels.push(".fic-title h1");
        sels.push("h1");
        assert(sels@.map_values(|s: &str| s@) =~= seq!["h1.font-white"@, ".fic-title h1"@, "h1"@]);
        let title = match first_text_among(&doc, &sels) {
            Some(t) => t,
            None => "Unknown Title".to_owned(),
        };
        let mut sels: Vec<&str> = Vec::new();
        sels.push("span[property='name']");
        sels.push(".author-name-badge");
        assert(sels@.map_values(|s: &str| s@) =~= seq![
            "span[property='name']"@,
            ".author-name-badge"@,
        ]);
        let author = first_text_among(&doc, &sels);
        let mut sels: Vec<&str> = Vec::new();
        sels.push(".thumbnail");
        sels.push(".fic-header img");
        assert(sels@.map_values(|s: &str| s@) =~= seq![".thumbnail"@, ".fic-header img"@]);
        let cover = first_attr_among(&doc, &sels, "src");
        let mut sels: Vec<&str> = Vec::new();
        sels.push(".description .hidden-content");
        sels.push(".description");
        assert(sels@.map_values(|s: &str| s@) =~= seq![
            ".description .hidden-content"@,
            ".description"@,
        ]);
        let synopsis = first_text_among(&doc, &sels);
        let mut novel = novel_with(url, title, author, cover, synopsis);
        let pairs = self.chapter_links(&doc, Ghost(body@));
        novel.chapters = number_chapters(&pairs);
        novel
    }

    fn chapter_links(&self, doc: &crate::html::Page, Ghost(body): Ghost<Seq<char>>) -> (r: Vec<
        (String, String),
    >)
        requires
            doc.source() == body,
            !doc.is_fragment(),
        ensures
            pair_views(r@) == rr_chapter_links(body),
    {
        let mut inner: Vec<&str> = Vec::new();
        inner.push("td a");
        assert(inner@.map_values(|s: &str| s@) =~= seq!["td a"@]);
        match select_within(doc, "tr.chapter-row", &inner) {
            None => {
                let r: Vec<(String, String)> = Vec::new();
                assert(pair_views(r@) =~= Seq::<(Seq<char>, Seq<char>)>::empty());
                r
            },
            Some(rows) => Self::links_from_rows(rows),
        }
    }

    /// The (title, URL) of the link in each row of the chapter table that has
    /// one, in row order: the trimmed link text and its target resolved
    /// against the site.
    pub fn links_from_rows(rows: Vec<(Node, Vec<Option<Node>>)>) -> (r: Vec<(String, String)>)
        ensures
            pair_views(r@) == filter_some(
                scoped_views(rows@).map_values(
                    |row: (NodeView, Seq<Option<NodeView>>)| rr_row_link(row),
                ),
            ),
    {
        let mut r: Vec<(String, String)> = Vec::new();
        let ghost views = scoped_views(rows@);
        let ghost f = |row: (NodeView, Seq<Option<NodeView>>)| rr_row_link(row);
        let mut rows = rows;
        let mut i: usize = 0;
        while i < rows.len()
            invariant
                i <= rows.len(),
                views.len() == rows.len(),
                f == (|row: (NodeView, Seq<Option<NodeView>>)| rr_row_link(row)),
                forall|k: int| i <= k < rows.len() ==> scoped_views(rows@)[k] == views[k],
                pair_views(r@) == filter_some(views.take(i as int).map_values(f)),
            decreases rows.len() - i,
        {
            proof {
                assert(views.take(i + 1).map_values(f).drop_last() == views.take(i as int).map_values(
                    f,
                ));
                assert(views.take(i + 1).map_values(f).last() == f(views[i as int]));
            }
            let ghost row_view = scoped_views(rows@)[i as int];
            let a = take_cell(&mut rows[i].1, 0);
            match a {
                Some(a) => {
                    let href = match crate::html::node_attr(&a, "href") {
                        Some(h) => h,
                        None => String::new(),
                    };
                    let t = trimmed(&a.text);
                    let u = absolute_url(ROYAL_ROAD, href.as_str());
                    let ghost before = r@;
                    r.push((t, u));
                    assert(pair_views(r@) == pair_views(before).push((t@, u@)));
                },
                None => {},
            }
            i = i + 1;
        }
        assert(views.take(i as int) == views);
        r
    }

    /// Sets the chapter body from the HTML of its page: the cleaned inner HTML
    /// of the first `.chapter-content` element; the body is left as it was
    /// when there is none.
    pub fn read_chapter_body(&self, chapter: &mut Chapter, body: &str)
        ensures
            opt_chars(final(chapter).body) == body_update(
                old(chapter).body,
                match first_match(body@, false, ".chapter-content"@) {
                    Some(n) => Some(n.inner_html),
                    None => None,
                },
                old(chapter).url@,
            ),
            final(chapter).id == old(chapter).id,
            final(chapter).title == old(chapter).title,
            final(chapter).url == old(chapter).url,
            final(chapter).volume_id == old(chapter).volume_id,
    {
        let doc = parse_document(body);
        match select_first(&doc, ".chapter-content") {
            Some(el) => {
                chapter.body = Some(clean_chapter_html(el.inner_html.as_str(), chapter.url.as_str()));
            },
            None => {},
        }
    }

    /// The URL of the search page for `query`.
    pub fn search_url(&self, query: &str) -> (r: String)
        ensures
            r@ == "https://www.royalroad.com/fictions/search?title="@ + percent_encoded(
                vstd::utf8::encode_utf8(query@),
            ),
    {
        let mut out: Vec<char> = Vec::new();
        push_str(&mut out, "https://www.royalroad.com/fictions/search?title=");
        let q = percent_encode(query);
        push_str(&mut out, q.as_str());
        string_from_chars(&out)
    }

    /// The search results on a result page.
    pub fn parse_search(&self, body: &str) -> (r: Vec<SearchResult>)
        ensures
            result_views(r@) == rr_search_results(body@),
    {
        let doc = parse_document(body);
        let mut r: Vec<SearchResult> = Vec::new();
        match select_all(&doc, ".fiction-list-item") {
            None => {
                assert(result_views(r@) =~= Seq::<SearchResultView>::empty());
                r
            },
            Some(items) => {
                let ghost views = node_views(items@);
                let ghost f = |n: NodeView| rr_search_item(n.html);
                let mut i: usize = 0;
                while i < items.len()
                    invariant
                        i <= items.len(),
                        views == node_views(items@),
                        f == (|n: NodeView| rr_search_item(n.html)),
                        result_views(r@) == filter_some(views.take(i as int).map_values(f)),
                    decreases items.len() - i,
                {
                    proof {
                        assert(views.take(i + 1).map_values(f).drop_last() == views.take(
                            i as int,
                        ).map_values(f));
                        assert(views.take(i + 1).map_values(f).last() == f(views[i as int]));
                    }
                    match search_item(items[i].html.as_str()) {
                        Some(x) => {
                            let ghost before = r@;
                            r.push(x);
                            assert(result_views(r@) == result_views(before).push(x@));
                        },
                        None => {},
                    }
                    i = i + 1;
                }
                assert(views.take(i as int) == views);
                r
            },
        }
    }

    pub fn name(&self) -> (r: &'static str)
        ensures
            r@ == "Royal Road"@,
    {
        "Royal Road"
    }

    pub fn base_urls(&self) -> (r: Vec<&'static str>)
        ensures
            crate::crawler::str_views(r@) == seq!["https://www.royalroad.com"@],
    {
        let mut v: Vec<&'static str> = Vec::new();
        v.push(ROYAL_ROAD);
        assert(crate::crawler::str_views(v@) =~= seq!["https://www.royalroad.com"@]);
        v
    }

    pub fn supports_search(&self) -> (r: bool)
        ensures
            r,
    {
        true
    }
}

/// The search result in the HTML of one result item.
fn search_item(item: &str) -> (r: Option<SearchResult>)
    ensures
        match r {
            Some(x) => rr_search_item(item@) == Some(x@),
            None => rr_search_item(item@) is None,
        },
{
    let frag = parse_fragment(item);
    let t = select_first(&frag, "h2.fiction-title a");
    let title = match opt_text(&t) {
        Some(x) => x,
        None => String::new(),
    };
    let url = match opt_attr(&t, "href") {
        Some(h) => absolute_url(ROYAL_ROAD, h.as_str()),
        None => String::new(),
    };
    if title.as_str().unicode_len() == 0 || url.as_str().unicode_len() == 0 {
        return None;
    }
    let author = opt_text(&select_first(&frag, ".author"));
    let cover_url = opt_attr(&select_first(&frag, "img"), "src");
    let synopsis = opt_text(&select_first(&frag, ".fiction-description p"));
    Some(
        SearchResult {
            title,
            url,
            author,
            cover_url,
            synopsis,
            source_name: "Royal Road".to_owned(),
        },
    )
}

} // verus!
