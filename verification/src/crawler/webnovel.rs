//! Parsing of the answers of https://www.webnovel.com (public chapters only)
//!
//! Webnovel answers its book-info, chapter-list and chapter-content requests
//! with JSON; chapters that need a login are skipped.

use vstd::prelude::*;

use crate::crawler::royalroad::result_views;
use crate::crawler::{
    absolute, absolute_url, body_update, clean_chapter_html, filter_some, first_text_among,
    text_among,
};
use crate::html::{
    attr_of, first_match, node_views, opt_attr, parse_document, parse_fragment, select_all,
    select_first, trimmed_text, NodeView,
};
use crate::json::{
    jarray, jget, jpath, json_or_null, json_views, jstr, ju64, key_views, parsed_or_null, str_at,
    Json, JsonView,
};
use crate::models::{Chapter, Novel, SearchResult, SearchResultView, Volume};
use crate::patterns::{regex_first_group, regex_group1, regex_valid};
use crate::text::{
    char_vecs, chars_of, decimal, decimal_chars, opt_chars, push_all, push_str, replace_all,
    replace_str, split_chars, split_on, string_from_chars,
};

verus! {

pub const WEBNOVEL: &'static str = "https://www.webnovel.com";

/// A book id: the digits after a `/` or `_` that end a path segment (they
/// are followed by `/`, `?`, `#` or the end of the URL).
pub const BOOK_ID_PATTERN: &'static str = "[/_](\\d+)(?:[/?#]|$)";

pub const COVER_PREFIX: &'static str = "https://book-pic.webnovel.com/bookcover/";

pub struct WebnovelCrawler;

/// The book id in a URL, when the pattern finds one.
pub open spec fn wn_book_id(url: Seq<char>) -> Option<Seq<char>> {
    if regex_valid(BOOK_ID_PATTERN@) {
        regex_group1(BOOK_ID_PATTERN@, url)
    } else {
        None
    }
}

/// `data.bookInfo` of a book-info answer.
pub open spec fn book_info(info: JsonView) -> JsonView {
    jpath(info, seq!["data"@, "bookInfo"@])
}

/// The book name, `"Unknown Title"` when there is none.
pub open spec fn wn_title(d: JsonView) -> Seq<char> {
    match jstr(jget(d, "bookName"@)) {
        Some(t) => t,
        None => "Unknown Title"@,
    }
}

/// The cover URL, given when the book info has a numeric cover time.
pub open spec fn wn_cover(d: JsonView, id: Seq<char>) -> Option<Seq<char>> {
    if ju64(jget(d, "coverUpdateTime"@)) is Some {
        Some(COVER_PREFIX@ + id + "/300/300"@)
    } else {
        None
    }
}

/// The volumes of a chapter-list answer.
pub open spec fn volume_items(list: JsonView) -> Seq<JsonView> {
    match jarray(jpath(list, seq!["data"@, "volumeItems"@])) {
        Some(a) => a,
        None => Seq::empty(),
    }
}

/// The title of the volume at index `vi`, `Volume {vi + 1}` when unnamed.
pub open spec fn wn_volume_title(vi: int, vol: JsonView) -> Seq<char> {
    match jstr(jget(vol, "volumeName"@)) {
        Some(t) => t,
        None => "Volume "@ + decimal((vi + 1) as nat),
    }
}

/// The chapters of a volume.
pub open spec fn chapter_items(vol: JsonView) -> Seq<JsonView> {
    match jarray(jget(vol, "chapterItems"@)) {
        Some(a) => a,
        None => Seq::empty(),
    }
}

/// Whether a chapter is public: its `isAuth` is a number other than 0.
pub open spec fn is_unlocked(ch: JsonView) -> bool {
    match ju64(jget(ch, "isAuth"@)) {
        Some(n) => n != 0,
        None => false,
    }
}

/// The public chapters of the volume at index `vi`, each with that index.
pub open spec fn kept_in(vi: int, items: Seq<JsonView>) -> Seq<(int, JsonView)> {
    filter_some(
        items.map_values(
            |c: JsonView|
                if is_unlocked(c) {
                    Some((vi, c))
                } else {
                    None
                },
        ),
    )
}

/// The public chapters of the volumes, in order, each with its volume's index.
pub open spec fn kept_chapters(vols: Seq<JsonView>) -> Seq<(int, JsonView)>
    decreases vols.len(),
{
    if vols.len() == 0 {
        Seq::empty()
    } else {
        kept_chapters(vols.drop_last()) + kept_in(vols.len() - 1, chapter_items(vols.last()))
    }
}

/// The URL under which a chapter is stored.
pub open spec fn wn_chapter_url(id: Seq<char>, ch: JsonView) -> Seq<char> {
    WEBNOVEL@ + "/book/"@ + id + "/"@ + match jstr(jget(ch, "chapterId"@)) {
        Some(c) => c,
        None => Seq::empty(),
    } + "/chapter"@
}

/// The title of the `k`-th public chapter, `Chapter {k + 1}` when unnamed.
pub open spec fn wn_chapter_title(k: int, ch: JsonView) -> Seq<char> {
    match jstr(jget(ch, "chapterName"@)) {
        Some(t) => t,
        None => "Chapter "@ + decimal((k + 1) as nat),
    }
}

/// Whether `c` is the `k`-th public chapter `e`.
pub open spec fn wn_chapter_ok(c: Chapter, k: int, id: Seq<char>, e: (int, JsonView)) -> bool {
    &&& c.id == k + 1
    &&& c.title@ == wn_chapter_title(k, e.1)
    &&& c.url@ == wn_chapter_url(id, e.1)
    &&& c.volume_id == Some((e.0 + 1) as usize)
    &&& c.body is None
}

/// Whether `chs` are the public chapters `kept`.
pub open spec fn wn_chapters(chs: Seq<Chapter>, id: Seq<char>, kept: Seq<(int, JsonView)>) -> bool {
    &&& chs.len() == kept.len()
    &&& forall|k: int| 0 <= k < chs.len() ==> wn_chapter_ok(#[trigger] chs[k], k, id, kept[k])
}

/// Whether `vs` are the volumes `vols`, numbered from 1.
pub open spec fn wn_volumes(vs: Seq<Volume>, vols: Seq<JsonView>) -> bool {
    &&& vs.len() == vols.len()
    &&& forall|i: int|
        0 <= i < vs.len() ==> (#[trigger] vs[i]).id == i + 1 && vs[i].title@ == wn_volume_title(
            i,
            vols[i],
        )
}

/// Whether `n` is the novel at `url` that the book-info and chapter-list
/// answers describe.
pub open spec fn wn_novel(n: Novel, url: Seq<char>, id: Seq<char>, info: JsonView, list: JsonView) -> bool {
    let d = book_info(info);
    &&& n.url@ == url
    &&& n.title@ == wn_title(d)
    &&& opt_chars(n.author) == jstr(jget(d, "authorName"@))
    &&& opt_chars(n.cover_url) == wn_cover(d, id)
    &&& opt_chars(n.synopsis) == jstr(jget(d, "description"@))
    &&& n.language@ == "en"@
    &&& wn_volumes(n.volumes@, volume_items(list))
    &&& wn_chapters(n.chapters@, id, kept_chapters(volume_items(list)))
}

/// The book and chapter ids of a stored chapter URL
/// `…/book/{book_id}/{chapter_id}/chapter`: its third- and second-last
/// `/`-separated pieces (the first piece when there are fewer).
pub open spec fn wn_chapter_ids(url: Seq<char>) -> (Seq<char>, Seq<char>) {
    let p = split_on(url, '/');
    (
        p[if p.len() >= 3 {
            p.len() - 3
        } else {
            0
        }],
        p[if p.len() >= 2 {
            p.len() - 2
        } else {
            0
        }],
    )
}

/// The content of a chapter-content answer.
pub open spec fn wn_content(answer: Seq<char>) -> Option<Seq<char>> {
    jstr(jpath(parsed_or_null(answer), seq!["data"@, "chapterInfo"@, "content"@]))
}

/// The search result for the HTML of one item of the result list.
pub open spec fn wn_search_item(item: Seq<char>) -> Option<SearchResultView> {
    let href = match attr_of(first_match(item, true, ".j_bookCard"@), "href"@) {
        Some(h) => h,
        None => Seq::empty(),
    };
    let title = match text_among(item, true, seq![".g_thumb + div h4"@, "h4"@]) {
        Some(t) => t,
        None => Seq::empty(),
    };
    let img = first_match(item, true, "img"@);
    if title.len() == 0 {
        None
    } else {
        Some(
            SearchResultView {
                title,
                url: absolute(WEBNOVEL@, href),
                author: trimmed_text(first_match(item, true, ".author"@)),
                cover_url: match attr_of(img, "data-original"@) {
                    Some(c) => Some(c),
                    None => attr_of(img, "src"@),
                },
                synopsis: None,
                source_name: "Webnovel"@,
            },
        )
    }
}

/// The search results of a result page.
pub open spec fn wn_search_results(body: Seq<char>) -> Seq<SearchResultView> {
    match crate::html::selection(body, false, ".j_bookList li"@) {
        Some(items) => filter_some(items.map_values(|n: NodeView| wn_search_item(n.inner_html))),
        None => Seq::empty(),
    }
}

/// The public chapters with their volume numbers, as (volume index, chapter).
pub open spec fn kept_views(v: Seq<(usize, &Json)>) -> Seq<(int, JsonView)> {
    v.map_values(|e: (usize, &Json)| (e.0 - 1, e.1@))
}

/// `value[key]` as an array, empty when it is none.
fn array_or_empty<'a>(v: Option<&'a Json>, empty: &'a Vec<Json>) -> (r: &'a Vec<Json>)
    requires
        empty@.len() == 0,
    ensures
        json_views(r@) == match v {
            Some(x) => match jarray(x@) {
                Some(a) => a,
                None => Seq::empty(),
            },
            None => Seq::<JsonView>::empty(),
        },
{
    match v {
        Some(x) => match x.as_array() {
            Some(a) => a,
            None => {
                assert(json_views(empty@) =~= Seq::<JsonView>::empty());
                empty
            },
        },
        None => {
            assert(json_views(empty@) =~= Seq::<JsonView>::empty());
            empty
        },
    }
}

/// Appends the public chapters of the volume at index `vi`.
fn push_public<'a>(vi: usize, items: &'a Vec<Json>, kept: &mut Vec<(usize, &'a Json)>, bound: usize)
    requires
        vi < bound,
        forall|k: int| 0 <= k < old(kept)@.len() ==> 1 <= (#[trigger] old(kept)@[k]).0 <= bound,
    ensures
        kept_views(final(kept)@) == kept_views(old(kept)@) + kept_in(vi as int, json_views(items@)),
        forall|k: int| 0 <= k < final(kept)@.len() ==> 1 <= (#[trigger] final(kept)@[k]).0 <= bound,
{
    let ghost iv = json_views(items@);
    let ghost f = |c: JsonView|
        if is_unlocked(c) {
            Some((vi as int, c))
        } else {
            None
        };
    let ghost base = kept_views(kept@);
    let mut j: usize = 0;
    assert(iv.take(0).map_values(f) =~= Seq::<Option<(int, JsonView)>>::empty());
    assert(base + kept_in(vi as int, iv.take(0)) =~= base);
    while j < items.len()
        invariant
            vi < bound,
            j <= items.len(),
            iv == json_views(items@),
            f == (|c: JsonView|
                if is_unlocked(c) {
                    Some((vi as int, c))
                } else {
                    None
                }),
            kept_views(kept@) == base + kept_in(vi as int, iv.take(j as int)),
            forall|k: int| 0 <= k < kept@.len() ==> 1 <= (#[trigger] kept@[k]).0 <= bound,
        decreases items.len() - j,
    {
        let ch = &items[j];
        proof {
            assert(iv.take(j + 1).map_values(f).drop_last() == iv.take(j as int).map_values(f));
            assert(iv.take(j + 1).map_values(f).last() == f(iv[j as int]));
            assert(iv[j as int] == ch@);
        }
        let auth = match ch.get("isAuth") {
            Some(a) => a.as_u64(),
            None => None,
        };
        let unlocked = match auth {
            Some(n) => n != 0,
            None => false,
        };
        if unlocked {
            let ghost before = kept@;
            kept.push((vi + 1, ch));
            assert(kept_views(kept@) == kept_views(before).push((vi as int, ch@)));
        }
        j = j + 1;
    }
    assert(iv.take(j as int) == iv);
}

/// The public chapters of the volumes, with volume numbers from 1.
fn public_chapters<'a>(vols: &'a Vec<Json>) -> (r: Vec<(usize, &'a Json)>)
    ensures
        kept_views(r@) == kept_chapters(json_views(vols@)),
        forall|k: int| 0 <= k < r@.len() ==> 1 <= (#[trigger] r@[k]).0 <= vols@.len(),
{
    let ghost all = json_views(vols@);
    let mut kept: Vec<(usize, &Json)> = Vec::new();
    let mut vi: usize = 0;
    while vi < vols.len()
        invariant
            vi <= vols.len(),
            all == json_views(vols@),
            kept_views(kept@) == kept_chapters(all.take(vi as int)),
            forall|k: int| 0 <= k < kept@.len() ==> 1 <= (#[trigger] kept@[k]).0 <= vols@.len(),
        decreases vols.len() - vi,
    {
        let items: Option<&Vec<Json>> = match vols[vi].get("chapterItems") {
            Some(x) => x.as_array(),
            None => None,
        };
        proof {
            assert(all.take(vi + 1).drop_last() == all.take(vi as int));
            assert(all.take(vi + 1).last() == all[vi as int]);
        }
        match items {
            Some(items) => {
                assert(json_views(items@) == chapter_items(all[vi as int]));
                push_public(vi, items, &mut kept, vols.len());
            },
            None => {
                assert(chapter_items(all[vi as int]) =~= Seq::<JsonView>::empty());
                assert(kept_in(vi as int, Seq::<JsonView>::empty()) =~= Seq::<(int, JsonView)>::empty());
                assert(kept_chapters(all.take(vi + 1)) =~= kept_chapters(all.take(vi as int)));
            },
        }
        vi = vi + 1;
    }
    assert(all.take(vi as int) == all);
    kept
}

/// `"{prefix}{n}"`.
fn numbered_name(prefix: &str, n: usize) -> (r: String)
    ensures
        r@ == prefix@ + decimal(n as nat),
{
    let mut t: Vec<char> = Vec::new();
    push_str(&mut t, prefix);
    let d = decimal_chars(n as u128);
    push_all(&mut t, &d);
    string_from_chars(&t)
}

/// The search result in the HTML of one result item.
fn search_item(item: &str) -> (r: Option<SearchResult>)
    ensures
        match r {
            Some(x) => wn_search_item(item@) == Some(x@),
            None => wn_search_item(item@) is None,
        },
{
    let frag = parse_fragment(item);
    let href = match opt_attr(&select_first(&frag, ".j_bookCard"), "href") {
        Some(h) => h,
        None => String::new(),
    };
    let mut sels: Vec<&str> = Vec::new();
    sels.push(".g_thumb + div h4");
    sels.push("h4");
    assert(sels@.map_values(|s: &str| s@) =~= seq![".g_thumb + div h4"@, "h4"@]);
    let title = match first_text_among(&frag, &sels) {
        Some(t) => t,
        None => String::new(),
    };
    if title.as_str().unicode_len() == 0 {
        return None;
    }
    let img = select_first(&frag, "img");
    let cover_url = match opt_attr(&img, "data-original") {
        Some(c) => Some(c),
        None => opt_attr(&img, "src"),
    };
    Some(
        SearchResult {
            title,
            url: absolute_url(WEBNOVEL, href.as_str()),
            author: crate::html::opt_text(&select_first(&frag, ".author")),
            cover_url,
            synopsis: None,
            source_name: "Webnovel".to_owned(),
        },
    )
}

impl WebnovelCrawler {
    pub fn new() -> (r: WebnovelCrawler) {
        WebnovelCrawler
    }

    /// Extract the book ID from a WebNovel URL:
    /// `/book/my-novel_123456789` → `123456789`.
    pub fn book_id(url: &str) -> (r: Option<String>)
        ensures
            opt_chars(r) == wn_book_id(url@),
    {
        regex_first_group(BOOK_ID_PATTERN, url)
    }

    /// The URL of the book-info request.
    pub fn info_api_url(book_id: &str) -> (r: String)
        ensures
            r@ == WEBNOVEL@ + "/apiajax/BookInfo/GetInfo?bookId="@ + book_id@,
    {
        let mut u: Vec<char> = Vec::new();
        push_str(&mut u, WEBNOVEL);
        push_str(&mut u, "/apiajax/BookInfo/GetInfo?bookId=");
        push_str(&mut u, book_id);
        string_from_chars(&u)
    }

    /// The URL of the chapter-list request.
    pub fn list_api_url(book_id: &str) -> (r: String)
        ensures
            r@ == WEBNOVEL@ + "/apiajax/chapter/GetChapterList?bookId="@ + book_id@,
    {
        let mut u: Vec<char> = Vec::new();
        push_str(&mut u, WEBNOVEL);
        push_str(&mut u, "/apiajax/chapter/GetChapterList?bookId=");
        push_str(&mut u, book_id);
        string_from_chars(&u)
    }

    /// The novel from its book-info and chapter-list answers: every volume,
    /// and the public chapters (those whose `isAuth` is not 0), numbered
    /// from 1 across volumes.
    pub fn novel_from_json(url: &str, book_id: &str, info: &Json, list: &Json) -> (r: Novel)
        ensures
            wn_novel(r, url@, book_id@, info@, list@),
    {
        let mut path: Vec<&str> = Vec::new();
        path.push("data");
        path.push("bookInfo");
        assert(key_views(path@) =~= seq!["data"@, "bookInfo"@]);
        let null = Json::Null;
        let d: &Json = match info.at(&path) {
            Some(x) => x,
            None => &null,
        };
        assert(d@ == book_info(info@));
        let title = match d.get("bookName") {
            Some(t) => t.as_str(),
            None => None,
        };
        let title = match title {
            Some(t) => t,
            None => "Unknown Title".to_owned(),
        };
        let author = match d.get("authorName") {
            Some(t) => t.as_str(),
            None => None,
        };
        let time = match d.get("coverUpdateTime") {
            Some(t) => t.as_u64(),
            None => None,
        };
        let cover = match time {
            Some(_) => {
                let mut u: Vec<char> = Vec::new();
                push_str(&mut u, COVER_PREFIX);
                push_str(&mut u, book_id);
                push_str(&mut u, "/300/300");
                Some(string_from_chars(&u))
            },
            None => None,
        };
        let synopsis = match d.get("description") {
            Some(t) => t.as_str(),
            None => None,
        };
        let mut novel = crate::crawler::novel_with(url, title, author, cover, synopsis);
        let mut vpath: Vec<&str> = Vec::new();
        vpath.push("data");
        vpath.push("volumeItems");
        assert(key_views(vpath@) =~= seq!["data"@, "volumeItems"@]);
        let empty: Vec<Json> = Vec::new();
        let vols = array_or_empty(list.at(&vpath), &empty);
        let ghost all = json_views(vols@);
        assert(all == volume_items(list@));
        let mut volumes: Vec<Volume> = Vec::new();
        let mut vi: usize = 0;
        while vi < vols.len()
            invariant
                vi <= vols.len(),
                all == json_views(vols@),
                wn_volumes(volumes@, all.take(vi as int)),
            decreases vols.len() - vi,
        {
            let name = match vols[vi].get("volumeName") {
                Some(t) => t.as_str(),
                None => None,
            };
            let name = match name {
                Some(t) => t,
                None => numbered_name("Volume ", vi + 1),
            };
            volumes.push(Volume::new(vi + 1, name.as_str()));
            vi = vi + 1;
        }
        assert(all.take(vi as int) == all);
        novel.volumes = volumes;
        let kept = public_chapters(vols);
        let ghost kv = kept_views(kept@);
        let mut chapters: Vec<Chapter> = Vec::new();
        let mut k: usize = 0;
        while k < kept.len()
            invariant
                k <= kept.len(),
                kv == kept_views(kept@),
                forall|i: int| 0 <= i < kept@.len() ==> 1 <= (#[trigger] kept@[i]).0 <= vols@.len(),
                wn_chapters(chapters@, book_id@, kv.take(k as int)),
            decreases kept.len() - k,
        {
            let (vnum, ch) = kept[k];
            assert(kv[k as int] == (vnum - 1, ch@));
            let name = match ch.get("chapterName") {
                Some(t) => t.as_str(),
                None => None,
            };
            let name = match name {
                Some(t) => t,
                None => numbered_name("Chapter ", k + 1),
            };
            let cid = match ch.get("chapterId") {
                Some(t) => t.as_str(),
                None => None,
            };
            let mut u: Vec<char> = Vec::new();
            push_str(&mut u, WEBNOVEL);
            push_str(&mut u, "/book/");
            push_str(&mut u, book_id);
            push_str(&mut u, "/");
            match cid {
                Some(c) => push_str(&mut u, c.as_str()),
                None => {},
            }
            push_str(&mut u, "/chapter");
            assert(u@ =~= wn_chapter_url(book_id@, ch@));
            let mut c = Chapter::new(k + 1, name.as_str(), string_from_chars(&u).as_str());
            c.volume_id = Some(vnum);
            let ghost before = chapters@;
            chapters.push(c);
            proof {
                assert(wn_chapter_ok(chapters@[k as int], k as int, book_id@, kv[k as int]));
                assert forall|i: int| 0 <= i < chapters@.len() implies wn_chapter_ok(
                    #[trigger] chapters@[i],
                    i,
                    book_id@,
                    kv.take(k + 1)[i],
                ) by {
                    if i < k {
                        assert(chapters@[i] == before[i]);
                        assert(kv.take(k + 1)[i] == kv.take(k as int)[i]);
                    }
                }
            }
            k = k + 1;
        }
        assert(kv.take(k as int) == kv);
        novel.chapters = chapters;
        novel
    }

    /// The novel from the texts of its book-info and chapter-list answers;
    /// an answer that is no JSON counts as `null`.
    pub fn novel_from_api(url: &str, book_id: &str, info_text: &str, list_text: &str) -> (r: Novel)
        ensures
            wn_novel(r, url@, book_id@, parsed_or_null(info_text@), parsed_or_null(list_text@)),
    {
        let info = json_or_null(info_text);
        let list = json_or_null(list_text);
        Self::novel_from_json(url, book_id, &info, &list)
    }

    /// The book and chapter ids of a stored chapter URL.
    pub fn chapter_ids(url: &str) -> (r: (String, String))
        ensures
            (r.0@, r.1@) == wn_chapter_ids(url@),
    {
        let parts = split_chars(&chars_of(url), '/');
        proof {
            crate::text::lemma_split_on_nonempty(url@, '/');
            assert(char_vecs(parts@).len() == parts@.len());
        }
        let n = parts.len();
        let b = if n >= 3 {
            n - 3
        } else {
            0
        };
        let c = if n >= 2 {
            n - 2
        } else {
            0
        };
        assert(char_vecs(parts@)[b as int] == parts@[b as int]@);
        assert(char_vecs(parts@)[c as int] == parts@[c as int]@);
        (string_from_chars(&parts[b]), string_from_chars(&parts[c]))
    }

    /// The URL of the chapter-content request.
    pub fn content_api_url(book_id: &str, chapter_id: &str) -> (r: String)
        ensures
            r@ == WEBNOVEL@ + "/apiajax/chapter/GetChapterContent?bookId="@ + book_id@
                + "&chapterId="@ + chapter_id@ + "&_csrfToken="@,
    {
        let mut u: Vec<char> = Vec::new();
        push_str(&mut u, WEBNOVEL);
        push_str(&mut u, "/apiajax/chapter/GetChapterContent?bookId=");
        push_str(&mut u, book_id);
        push_str(&mut u, "&chapterId=");
        push_str(&mut u, chapter_id);
        push_str(&mut u, "&_csrfToken=");
        string_from_chars(&u)
    }

    /// `data.chapterInfo.content` of a chapter-content answer, as it is.
    pub fn chapter_content(answer: &str) -> (r: Option<String>)
        ensures
            opt_chars(r) == wn_content(answer@),
    {
        let v = json_or_null(answer);
        let mut path: Vec<&str> = Vec::new();
        path.push("data");
        path.push("chapterInfo");
        path.push("content");
        assert(key_views(path@) =~= seq!["data"@, "chapterInfo"@, "content"@]);
        str_at(&v, &path)
    }

    /// The URL of the chapter page, read when the content request gives
    /// nothing.
    pub fn chapter_page_url(book_id: &str, chapter_id: &str) -> (r: String)
        ensures
            r@ == WEBNOVEL@ + "/book/"@ + book_id@ + "/"@ + chapter_id@,
    {
        let mut u: Vec<char> = Vec::new();
        push_str(&mut u, WEBNOVEL);
        push_str(&mut u, "/book/");
        push_str(&mut u, book_id);
        push_str(&mut u, "/");
        push_str(&mut u, chapter_id);
        string_from_chars(&u)
    }

    /// Sets the chapter body from a chapter-content answer: its content,
    /// cleaned, when it has one (then `true`); the chapter is left as it was
    /// otherwise (then `false`, and the chapter page is to be read).
    pub fn read_chapter_content(&self, chapter: &mut Chapter, answer: &str) -> (r: bool)
        ensures
            r == (wn_content(answer@) is Some),
            opt_chars(final(chapter).body) == body_update(
                old(chapter).body,
                wn_content(answer@),
                old(chapter).url@,
            ),
            final(chapter).id == old(chapter).id,
            final(chapter).title == old(chapter).title,
            final(chapter).url == old(chapter).url,
            final(chapter).volume_id == old(chapter).volume_id,
    {
        match Self::chapter_content(answer) {
            Some(content) => {
                chapter.body = Some(clean_chapter_html(content.as_str(), chapter.url.as_str()));
                true
            },
            None => false,
        }
    }

    /// Sets the chapter body from the chapter page: the inner HTML of the
    /// first `.cha-words` element, cleaned; left as it was when there is
    /// none.
    pub fn read_chapter_page(&self, chapter: &mut Chapter, html: &str)
        ensures
            opt_chars(final(chapter).body) == body_update(
                old(chapter).body,
                match first_match(html@, false, ".cha-words"@) {
                    Some(n) => Some(n.inner_html),
                    None => None,
                },
                old(chapter).url@,
            ),
            final(chapter).id == old(chapter).id,
            final(chapter).title == old(chapter).title,
            final(chapter).url == old(chapter).url,
            final(chapter).volume_id == old(chapter).volume_id,
    {
        let doc = parse_document(html);
        match select_first(&doc, ".cha-words") {
            Some(el) => {
                chapter.body = Some(clean_chapter_html(el.inner_html.as_str(), chapter.url.as_str()));
            },
            None => {},
        }
    }

    /// The URL of the search page for `query`, spaces written as `+`.
    pub fn search_url(&self, query: &str) -> (r: String)
        ensures
            r@ == WEBNOVEL@ + "/search?keywords="@ + replace_all(query@, " "@, "+"@),
    {
        proof {
            reveal_strlit(" ");
        }
        let mut out: Vec<char> = Vec::new();
        push_str(&mut out, WEBNOVEL);
        push_str(&mut out, "/search?keywords=");
        let q = replace_str(query, " ", "+");
        push_str(&mut out, q.as_str());
        string_from_chars(&out)
    }

    /// The search results on a result page.
    pub fn parse_search(&self, body: &str) -> (r: Vec<SearchResult>)
        ensures
            result_views(r@) == wn_search_results(body@),
    {
        let doc = parse_document(body);
        let mut r: Vec<SearchResult> = Vec::new();
        match select_all(&doc, ".j_bookList li") {
            None => {
                assert(result_views(r@) =~= Seq::<SearchResultView>::empty());
                r
            },
            Some(items) => {
                let ghost views = node_views(items@);
                let ghost f = |n: NodeView| wn_search_item(n.inner_html);
                let mut i: usize = 0;
                while i < items.len()
                    invariant
                        i <= items.len(),
                        views == node_views(items@),
                        f == (|n: NodeView| wn_search_item(n.inner_html)),
                        result_views(r@) == filter_some(views.take(i as int).map_values(f)),
                    decreases items.len() - i,
                {
                    proof {
                        assert(views.take(i + 1).map_values(f).drop_last() == views.take(
                            i as int,
                        ).map_values(f));
                        assert(views.take(i + 1).map_values(f).last() == f(views[i as int]));
                    }
                    match search_item(items[i].inner_html.as_str()) {
                        Some(x) => {
                            let ghost before = r@;
                            r.push(x);
                            assert(result_views(r@) == result_views(before).push(x@));
                        },
                        None => {},
                    }
                    i = i + 1;
                }
                assert(views.take(i as int) == views);
                r
            },
        }
    }

    pub fn name(&self) -> (r: &'static str)
        ensures
            r@ == "Webnovel"@,
    {
        "Webnovel"
    }

    pub fn supports_search(&self) -> (r: bool)
        ensures
            r,
    {
        true
    }
}

} // verus!
