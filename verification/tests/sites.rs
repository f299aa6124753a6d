use lncrawl::crawler::brightnovels::{BrightError, BrightNovelsCrawler};
use lncrawl::crawler::novelbin::{ContentError, NovelBinCrawler, SlugError};
use lncrawl::crawler::novelfull::NovelFullCrawler;
use lncrawl::crawler::novelishuniverse::NovelishUniverseCrawler;
use lncrawl::crawler::royalroad::RoyalRoadCrawler;
use lncrawl::crawler::scribblehub::ScribbleHubCrawler;
use lncrawl::crawler::webnovel::WebnovelCrawler;
use lncrawl::json::Json;
use lncrawl::models::Chapter;
use lncrawl::output::epub::xml_escape;

// ── Royal Road ───────────────────────────────────────────────────────────────

const RR_PAGE: &str = r#"<html><body>
<div class="fic-header"><img class="thumbnail" src=" https://rr.com/c.jpg "></div>
<h1 class="font-white"> The Book </h1>
<span property="name">Ann Author</span>
<div class="description"><div class="hidden-content"><p>About it.</p></div></div>
<table><tbody>
<tr class="chapter-row"><td><a href="/fiction/1/ch/10"> One </a></td></tr>
<tr class="chapter-row"><td>no link</td></tr>
<tr class="chapter-row"><td><a href="https://other.com/ch/11">Two</a></td></tr>
</tbody></table>
</body></html>"#;

#[test]
fn royalroad_novel_page() {
    let c = RoyalRoadCrawler::new();
    let n = c.parse_novel_info("https://www.royalroad.com/fiction/1", RR_PAGE);
    assert_eq!(n.url, "https://www.royalroad.com/fiction/1");
    assert_eq!(n.title, "The Book");
    assert_eq!(n.author.as_deref(), Some("Ann Author"));
    assert_eq!(n.cover_url.as_deref(), Some("https://rr.com/c.jpg"));
    assert_eq!(n.synopsis.as_deref(), Some("About it."));
    assert_eq!(n.chapters.len(), 2);
    assert_eq!(n.chapters[0].id, 1);
    assert_eq!(n.chapters[0].title, "One");
    assert_eq!(n.chapters[0].url, "https://www.royalroad.com/fiction/1/ch/10");
    assert_eq!(n.chapters[1].id, 2);
    assert_eq!(n.chapters[1].url, "https://other.com/ch/11");
}

#[test]
fn royalroad_page_without_title() {
    let c = RoyalRoadCrawler::new();
    let n = c.parse_novel_info("u", "<html><body><p>nothing</p></body></html>");
    assert_eq!(n.title, "Unknown Title");
    assert!(n.author.is_none());
    assert!(n.chapters.is_empty());
}

#[test]
fn royalroad_chapter_body() {
    let c = RoyalRoadCrawler::new();
    let mut ch = Chapter::new(1, "t", "https://www.royalroad.com/fiction/1/ch/2");
    c.read_chapter_body(&mut ch, "<div class=\"chapter-content\"><p>Body</p><script>x</script></div>");
    assert_eq!(ch.body.as_deref(), Some("<p>Body</p>"));
    c.read_chapter_body(&mut ch, "<p>no content</p>");
    assert_eq!(ch.body.as_deref(), Some("<p>Body</p>"));
}

#[test]
fn royalroad_search() {
    let c = RoyalRoadCrawler::new();
    assert_eq!(
        c.search_url("mage & knight"),
        "https://www.royalroad.com/fictions/search?title=mage+%26+knight"
    );
    let body = r#"<div class="fiction-list-item"><h2 class="fiction-title"><a href="/fiction/5"> Five </a></h2>
<img src="https://rr.com/5.jpg"><span class="author">A</span><div class="fiction-description"><p> D </p></div></div>
<div class="fiction-list-item"><h2 class="fiction-title"><a href="/fiction/6">  </a></h2></div>"#;
    let r = c.parse_search(body);
    assert_eq!(r.len(), 1);
    assert_eq!(r[0].title, "Five");
    assert_eq!(r[0].url, "https://www.royalroad.com/fiction/5");
    assert_eq!(r[0].author.as_deref(), Some("A"));
    assert_eq!(r[0].cover_url.as_deref(), Some("https://rr.com/5.jpg"));
    assert_eq!(r[0].synopsis.as_deref(), Some("D"));
    assert_eq!(r[0].source_name, "Royal Road");
}

// ── NovelFull ────────────────────────────────────────────────────────────────

#[test]
fn novelfull_base_and_page() {
    assert_eq!(NovelFullCrawler::base_from_url("https://novelfull.net/a.html"), "https://novelfull.net");
    assert_eq!(NovelFullCrawler::base_from_url("nonsense"), "https://novelfull.com");
    let c = NovelFullCrawler::new();
    let body = r#"<div class="book"><img src="/cover.jpg"></div><h3 class="title">NF Title</h3>
<ul class="info-meta"><li>Genre: <a>Action</a></li><li>AUTHOR: <a> Bo </a></li></ul>
<div class="desc-text"> Story </div>"#;
    let n = c.parse_novel_page("https://novelfull.com/x.html", body);
    assert_eq!(n.title, "NF Title");
    assert_eq!(n.author.as_deref(), Some("Bo"));
    assert_eq!(n.cover_url.as_deref(), Some("https://novelfull.com/cover.jpg"));
    assert_eq!(n.synopsis.as_deref(), Some("Story"));
    assert!(n.chapters.is_empty());
}

#[test]
fn novelfull_chapter_pages() {
    let c = NovelFullCrawler::new();
    let html = r#"<ul class="list-chapter"><li><a href="/c1.html" title=" C1 ">x</a></li>
<li><a>no href</a></li><li><a href="/c2.html"></a></li></ul>
<ul><li class="next"><a href="/x.html?page=2">Next</a></li></ul>"#;
    let (links, next) = c.chapter_page("https://novelfull.com", html, 5);
    assert_eq!(
        links,
        vec![
            ("C1".to_string(), "https://novelfull.com/c1.html".to_string()),
            ("Chapter 7".to_string(), "https://novelfull.com/c2.html".to_string()),
        ]
    );
    assert_eq!(next.as_deref(), Some("https://novelfull.com/x.html?page=2"));
    let (_, none) = c.chapter_page("https://novelfull.com", "<li class=\"next\"><a href=\"#\">x</a></li>", 0);
    assert!(none.is_none());
    let chs = c.chapters_from(&links);
    assert_eq!(chs.len(), 2);
    assert_eq!(chs[1].id, 2);
    assert_eq!(chs[1].title, "Chapter 7");
}

#[test]
fn novelfull_chapter_body_falls_back() {
    let c = NovelFullCrawler::new();
    let mut ch = Chapter::new(1, "t", "not a url");
    c.read_chapter_body(&mut ch, "<div class=\"chapter-body\">B</div>");
    assert_eq!(ch.body.as_deref(), Some("B"));
    c.read_chapter_body(&mut ch, "<p>none</p>");
    assert!(ch.body.is_none());
}

#[test]
fn novelfull_search_url_uses_plus() {
    let c = NovelFullCrawler::new();
    assert_eq!(c.search_url("a b  c"), "https://novelfull.com/search?keyword=a+b++c");
}

// ── NovelBin ─────────────────────────────────────────────────────────────────

#[test]
fn novelbin_slug_from_url() {
    assert_eq!(NovelBinCrawler::slug_from_url("https://novelbin.me/b/the-book").as_deref(), Some("the-book"));
    assert_eq!(
        NovelBinCrawler::slug_from_url("https://novelbin.com/novel-book/the-book/chapter-1").as_deref(),
        Some("the-book")
    );
    assert_eq!(NovelBinCrawler::slug_from_url("https://novelbin.me/x/the-book"), None);
    assert_eq!(NovelBinCrawler::slug_from_url("https://novelbin.me/b/"), None);
    assert_eq!(NovelBinCrawler::slug_from_url("bad"), None);
}

#[test]
fn novelbin_extract_csrf() {
    assert_eq!(
        NovelBinCrawler::extract_csrf("<script>const csrf = \"tok123\";</script>").as_deref(),
        Some("tok123")
    );
    assert_eq!(NovelBinCrawler::extract_csrf("const csrf = \"\";"), None);
    assert_eq!(NovelBinCrawler::extract_csrf("no token"), None);
    assert_eq!(NovelBinCrawler::extract_csrf("const csrf = \"open"), None);
}

#[test]
fn novelbin_title_from_slug() {
    assert_eq!(
        NovelBinCrawler::title_from_slug("the-regressor-can-make-them-all"),
        "The Regressor Can Make Them All"
    );
    assert_eq!(NovelBinCrawler::title_from_slug("a--b"), "A  B");
    assert_eq!(NovelBinCrawler::title_from_slug(""), "");
    assert_eq!(NovelBinCrawler::title_from_slug("ärger"), "Ärger");
}

#[test]
fn novelbin_archive_and_novel() {
    let archive = r#"<ul class="list-chapter"><li><a href="https://novelbin.me/novel-book/bk/chapter-1" title="Ch 1">x</a></li>
<li><a href="https://novelbin.me/novel-book/bk/chapter-2-end/">  </a></li>
<li><a href="https://elsewhere.com/x">skip</a></li></ul>"#;
    let pairs = NovelBinCrawler::parse_chapter_archive(archive, "bk");
    assert_eq!(
        pairs,
        vec![
            ("chapter-1".to_string(), "Ch 1".to_string()),
            ("chapter-2-end".to_string(), "chapter 2 end".to_string()),
        ]
    );
    let series = r#"<h3 class="title">Page not found</h3><div class="desc"> S </div>"#;
    let n = NovelBinCrawler::novel_from_pages("https://novelbin.me/b/bk", "bk", series, archive).unwrap();
    assert_eq!(n.title, "Bk");
    assert_eq!(n.synopsis.as_deref(), Some("S"));
    assert_eq!(n.chapters.len(), 2);
    assert_eq!(n.chapters[1].url, "https://novelbin.me/novel-book/bk/chapter-2-end");
    assert_eq!(n.chapters[1].title, "chapter 2 end");
    assert!(NovelBinCrawler::novel_from_pages("u", "bk", series, "<p>empty</p>").is_none());
}

#[test]
fn novelbin_chapter_slugs() {
    match NovelBinCrawler::chapter_slugs("https://novelbin.me/novel-book/bk/chapter-3") {
        Ok((n, c)) => {
            assert_eq!(n, "bk");
            assert_eq!(c, "chapter-3");
        }
        Err(_) => panic!("slugs expected"),
    }
    assert!(matches!(NovelBinCrawler::chapter_slugs("bad url"), Err(SlugError::InvalidUrl)));
    assert!(matches!(
        NovelBinCrawler::chapter_slugs("https://novelbin.me/novel-book/bk"),
        Err(SlugError::MissingSlug)
    ));
}

#[test]
fn novelbin_usable_csrf() {
    assert_eq!(NovelBinCrawler::usable_csrf(&Some("t".to_string())).as_deref(), Some("t"));
    assert_eq!(NovelBinCrawler::usable_csrf(&Some(String::new())), None);
    assert_eq!(NovelBinCrawler::usable_csrf(&None), None);
}

#[test]
fn novelbin_chapter_answers() {
    let c = NovelBinCrawler::new();
    let mut ch = Chapter::new(1, "t", "https://novelbin.me/novel-book/bk/c1");
    assert!(matches!(c.read_chapter_response(&mut ch, "<html>"), Err(ContentError::NotJson)));
    assert!(matches!(
        c.read_chapter_response(&mut ch, "{\"success\": false, \"content\": \"<p>x</p>\"}"),
        Err(ContentError::Refused)
    ));
    assert!(ch.body.is_none());
    assert!(c.read_chapter_response(&mut ch, "{\"success\": true, \"content\": \"\"}").is_ok());
    assert!(ch.body.is_none());
    assert!(c
        .read_chapter_response(&mut ch, "{\"success\": true, \"content\": \"<p>Hi</p><script>s</script>\"}")
        .is_ok());
    assert_eq!(ch.body.as_deref(), Some("<p>Hi</p>"));
}

#[test]
fn novelbin_chapter_from_built_json() {
    let c = NovelBinCrawler::new();
    let mut ch = Chapter::new(1, "t", "u");
    let answer = Json::Object(vec![
        ("content".to_string(), Json::Str("<p>A</p>".to_string())),
        ("success".to_string(), Json::Bool(true)),
    ]);
    assert!(c.chapter_from_json(&mut ch, &answer).is_ok());
    assert_eq!(ch.body.as_deref(), Some("<p>A</p>"));
    let refused = Json::Object(vec![("success".to_string(), Json::Number(Some(1)))]);
    assert!(matches!(c.chapter_from_json(&mut ch, &refused), Err(ContentError::Refused)));
}

#[test]
fn novelbin_urls_and_search() {
    let c = NovelBinCrawler::new();
    assert_eq!(NovelBinCrawler::series_url("bk"), "https://novelbin.me/b/bk");
    assert_eq!(NovelBinCrawler::archive_url("bk"), "https://novelbin.me/ajax/chapter-archive?novelId=bk");
    assert_eq!(c.search_url("sword god"), "https://novelbin.me/search?keyword=sword+god");
    let body = r#"<div class="list-novel"><div class="row"><img class="cover" data-src="d.jpg">
<h3 class="novel-title"><a href="/b/one"> One </a></h3><span class="author"> Au </span></div>
<div class="row"><h3 class="novel-title">no link</h3></div></div>"#;
    let r = c.parse_search(body);
    assert_eq!(r.len(), 1);
    assert_eq!(r[0].title, "One");
    assert_eq!(r[0].url, "https://novelbin.me/b/one");
    assert_eq!(r[0].cover_url.as_deref(), Some("d.jpg"));
    assert_eq!(r[0].author.as_deref(), Some("Au"));
    assert!(r[0].synopsis.is_none());
    assert_eq!(r[0].source_name, "NovelBin");
}

// ── BrightNovels ─────────────────────────────────────────────────────────────

fn inertia(json: &str) -> String {
    let escaped = json.replace('&', "&amp;").replace('"', "&quot;");
    format!("<html><body><div id=\"app\" data-page=\"{}\"></div></body></html>", escaped)
}

#[test]
fn brightnovels_slug_and_entities() {
    assert_eq!(
        BrightNovelsCrawler::slug_from_url("https://brightnovels.com/series/my-tale/ch-1").as_deref(),
        Some("my-tale")
    );
    assert_eq!(BrightNovelsCrawler::slug_from_url("https://brightnovels.com/other/x"), None);
    assert_eq!(
        BrightNovelsCrawler::decode_entities("&lt;p&gt;Tom&#039;s &amp;amp; &quot;x&quot;&nbsp;&lt;/p&gt;"),
        "<p>Tom's &amp; \"x\"\u{00A0}</p>"
    );
}

#[test]
fn brightnovels_novel_from_pages() {
    let page = inertia(
        r#"{"props":{"series":{"title":"Tale","user":{"name":"Wri"},"description":"&lt;p&gt;Hi&lt;/p&gt;","cover":{"path":"c/1.png"}}}}"#,
    );
    let api = r#"{"chapters":[{"slug":"c3","name":"Three","is_premium":true},{"slug":"c2"},{"slug":"c1","name":"One","is_premium":false}]}"#;
    let n = BrightNovelsCrawler::novel_from_pages("https://brightnovels.com/series/tale", &page, api).unwrap();
    assert_eq!(n.title, "Tale");
    assert_eq!(n.author.as_deref(), Some("Wri"));
    assert_eq!(n.synopsis.as_deref(), Some("<p>Hi</p>"));
    assert_eq!(n.cover_url.as_deref(), Some("https://brightnovels.com/storage/c/1.png"));
    assert_eq!(n.chapters.len(), 2);
    assert_eq!(n.chapters[0].title, "One");
    assert_eq!(n.chapters[0].url, "https://brightnovels.com/series/tale/c1");
    assert_eq!(n.chapters[1].title, "Chapter 2");
    assert_eq!(n.chapters[1].url, "https://brightnovels.com/series/tale/c2");
    assert_eq!(BrightNovelsCrawler::chapters_api_url("tale"), "https://brightnovels.com/series/tale/chapters");
}

#[test]
fn brightnovels_errors() {
    assert!(matches!(
        BrightNovelsCrawler::novel_from_pages("https://brightnovels.com/x", "", "{}"),
        Err(BrightError::NoSlug)
    ));
    assert!(matches!(
        BrightNovelsCrawler::novel_from_pages("https://brightnovels.com/series/t", "<p>plain</p>", "{}"),
        Err(BrightError::NoPageData)
    ));
    assert!(matches!(
        BrightNovelsCrawler::novel_from_pages("https://brightnovels.com/series/t", &inertia("{}"), "oops"),
        Err(BrightError::ChaptersNotJson)
    ));
    let n = BrightNovelsCrawler::novel_from_pages("https://brightnovels.com/series/t", &inertia("{}"), "[]").unwrap();
    assert_eq!(n.title, "Unknown Title");
    assert!(n.chapters.is_empty());
}

#[test]
fn brightnovels_chapter_body() {
    let c = BrightNovelsCrawler::new();
    let mut ch = Chapter::new(1, "t", "https://brightnovels.com/series/t/c1");
    let page = inertia(r#"{"props":{"chapter":{"content":"&lt;p&gt;Text&lt;/p&gt;"}}}"#);
    c.read_chapter_body(&mut ch, &page);
    assert_eq!(ch.body.as_deref(), Some("<p>Text</p>"));
    c.read_chapter_body(&mut ch, "<p>no data</p>");
    assert_eq!(ch.body.as_deref(), Some("<p>Text</p>"));
}

#[test]
fn brightnovels_search_json_and_page() {
    let c = BrightNovelsCrawler::new();
    assert_eq!(c.search_url("a b"), "https://brightnovels.com/series?search=a+b");
    let r = c.parse_search(r#"{"data":[{"title":"T","slug":"s"},{"title":"","slug":"z"}]}"#);
    assert_eq!(r.len(), 1);
    assert_eq!(r[0].url, "https://brightnovels.com/series/s");
    assert_eq!(r[0].source_name, "BrightNovels");
    let r = c.parse_search(r#"[{"title":"A","slug":"a","user":{"name":"U"}}]"#);
    assert_eq!(r[0].author.as_deref(), Some("U"));
    let page = inertia(r#"{"props":{"series":{"data":[{"title":"P","slug":"p"}]}}}"#);
    let r = c.parse_search(&page);
    assert_eq!(r.len(), 1);
    assert_eq!(r[0].title, "P");
    assert!(c.parse_search("<p>nothing</p>").is_empty());
}

// ── Webnovel ─────────────────────────────────────────────────────────────────

#[test]
fn webnovel_book_id() {
    assert_eq!(
        WebnovelCrawler::book_id("https://www.webnovel.com/book/my-novel_12345678901").as_deref(),
        Some("12345678901")
    );
    assert_eq!(
        WebnovelCrawler::book_id("https://www.webnovel.com/book/my-novel_123456789").as_deref(),
        Some("123456789")
    );
    assert_eq!(WebnovelCrawler::book_id("https://www.webnovel.com/book/no-id"), None);
}

#[test]
fn webnovel_book_id_is_the_trailing_number() {
    assert_eq!(
        WebnovelCrawler::book_id("https://www.webnovel.com/book/2nd-life_12345678901").as_deref(),
        Some("12345678901")
    );
    assert_eq!(
        WebnovelCrawler::book_id("https://www.webnovel.com/book/tale_42?from=search").as_deref(),
        Some("42")
    );
    assert_eq!(
        WebnovelCrawler::book_id("https://www.webnovel.com/book/12345678901/catalog").as_deref(),
        Some("12345678901")
    );
}

#[test]
fn webnovel_novel_from_api() {
    let info = r#"{"data":{"bookInfo":{"bookName":"WN","authorName":"Au","coverUpdateTime":1700,"description":"D"}}}"#;
    let list = r#"{"data":{"volumeItems":[
        {"volumeName":"V1","chapterItems":[{"chapterId":"c1","chapterName":"One","isAuth":1},{"chapterId":"c2","isAuth":0}]},
        {"chapterItems":[{"chapterId":"c3","isAuth":1},{"chapterId":"c4","chapterName":"Four"}]}
    ]}}"#;
    let n = WebnovelCrawler::novel_from_api("https://www.webnovel.com/book/x_1234567890", "1234567890", info, list);
    assert_eq!(n.title, "WN");
    assert_eq!(n.author.as_deref(), Some("Au"));
    assert_eq!(n.cover_url.as_deref(), Some("https://book-pic.webnovel.com/bookcover/1234567890/300/300"));
    assert_eq!(n.synopsis.as_deref(), Some("D"));
    assert_eq!(n.volumes.len(), 2);
    assert_eq!(n.volumes[0].title, "V1");
    assert_eq!(n.volumes[1].title, "Volume 2");
    assert_eq!(n.chapters.len(), 2);
    assert_eq!(n.chapters[0].title, "One");
    assert_eq!(n.chapters[0].url, "https://www.webnovel.com/book/1234567890/c1/chapter");
    assert_eq!(n.chapters[0].volume_id, Some(1));
    assert_eq!(n.chapters[1].id, 2);
    assert_eq!(n.chapters[1].title, "Chapter 2");
    assert_eq!(n.chapters[1].volume_id, Some(2));
}

#[test]
fn webnovel_bad_answers_give_an_empty_novel() {
    let n = WebnovelCrawler::novel_from_api("u", "1", "not json", "{}");
    assert_eq!(n.title, "Unknown Title");
    assert!(n.cover_url.is_none());
    assert!(n.volumes.is_empty());
    assert!(n.chapters.is_empty());
}

#[test]
fn webnovel_chapter_pieces() {
    let (b, c) = WebnovelCrawler::chapter_ids("https://www.webnovel.com/book/111/222/chapter");
    assert_eq!((b.as_str(), c.as_str()), ("111", "222"));
    let (b, c) = WebnovelCrawler::chapter_ids("x");
    assert_eq!((b.as_str(), c.as_str()), ("x", "x"));
    assert_eq!(
        WebnovelCrawler::content_api_url("1", "2"),
        "https://www.webnovel.com/apiajax/chapter/GetChapterContent?bookId=1&chapterId=2&_csrfToken="
    );
    assert_eq!(
        WebnovelCrawler::chapter_content(r#"{"data":{"chapterInfo":{"content":"<p>C</p>"}}}"#).as_deref(),
        Some("<p>C</p>")
    );
    assert_eq!(WebnovelCrawler::chapter_content("{}"), None);
    assert_eq!(WebnovelCrawler::chapter_page_url("1", "2"), "https://www.webnovel.com/book/1/2");
    let w = WebnovelCrawler::new();
    let mut ch = Chapter::new(1, "t", "u");
    w.read_chapter_page(&mut ch, "<div class=\"cha-words\"> <p>W</p></div>");
    assert_eq!(ch.body.as_deref(), Some(" <p>W</p>"));
}

#[test]
fn webnovel_search() {
    let w = WebnovelCrawler::new();
    assert_eq!(w.search_url("a b"), "https://www.webnovel.com/search?keywords=a+b");
    let body = r#"<ul class="j_bookList"><li><a class="j_bookCard" href="/book/x_1"><img data-original="o.jpg"></a><h4> Name </h4><p class="author">Au</p></li>
<li><a class="j_bookCard" href="/book/y"></a></li></ul>"#;
    let r = w.parse_search(body);
    assert_eq!(r.len(), 1);
    assert_eq!(r[0].title, "Name");
    assert_eq!(r[0].url, "https://www.webnovel.com/book/x_1");
    assert_eq!(r[0].cover_url.as_deref(), Some("o.jpg"));
    assert_eq!(r[0].author.as_deref(), Some("Au"));
    assert_eq!(r[0].source_name, "Webnovel");
}

// ── ScribbleHub ──────────────────────────────────────────────────────────────

#[test]
fn scribblehub_post_id() {
    assert_eq!(ScribbleHubCrawler::extract_post_id("https://www.scribblehub.com/series/12345/my-novel/"), Some(12345));
    assert_eq!(ScribbleHubCrawler::extract_post_id("https://www.scribblehub.com/series/12345"), None);
    assert_eq!(
        ScribbleHubCrawler::extract_post_id("https://www.scribblehub.com/series/99999999999999999999/x/"),
        None
    );
}

#[test]
fn scribblehub_toc_pages() {
    let page = r#"<ol><li class="toc_w"><a href="https://sh.com/read/3" title=" Three ">x</a></li>
<li class="toc_w"><a>none</a></li><li class="toc_w"><a href="https://sh.com/read/2"></a></li></ol>"#;
    let pairs = ScribbleHubCrawler::parse_toc_page(page, 10);
    assert_eq!(
        pairs,
        vec![
            ("Three".to_string(), "https://sh.com/read/3".to_string()),
            ("Chapter 12".to_string(), "https://sh.com/read/2".to_string()),
        ]
    );
    assert_eq!(ScribbleHubCrawler::next_toc_page(1, 2), Some(2));
    assert_eq!(ScribbleHubCrawler::next_toc_page(1, 0), None);
    assert_eq!(ScribbleHubCrawler::next_toc_page(1000, 5), None);
    let form = ScribbleHubCrawler::toc_form(77, 3);
    assert_eq!(
        form,
        vec![
            ("action".to_string(), "wi_getreleases_n".to_string()),
            ("pagenum".to_string(), "3".to_string()),
            ("mypostid".to_string(), "77".to_string()),
        ]
    );
    let body = r#"<div class="fic-title"><h1>SH</h1></div><span class="auth"><a>Me</a></span>
<div class="fic-header"><img src="c.png"></div><div class="wi_fic_desc">Desc</div>"#;
    let n = ScribbleHubCrawler::novel_from_page("https://www.scribblehub.com/series/1/x/", body, &pairs);
    assert_eq!(n.title, "SH");
    assert_eq!(n.author.as_deref(), Some("Me"));
    assert_eq!(n.cover_url.as_deref(), Some("c.png"));
    assert_eq!(n.synopsis.as_deref(), Some("Desc"));
    assert_eq!(n.chapters.len(), 2);
    assert_eq!(n.chapters[0].title, "Chapter 12");
    assert_eq!(n.chapters[0].id, 1);
    assert_eq!(n.chapters[1].title, "Three");
}

#[test]
fn scribblehub_chapter_and_search() {
    let s = ScribbleHubCrawler::new();
    let mut ch = Chapter::new(1, "t", "https://www.scribblehub.com/read/1");
    s.read_chapter_body(&mut ch, "<div class=\"chp_raw\"><p>R</p></div>");
    assert_eq!(ch.body.as_deref(), Some("<p>R</p>"));
    assert_eq!(
        s.search_url("x y"),
        "https://www.scribblehub.com/?s=x+y&post_type=fictionposts"
    );
    let body = r#"<div class="search_main_box"><div class="search_title"><a href="https://sh.com/s/1"> T1 </a></div>
<span class="search_author">Au</span><img class="lazy" src="s.jpg"></div>
<div class="search_main_box"><div class="search_title">no</div></div>"#;
    let r = s.parse_search(body);
    assert_eq!(r.len(), 1);
    assert_eq!(r[0].title, "T1");
    assert_eq!(r[0].url, "https://sh.com/s/1");
    assert_eq!(r[0].author.as_deref(), Some("Au"));
    assert_eq!(r[0].cover_url.as_deref(), Some("s.jpg"));
}

// ── NovelishUniverse ─────────────────────────────────────────────────────────

const NU_PAGE: &str = r#"<html><body><h1 class="entry-title"> NU </h1>
<div class="sertoauth"><div class="serl"><span class="sername">Status</span><span class="serval">Ongoing</span></div>
<div class="serl"><span class="sername"> Author </span><span class="serval"> Zed </span></div></div>
<div class="sertothumb"><img data-src="data:image/png;base64,AAA" src="real.jpg"></div>
<div class="sersys entry-content"> Syn </div>
<div class="eplister"><ul>
<li><a href="https://nu.com/c3"><span class="epl-num">Ch 3 🔒</span></a></li>
<li><a href="https://nu.com/c2"><span class="epl-num"> Ch 2 </span></a></li>
<li><a><span class="epl-num">Ch x</span></a></li>
<li><a href="https://nu.com/c1"></a></li>
</ul></div></body></html>"#;

#[test]
fn novelishuniverse_page() {
    let n = NovelishUniverseCrawler::parse_novel_page("https://novelishuniverse.com/nu/", NU_PAGE);
    assert_eq!(n.title, "NU");
    assert_eq!(n.author.as_deref(), Some("Zed"));
    assert!(n.cover_url.is_none());
    assert_eq!(n.synopsis.as_deref(), Some("Syn"));
    assert_eq!(n.chapters.len(), 2);
    assert_eq!(n.chapters[0].title, "");
    assert_eq!(n.chapters[0].url, "https://nu.com/c1");
    assert_eq!(n.chapters[1].title, "Ch 2");
    assert_eq!(n.chapters[1].id, 2);
}

#[test]
fn novelishuniverse_chapter_body() {
    let c = NovelishUniverseCrawler::new();
    let mut ch = Chapter::new(1, "t", "https://novelishuniverse.com/c1/");
    c.read_chapter_body(&mut ch, "<div class=\"epcontent entry-content\"><p>E</p></div>");
    assert_eq!(ch.body.as_deref(), Some("<p>E</p>"));
    c.read_chapter_body(
        &mut ch,
        "<div class=\"epcontent entry-content\"><div class=\"mycred-sell-this-wrapper\">pay</div></div>",
    );
    assert!(ch.body.is_none());
}

#[test]
fn novelishuniverse_search() {
    let c = NovelishUniverseCrawler::new();
    assert_eq!(c.search_url("a b"), "https://novelishuniverse.com/?s=a+b");
    let body = r#"<div class="bs"><div class="bsx"><a href="https://nu.com/one" title=" One "><img src="o.jpg"></a></div></div>
<div class="bs"><div class="bsx"><a href="https://nu.com/two">Two<img data-src="data:x"></a></div></div>
<div class="bs"><div class="bsx"><span>no link</span></div></div>"#;
    let r = c.parse_search(body);
    assert_eq!(r.len(), 2);
    assert_eq!(r[0].title, "One");
    assert_eq!(r[0].cover_url.as_deref(), Some("o.jpg"));
    assert_eq!(r[1].title, "Two");
    assert!(r[1].cover_url.is_none());
    assert_eq!(r[1].source_name, "NovelishUniverse");
}

#[test]
fn brightnovels_decode_undoes_one_level_of_encoding() {
    for s in ["a<b>&\"c'", "&lt;", "&amp;lt;", "plain", ""] {
        assert_eq!(BrightNovelsCrawler::decode_entities(&xml_escape(s)), s);
    }
    assert_eq!(BrightNovelsCrawler::decode_entities("&amp;lt;"), "&lt;");
    assert_eq!(BrightNovelsCrawler::decode_entities("&unknown; &amp"), "&unknown; &amp");
}

fn wn_chapter() -> Chapter {
    Chapter {
        id: 3,
        title: "Three".to_string(),
        url: "https://www.webnovel.com/book/1/2".to_string(),
        volume_id: None,
        body: None,
    }
}

#[test]
fn webnovel_content_answer_is_cleaned() {
    let w = WebnovelCrawler::new();
    let mut ch = wn_chapter();
    let ok = w.read_chapter_content(
        &mut ch,
        r#"{"data":{"chapterInfo":{"content":"<p>C</p><script>x()</script>"}}}"#,
    );
    assert!(ok);
    assert_eq!(ch.body.as_deref(), Some("<p>C</p>"));
    assert_eq!(ch.id, 3);
    let mut ch = wn_chapter();
    assert!(!w.read_chapter_content(&mut ch, "{}"));
    assert_eq!(ch.body, None);
}

#[test]
fn webnovel_chapter_page_is_cleaned() {
    let w = WebnovelCrawler::new();
    let mut ch = wn_chapter();
    w.read_chapter_page(&mut ch, "<div class=\"cha-words\"><p>P</p><div class=\"ads\">a</div></div>");
    assert_eq!(ch.body.as_deref(), Some("<p>P</p>"));
}
