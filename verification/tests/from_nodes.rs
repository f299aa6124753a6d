use lncrawl::crawler::brightnovels::results_from_items;
use lncrawl::crawler::novelbin::NovelBinCrawler;
use lncrawl::crawler::novelfull::NovelFullCrawler;
use lncrawl::crawler::novelishuniverse::NovelishUniverseCrawler;
use lncrawl::crawler::royalroad::RoyalRoadCrawler;
use lncrawl::crawler::scribblehub::ScribbleHubCrawler;
use lncrawl::html::Node;
use lncrawl::json::Json;

fn node(text: &str, attrs: &[(&str, &str)]) -> Node {
    Node {
        text: text.to_string(),
        inner_html: text.to_string(),
        html: String::new(),
        attrs: attrs.iter().map(|(k, v)| (k.to_string(), Some(v.to_string()))).collect(),
    }
}

#[test]
fn royalroad_rows_to_links() {
    let rows = vec![
        (node("row", &[]), vec![Some(node(" Ch 1 ", &[("href", "/fiction/1/c/1")]))]),
        (node("row", &[]), vec![None]),
        (node("row", &[]), vec![Some(node("Ch 2", &[]))]),
    ];
    let links = RoyalRoadCrawler::links_from_rows(rows);
    assert_eq!(
        links,
        vec![
            ("Ch 1".to_string(), "https://www.royalroad.com/fiction/1/c/1".to_string()),
            ("Ch 2".to_string(), "https://www.royalroad.com".to_string()),
        ]
    );
}

#[test]
fn novelfull_items_to_links() {
    let items = vec![
        node("x", &[("href", "/a.html"), ("title", " A ")]),
        node(" B ", &[("href", "http://other/b.html")]),
        node("no target", &[]),
        node("  ", &[("href", "/c.html")]),
    ];
    let links = NovelFullCrawler::links_from_items("https://novelfull.com", &items, 10);
    assert_eq!(
        links,
        vec![
            ("A".to_string(), "https://novelfull.com/a.html".to_string()),
            ("B".to_string(), "http://other/b.html".to_string()),
            ("Chapter 13".to_string(), "https://novelfull.com/c.html".to_string()),
        ]
    );
}

#[test]
fn novelbin_items_to_archive_links() {
    let items = vec![
        node("One", &[("href", "https://novelbin.me/novel-book/bk/c-1")]),
        node("", &[("href", "https://novelbin.me/novel-book/bk/c-2/"), ("title", " T2 ")]),
        node("Other", &[("href", "https://novelbin.me/novel-book/other/c-1")]),
        node("", &[("href", "https://novelbin.me/novel-book/bk/")]),
    ];
    let links = NovelBinCrawler::archive_links_from(&items, "bk");
    assert_eq!(
        links,
        vec![("c-1".to_string(), "One".to_string()), ("c-2".to_string(), "T2".to_string())]
    );
}

#[test]
fn novelbin_rows_to_results() {
    let rows = vec![
        (
            node("row", &[]),
            vec![
                Some(node(" Title ", &[("href", "/b/t")])),
                Some(node("", &[("src", "c.jpg"), ("data-src", "d.jpg")])),
                Some(node(" Au ", &[])),
                Some(node(" Syn ", &[])),
            ],
        ),
        (node("row", &[]), vec![Some(node("No link", &[])), None, None, None]),
    ];
    let r = NovelBinCrawler::results_from_rows(rows);
    assert_eq!(r.len(), 1);
    assert_eq!(r[0].title, "Title");
    assert_eq!(r[0].url, "https://novelbin.me/b/t");
    assert_eq!(r[0].cover_url.as_deref(), Some("c.jpg"));
    assert_eq!(r[0].author.as_deref(), Some("Au"));
    assert_eq!(r[0].synopsis.as_deref(), Some("Syn"));
}

#[test]
fn novelishuniverse_rows() {
    let author_rows = vec![
        (node("", &[]), vec![Some(node("Status", &[])), Some(node("Done", &[]))]),
        (node("", &[]), vec![Some(node(" AUTHOR: ", &[])), None]),
        (node("", &[]), vec![Some(node("Author", &[])), Some(node("Late", &[]))]),
    ];
    assert_eq!(NovelishUniverseCrawler::author_from_rows(author_rows), None);
    let author_rows = vec![(node("", &[]), vec![Some(node("Author", &[])), Some(node(" Zed ", &[]))])];
    assert_eq!(NovelishUniverseCrawler::author_from_rows(author_rows).as_deref(), Some("Zed"));

    let link_rows = vec![
        (node("", &[("href", "u3")]), vec![Some(node("Ch 3 ⭐", &[]))]),
        (node("", &[("href", "u2")]), vec![Some(node(" Ch 2 ", &[]))]),
        (node("", &[]), vec![Some(node("Ch 1", &[]))]),
    ];
    assert_eq!(
        NovelishUniverseCrawler::links_from_rows(link_rows),
        vec![("Ch 2".to_string(), "u2".to_string())]
    );

    let result_rows = vec![
        (node("", &[]), vec![Some(node(" Text ", &[("href", "h1")])), Some(node("", &[("src", "data:x")]))]),
        (node("", &[]), vec![None, None]),
    ];
    let r = NovelishUniverseCrawler::results_from_rows(result_rows);
    assert_eq!(r.len(), 1);
    assert_eq!(r[0].title, "Text");
    assert_eq!(r[0].url, "h1");
    assert!(r[0].cover_url.is_none());
}

#[test]
fn scribblehub_items_to_toc() {
    let items = vec![node("", &[("href", "u1")]), node("Named", &[("href", "u2")]), node("skip", &[])];
    assert_eq!(
        ScribbleHubCrawler::toc_from_items(&items, 4),
        vec![("Chapter 5".to_string(), "u1".to_string()), ("Named".to_string(), "u2".to_string())]
    );
}

#[test]
fn brightnovels_items_to_results() {
    let item = |title: &str, slug: &str| {
        Json::Object(vec![
            ("title".to_string(), Json::Str(title.to_string())),
            ("slug".to_string(), Json::Str(slug.to_string())),
            (
                "cover".to_string(),
                Json::Object(vec![("path".to_string(), Json::Str("p.png".to_string()))]),
            ),
        ])
    };
    let items = vec![item("A", "a"), item("", "b"), Json::Null, item("C", "")];
    let r = results_from_items(&items);
    assert_eq!(r.len(), 1);
    assert_eq!(r[0].url, "https://brightnovels.com/series/a");
    assert_eq!(r[0].cover_url.as_deref(), Some("https://brightnovels.com/storage/p.png"));
    assert!(r[0].author.is_none());
}

#[test]
fn attribute_without_a_value_is_absent() {
    let n = Node {
        text: "x".to_string(),
        inner_html: "x".to_string(),
        html: String::new(),
        attrs: vec![("href".to_string(), None), ("title".to_string(), Some("T".to_string()))],
    };
    assert_eq!(lncrawl::html::node_attr(&n, "href"), None);
    assert_eq!(lncrawl::html::node_attr(&n, "title").as_deref(), Some("T"));
}
