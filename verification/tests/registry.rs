use lncrawl::crawler::{
    absolute_url, all_crawlers, append_links, clean_chapter_html, create_crawler, percent_encode,
    search_crawlers, trim_start_matches, CrawlerKind,
};
use lncrawl::sources::{filter_sources, find_source_for_url, sources};

#[test]
fn create_crawler_by_host() {
    assert_eq!(create_crawler("https://www.royalroad.com/fiction/1/x"), Some(CrawlerKind::RoyalRoad));
    assert_eq!(create_crawler("https://royalroad.com/fiction/1"), Some(CrawlerKind::RoyalRoad));
    assert_eq!(create_crawler("https://NovelFull.net/x.html"), Some(CrawlerKind::NovelFull));
    assert_eq!(create_crawler("https://m.webnovel.com/book/1"), Some(CrawlerKind::Webnovel));
    assert_eq!(create_crawler("https://www.webnovel.com/book/1"), Some(CrawlerKind::Webnovel));
    assert_eq!(create_crawler("https://novelbin.me/b/x"), Some(CrawlerKind::NovelBin));
    assert_eq!(create_crawler("https://brightnovels.com/series/x"), Some(CrawlerKind::BrightNovels));
    assert_eq!(create_crawler("https://www.scribblehub.com/series/1/x/"), Some(CrawlerKind::ScribbleHub));
    assert_eq!(create_crawler("https://novelishuniverse.com/x/"), Some(CrawlerKind::NovelishUniverse));
    assert_eq!(create_crawler("https://www.www.royalroad.com/"), Some(CrawlerKind::RoyalRoad));
}

#[test]
fn create_crawler_refuses_unknown_or_bad_urls() {
    assert_eq!(create_crawler("https://example.com/novel"), None);
    assert_eq!(create_crawler("not a url"), None);
    assert_eq!(create_crawler("https://sub.royalroad.com/"), None);
}

#[test]
fn registry_lists_every_crawler() {
    let all = all_crawlers();
    assert_eq!(
        all,
        vec![
            CrawlerKind::BrightNovels,
            CrawlerKind::RoyalRoad,
            CrawlerKind::NovelFull,
            CrawlerKind::ScribbleHub,
            CrawlerKind::Webnovel,
            CrawlerKind::NovelBin,
            CrawlerKind::NovelishUniverse,
        ]
    );
    let names: Vec<&str> = all.iter().map(|k| k.name()).collect();
    assert_eq!(
        names,
        vec!["BrightNovels", "Royal Road", "NovelFull", "ScribbleHub", "Webnovel", "NovelBin", "NovelishUniverse"]
    );
    let search = search_crawlers();
    assert_eq!(search, all);
    assert!(search.iter().all(|k| k.supports_search()));
    assert!(all.iter().all(|k| k.language() == "en"));
}

#[test]
fn base_urls_of_crawlers() {
    assert_eq!(CrawlerKind::NovelBin.base_urls(), vec!["https://novelbin.com", "https://novelbin.me"]);
    assert_eq!(CrawlerKind::RoyalRoad.base_urls(), vec!["https://www.royalroad.com"]);
    assert_eq!(
        CrawlerKind::Webnovel.base_urls(),
        vec!["https://www.webnovel.com", "https://m.webnovel.com"]
    );
}

#[test]
fn trim_start_matches_repeats() {
    assert_eq!(trim_start_matches("www.www.a.com", "www."), "a.com");
    assert_eq!(trim_start_matches("a.com", "www."), "a.com");
    assert_eq!(trim_start_matches("abc", ""), "abc");
}

#[test]
fn absolute_url_joins_relative_paths() {
    assert_eq!(absolute_url("https://a.com", "/x/y"), "https://a.com/x/y");
    assert_eq!(absolute_url("https://a.com", "https://b.com/z"), "https://b.com/z");
    assert_eq!(absolute_url("https://a.com", "httpish"), "httpish");
    assert_eq!(absolute_url("https://a.com", ""), "https://a.com");
}

#[test]
fn percent_encode_escapes_reserved_bytes() {
    assert_eq!(percent_encode("a b&c"), "a+b%26c");
    assert_eq!(percent_encode("AZaz09-_.~"), "AZaz09-_.~");
    assert_eq!(percent_encode("é"), "%C3%A9");
    assert_eq!(percent_encode("/?"), "%2F%3F");
    assert_eq!(percent_encode(""), "");
}

#[test]
fn percent_encode_round_trips_through_decoding() {
    // Decoding `%XX` and `+` gives back the bytes of the input.
    let input = "Hello, wörld & more+";
    let enc = percent_encode(input);
    let mut out: Vec<u8> = Vec::new();
    let b = enc.as_bytes();
    let mut i = 0;
    while i < b.len() {
        if b[i] == b'%' {
            let h = std::str::from_utf8(&b[i + 1..i + 3]).unwrap();
            out.push(u8::from_str_radix(h, 16).unwrap());
            i += 3;
        } else if b[i] == b'+' {
            out.push(b' ');
            i += 1;
        } else {
            out.push(b[i]);
            i += 1;
        }
    }
    assert_eq!(out, input.as_bytes());
}

#[test]
fn clean_chapter_html_drops_scripts_and_resolves_images() {
    let html = "<p>Hi</p><script>track()</script><img src=\"/img/a.png\">";
    let out = clean_chapter_html(html, "https://site.com/novel/1");
    assert_eq!(out, "<p>Hi</p><img src=\"https://site.com/img/a.png\">");
}

#[test]
fn clean_chapter_html_drops_ad_blocks() {
    let html = "<div class=\"ads\">buy</div><p>Text</p><style>p{}</style>";
    let out = clean_chapter_html(html, "not a url");
    assert_eq!(out, "<p>Text</p>");
}

#[test]
fn clean_chapter_html_keeps_images_without_a_base() {
    let html = "<img src=\"/a.png\">";
    assert_eq!(clean_chapter_html(html, "relative/base"), "<img src=\"/a.png\">");
}

#[test]
fn catalogue_has_every_source() {
    let all = sources();
    assert_eq!(all.len(), 49);
    assert_eq!(all[0].name, "BrightNovels");
    assert_eq!(all[48].name, "RanobeLib");
    assert_eq!(all[48].language, "ru");
    assert!(!all[48].supports_search);
}

#[test]
fn find_source_by_host() {
    let s = find_source_for_url("https://www.royalroad.com/fiction/1").unwrap();
    assert_eq!(s.name, "Royal Road");
    let s = find_source_for_url("https://novelfull.com/x").unwrap();
    assert_eq!(s.name, "NovelFull");
    assert!(find_source_for_url("https://sub.novelfull.com/x").is_none());
    let s = find_source_for_url("https://WWW.ScribbleHub.com/").unwrap();
    assert_eq!(s.name, "ScribbleHub");
    assert!(find_source_for_url("https://example.com").is_none());
    assert!(find_source_for_url("nonsense").is_none());
}

#[test]
fn filter_sources_by_pattern() {
    let names: Vec<&str> = filter_sources("^royal").iter().map(|s| s.name).collect();
    assert_eq!(names, vec!["Royal Road"]);
    let names: Vec<&str> = filter_sources("ranobe").iter().map(|s| s.name).collect();
    assert_eq!(names, vec!["Ranobes", "RanobeLib"]);
    assert!(filter_sources("(").is_empty());
    assert_eq!(filter_sources("").len(), 49);
}

#[test]
fn every_base_url_leads_back_to_its_crawler() {
    for c in all_crawlers() {
        for b in c.base_urls() {
            assert_eq!(create_crawler(&format!("{}/x", b)), Some(c));
            assert_eq!(create_crawler(&format!("{}/", b)), Some(c));
            assert_eq!(create_crawler(&format!("{}/novel/a-b_1.html", b)), Some(c));
            assert_eq!(create_crawler(&format!("{}/x", b.to_uppercase())), Some(c));
        }
    }
}

#[test]
fn percent_encode_output_shape() {
    let input = "a b/é~";
    let out = percent_encode(input);
    assert_eq!(out, "a+b%2F%C3%A9~");
    let bytes = input.as_bytes();
    let expected: usize = bytes
        .iter()
        .map(|b| if b.is_ascii_alphanumeric() || b"-_.~ ".contains(b) { 1 } else { 3 })
        .sum();
    assert_eq!(out.len(), expected);
    let o = out.as_bytes();
    for i in 0..o.len() {
        if o[i] == b'%' {
            assert!(o[i + 1].is_ascii_digit() || (b'A'..=b'F').contains(&o[i + 1]));
            assert!(o[i + 2].is_ascii_digit() || (b'A'..=b'F').contains(&o[i + 2]));
        }
    }
}

#[test]
fn clean_chapter_html_drops_unquoted_ad_blocks() {
    let out = clean_chapter_html("<p>a</p><div class=ads>buy</div>", "not a url");
    assert_eq!(out, "<p>a</p>");
}

#[test]
fn clean_chapter_html_keeps_clean_markup_as_written() {
    let html = "<p class=x>a</p>";
    assert_eq!(clean_chapter_html(html, "not a url"), html);
}

#[test]
fn append_links_keeps_page_order() {
    let mut pairs = vec![("A".to_string(), "u1".to_string())];
    append_links(&mut pairs, vec![("B".to_string(), "u2".to_string()), ("C".to_string(), "u3".to_string())]);
    let titles: Vec<&str> = pairs.iter().map(|p| p.0.as_str()).collect();
    assert_eq!(titles, vec!["A", "B", "C"]);
}

#[test]
fn clean_chapter_html_resolves_every_root_relative_source() {
    let html = "<img src=\"/a.png\"><img src=\"http://x.com/b.png\"><img src=\"/c d.png\">";
    let out = clean_chapter_html(html, "https://site.com/novel/1");
    assert_eq!(
        out,
        "<img src=\"https://site.com/a.png\"><img src=\"http://x.com/b.png\"><img src=\"https://site.com/c%20d.png\">"
    );
}
