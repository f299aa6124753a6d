use lncrawl::crawler::CrawlerKind;
use lncrawl::models::{Chapter, Novel, OutputFormat, Volume};
use lncrawl::output::epub::{
    build_chapter_xhtml, build_nav_xhtml, build_ncx, build_opf_dated, chrono_now, epub_entries,
    slugify, stamp_for, xml_escape,
};
use lncrawl::output::txt::render;
use lncrawl::output::{build_filename, output_dir_name, output_file_name, rename_target};
use lncrawl::session::{
    chapter_choice_indices, count_downloaded, crawlers_for_sources, detect_existing_formats,
    formats_from_choice, is_url_input, load_downloaded_urls, merge_chapters, passes_filter,
    pending_indices, selected_with_body, str_contains, synopsis_preview, update_formats,
    updated_novel, limit_results, ChapterChoice,
};

fn ch(id: usize, url: &str, body: Option<&str>) -> Chapter {
    let mut c = Chapter::new(id, &format!("Ch {}", id), url);
    c.body = body.map(|b| b.to_string());
    c
}

fn novel_with(chs: Vec<Chapter>) -> Novel {
    let mut n = Novel::new("https://x.com/n");
    n.title = "Title".to_string();
    n.chapters = chs;
    n
}

#[test]
fn downloaded_urls_are_those_with_a_body() {
    assert!(load_downloaded_urls(&None).is_empty());
    let n = novel_with(vec![ch(1, "a", Some("x")), ch(2, "b", None), ch(3, "c", Some(""))]);
    assert_eq!(load_downloaded_urls(&Some(n)), vec!["a".to_string(), "c".to_string()]);
}

#[test]
fn counting_and_pending() {
    let chs = vec![ch(1, "a", None), ch(2, "b", None), ch(3, "c", None)];
    let urls = vec!["b".to_string(), "zz".to_string()];
    assert_eq!(count_downloaded(&chs, &urls), 1);
    assert_eq!(pending_indices(&vec![2, 1, 0], &chs, &urls), vec![2, 0]);
}

#[test]
fn menu_choices() {
    let chs: Vec<Chapter> = (1..=5).map(|i| ch(i, &format!("u{}", i), None)).collect();
    let urls = vec!["u2".to_string()];
    assert_eq!(chapter_choice_indices(&ChapterChoice::Missing, &chs, &urls), vec![0, 2, 3, 4]);
    assert_eq!(chapter_choice_indices(&ChapterChoice::All, &chs, &urls), vec![0, 1, 2, 3, 4]);
    assert_eq!(chapter_choice_indices(&ChapterChoice::First(3), &chs, &urls), vec![0, 2]);
    assert_eq!(chapter_choice_indices(&ChapterChoice::Last(2), &chs, &urls), vec![3, 4]);
    assert_eq!(chapter_choice_indices(&ChapterChoice::Last(9), &chs, &urls), vec![0, 2, 3, 4]);
    assert_eq!(chapter_choice_indices(&ChapterChoice::Range(2, 4), &chs, &urls), vec![2, 3]);
    assert_eq!(chapter_choice_indices(&ChapterChoice::Range(0, 1), &chs, &urls), vec![0]);
}

#[test]
fn selected_chapters_with_body() {
    let chs = vec![ch(1, "a", Some("x")), ch(2, "b", None), ch(3, "c", Some("y"))];
    let got: Vec<usize> = selected_with_body(&vec![2, 1, 0], &chs).iter().map(|c| c.id).collect();
    assert_eq!(got, vec![3, 1]);
}

#[test]
fn merge_replaces_by_id_and_sorts() {
    let prev = vec![ch(3, "c", Some("old3")), ch(1, "a", Some("old1")), ch(2, "b", Some("old2"))];
    let new2 = ch(2, "b", Some("new2"));
    let new5 = ch(5, "e", Some("new5"));
    let merged = merge_chapters(&prev, &[&new5, &new2]);
    let ids: Vec<usize> = merged.iter().map(|c| c.id).collect();
    assert_eq!(ids, vec![1, 2, 3, 5]);
    assert_eq!(merged[1].body.as_deref(), Some("new2"));
    assert_eq!(merged[0].body.as_deref(), Some("old1"));
    assert!(merged.windows(2).all(|w| w[0].id <= w[1].id));
}

#[test]
fn merge_of_nothing_new_sorts_the_old() {
    let prev = vec![ch(2, "b", None), ch(1, "a", None)];
    let ids: Vec<usize> = merge_chapters(&prev, &[]).iter().map(|c| c.id).collect();
    assert_eq!(ids, vec![1, 2]);
}

#[test]
fn format_detection_and_menu() {
    let some = |s: &str| Some(s.to_string());
    assert_eq!(detect_existing_formats(&vec![some("json"), None, some("json")]), Some(vec![OutputFormat::Json]));
    assert_eq!(detect_existing_formats(&vec![some("epub"), some("png")]), Some(vec![OutputFormat::Epub]));
    assert_eq!(detect_existing_formats(&vec![some("json"), some("txt")]), None);
    assert_eq!(detect_existing_formats(&vec![]), None);
    assert_eq!(formats_from_choice(&vec![]), vec![OutputFormat::Json]);
    assert_eq!(formats_from_choice(&vec![2, 0]), vec![OutputFormat::Txt, OutputFormat::Json]);
    assert_eq!(
        update_formats(&vec!["EPUB".to_string(), "x".to_string()], Some(vec![OutputFormat::Txt])),
        vec![OutputFormat::Epub]
    );
    assert_eq!(update_formats(&vec![], Some(vec![OutputFormat::Txt])), vec![OutputFormat::Txt]);
    assert_eq!(update_formats(&vec![], None), vec![OutputFormat::Json]);
}

#[test]
fn interactive_input_and_filters() {
    assert!(is_url_input("https://x.com"));
    assert!(is_url_input("http://x.com"));
    assert!(!is_url_input("httpx"));
    assert!(!is_url_input("sword"));
    assert!(str_contains("hello world", "o w"));
    assert!(str_contains("abc", ""));
    assert!(!str_contains("abc", "abcd"));
    assert!(passes_filter("my_novel", "Other", "NOVEL"));
    assert!(passes_filter("dir", "The Great Tale", "great"));
    assert!(!passes_filter("dir", "Title", "zzz"));
}

#[test]
fn search_source_filter() {
    let m = vec!["https://www.royalroad.com".to_string(), "https://novelbin.com".to_string()];
    assert_eq!(crawlers_for_sources(&m), vec![CrawlerKind::RoyalRoad, CrawlerKind::NovelBin]);
    assert!(crawlers_for_sources(&vec![]).is_empty());
}

#[test]
fn synopsis_preview_cuts_at_220() {
    let (p, more) = synopsis_preview("short");
    assert_eq!(p, "short");
    assert!(!more);
    let long = "x".repeat(230);
    let (p, more) = synopsis_preview(&long);
    assert_eq!(p.len(), 220);
    assert!(more);
}

#[test]
fn update_takes_fresh_metadata_and_merges() {
    let mut existing = novel_with(vec![ch(1, "a", Some("1")), ch(2, "b", Some("2"))]);
    existing.language = "fr".to_string();
    let mut fresh = novel_with(vec![]);
    fresh.title = "New Title".to_string();
    fresh.author = Some("Au".to_string());
    fresh.volumes = vec![Volume::new(1, "V")];
    let c3 = ch(3, "c", Some("3"));
    let u = updated_novel(&existing, &fresh, &[&c3]);
    assert_eq!(u.title, "New Title");
    assert_eq!(u.author.as_deref(), Some("Au"));
    assert_eq!(u.language, "fr");
    assert_eq!(u.url, existing.url);
    assert_eq!(u.volumes.len(), 1);
    let ids: Vec<usize> = u.chapters.iter().map(|c| c.id).collect();
    assert_eq!(ids, vec![1, 2, 3]);
}

#[test]
fn file_and_directory_names() {
    let mut n = Novel::new("u");
    n.title = "My Novel: Part-2_x!".to_string();
    assert_eq!(build_filename(&n), "My_Novel__Part-2_x_");
    assert_eq!(output_file_name("stem", OutputFormat::Epub), "stem.epub");
    assert_eq!(output_dir_name("  My Novel: Part-2  "), "My_Novel__Part-2");
    assert_eq!(output_dir_name("Été"), "Été");
}

#[test]
fn file_stems_have_only_safe_characters() {
    let mut n = Novel::new("u");
    n.title = "a/b\\c:d*e?f\"g<h>i|j k.l".to_string();
    let stem = build_filename(&n);
    assert!(stem.chars().all(|c| c.is_alphanumeric() || c == '-' || c == '_'));
    assert_eq!(stem.chars().count(), n.title.chars().count());
}

#[test]
fn old_chapter_range_files_are_renamed() {
    assert_eq!(rename_target("Tale_c0001-c0010", Some("epub"), "Tale").as_deref(), Some("Tale.epub"));
    assert_eq!(rename_target("Tale_c0001", None, "Tale"), None);
    assert_eq!(rename_target("Tale", Some("epub"), "Tale"), None);
    assert_eq!(rename_target("Other_c1", Some("txt"), "Tale"), None);
}

#[test]
fn txt_document_layout() {
    let mut n = Novel::new("https://x.com/n");
    n.title = "T".to_string();
    n.author = Some("A".to_string());
    n.synopsis = Some("S".to_string());
    let c = ch(1, "u", Some("<p>Hi</p>"));
    let out = render(&n, &[&c]);
    let bar = "=".repeat(72);
    let expected = format!("T\nAuthor: A\nSource: https://x.com/n\n\nS\n\n{bar}\n\nCh 1\n----\n\nHi\n\n{bar}\n");
    assert_eq!(out, expected);
    let bare = render(&Novel::new("u"), &[]);
    assert_eq!(bare, format!("\nSource: u\n{bar}\n"));
}

#[test]
fn xml_escaping_and_slugs() {
    assert_eq!(xml_escape("a<b>&\"c'"), "a&lt;b&gt;&amp;&quot;c&apos;");
    assert_eq!(xml_escape("&amp;"), "&amp;amp;");
    assert_eq!(slugify("Hello, World 2!"), "hello__world_2_");
    let escaped = xml_escape("<tag attr='v'>&</tag>");
    assert!(!escaped.contains('<') && !escaped.contains('>') && !escaped.contains('"') && !escaped.contains('\''));
}

#[test]
fn dates_are_year_stamps() {
    assert_eq!(stamp_for(0), "1970-01-01T00:00:00Z");
    assert_eq!(stamp_for(86400 * 365 * 30), "2000-01-01T00:00:00Z");
    let now = chrono_now();
    assert!(now.ends_with("-01-01T00:00:00Z"));
    assert!(now.len() >= 20);
}

#[test]
fn epub_documents() {
    let mut c = ch(7, "u", None);
    c.title = "A & B".to_string();
    let x = build_chapter_xhtml(&c);
    assert!(x.contains("<title>A &amp; B</title>"));
    assert!(x.contains("<p>[Chapter content not available]</p>"));
    let mut n = Novel::new("u");
    n.title = "Bk".to_string();
    let nav = build_nav_xhtml(&n, &[&c]);
    assert!(nav.contains("      <li><a href=\"chapters/ch0007.xhtml\">A &amp; B</a></li>"));
    let ncx = build_ncx(&n, &[&c]);
    assert!(ncx.contains("<docTitle><text>Bk</text></docTitle>"));
    assert!(ncx.contains("<navPoint id=\"navpoint-1\" playOrder=\"1\">"));
    let opf = build_opf_dated(&n, &[&c], "2024-01-01T00:00:00Z");
    assert!(opf.contains("<dc:creator>Unknown Author</dc:creator>"));
    assert!(opf.contains("urn:uuid:lncrawl-rs-bk</dc:identifier>"));
    assert!(opf.contains("<itemref idref=\"ch0007\"/>"));
    assert!(opf.contains("<meta property=\"dcterms:modified\">2024-01-01T00:00:00Z</meta>"));
}

#[test]
fn epub_entry_order() {
    let n = Novel::new("u");
    let a = ch(1, "a", Some("<p>a</p>"));
    let b = ch(12, "b", Some("<p>b</p>"));
    let entries = epub_entries(&n, &[&a, &b]);
    let paths: Vec<&str> = entries.iter().map(|e| e.path.as_str()).collect();
    assert_eq!(
        paths,
        vec![
            "mimetype",
            "META-INF/container.xml",
            "OEBPS/css/style.css",
            "OEBPS/chapters/ch0001.xhtml",
            "OEBPS/chapters/ch0012.xhtml",
            "OEBPS/nav.xhtml",
            "OEBPS/toc.ncx",
            "OEBPS/content.opf",
        ]
    );
    assert!(entries[0].stored);
    assert_eq!(entries[0].content, "application/epub+zip");
    assert!(entries[1..].iter().all(|e| !e.stored));
}

fn result(title: &str) -> lncrawl::models::SearchResult {
    lncrawl::models::SearchResult {
        title: title.to_string(),
        url: format!("https://x.com/{}", title),
        author: None,
        cover_url: None,
        synopsis: None,
        source_name: "X".to_string(),
    }
}

#[test]
fn limit_results_keeps_the_first() {
    let r = limit_results(vec![result("a"), result("b"), result("c")], 2);
    let titles: Vec<&str> = r.iter().map(|x| x.title.as_str()).collect();
    assert_eq!(titles, vec!["a", "b"]);
    assert_eq!(limit_results(vec![result("a")], 5).len(), 1);
    assert_eq!(limit_results(vec![result("a")], 0).len(), 0);
}
