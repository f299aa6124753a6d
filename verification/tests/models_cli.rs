use lncrawl::cli::{CrawlArgs, SearchArgs};
use lncrawl::models::{html_to_text, Chapter, Novel, OutputFormat, Volume};

fn chapter(id: usize, vol: Option<usize>) -> Chapter {
    let mut c = Chapter::new(id, &format!("Chapter {}", id), &format!("https://x.com/c/{}", id));
    c.volume_id = vol;
    c
}

#[test]
fn novel_new_sets_url_and_language() {
    let n = Novel::new("https://x.com/novel");
    assert_eq!(n.url, "https://x.com/novel");
    assert_eq!(n.language, "en");
    assert_eq!(n.title, "");
    assert!(n.author.is_none());
    assert!(n.cover_url.is_none());
    assert!(n.synopsis.is_none());
    assert!(n.volumes.is_empty());
    assert!(n.chapters.is_empty());
}

#[test]
fn chapters_in_volume_keeps_only_that_volume() {
    let mut n = Novel::new("u");
    n.chapters = vec![chapter(1, Some(1)), chapter(2, Some(2)), chapter(3, Some(1)), chapter(4, None)];
    let v1: Vec<usize> = n.chapters_in_volume(1).iter().map(|c| c.id).collect();
    assert_eq!(v1, vec![1, 3]);
    let v2: Vec<usize> = n.chapters_in_volume(2).iter().map(|c| c.id).collect();
    assert_eq!(v2, vec![2]);
    assert!(n.chapters_in_volume(9).is_empty());
}

#[test]
fn chapter_range_title_for_none_one_and_many() {
    let mut n = Novel::new("u");
    assert_eq!(n.chapter_range_title(), "");
    n.chapters = vec![chapter(7, None)];
    assert_eq!(n.chapter_range_title(), "c0007");
    n.chapters = vec![chapter(3, None), chapter(5, None), chapter(12, None)];
    assert_eq!(n.chapter_range_title(), "c0003-c0012");
    n.chapters = vec![chapter(12345, None), chapter(2, None)];
    assert_eq!(n.chapter_range_title(), "c12345-c0002");
}

#[test]
fn volume_and_chapter_constructors() {
    let v = Volume::new(2, "Book Two");
    assert_eq!(v.id, 2);
    assert_eq!(v.title, "Book Two");
    let c = Chapter::new(4, "Four", "https://x.com/4");
    assert_eq!(c.id, 4);
    assert_eq!(c.title, "Four");
    assert_eq!(c.url, "https://x.com/4");
    assert!(c.volume_id.is_none());
    assert!(c.body.is_none());
}

#[test]
fn plain_text_of_missing_body_is_empty() {
    let c = Chapter::new(1, "t", "u");
    assert_eq!(c.plain_text(), "");
}

#[test]
fn plain_text_collapses_blank_lines() {
    let mut c = Chapter::new(1, "t", "u");
    c.body = Some("<p>  Hello </p>\n\n\n<p>World</p>".to_string());
    assert_eq!(c.plain_text(), "Hello\n\nWorld\n");
}

#[test]
fn html_to_text_strips_tags() {
    assert_eq!(html_to_text("<p>One <b>two</b></p>\n<p>three</p>"), "One two\nthree\n");
    assert_eq!(html_to_text(""), "");
}

#[test]
fn output_format_from_str_is_case_insensitive() {
    assert_eq!(OutputFormat::from_str("JSON"), Some(OutputFormat::Json));
    assert_eq!(OutputFormat::from_str("epub"), Some(OutputFormat::Epub));
    assert_eq!(OutputFormat::from_str("Txt"), Some(OutputFormat::Txt));
    assert_eq!(OutputFormat::from_str("text"), Some(OutputFormat::Txt));
    assert_eq!(OutputFormat::from_str("pdf"), None);
    assert_eq!(OutputFormat::from_str(""), None);
}

#[test]
fn output_format_extensions() {
    assert_eq!(OutputFormat::Json.extension(), "json");
    assert_eq!(OutputFormat::Epub.extension(), "epub");
    assert_eq!(OutputFormat::Txt.extension(), "txt");
}

#[test]
fn all_formats_lists_the_three() {
    assert_eq!(
        OutputFormat::all_formats(),
        vec![OutputFormat::Json, OutputFormat::Epub, OutputFormat::Txt]
    );
}

#[test]
fn extension_parses_back_to_the_format() {
    for f in OutputFormat::all_formats() {
        assert_eq!(OutputFormat::from_str(f.extension()), Some(f));
    }
}

fn args() -> CrawlArgs {
    CrawlArgs::default()
}

#[test]
fn select_indices_defaults_to_all() {
    assert_eq!(args().select_indices(4), vec![0, 1, 2, 3]);
    let mut a = args();
    a.all = true;
    a.first = Some(1);
    assert_eq!(a.select_indices(3), vec![0, 1, 2]);
}

#[test]
fn select_indices_first_and_last() {
    let mut a = args();
    a.first = Some(3);
    assert_eq!(a.select_indices(10), vec![0, 1, 2]);
    assert_eq!(a.select_indices(2), vec![0, 1]);
    let mut b = args();
    b.last = Some(3);
    assert_eq!(b.select_indices(10), vec![7, 8, 9]);
    assert_eq!(b.select_indices(2), vec![0, 1]);
}

#[test]
fn select_indices_range_is_one_based_inclusive() {
    let mut a = args();
    a.range = Some(vec![2, 4]);
    assert_eq!(a.select_indices(10), vec![1, 2, 3]);
    a.range = Some(vec![0, 2]);
    assert_eq!(a.select_indices(10), vec![0, 1]);
    a.range = Some(vec![8, 20]);
    assert_eq!(a.select_indices(10), vec![7, 8, 9]);
    a.range = Some(vec![5, 3]);
    assert!(a.select_indices(10).is_empty());
}

#[test]
fn select_indices_with_only_volumes_takes_all() {
    let mut a = args();
    a.volumes = Some(vec![1]);
    assert_eq!(a.select_indices(3), vec![0, 1, 2]);
}

#[test]
fn selected_indices_stay_in_bounds() {
    for total in 0..6usize {
        for n in 0..8usize {
            let mut a = args();
            a.first = Some(n);
            assert!(a.select_indices(total).iter().all(|&i| i < total));
            let mut b = args();
            b.last = Some(n);
            assert!(b.select_indices(total).iter().all(|&i| i < total));
            let mut c = args();
            c.range = Some(vec![n, total + 2]);
            assert!(c.select_indices(total).iter().all(|&i| i < total));
        }
    }
}

#[test]
fn resolved_formats_default_and_parsed() {
    assert_eq!(
        args().resolved_formats(),
        vec![OutputFormat::Json, OutputFormat::Epub, OutputFormat::Txt]
    );
    let mut a = args();
    a.format = vec!["epub".to_string(), "bogus".to_string(), "TXT".to_string()];
    assert_eq!(a.resolved_formats(), vec![OutputFormat::Epub, OutputFormat::Txt]);
    a.format = vec!["nope".to_string()];
    assert!(a.resolved_formats().is_empty());
}

#[test]
fn search_args_hold_their_values() {
    let s = SearchArgs { query: "q".to_string(), sources: None, limit: 10 };
    assert_eq!(s.query, "q");
    assert_eq!(s.limit, 10);
}

#[test]
fn plain_text_never_has_two_blank_lines_in_a_row() {
    let out = html_to_text("<p>a</p>\n\n\n\n<p>b</p>\n\n\n");
    assert_eq!(out, "a\n\nb\n\n");
    assert!(!out.contains("\n\n\n"));
}
