//! EPUB 3 content: the XHTML, NCX and OPF documents of the package and the
//! list of entries of the archive, in the order they are stored.

use vstd::prelude::*;

use crate::models::{Chapter, Novel};
use crate::text::{
    alphanumeric, chars_of, decimal, is_alphanumeric, joined_lines, lemma_joined_lines_step,
    lower_first, lowercase_first, padded_decimal, push_all, push_str, replace_all, replace_chars,
    string_from_chars, zero_pad,
};

verus! {

pub const CONTAINER_XML: &'static str = "<?xml version=\"1.0\" encoding=\"UTF-8\"?>\n<container version=\"1.0\"\n           xmlns=\"urn:oasis:names:tc:opendocument:xmlns:container\">\n  <rootfiles>\n    <rootfile full-path=\"OEBPS/content.opf\"\n              media-type=\"application/oebps-package+xml\"/>\n  </rootfiles>\n</container>";
pub const STYLESHEET: &'static str = "body {\n  font-family: Georgia, \"Times New Roman\", serif;\n  line-height: 1.6;\n  margin: 2em;\n  max-width: 40em;\n}\nh1, h2, h3 { margin-top: 1.5em; }\np { margin: 0.5em 0; text-indent: 1.5em; }\np:first-of-type { text-indent: 0; }\n";
pub const CHAPTER_0: &'static str = "<?xml version=\"1.0\" encoding=\"UTF-8\"?>\n<!DOCTYPE html>\n<html xmlns=\"http://www.w3.org/1999/xhtml\">\n<head>\n  <meta charset=\"utf-8\"/>\n  <title>";
pub const CHAPTER_1: &'static str = "</title>\n  <link rel=\"stylesheet\" type=\"text/css\" href=\"../css/style.css\"/>\n</head>\n<body>\n  <h2>";
pub const CHAPTER_2: &'static str = "</h2>\n  <div class=\"chapter-content\">\n    ";
pub const CHAPTER_3: &'static str = "\n  </div>\n</body>\n</html>";
pub const NAV_ITEM_0: &'static str = "      <li><a href=\"chapters/ch";
pub const NAV_ITEM_1: &'static str = ".xhtml\">";
pub const NAV_ITEM_2: &'static str = "</a></li>";
pub const NAV_0: &'static str = "<?xml version=\"1.0\" encoding=\"UTF-8\"?>\n<!DOCTYPE html>\n<html xmlns=\"http://www.w3.org/1999/xhtml\"\n      xmlns:epub=\"http://www.idpf.org/2007/ops\">\n<head>\n  <meta charset=\"utf-8\"/>\n  <title>Table of Contents</title>\n</head>\n<body>\n  <nav epub:type=\"toc\" id=\"toc\">\n    <h1>Table of Contents</h1>\n    <ol>\n";
pub const NAV_1: &'static str = "\n    </ol>\n  </nav>\n</body>\n</html>";
pub const NCX_POINT_0: &'static str = "  <navPoint id=\"navpoint-";
pub const NCX_POINT_1: &'static str = "\" playOrder=\"";
pub const NCX_POINT_2: &'static str = "\">\n    <navLabel><text>";
pub const NCX_POINT_3: &'static str = "</text></navLabel>\n    <content src=\"chapters/ch";
pub const NCX_POINT_4: &'static str = ".xhtml\"/>\n  </navPoint>";
pub const NCX_0: &'static str = "<?xml version=\"1.0\" encoding=\"UTF-8\"?>\n<ncx xmlns=\"http://www.daisy.org/z3986/2005/ncx/\" version=\"2005-1\">\n  <head>\n    <meta name=\"dtb:uid\" content=\"urn:uuid:lncrawl-rs\"/>\n  </head>\n  <docTitle><text>";
pub const NCX_1: &'static str = "</text></docTitle>\n  <navMap>\n";
pub const NCX_2: &'static str = "\n  </navMap>\n</ncx>";
pub const MANIFEST_ITEM_0: &'static str = "    <item id=\"ch";
pub const MANIFEST_ITEM_1: &'static str = "\" href=\"chapters/ch";
pub const MANIFEST_ITEM_2: &'static str = ".xhtml\" media-type=\"application/xhtml+xml\"/>";
pub const SPINE_ITEM_0: &'static str = "    <itemref idref=\"ch";
pub const SPINE_ITEM_1: &'static str = "\"/>";
pub const OPF_0: &'static str = "<?xml version=\"1.0\" encoding=\"UTF-8\"?>\n<package xmlns=\"http://www.idpf.org/2007/opf\"\n         version=\"3.0\"\n         unique-identifier=\"bookid\">\n  <metadata xmlns:dc=\"http://purl.org/dc/elements/1.1/\">\n    <dc:title>";
pub const OPF_1: &'static str = "</dc:title>\n    <dc:creator>";
pub const OPF_2: &'static str = "</dc:creator>\n    <dc:language>";
pub const OPF_3: &'static str = "</dc:language>\n    <dc:identifier id=\"bookid\">urn:uuid:lncrawl-rs-";
pub const OPF_4: &'static str = "</dc:identifier>\n    <meta property=\"dcterms:modified\">";
pub const OPF_5: &'static str = "</meta>\n  </metadata>\n  <manifest>\n    <item id=\"nav\"  href=\"nav.xhtml\"      media-type=\"application/xhtml+xml\" properties=\"nav\"/>\n    <item id=\"ncx\"  href=\"toc.ncx\"        media-type=\"application/x-dtbncx+xml\"/>\n    <item id=\"css\"  href=\"css/style.css\"  media-type=\"text/css\"/>\n";
pub const OPF_6: &'static str = "\n  </manifest>\n  <spine toc=\"ncx\">\n";
pub const OPF_7: &'static str = "\n  </spine>\n</package>";
pub const MISSING_BODY: &'static str = "<p>[Chapter content not available]</p>";
pub const UNKNOWN_AUTHOR: &'static str = "Unknown Author";
pub const STAMP_TAIL: &'static str = "-01-01T00:00:00Z";

// ── Escaping and slugs ───────────────────────────────────────────────────────

/// `s` with `&`, `<`, `>`, `"` and `'` replaced by their XML entities, in that
/// order.
pub open spec fn xml_escaped(s: Seq<char>) -> Seq<char> {
    replace_all(
        replace_all(
            replace_all(
                replace_all(replace_all(s, "&"@, "&amp;"@), "<"@, "&lt;"@),
                ">"@,
                "&gt;"@,
            ),
            "\""@,
            "&quot;"@,
        ),
        "'"@,
        "&apos;"@,
    )
}

/// Escape the five XML special characters.
pub fn xml_escape(s: &str) -> (r: String)
    ensures
        r@ == xml_escaped(s@),
{
    proof {
        reveal_strlit("&");
        reveal_strlit("<");
        reveal_strlit(">");
        reveal_strlit("\"");
        reveal_strlit("'");
    }
    let t = chars_of(s);
    let t = replace_chars(&t, &chars_of("&"), &chars_of("&amp;"));
    let t = replace_chars(&t, &chars_of("<"), &chars_of("&lt;"));
    let t = replace_chars(&t, &chars_of(">"), &chars_of("&gt;"));
    let t = replace_chars(&t, &chars_of("\""), &chars_of("&quot;"));
    let t = replace_chars(&t, &chars_of("'"), &chars_of("&apos;"));
    string_from_chars(&t)
}

proof fn lemma_replace_keeps_absent(s: Seq<char>, from: Seq<char>, to: Seq<char>, c: char)
    requires
        !s.contains(c),
        !to.contains(c),
    ensures
        !replace_all(s, from, to).contains(c),
    decreases s.len(),
{
    if from.len() == 0 || s.len() == 0 {
    } else if crate::text::occurs_at(s, from, 0) {
        let rest = s.skip(from.len() as int);
        assert forall|k: int| 0 <= k < rest.len() implies rest[k] != c by {
            assert(rest[k] == s[k + from.len()]);
        }
        lemma_replace_keeps_absent(rest, from, to, c);
        let r = replace_all(rest, from, to);
        assert forall|k: int| 0 <= k < (to + r).len() implies (to + r)[k] != c by {
            if k >= to.len() {
                assert((to + r)[k] == r[k - to.len()]);
            }
        }
    } else {
        let rest = s.drop_first();
        assert forall|k: int| 0 <= k < rest.len() implies rest[k] != c by {
            assert(rest[k] == s[k + 1]);
        }
        lemma_replace_keeps_absent(rest, from, to, c);
        let r = replace_all(rest, from, to);
        assert(s[0] != c);
        assert forall|k: int| 0 <= k < (seq![s[0]] + r).len() implies (seq![s[0]] + r)[k] != c by {
            if k >= 1 {
                assert((seq![s[0]] + r)[k] == r[k - 1]);
            }
        }
    }
}

proof fn lemma_replace_removes(s: Seq<char>, c: char, to: Seq<char>)
    requires
        !to.contains(c),
    ensures
        !replace_all(s, seq![c], to).contains(c),
    decreases s.len(),
{
    let from = seq![c];
    if s.len() == 0 {
    } else if crate::text::occurs_at(s, from, 0) {
        let rest = s.skip(1);
        lemma_replace_removes(rest, c, to);
        let r = replace_all(rest, from, to);
        assert forall|k: int| 0 <= k < (to + r).len() implies (to + r)[k] != c by {
            if k >= to.len() {
                assert((to + r)[k] == r[k - to.len()]);
            }
        }
    } else {
        let rest = s.drop_first();
        assert(s.subrange(0, 1) == seq![s[0]]);
        lemma_replace_removes(rest, c, to);
        let r = replace_all(rest, from, to);
        assert forall|k: int| 0 <= k < (seq![s[0]] + r).len() implies (seq![s[0]] + r)[k] != c by {
            if k >= 1 {
                assert((seq![s[0]] + r)[k] == r[k - 1]);
            }
        }
    }
}

/// Escaped text holds none of `<`, `>`, `"` and `'`, so it can stand in XML
/// character data and attribute values.
pub proof fn lemma_xml_escaped_has_no_markup(s: Seq<char>)
    ensures
        !xml_escaped(s).contains('<'),
        !xml_escaped(s).contains('>'),
        !xml_escaped(s).contains('"'),
        !xml_escaped(s).contains('\''),
{
    reveal_strlit("&");
    reveal_strlit("<");
    reveal_strlit(">");
    reveal_strlit("\"");
    reveal_strlit("'");
    reveal_strlit("&amp;");
    reveal_strlit("&lt;");
    reveal_strlit("&gt;");
    reveal_strlit("&quot;");
    reveal_strlit("&apos;");
    assert("<"@ == seq!['<']);
    assert(">"@ == seq!['>']);
    assert("\""@ == seq!['"']);
    assert("'"@ == seq!['\'']);
    let s1 = replace_all(s, "&"@, "&amp;"@);
    let s2 = replace_all(s1, "<"@, "&lt;"@);
    let s3 = replace_all(s2, ">"@, "&gt;"@);
    let s4 = replace_all(s3, "\""@, "&quot;"@);
    let s5 = replace_all(s4, "'"@, "&apos;"@);
    assert(!"&lt;"@.contains('<'));
    assert(!"&gt;"@.contains('<') && !"&gt;"@.contains('>'));
    assert(!"&quot;"@.contains('<') && !"&quot;"@.contains('>') && !"&quot;"@.contains('"'));
    assert(!"&apos;"@.contains('<') && !"&apos;"@.contains('>') && !"&apos;"@.contains('"')
        && !"&apos;"@.contains('\''));
    lemma_replace_removes(s1, '<', "&lt;"@);
    lemma_replace_keeps_absent(s2, ">"@, "&gt;"@, '<');
    lemma_replace_keeps_absent(s3, "\""@, "&quot;"@, '<');
    lemma_replace_keeps_absent(s4, "'"@, "&apos;"@, '<');
    lemma_replace_removes(s2, '>', "&gt;"@);
    lemma_replace_keeps_absent(s3, "\""@, "&quot;"@, '>');
    lemma_replace_keeps_absent(s4, "'"@, "&apos;"@, '>');
    lemma_replace_removes(s3, '"', "&quot;"@);
    lemma_replace_keeps_absent(s4, "'"@, "&apos;"@, '"');
    lemma_replace_removes(s4, '\'', "&apos;"@);
}

/// A lower-case slug of a title: alphanumerics lower-cased, all else `_`.
pub open spec fn slug(s: Seq<char>) -> Seq<char> {
    s.map_values(|c: char| if alphanumeric(c) { lower_first(c) } else { '_' })
}

/// The slug of a title, used in the package identifier.
pub fn slugify(s: &str) -> (r: String)
    ensures
        r@ == slug(s@),
{
    let cs = chars_of(s);
    let ghost f = |c: char| if alphanumeric(c) { lower_first(c) } else { '_' };
    let mut out: Vec<char> = Vec::new();
    let mut i: usize = 0;
    while i < cs.len()
        invariant
            i <= cs.len(),
            cs@ == s@,
            f == (|c: char| if alphanumeric(c) { lower_first(c) } else { '_' }),
            out@ == cs@.take(i as int).map_values(f),
        decreases cs.len() - i,
    {
        let c = cs[i];
        if is_alphanumeric(c) {
            out.push(lowercase_first(c));
        } else {
            out.push('_');
        }
        i = i + 1;
        assert(cs@.take(i as int).map_values(f) == cs@.take((i - 1) as int).map_values(f).push(
            f(c),
        ));
    }
    assert(cs@.take(i as int) == cs@);
    string_from_chars(&out)
}

// ── Dates ────────────────────────────────────────────────────────────────────

/// The modification stamp for a Unix time: the year estimated as
/// `1970 + days / 365`, then `-01-01T00:00:00Z`.
pub open spec fn year_stamp(secs: u64) -> Seq<char> {
    decimal((1970 + secs / 86400 / 365) as nat) + STAMP_TAIL@
}

/// The stamp for a given Unix time in seconds.
pub fn stamp_for(secs: u64) -> (r: String)
    ensures
        r@ == year_stamp(secs),
{
    let year: u64 = 1970 + secs / 86400 / 365;
    let mut out = crate::text::decimal_chars(year as u128);
    push_str(&mut out, STAMP_TAIL);
    string_from_chars(&out)
}

/// Seconds since the Unix epoch on the system clock, 0 when the clock is
/// before the epoch (`SystemTime::now().duration_since(UNIX_EPOCH)`). The
/// value depends on the time of the call, so nothing is stated of it.
#[verifier::external_body]
fn unix_now_secs() -> (r: u64) {
    std::time::SystemTime::now().duration_since(std::time::UNIX_EPOCH).map(|d| d.as_secs()).unwrap_or(0)
}

/// The stamp for the current time.
pub fn chrono_now() -> (r: String)
    ensures
        exists|secs: u64| r@ == year_stamp(secs),
{
    let secs = unix_now_secs();
    stamp_for(secs)
}

// ── Documents ────────────────────────────────────────────────────────────────

/// A chapter id padded to four digits.
pub open spec fn id4(id: usize) -> Seq<char> {
    zero_pad(decimal(id as nat), 4)
}

fn push_id4(out: &mut Vec<char>, id: usize)
    ensures
        final(out)@ == old(out)@ + id4(id),
{
    let d = padded_decimal(id as u128, 4);
    push_all(out, &d);
}

/// The body shown for a chapter: its HTML, or a placeholder paragraph.
pub open spec fn body_or_placeholder(c: &Chapter) -> Seq<char> {
    match c.body {
        Some(b) => b@,
        None => MISSING_BODY@,
    }
}

/// The XHTML document of one chapter.
pub open spec fn chapter_xhtml(c: &Chapter) -> Seq<char> {
    let t = xml_escaped(c.title@);
    CHAPTER_0@ + t + CHAPTER_1@ + t + CHAPTER_2@ + body_or_placeholder(c) + CHAPTER_3@
}

pub fn build_chapter_xhtml(chapter: &Chapter) -> (r: String)
    ensures
        r@ == chapter_xhtml(chapter),
{
    let t = xml_escape(chapter.title.as_str());
    let mut out: Vec<char> = Vec::new();
    push_str(&mut out, CHAPTER_0);
    push_str(&mut out, t.as_str());
    push_str(&mut out, CHAPTER_1);
    push_str(&mut out, t.as_str());
    push_str(&mut out, CHAPTER_2);
    match &chapter.body {
        Some(b) => push_str(&mut out, b.as_str()),
        None => push_str(&mut out, MISSING_BODY),
    }
    push_str(&mut out, CHAPTER_3);
    string_from_chars(&out)
}

/// The table-of-contents entry of a chapter in the navigation document.
pub open spec fn nav_item(c: &Chapter) -> Seq<char> {
    NAV_ITEM_0@ + id4(c.id) + NAV_ITEM_1@ + xml_escaped(c.title@) + NAV_ITEM_2@
}

/// The navigation document (EPUB 3).
pub open spec fn nav_xhtml(chs: Seq<&Chapter>) -> Seq<char> {
    NAV_0@ + joined_lines(Seq::new(chs.len(), |i: int| nav_item(chs[i]))) + NAV_1@
}

pub fn build_nav_xhtml(novel: &Novel, chapters: &[&Chapter]) -> (r: String)
    ensures
        r@ == nav_xhtml(chapters@),
{
    let ghost items = Seq::new(chapters@.len(), |i: int| nav_item(chapters@[i]));
    let mut out: Vec<char> = Vec::new();
    push_str(&mut out, NAV_0);
    let ghost head = out@;
    let mut i: usize = 0;
    while i < chapters.len()
        invariant
            i <= chapters@.len(),
            items == Seq::new(chapters@.len(), |i: int| nav_item(chapters@[i])),
            out@ == head + joined_lines(items.take(i as int)),
        decreases chapters.len() - i,
    {
        proof {
            lemma_joined_lines_step(items, i as int);
        }
        let c = chapters[i];
        if i > 0 {
            out.push('\n');
        }
        push_str(&mut out, NAV_ITEM_0);
        push_id4(&mut out, c.id);
        push_str(&mut out, NAV_ITEM_1);
        let t = xml_escape(c.title.as_str());
        push_str(&mut out, t.as_str());
        push_str(&mut out, NAV_ITEM_2);
        i = i + 1;
    }
    assert(items.take(i as int) == items);
    push_str(&mut out, NAV_1);
    string_from_chars(&out)
}

/// The navigation point of the chapter at position `i` (numbered from 1).
pub open spec fn ncx_point(i: int, c: &Chapter) -> Seq<char> {
    let idx = decimal((i + 1) as nat);
    NCX_POINT_0@ + idx + NCX_POINT_1@ + idx + NCX_POINT_2@ + xml_escaped(c.title@)
        + NCX_POINT_3@ + id4(c.id) + NCX_POINT_4@
}

/// The NCX document (EPUB 2 fallback).
pub open spec fn ncx_xml(title: Seq<char>, chs: Seq<&Chapter>) -> Seq<char> {
    NCX_0@ + xml_escaped(title) + NCX_1@ + joined_lines(
        Seq::new(chs.len(), |i: int| ncx_point(i, chs[i])),
    ) + NCX_2@
}

fn push_ncx_point(out: &mut Vec<char>, i: usize, c: &Chapter)
    requires
        i < usize::MAX,
    ensures
        final(out)@ == old(out)@ + ncx_point(i as int, c),
{
    let idx = crate::text::decimal_chars((i + 1) as u128);
    push_str(out, NCX_POINT_0);
    push_all(out, &idx);
    push_str(out, NCX_POINT_1);
    push_all(out, &idx);
    push_str(out, NCX_POINT_2);
    let ct = xml_escape(c.title.as_str());
    push_str(out, ct.as_str());
    push_str(out, NCX_POINT_3);
    push_id4(out, c.id);
    push_str(out, NCX_POINT_4);
}

pub fn build_ncx(novel: &Novel, chapters: &[&Chapter]) -> (r: String)
    ensures
        r@ == ncx_xml(novel.title@, chapters@),
{
    let ghost items = Seq::new(chapters@.len(), |i: int| ncx_point(i, chapters@[i]));
    let mut out: Vec<char> = Vec::new();
    push_str(&mut out, NCX_0);
    let t = xml_escape(novel.title.as_str());
    push_str(&mut out, t.as_str());
    push_str(&mut out, NCX_1);
    let ghost head = out@;
    let mut i: usize = 0;
    while i < chapters.len()
        invariant
            i <= chapters@.len(),
            items == Seq::new(chapters@.len(), |i: int| ncx_point(i, chapters@[i])),
            out@ == head + joined_lines(items.take(i as int)),
        decreases chapters.len() - i,
    {
        proof {
            lemma_joined_lines_step(items, i as int);
        }
        let c = chapters[i];
        if i > 0 {
            out.push('\n');
        }
        push_ncx_point(&mut out, i, c);
        i = i + 1;
    }
    assert(items.take(i as int) == items);
    push_str(&mut out, NCX_2);
    string_from_chars(&out)
}

/// The manifest item of a chapter.
pub open spec fn manifest_item(c: &Chapter) -> Seq<char> {
    MANIFEST_ITEM_0@ + id4(c.id) + MANIFEST_ITEM_1@ + id4(c.id) + MANIFEST_ITEM_2@
}

/// The spine entry of a chapter.
pub open spec fn spine_item(c: &Chapter) -> Seq<char> {
    SPINE_ITEM_0@ + id4(c.id) + SPINE_ITEM_1@
}

/// The author shown in the package metadata.
pub open spec fn author_or_unknown(n: &Novel) -> Seq<char> {
    match n.author {
        Some(a) => a@,
        None => UNKNOWN_AUTHOR@,
    }
}

/// The package document, with the given modification stamp.
pub open spec fn opf_xml(n: &Novel, chs: Seq<&Chapter>, date: Seq<char>) -> Seq<char> {
    OPF_0@ + xml_escaped(n.title@) + OPF_1@ + xml_escaped(author_or_unknown(n)) + OPF_2@
        + n.language@ + OPF_3@ + slug(n.title@) + OPF_4@ + date + OPF_5@ + joined_lines(
        Seq::new(chs.len(), |i: int| manifest_item(chs[i])),
    ) + OPF_6@ + joined_lines(Seq::new(chs.len(), |i: int| spine_item(chs[i]))) + OPF_7@
}

/// The package document lists the chapters in the order given: it ends
/// with the manifest, whose line `i` is chapter `i`'s item, then the spine,
/// whose line `i` is chapter `i`'s itemref, so the book reads from the first
/// chapter to the last.
pub proof fn lemma_opf_in_chapter_order(n: &Novel, chs: Seq<&Chapter>, date: Seq<char>)
    ensures
        exists|pre: Seq<char>|
            opf_xml(n, chs, date) == pre + OPF_5@ + joined_lines(
                Seq::new(chs.len(), |i: int| manifest_item(chs[i])),
            ) + OPF_6@ + joined_lines(Seq::new(chs.len(), |i: int| spine_item(chs[i]))) + OPF_7@,
{
    let pre = OPF_0@ + xml_escaped(n.title@) + OPF_1@ + xml_escaped(author_or_unknown(n)) + OPF_2@
        + n.language@ + OPF_3@ + slug(n.title@) + OPF_4@ + date;
    assert(opf_xml(n, chs, date) == pre + OPF_5@ + joined_lines(
        Seq::new(chs.len(), |i: int| manifest_item(chs[i])),
    ) + OPF_6@ + joined_lines(Seq::new(chs.len(), |i: int| spine_item(chs[i]))) + OPF_7@);
}

fn push_joined_manifest(out: &mut Vec<char>, chapters: &[&Chapter])
    ensures
        final(out)@ == old(out)@ + joined_lines(
            Seq::new(chapters@.len(), |i: int| manifest_item(chapters@[i])),
        ),
{
    let ghost items = Seq::new(chapters@.len(), |i: int| manifest_item(chapters@[i]));
    let ghost head = out@;
    let mut i: usize = 0;
    while i < chapters.len()
        invariant
            i <= chapters@.len(),
            items == Seq::new(chapters@.len(), |i: int| manifest_item(chapters@[i])),
            out@ == head + joined_lines(items.take(i as int)),
        decreases chapters.len() - i,
    {
        proof {
            lemma_joined_lines_step(items, i as int);
        }
        let c = chapters[i];
        if i > 0 {
            out.push('\n');
        }
        push_str(out, MANIFEST_ITEM_0);
        push_id4(out, c.id);
        push_str(out, MANIFEST_ITEM_1);
        push_id4(out, c.id);
        push_str(out, MANIFEST_ITEM_2);
        i = i + 1;
    }
    assert(items.take(i as int) == items);
}

fn push_joined_spine(out: &mut Vec<char>, chapters: &[&Chapter])
    ensures
        final(out)@ == old(out)@ + joined_lines(
            Seq::new(chapters@.len(), |i: int| spine_item(chapters@[i])),
        ),
{
    let ghost items = Seq::new(chapters@.len(), |i: int| spine_item(chapters@[i]));
    let ghost head = out@;
    let mut i: usize = 0;
    while i < chapters.len()
        invariant
            i <= chapters@.len(),
            items == Seq::new(chapters@.len(), |i: int| spine_item(chapters@[i])),
            out@ == head + joined_lines(items.take(i as int)),
        decreases chapters.len() - i,
    {
        proof {
            lemma_joined_lines_step(items, i as int);
        }
        let c = chapters[i];
        if i > 0 {
            out.push('\n');
        }
        push_str(out, SPINE_ITEM_0);
        push_id4(out, c.id);
        push_str(out, SPINE_ITEM_1);
        i = i + 1;
    }
    assert(items.take(i as int) == items);
}

/// The package document with the given modification stamp.
pub fn build_opf_dated(novel: &Novel, chapters: &[&Chapter], date: &str) -> (r: String)
    ensures
        r@ == opf_xml(novel, chapters@, date@),
{
    let mut out: Vec<char> = Vec::new();
    push_str(&mut out, OPF_0);
    let t = xml_escape(novel.title.as_str());
    push_str(&mut out, t.as_str());
    push_str(&mut out, OPF_1);
    let a = match &novel.author {
        Some(a) => xml_escape(a.as_str()),
        None => xml_escape(UNKNOWN_AUTHOR),
    };
    push_str(&mut out, a.as_str());
    push_str(&mut out, OPF_2);
    push_str(&mut out, novel.language.as_str());
    push_str(&mut out, OPF_3);
    let s = slugify(novel.title.as_str());
    push_str(&mut out, s.as_str());
    push_str(&mut out, OPF_4);
    push_str(&mut out, date);
    push_str(&mut out, OPF_5);
    push_joined_manifest(&mut out, chapters);
    push_str(&mut out, OPF_6);
    push_joined_spine(&mut out, chapters);
    push_str(&mut out, OPF_7);
    string_from_chars(&out)
}

/// The package document, stamped with the current time.
pub fn build_opf(novel: &Novel, chapters: &[&Chapter]) -> (r: String)
    ensures
        exists|secs: u64| r@ == opf_xml(novel, chapters@, year_stamp(secs)),
{
    let date = chrono_now();
    let r = build_opf_dated(novel, chapters, date.as_str());
    proof {
        let secs = choose|secs: u64| date@ == year_stamp(secs);
        assert(r@ == opf_xml(novel, chapters@, year_stamp(secs)));
    }
    r
}

// ── Archive layout ───────────────────────────────────────────────────────────

/// One file of the EPUB archive: its path, its text and whether it is stored
/// uncompressed (only `mimetype` is).
pub struct EpubEntry {
    pub path: String,
    pub content: String,
    pub stored: bool,
}

/// The path, text and storage flag of an entry.
pub open spec fn entry_view(e: EpubEntry) -> (Seq<char>, Seq<char>, bool) {
    (e.path@, e.content@, e.stored)
}

/// The archive path of a chapter document.
pub open spec fn chapter_path(c: &Chapter) -> Seq<char> {
    "OEBPS/chapters/ch"@ + id4(c.id) + ".xhtml"@
}

/// The entries of the archive, in order: `mimetype` first (stored), the
/// container, the stylesheet, one document per chapter, then the navigation
/// document, the NCX and the package document.
pub open spec fn epub_layout(n: &Novel, chs: Seq<&Chapter>, date: Seq<char>) -> Seq<
    (Seq<char>, Seq<char>, bool),
> {
    seq![
        ("mimetype"@, "application/epub+zip"@, true),
        ("META-INF/container.xml"@, CONTAINER_XML@, false),
        ("OEBPS/css/style.css"@, STYLESHEET@, false),
    ] + Seq::new(chs.len(), |i: int| (chapter_path(chs[i]), chapter_xhtml(chs[i]), false))
        + seq![
        ("OEBPS/nav.xhtml"@, nav_xhtml(chs), false),
        ("OEBPS/toc.ncx"@, ncx_xml(n.title@, chs), false),
        ("OEBPS/content.opf"@, opf_xml(n, chs, date), false),
    ]
}

fn entry(path: &str, content: String, stored: bool) -> (r: EpubEntry)
    ensures
        entry_view(r) == (path@, content@, stored),
{
    EpubEntry { path: path.to_owned(), content, stored }
}

/// The entries of the EPUB archive for `novel` and the given chapters, with
/// the package document stamped with the current time.
pub fn epub_entries(novel: &Novel, chapters: &[&Chapter]) -> (r: Vec<EpubEntry>)
    ensures
        exists|secs: u64|
            r@.map_values(|e: EpubEntry| entry_view(e)) == epub_layout(
                novel,
                chapters@,
                year_stamp(secs),
            ),
{
    let ghost f = |e: EpubEntry| entry_view(e);
    let mut v: Vec<EpubEntry> = Vec::new();
    let e1 = entry("mimetype", "application/epub+zip".to_owned(), true);
    let e2 = entry("META-INF/container.xml", CONTAINER_XML.to_owned(), false);
    let e3 = entry("OEBPS/css/style.css", STYLESHEET.to_owned(), false);
    v.push(e1);
    v.push(e2);
    v.push(e3);
    let ghost head = v@.map_values(f);
    assert(head =~= seq![f(e1), f(e2), f(e3)]);
    let ghost items = Seq::new(
        chapters@.len(),
        |i: int| (chapter_path(chapters@[i]), chapter_xhtml(chapters@[i]), false),
    );
    let mut i: usize = 0;
    while i < chapters.len()
        invariant
            i <= chapters@.len(),
            f == (|e: EpubEntry| entry_view(e)),
            items == Seq::new(
                chapters@.len(),
                |i: int| (chapter_path(chapters@[i]), chapter_xhtml(chapters@[i]), false),
            ),
            v@.map_values(f) == head + items.take(i as int),
        decreases chapters.len() - i,
    {
        let c = chapters[i];
        let mut p: Vec<char> = Vec::new();
        push_str(&mut p, "OEBPS/chapters/ch");
        push_id4(&mut p, c.id);
        push_str(&mut p, ".xhtml");
        let path = string_from_chars(&p);
        let doc = build_chapter_xhtml(c);
        let e = EpubEntry { path, content: doc, stored: false };
        let ghost before = v@;
        v.push(e);
        proof {
            assert(f(e) == items[i as int]);
            assert(v@.map_values(f) == before.map_values(f).push(f(e)));
            assert(items.take(i + 1) == items.take(i as int).push(items[i as int]));
            assert(v@.map_values(f) == head + items.take(i + 1));
        }
        i = i + 1;
    }
    assert(items.take(i as int) == items);
    let e4 = entry("OEBPS/nav.xhtml", build_nav_xhtml(novel, chapters), false);
    let e5 = entry("OEBPS/toc.ncx", build_ncx(novel, chapters), false);
    let opf = build_opf(novel, chapters);
    let e6 = entry("OEBPS/content.opf", opf, false);
    let ghost mid = v@;
    v.push(e4);
    v.push(e5);
    v.push(e6);
    proof {
        let secs = choose|secs: u64| opf@ == opf_xml(novel, chapters@, year_stamp(secs));
        assert(v@ == mid.push(e4).push(e5).push(e6));
        assert(v@.map_values(f) =~= mid.map_values(f) + seq![f(e4), f(e5), f(e6)]);
        assert(v@.map_values(f) =~= epub_layout(novel, chapters@, year_stamp(secs)));
    }
    v
}

} // verus!
