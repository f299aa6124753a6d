//! The data model: novels, volumes, chapters, search results and output
//! formats, with the plain-text rendering of chapter bodies.

use vstd::prelude::*;

use crate::html::{first_match, page_root_text, parse_fragment, root_text, select_first};
use crate::text::{
    all_ascii, ascii_lower, chars_of, decimal, line_pieces, lowercase, padded_decimal, push_all,
    split_newlines, string_from_chars, to_lowercase, trim, trim_chars, trim_end, trim_start,
    zero_pad,
};

verus! {

/// Represents a light novel with metadata and chapters.
#[derive(Debug)]
pub struct Novel {
    pub title: String,
    pub url: String,
    pub author: Option<String>,
    pub cover_url: Option<String>,
    pub synopsis: Option<String>,
    pub language: String,
    pub volumes: Vec<Volume>,
    pub chapters: Vec<Chapter>,
}

/// A volume groups chapters.
#[derive(Debug)]
pub struct Volume {
    pub id: usize,
    pub title: String,
}

/// A single chapter (initially without content).
#[derive(Debug)]
pub struct Chapter {
    /// Sequential 1-based index in this download
    pub id: usize,
    pub title: String,
    pub url: String,
    pub volume_id: Option<usize>,
    /// Raw HTML body; None until downloaded
    pub body: Option<String>,
}

/// Result entry from a source search.
#[derive(Debug)]
pub struct SearchResult {
    pub title: String,
    pub url: String,
    pub author: Option<String>,
    pub cover_url: Option<String>,
    pub synopsis: Option<String>,
    pub source_name: String,
}

/// The plain content of a search result.
pub ghost struct SearchResultView {
    pub title: Seq<char>,
    pub url: Seq<char>,
    pub author: Option<Seq<char>>,
    pub cover_url: Option<Seq<char>>,
    pub synopsis: Option<Seq<char>>,
    pub source_name: Seq<char>,
}

impl View for SearchResult {
    type V = SearchResultView;

    open spec fn view(&self) -> SearchResultView {
        SearchResultView {
            title: self.title@,
            url: self.url@,
            author: crate::text::opt_chars(self.author),
            cover_url: crate::text::opt_chars(self.cover_url),
            synopsis: crate::text::opt_chars(self.synopsis),
            source_name: self.source_name@,
        }
    }
}

/// Supported output formats.
#[derive(Clone, Copy, Debug, PartialEq, Eq, Structural, Hash)]
pub enum OutputFormat {
    Json,
    Epub,
    Txt,
}

impl Clone for Volume {
    fn clone(&self) -> (r: Self)
        ensures
            r == *self,
    {
        Volume { id: self.id, title: self.title.clone() }
    }
}

impl Clone for Chapter {
    fn clone(&self) -> (r: Self)
        ensures
            r == *self,
    {
        Chapter {
            id: self.id,
            title: self.title.clone(),
            url: self.url.clone(),
            volume_id: self.volume_id,
            body: clone_opt_string(&self.body),
        }
    }
}

impl Clone for SearchResult {
    fn clone(&self) -> (r: Self)
        ensures
            r == *self,
    {
        SearchResult {
            title: self.title.clone(),
            url: self.url.clone(),
            author: clone_opt_string(&self.author),
            cover_url: clone_opt_string(&self.cover_url),
            synopsis: clone_opt_string(&self.synopsis),
            source_name: self.source_name.clone(),
        }
    }
}

impl Clone for Novel {
    fn clone(&self) -> (r: Self)
        ensures
            r.title == self.title,
            r.url == self.url,
            r.author == self.author,
            r.cover_url == self.cover_url,
            r.synopsis == self.synopsis,
            r.language == self.language,
            r.volumes@ == self.volumes@,
            r.chapters@ == self.chapters@,
    {
        let mut volumes: Vec<Volume> = Vec::new();
        let mut i: usize = 0;
        while i < self.volumes.len()
            invariant
                i <= self.volumes.len(),
                volumes@ == self.volumes@.take(i as int),
            decreases self.volumes.len() - i,
        {
            volumes.push(self.volumes[i].clone());
            i = i + 1;
            assert(volumes@ == self.volumes@.take(i as int));
        }
        assert(self.volumes@.take(i as int) == self.volumes@);
        let mut chapters: Vec<Chapter> = Vec::new();
        let mut k: usize = 0;
        while k < self.chapters.len()
            invariant
                k <= self.chapters.len(),
                chapters@ == self.chapters@.take(k as int),
            decreases self.chapters.len() - k,
        {
            chapters.push(self.chapters[k].clone());
            k = k + 1;
            assert(chapters@ == self.chapters@.take(k as int));
        }
        assert(self.chapters@.take(k as int) == self.chapters@);
        let r = Novel {
            title: self.title.clone(),
            url: self.url.clone(),
            author: clone_opt_string(&self.author),
            cover_url: clone_opt_string(&self.cover_url),
            synopsis: clone_opt_string(&self.synopsis),
            language: self.language.clone(),
            volumes,
            chapters,
        };
        r
    }
}

/// A copy of an optional string.
pub fn clone_opt_string(s: &Option<String>) -> (r: Option<String>)
    ensures
        r == *s,
{
    match s {
        Some(v) => Some(v.clone()),
        None => None,
    }
}

impl Novel {
    /// A novel with the given URL, language `"en"` and everything else empty.
    pub fn new(url: &str) -> (r: Novel)
        ensures
            r.url@ == url@,
            r.title@ == Seq::<char>::empty(),
            r.author is None,
            r.cover_url is None,
            r.synopsis is None,
            r.language@ == "en"@,
            r.volumes@.len() == 0,
            r.chapters@.len() == 0,
    {
        Novel {
            title: String::new(),
            url: url.to_owned(),
            author: None,
            cover_url: None,
            synopsis: None,
            language: "en".to_owned(),
            volumes: Vec::new(),
            chapters: Vec::new(),
        }
    }

    /// The chapters that belong to volume `volume_id`, in their order.
    pub fn chapters_in_volume(&self, volume_id: usize) -> (r: Vec<&Chapter>)
        ensures
            r@.map_values(|c: &Chapter| *c) == self.chapters@.filter(
                |c: Chapter| c.volume_id == Some(volume_id),
            ),
    {
        let ghost pred = |c: Chapter| c.volume_id == Some(volume_id);
        let mut r: Vec<&Chapter> = Vec::new();
        let mut i: usize = 0;
        while i < self.chapters.len()
            invariant
                i <= self.chapters.len(),
                pred == (|c: Chapter| c.volume_id == Some(volume_id)),
                r@.map_values(|c: &Chapter| *c) == self.chapters@.take(i as int).filter(pred),
            decreases self.chapters.len() - i,
        {
            let c = &self.chapters[i];
            proof {
                reveal_with_fuel(Seq::<_>::filter, 1);
                assert(self.chapters@.take(i + 1).drop_last() == self.chapters@.take(i as int));
            }
            if c.volume_id == Some(volume_id) {
                r.push(c);
            }
            i = i + 1;
        }
        assert(self.chapters@.take(i as int) == self.chapters@);
        r
    }

    /// `"c0001-c0042"` for the first and last chapter ids, `"c0007"` for a
    /// single chapter, and `""` when there are none.
    pub fn chapter_range_title(&self) -> (r: String)
        ensures
            r@ == range_title(self.chapters@.map_values(|c: Chapter| c.id)),
    {
        let n = self.chapters.len();
        let ghost ids = self.chapters@.map_values(|c: Chapter| c.id);
        if n == 0 {
            return String::new();
        }
        let mut out: Vec<char> = Vec::new();
        out.push('c');
        let first = padded_decimal(self.chapters[0].id as u128, 4);
        push_all(&mut out, &first);
        if n > 1 {
            out.push('-');
            out.push('c');
            let last = padded_decimal(self.chapters[n - 1].id as u128, 4);
            push_all(&mut out, &last);
            assert(ids.last() == self.chapters@[n - 1].id);
        }
        string_from_chars(&out)
    }
}

/// A chapter id rendered as `c` and four or more zero-padded digits.
pub open spec fn chapter_tag(id: usize) -> Seq<char> {
    seq!['c'] + zero_pad(decimal(id as nat), 4)
}

/// The chapter-range title for the given chapter ids.
pub open spec fn range_title(ids: Seq<usize>) -> Seq<char> {
    if ids.len() == 0 {
        Seq::empty()
    } else if ids.len() == 1 {
        chapter_tag(ids[0])
    } else {
        chapter_tag(ids[0]) + seq!['-'] + chapter_tag(ids.last())
    }
}

impl Volume {
    pub fn new(id: usize, title: &str) -> (r: Volume)
        ensures
            r.id == id,
            r.title@ == title@,
    {
        Volume { id, title: title.to_owned() }
    }
}

impl Chapter {
    /// A chapter with no volume and no body yet.
    pub fn new(id: usize, title: &str, url: &str) -> (r: Chapter)
        ensures
            r.id == id,
            r.title@ == title@,
            r.url@ == url@,
            r.volume_id is None,
            r.body is None,
    {
        Chapter { id, title: title.to_owned(), url: url.to_owned(), volume_id: None, body: None }
    }

    /// The body as plain text (`html_to_text`), or `""` before download.
    pub fn plain_text(&self) -> (r: String)
        ensures
            r@ == match self.body {
                None => Seq::<char>::empty(),
                Some(html) => html_text(html@),
            },
    {
        match &self.body {
            None => String::new(),
            Some(html) => html_to_text(html.as_str()),
        }
    }
}

// ── Output formats ───────────────────────────────────────────────────────────

/// The format named by an already lower-cased string.
pub open spec fn format_named(t: Seq<char>) -> Option<OutputFormat> {
    if t == "json"@ {
        Some(OutputFormat::Json)
    } else if t == "epub"@ {
        Some(OutputFormat::Epub)
    } else if t == "txt"@ || t == "text"@ {
        Some(OutputFormat::Txt)
    } else {
        None
    }
}

/// The file extension of a format.
pub open spec fn format_extension(f: OutputFormat) -> Seq<char> {
    match f {
        OutputFormat::Json => "json"@,
        OutputFormat::Epub => "epub"@,
        OutputFormat::Txt => "txt"@,
    }
}

/// Whether two strings hold the same characters.
pub fn str_eq(a: &str, b: &str) -> (r: bool)
    ensures
        r == (a@ == b@),
{
    let x = chars_of(a);
    let y = chars_of(b);
    if x.len() != y.len() {
        return false;
    }
    let mut i: usize = 0;
    while i < x.len()
        invariant
            x.len() == y.len(),
            x@ == a@,
            y@ == b@,
            i <= x.len(),
            forall|k: int| 0 <= k < i ==> x@[k] == y@[k],
        decreases x.len() - i,
    {
        if x[i] != y[i] {
            assert(x@[i as int] != y@[i as int]);
            return false;
        }
        i = i + 1;
    }
    assert(x@ == y@);
    true
}

impl OutputFormat {
    /// Parses a format name, case-insensitively (`"txt"` and `"text"` both
    /// name the text format).
    pub fn from_str(s: &str) -> (r: Option<OutputFormat>)
        ensures
            r == format_named(lowercase(s@)),
            all_ascii(s@) ==> r == format_named(s@.map_values(|c: char| ascii_lower(c))),
    {
        let lower = to_lowercase(s);
        let t = lower.as_str();
        if str_eq(t, "json") {
            Some(OutputFormat::Json)
        } else if str_eq(t, "epub") {
            Some(OutputFormat::Epub)
        } else if str_eq(t, "txt") || str_eq(t, "text") {
            Some(OutputFormat::Txt)
        } else {
            None
        }
    }

    pub fn extension(&self) -> (r: &'static str)
        ensures
            r@ == format_extension(*self),
    {
        match self {
            OutputFormat::Json => "json",
            OutputFormat::Epub => "epub",
            OutputFormat::Txt => "txt",
        }
    }

    pub fn all_formats() -> (r: Vec<OutputFormat>)
        ensures
            r@ == seq![OutputFormat::Json, OutputFormat::Epub, OutputFormat::Txt],
    {
        let mut v: Vec<OutputFormat> = Vec::new();
        v.push(OutputFormat::Json);
        v.push(OutputFormat::Epub);
        v.push(OutputFormat::Txt);
        v
    }
}

/// Parsing the extension of a format gives the format back: the extension is
/// ASCII, and its ASCII lower-casing names the format.
pub proof fn lemma_extension_parses_back(f: OutputFormat)
    ensures
        all_ascii(format_extension(f)),
        format_named(format_extension(f).map_values(|c: char| ascii_lower(c))) == Some(f),
{
    reveal_strlit("json");
    reveal_strlit("epub");
    reveal_strlit("txt");
    reveal_strlit("text");
    let e = format_extension(f);
    assert(e.map_values(|c: char| ascii_lower(c)) == e);
    assert("json"@[0] != "epub"@[0]);
    assert("json"@[0] != "txt"@[0]);
    assert("json"@[0] != "text"@[0]);
    assert("epub"@[0] != "txt"@[0]);
    assert("epub"@[0] != "text"@[0]);
}

// ── HTML to text ─────────────────────────────────────────────────────────────

/// The text of trimmed lines with runs of blank lines collapsed into one:
/// every non-blank line is followed by `'\n'`, and a blank line gives one
/// `'\n'` unless the line before it was blank too.
pub open spec fn collapse_lines(ls: Seq<Seq<char>>) -> Seq<char>
    decreases ls.len(),
{
    if ls.len() == 0 {
        Seq::empty()
    } else {
        let before = collapse_lines(ls.drop_last());
        let l = ls.last();
        if l.len() == 0 {
            if ls.len() > 1 && ls[ls.len() - 2].len() == 0 {
                before
            } else {
                before.push('\n')
            }
        } else {
            before + l.push('\n')
        }
    }
}

/// The collapsed plain text of a text: its lines, trimmed, collapsed.
pub open spec fn collapsed_text(t: Seq<char>) -> Seq<char> {
    collapse_lines(line_pieces(t).map_values(|l: Seq<char>| trim(l)))
}

/// The text `scraper` collects from an HTML fragment: that of its first
/// `body` element when it has one, else that of its root element.
pub open spec fn fragment_text(html: Seq<char>) -> Seq<char> {
    match first_match(html, true, "body"@) {
        Some(b) => b.text,
        None => root_text(html, true),
    }
}

/// The plain text of an HTML fragment.
pub open spec fn html_text(html: Seq<char>) -> Seq<char> {
    collapsed_text(fragment_text(html))
}

/// Whether `s` holds no line break.
pub open spec fn no_line_break(s: Seq<char>) -> bool {
    forall|j: int| 0 <= j < s.len() ==> #[trigger] s[j] != '\n'
}

/// Whether `s` never has three line breaks in a row, that is never more than
/// one blank line in a row.
pub open spec fn single_blank_lines(s: Seq<char>) -> bool {
    forall|i: int|
        0 <= i && i + 2 < s.len() ==> !(#[trigger] s[i] == '\n' && s[i + 1] == '\n' && s[i + 2]
            == '\n')
}

proof fn lemma_trim_keeps_no_break(s: Seq<char>)
    requires
        no_line_break(s),
    ensures
        no_line_break(trim_start(s)),
        no_line_break(trim_end(s)),
        no_line_break(trim(s)),
    decreases s.len(),
{
    if s.len() > 0 {
        assert(no_line_break(s.drop_first())) by {
            assert forall|j: int| 0 <= j < s.drop_first().len() implies #[trigger] s.drop_first()[j]
                != '\n' by {
                assert(s.drop_first()[j] == s[j + 1]);
            }
        }
        assert(no_line_break(s.drop_last())) by {
            assert forall|j: int| 0 <= j < s.drop_last().len() implies #[trigger] s.drop_last()[j]
                != '\n' by {
                assert(s.drop_last()[j] == s[j]);
            }
        }
        lemma_trim_keeps_no_break(s.drop_first());
        lemma_trim_keeps_no_break(s.drop_last());
    }
    if no_line_break(trim_start(s)) {
        lemma_trim_end_keeps_no_break(trim_start(s));
    }
}

proof fn lemma_trim_end_keeps_no_break(s: Seq<char>)
    requires
        no_line_break(s),
    ensures
        no_line_break(trim_end(s)),
    decreases s.len(),
{
    if s.len() > 0 {
        assert(no_line_break(s.drop_last())) by {
            assert forall|j: int| 0 <= j < s.drop_last().len() implies #[trigger] s.drop_last()[j]
                != '\n' by {
                assert(s.drop_last()[j] == s[j]);
            }
        }
        lemma_trim_end_keeps_no_break(s.drop_last());
    }
}

proof fn lemma_pieces_have_no_break(s: Seq<char>)
    ensures
        forall|k: int| 0 <= k < split_newlines(s).len() ==> no_line_break(#[trigger] split_newlines(s)[k]),
    decreases s.len(),
{
    if s.len() > 0 {
        lemma_pieces_have_no_break(s.drop_last());
        crate::text::lemma_split_newlines_nonempty(s.drop_last());
        let r = split_newlines(s.drop_last());
        if s.last() != '\n' {
            let l = r.last().push(s.last());
            assert(no_line_break(r[r.len() - 1]));
            assert(no_line_break(l)) by {
                assert forall|j: int| 0 <= j < l.len() implies #[trigger] l[j] != '\n' by {
                    if j < r.last().len() {
                        assert(l[j] == r.last()[j]);
                    }
                }
            }
        } else {
            assert(no_line_break(Seq::<char>::empty()));
        }
    }
}

proof fn lemma_collapse_lines_single_blank(ls: Seq<Seq<char>>)
    requires
        forall|k: int| 0 <= k < ls.len() ==> no_line_break(#[trigger] ls[k]),
    ensures
        single_blank_lines(collapse_lines(ls)),
        ls.len() > 0 && ls.last().len() > 0 ==> {
            let o = collapse_lines(ls);
            o.len() >= 2 && o[o.len() - 1] == '\n' && o[o.len() - 2] != '\n'
        },
    decreases ls.len(),
{
    if ls.len() > 0 {
        let prev = ls.drop_last();
        assert forall|k: int| 0 <= k < prev.len() implies no_line_break(#[trigger] prev[k]) by {
            assert(prev[k] == ls[k]);
        }
        lemma_collapse_lines_single_blank(prev);
        let before = collapse_lines(prev);
        let l = ls.last();
        assert(no_line_break(ls[ls.len() - 1]));
        if l.len() == 0 {
            if ls.len() > 1 && ls[ls.len() - 2].len() == 0 {
            } else {
                let o = before.push('\n');
                if prev.len() > 0 {
                    assert(prev.last() == ls[ls.len() - 2]);
                }
                assert forall|i: int| 0 <= i && i + 2 < o.len() implies !(#[trigger] o[i] == '\n'
                    && o[i + 1] == '\n' && o[i + 2] == '\n') by {
                    if i + 2 < before.len() {
                        assert(o[i] == before[i] && o[i + 1] == before[i + 1] && o[i + 2]
                            == before[i + 2]);
                    } else {
                        assert(o[i] == before[i] && o[i + 1] == before[i + 1]);
                    }
                }
            }
        } else {
            let tail = l.push('\n');
            let o = before + tail;
            assert forall|i: int| 0 <= i && i + 2 < o.len() implies !(#[trigger] o[i] == '\n'
                && o[i + 1] == '\n' && o[i + 2] == '\n') by {
                if i + 2 < before.len() {
                    assert(o[i] == before[i] && o[i + 1] == before[i + 1] && o[i + 2] == before[i
                        + 2]);
                } else if i + 2 == before.len() {
                    assert(o[i + 2] == l[0]);
                } else if i + 1 == before.len() {
                    assert(o[i + 1] == l[0]);
                } else {
                    assert(o[i] == tail[i - before.len()]);
                    assert(o[i] == l[i - before.len()]);
                }
            }
            assert(o[o.len() - 2] == l[l.len() - 1]);
        }
    }
}

/// The plain text made from HTML never has more than one blank line in a
/// row: runs of blank lines collapse into one.
pub proof fn lemma_plain_text_single_blank_lines(html: Seq<char>)
    ensures
        single_blank_lines(html_text(html)),
{
    let t = fragment_text(html);
    let p = split_newlines(t);
    lemma_pieces_have_no_break(t);
    crate::text::lemma_split_newlines_nonempty(t);
    let pieces = line_pieces(t);
    assert forall|k: int| 0 <= k < pieces.len() implies no_line_break(#[trigger] pieces[k]) by {
        assert(pieces[k] == p[k]);
    }
    let ls = pieces.map_values(|l: Seq<char>| trim(l));
    assert forall|k: int| 0 <= k < ls.len() implies no_line_break(#[trigger] ls[k]) by {
        lemma_trim_keeps_no_break(pieces[k]);
    }
    lemma_collapse_lines_single_blank(ls);
}

/// Strip HTML tags to plain text.
pub fn html_to_text(html: &str) -> (r: String)
    ensures
        r@ == html_text(html@),
{
    let frag = parse_fragment(html);
    let text = match select_first(&frag, "body") {
        Some(b) => b.text,
        None => page_root_text(&frag),
    };
    collapse_text(text.as_str())
}

/// Trims every line of `text` and collapses runs of blank lines.
pub fn collapse_text(text: &str) -> (r: String)
    ensures
        r@ == collapsed_text(text@),
{
    let cs = chars_of(text);
    let n = cs.len();
    let mut out: Vec<char> = Vec::new();
    let mut prev_newline = false;
    let mut cur: Vec<char> = Vec::new();
    let ghost mut done: Seq<Seq<char>> = Seq::empty();
    let ghost f = |l: Seq<char>| trim(l);
    assert(cs@.take(0) == Seq::<char>::empty());
    let mut i: usize = 0;
    while i < n
        invariant
            n == cs.len(),
            i <= n,
            f == (|l: Seq<char>| trim(l)),
            split_newlines(cs@.take(i as int)) == done.push(cur@),
            out@ == collapse_lines(done.map_values(f)),
            prev_newline == (done.len() > 0 && trim(done.last()).len() == 0),
        decreases n - i,
    {
        let c = cs[i];
        proof {
            assert(cs@.take(i + 1).drop_last() == cs@.take(i as int));
            assert(cs@.take(i + 1).last() == c);
        }
        if c == '\n' {
            emit_line(&mut out, &mut prev_newline, &cur, Ghost(done));
            proof {
                done = done.push(cur@);
            }
            cur = Vec::new();
        } else {
            let ghost old_cur = cur@;
            cur.push(c);
            proof {
                assert(done.push(old_cur).update(done.len() as int, old_cur.push(c)) == done.push(
                    cur@,
                ));
            }
        }
        i = i + 1;
    }
    assert(cs@.take(n as int) == cs@);
    proof {
        assert(done.push(cur@).drop_last() == done);
        assert(done.push(cur@).last() == cur@);
    }
    if cur.len() > 0 {
        emit_line(&mut out, &mut prev_newline, &cur, Ghost(done));
    }
    string_from_chars(&out)
}

/// Appends one more line to the collapsed output.
fn emit_line(out: &mut Vec<char>, prev_newline: &mut bool, line: &Vec<char>, Ghost(done): Ghost<
    Seq<Seq<char>>,
>)
    requires
        old(out)@ == collapse_lines(done.map_values(|l: Seq<char>| trim(l))),
        *old(prev_newline) == (done.len() > 0 && trim(done.last()).len() == 0),
    ensures
        final(out)@ == collapse_lines(done.push(line@).map_values(|l: Seq<char>| trim(l))),
        *final(prev_newline) == (trim(line@).len() == 0),
{
    proof {
        let f = |l: Seq<char>| trim(l);
        let ls = done.push(line@).map_values(f);
        assert(ls.drop_last() == done.map_values(f));
        assert(ls.last() == trim(line@));
        if done.len() > 0 {
            assert(ls[ls.len() - 2] == trim(done.last()));
        }
    }
    let t = trim_chars(line);
    if t.len() == 0 {
        if !*prev_newline {
            out.push('\n');
        }
        *prev_newline = true;
    } else {
        push_all(out, &t);
        out.push('\n');
        *prev_newline = false;
    }
}

} // verus!
