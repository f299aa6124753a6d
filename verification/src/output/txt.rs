//! Plain-text output: the document that is written to the `.txt` file.

use vstd::prelude::*;

use crate::models::{html_text, Chapter, Novel};
use crate::text::{push_str, string_from_chars};

verus! {

/// `n` copies of `c`.
pub open spec fn repeated(c: char, n: nat) -> Seq<char> {
    Seq::new(n, |i: int| c)
}

/// The plain text of a chapter's body, empty before download.
pub open spec fn chapter_plain(c: &Chapter) -> Seq<char> {
    match c.body {
        None => Seq::empty(),
        Some(h) => html_text(h@),
    }
}

/// The length of a title in bytes of UTF-8, as `str::len` returns it.
pub open spec fn byte_len(s: Seq<char>) -> usize {
    vstd::utf8::encode_utf8(s).len() as usize
}

/// The section written for one chapter: a blank line, the title underlined
/// with dashes (as many as its byte length, at most 72), a blank line, the
/// plain text, and a rule of 72 `=`.
pub open spec fn chapter_section(c: &Chapter) -> Seq<char> {
    let n = byte_len(c.title@);
    seq!['\n'] + c.title@ + seq!['\n'] + repeated('-', if n < 72 { n as nat } else { 72 }) + seq![
        '\n',
        '\n',
    ] + chapter_plain(c) + seq!['\n'] + repeated('=', 72) + seq!['\n']
}

/// The header: the title, the author when known, the source URL, the synopsis
/// when known, and a rule of 72 `=`.
pub open spec fn txt_header(n: &Novel) -> Seq<char> {
    n.title@ + seq!['\n'] + (match n.author {
        Some(a) => "Author: "@ + a@ + seq!['\n'],
        None => Seq::empty(),
    }) + "Source: "@ + n.url@ + seq!['\n'] + (match n.synopsis {
        Some(s) => seq!['\n'] + s@ + seq!['\n', '\n'],
        None => Seq::empty(),
    }) + repeated('=', 72) + seq!['\n']
}

/// The sections of the chapters one after another.
pub open spec fn sections(chs: Seq<&Chapter>) -> Seq<char>
    decreases chs.len(),
{
    if chs.len() == 0 {
        Seq::empty()
    } else {
        sections(chs.drop_last()) + chapter_section(chs.last())
    }
}

/// The chapters are written in the order given: one chapter gives its own
/// section, and the sections of two runs of chapters one after the other
/// are the first run's sections followed by the second's.
pub proof fn lemma_sections_in_order(a: Seq<&Chapter>, b: Seq<&Chapter>, c: &Chapter)
    ensures
        sections(seq![c]) == chapter_section(c),
        sections(a + b) == sections(a) + sections(b),
    decreases b.len(),
{
    assert(seq![c].drop_last() =~= Seq::<&Chapter>::empty());
    assert(seq![c].last() == c);
    assert(sections(Seq::<&Chapter>::empty()) == Seq::<char>::empty());
    assert(sections(seq![c]) == sections(seq![c].drop_last()) + chapter_section(seq![c].last()));
    assert(Seq::<char>::empty() + chapter_section(c) =~= chapter_section(c));
    if b.len() == 0 {
        assert(a + b =~= a);
        assert(sections(a) + Seq::<char>::empty() =~= sections(a));
    } else {
        lemma_sections_in_order(a, b.drop_last(), c);
        assert((a + b).drop_last() =~= a + b.drop_last());
        assert((a + b).last() == b.last());
        assert(sections(a + b) =~= sections(a) + sections(b));
    }
}

/// The whole text document.
pub open spec fn txt_document(n: &Novel, chs: Seq<&Chapter>) -> Seq<char> {
    txt_header(n) + sections(chs)
}

fn push_repeated(out: &mut Vec<char>, c: char, n: usize)
    ensures
        final(out)@ == old(out)@ + repeated(c, n as nat),
{
    let ghost start = out@;
    let mut i: usize = 0;
    while i < n
        invariant
            i <= n,
            out@ == start + repeated(c, i as nat),
        decreases n - i,
    {
        out.push(c);
        i = i + 1;
        assert(repeated(c, i as nat) == repeated(c, (i - 1) as nat).push(c));
    }
}

fn push_section(out: &mut Vec<char>, c: &Chapter)
    ensures
        final(out)@ == old(out)@ + chapter_section(c),
{
    let ghost start = out@;
    out.push('\n');
    push_str(out, c.title.as_str());
    out.push('\n');
    let n = c.title.as_str().len();
    push_repeated(out, '-', if n < 72 { n } else { 72 });
    out.push('\n');
    out.push('\n');
    let text = c.plain_text();
    push_str(out, text.as_str());
    out.push('\n');
    push_repeated(out, '=', 72);
    out.push('\n');
    assert(out@ =~= start + chapter_section(c));
}

/// The plain-text document for `novel` with the given chapters.
pub fn render(novel: &Novel, chapters: &[&Chapter]) -> (r: String)
    ensures
        r@ == txt_document(novel, chapters@),
{
    let mut out: Vec<char> = Vec::new();
    push_str(&mut out, novel.title.as_str());
    out.push('\n');
    match &novel.author {
        Some(a) => {
            push_str(&mut out, "Author: ");
            push_str(&mut out, a.as_str());
            out.push('\n');
        },
        None => {},
    }
    push_str(&mut out, "Source: ");
    push_str(&mut out, novel.url.as_str());
    out.push('\n');
    match &novel.synopsis {
        Some(s) => {
            out.push('\n');
            push_str(&mut out, s.as_str());
            out.push('\n');
            out.push('\n');
        },
        None => {},
    }
    push_repeated(&mut out, '=', 72);
    out.push('\n');
    assert(out@ =~= txt_header(novel));
    let ghost head = out@;
    let mut i: usize = 0;
    while i < chapters.len()
        invariant
            i <= chapters@.len(),
            out@ == head + sections(chapters@.take(i as int)),
        decreases chapters.len() - i,
    {
        proof {
            assert(chapters@.take(i + 1).drop_last() == chapters@.take(i as int));
            assert(chapters@.take(i + 1).last() == chapters@[i as int]);
        }
        push_section(&mut out, chapters[i]);
        i = i + 1;
    }
    assert(chapters@.take(i as int) == chapters@);
    string_from_chars(&out)
}

} // verus!
