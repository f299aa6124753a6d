//! Output naming: file stems, file names, directory names and the renaming of
//! files written under an older naming scheme.

pub mod epub;
pub mod txt;

use vstd::prelude::*;

use crate::models::{format_extension, Novel, OutputFormat};
use crate::text::{
    alphanumeric, chars_of, is_alphanumeric, push_str, replace_all, replace_chars,
    string_from_chars, trim, trim_chars,
};

verus! {

/// The character a file stem keeps, or `'_'` in its place.
pub open spec fn stem_char(c: char) -> char {
    if alphanumeric(c) || c == '-' || c == '_' {
        c
    } else {
        '_'
    }
}

/// The file stem for a title: each character kept when alphanumeric, `-` or
/// `_`, else replaced by `_`.
pub open spec fn filename_stem(title: Seq<char>) -> Seq<char> {
    title.map_values(|c: char| stem_char(c))
}

/// Build a safe filesystem stem from the novel title (no chapter range).
pub fn build_filename(novel: &Novel) -> (r: String)
    ensures
        r@ == filename_stem(novel.title@),
{
    let cs = chars_of(novel.title.as_str());
    let mut out: Vec<char> = Vec::new();
    let mut i: usize = 0;
    while i < cs.len()
        invariant
            i <= cs.len(),
            cs@ == novel.title@,
            out@ == cs@.take(i as int).map_values(|c: char| stem_char(c)),
        decreases cs.len() - i,
    {
        let c = cs[i];
        if is_alphanumeric(c) || c == '-' || c == '_' {
            out.push(c);
        } else {
            out.push('_');
        }
        i = i + 1;
        assert(cs@.take(i as int).map_values(|c: char| stem_char(c)) == cs@.take(
            (i - 1) as int,
        ).map_values(|c: char| stem_char(c)).push(stem_char(c)));
    }
    assert(cs@.take(i as int) == cs@);
    string_from_chars(&out)
}

/// A file stem keeps the title's length and holds only alphanumeric
/// characters, `-` and `_`.
pub proof fn lemma_filename_stem_safe(title: Seq<char>)
    ensures
        filename_stem(title).len() == title.len(),
        forall|i: int|
            0 <= i < title.len() ==> {
                let c = #[trigger] filename_stem(title)[i];
                alphanumeric(c) || c == '-' || c == '_'
            },
{
}

/// `stem.ext`
pub open spec fn output_name(stem: Seq<char>, f: OutputFormat) -> Seq<char> {
    stem + seq!['.'] + format_extension(f)
}

/// The name of the file written for `format` with the given stem.
pub fn output_file_name(stem: &str, format: OutputFormat) -> (r: String)
    ensures
        r@ == output_name(stem@, format),
{
    let mut out: Vec<char> = Vec::new();
    push_str(&mut out, stem);
    out.push('.');
    push_str(&mut out, format.extension());
    string_from_chars(&out)
}

/// The character a directory name keeps, or `'_'` in its place.
pub open spec fn dir_char(c: char) -> char {
    if alphanumeric(c) || c == '-' || c == ' ' {
        c
    } else {
        '_'
    }
}

/// The default output directory name for a title: alphanumerics, `-` and
/// spaces kept, everything else `_`; then trimmed, and spaces replaced by `_`.
pub open spec fn novel_dir_name(title: Seq<char>) -> Seq<char> {
    replace_all(trim(title.map_values(|c: char| dir_char(c))), seq![' '], seq!['_'])
}

/// The directory name under `Lightnovels/` for a novel with this title.
pub fn output_dir_name(title: &str) -> (r: String)
    ensures
        r@ == novel_dir_name(title@),
{
    let cs = chars_of(title);
    let mut out: Vec<char> = Vec::new();
    let mut i: usize = 0;
    while i < cs.len()
        invariant
            i <= cs.len(),
            cs@ == title@,
            out@ == cs@.take(i as int).map_values(|c: char| dir_char(c)),
        decreases cs.len() - i,
    {
        let c = cs[i];
        if is_alphanumeric(c) || c == '-' || c == ' ' {
            out.push(c);
        } else {
            out.push('_');
        }
        i = i + 1;
        assert(cs@.take(i as int).map_values(|c: char| dir_char(c)) == cs@.take(
            (i - 1) as int,
        ).map_values(|c: char| dir_char(c)).push(dir_char(c)));
    }
    assert(cs@.take(i as int) == cs@);
    let t = trim_chars(&out);
    let mut sp: Vec<char> = Vec::new();
    sp.push(' ');
    let mut us: Vec<char> = Vec::new();
    us.push('_');
    let r = replace_chars(&t, &sp, &us);
    string_from_chars(&r)
}

/// The new name for a file with this stem and extension when it was written
/// under the old `stem_c...` naming: `stem.ext`.
pub open spec fn renamed_file(file_stem: Seq<char>, ext: Option<Seq<char>>, stem: Seq<char>) -> Option<
    Seq<char>,
> {
    let prefix = stem + seq!['_', 'c'];
    if prefix.is_prefix_of(file_stem) {
        match ext {
            Some(e) => Some(stem + seq!['.'] + e),
            None => None,
        }
    } else {
        None
    }
}

/// For a file found in the output directory, the plain `stem.ext` name it is
/// to be renamed to when its stem is `stem` followed by `_c` (the older
/// chapter-range naming); `None` when it is to stay.
pub fn rename_target(file_stem: &str, ext: Option<&str>, stem: &str) -> (r: Option<String>)
    ensures
        opt_seq(r) == renamed_file(file_stem@, opt_str_seq(ext), stem@),
{
    let mut prefix: Vec<char> = Vec::new();
    push_str(&mut prefix, stem);
    prefix.push('_');
    prefix.push('c');
    let fs = chars_of(file_stem);
    let m = crate::text::matches_at(&fs, &prefix, 0);
    proof {
        if prefix@.is_prefix_of(file_stem@) {
            assert(fs@.subrange(0, prefix@.len() as int) == prefix@);
        }
        if m {
            assert forall|k: int| 0 <= k < prefix@.len() implies prefix@[k] == fs@[k] by {
                assert(fs@.subrange(0, prefix@.len() as int)[k] == fs@[k]);
            }
        }
    }
    if !m {
        return None;
    }
    match ext {
        Some(e) => {
            let mut out: Vec<char> = Vec::new();
            push_str(&mut out, stem);
            out.push('.');
            push_str(&mut out, e);
            Some(string_from_chars(&out))
        },
        None => None,
    }
}

/// The characters of an optional string.
pub open spec fn opt_seq(o: Option<String>) -> Option<Seq<char>> {
    match o {
        Some(s) => Some(s@),
        None => None,
    }
}

/// The characters of an optional string slice.
pub open spec fn opt_str_seq(o: Option<&str>) -> Option<Seq<char>> {
    match o {
        Some(s) => Some(s@),
        None => None,
    }
}

} // verus!
