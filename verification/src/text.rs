//! Character-level text utilities shared by the whole crate: conversions
//! between `str` and `Vec<char>`, Unicode white space, trimming, line
//! splitting, substring replacement and decimal rendering.

use vstd::prelude::*;

verus! {

// ── Conversions ──────────────────────────────────────────────────────────────

/// The characters of `s`, in order.
pub fn chars_of(s: &str) -> (r: Vec<char>)
    ensures
        r@ == s@,
{
    let mut r: Vec<char> = Vec::new();
    for c in it: s.chars()
        invariant
            r@ == it.seq().take(it.index() as int),
            it.seq() == s@,
    {
        r.push(c);
    }
    r
}

/// Collects a character vector into a `String` (std `FromIterator<&char>`).
#[verifier::external_body]
pub fn string_from_chars(v: &Vec<char>) -> (s: String)
    ensures
        s@ == v@,
{
    v.iter().collect()
}

/// Appends all characters of `s` to `out`.
pub fn push_str(out: &mut Vec<char>, s: &str)
    ensures
        final(out)@ == old(out)@ + s@,
{
    let cs = chars_of(s);
    push_all(out, &cs);
}

/// Appends all characters of `v` to `out`.
pub fn push_all(out: &mut Vec<char>, v: &Vec<char>)
    ensures
        final(out)@ == old(out)@ + v@,
{
    let ghost start = out@;
    let mut i: usize = 0;
    while i < v.len()
        invariant
            i <= v.len(),
            out@ == start + v@.take(i as int),
        decreases v.len() - i,
    {
        out.push(v[i]);
        i = i + 1;
        assert(v@.take(i as int) == v@.take((i - 1) as int).push(v@[i - 1]));
    }
    assert(v@.take(v.len() as int) == v@);
}

// ── White space and trimming ─────────────────────────────────────────────────

/// Unicode `White_Space`, the property that `char::is_whitespace` tests.
pub open spec fn is_ws(c: char) -> bool {
    ||| ('\u{9}' <= c && c <= '\u{d}')
    ||| c == ' '
    ||| c == '\u{85}'
    ||| c == '\u{a0}'
    ||| c == '\u{1680}'
    ||| ('\u{2000}' <= c && c <= '\u{200a}')
    ||| c == '\u{2028}'
    ||| c == '\u{2029}'
    ||| c == '\u{202f}'
    ||| c == '\u{205f}'
    ||| c == '\u{3000}'
}

/// Executable `is_ws`, with the behaviour of `char::is_whitespace`.
pub fn is_whitespace(c: char) -> (r: bool)
    ensures
        r == is_ws(c),
{
    ('\u{9}' <= c && c <= '\u{d}') || c == ' ' || c == '\u{85}' || c == '\u{a0}' || c
        == '\u{1680}' || ('\u{2000}' <= c && c <= '\u{200a}') || c == '\u{2028}' || c
        == '\u{2029}' || c == '\u{202f}' || c == '\u{205f}' || c == '\u{3000}'
}

/// `s` without its leading white space.
pub open spec fn trim_start(s: Seq<char>) -> Seq<char>
    decreases s.len(),
{
    if s.len() > 0 && is_ws(s[0]) {
        trim_start(s.drop_first())
    } else {
        s
    }
}

/// `s` without its trailing white space.
pub open spec fn trim_end(s: Seq<char>) -> Seq<char>
    decreases s.len(),
{
    if s.len() > 0 && is_ws(s.last()) {
        trim_end(s.drop_last())
    } else {
        s
    }
}

/// `s` without leading and trailing white space (`str::trim`).
pub open spec fn trim(s: Seq<char>) -> Seq<char> {
    trim_end(trim_start(s))
}

proof fn lemma_trim_start_skip(s: Seq<char>, i: int)
    requires
        0 <= i <= s.len(),
        forall|k: int| 0 <= k < i ==> is_ws(#[trigger] s[k]),
        i == s.len() || !is_ws(s[i]),
    ensures
        trim_start(s) == s.skip(i),
    decreases i,
{
    if i == 0 {
        assert(s.skip(0) == s);
    } else {
        let t = s.drop_first();
        assert forall|k: int| 0 <= k < i - 1 implies is_ws(#[trigger] t[k]) by {
            assert(t[k] == s[k + 1]);
        }
        lemma_trim_start_skip(t, i - 1);
        assert(t.skip(i - 1) == s.skip(i));
    }
}

proof fn lemma_trim_end_take(s: Seq<char>, j: int)
    requires
        0 <= j <= s.len(),
        forall|k: int| j <= k < s.len() ==> is_ws(#[trigger] s[k]),
        j == 0 || !is_ws(s[j - 1]),
    ensures
        trim_end(s) == s.take(j),
    decreases s.len() - j,
{
    if j == s.len() {
        assert(s.take(j) == s);
    } else {
        let t = s.drop_last();
        assert forall|k: int| j <= k < t.len() implies is_ws(#[trigger] t[k]) by {
            assert(t[k] == s[k]);
        }
        lemma_trim_end_take(t, j);
        assert(t.take(j) == s.take(j));
    }
}

/// Trims white space from both ends of `s`.
pub fn trim_chars(s: &Vec<char>) -> (r: Vec<char>)
    ensures
        r@ == trim(s@),
{
    let n = s.len();
    let mut i: usize = 0;
    while i < n && is_whitespace(s[i])
        invariant
            n == s.len(),
            i <= n,
            forall|k: int| 0 <= k < i ==> is_ws(#[trigger] s@[k]),
        decreases n - i,
    {
        i = i + 1;
    }
    proof {
        lemma_trim_start_skip(s@, i as int);
    }
    let mut j: usize = n;
    while j > i && is_whitespace(s[j - 1])
        invariant
            n == s.len(),
            i <= j <= n,
            forall|k: int| j <= k < n ==> is_ws(#[trigger] s@[k]),
        decreases j,
    {
        j = j - 1;
    }
    let ghost t = s@.skip(i as int);
    proof {
        assert forall|k: int| j - i <= k < t.len() implies is_ws(#[trigger] t[k]) by {
            assert(t[k] == s@[k + i]);
        }
        if j > i {
            assert(t[j - i - 1] == s@[j - 1]);
        }
        lemma_trim_end_take(t, j - i);
        assert(t.take(j - i) == s@.subrange(i as int, j as int));
    }
    let mut r: Vec<char> = Vec::new();
    let mut k: usize = i;
    while k < j
        invariant
            i <= k <= j <= n,
            n == s.len(),
            r@ == s@.subrange(i as int, k as int),
        decreases j - k,
    {
        r.push(s[k]);
        k = k + 1;
        assert(r@ == s@.subrange(i as int, k as int));
    }
    r
}

// ── Prefixes, suffixes and search ────────────────────────────────────────────

/// Whether `pat` occurs in `s` at position `i`.
pub open spec fn occurs_at(s: Seq<char>, pat: Seq<char>, i: int) -> bool {
    0 <= i && i + pat.len() <= s.len() && s.subrange(i, i + pat.len()) == pat
}

/// Whether `pat` occurs in `s` at position `i`, computed.
pub fn matches_at(s: &Vec<char>, pat: &Vec<char>, i: usize) -> (r: bool)
    ensures
        r == occurs_at(s@, pat@, i as int),
{
    if i > s.len() || pat.len() > s.len() - i {
        return false;
    }
    let mut k: usize = 0;
    while k < pat.len()
        invariant
            i + pat.len() <= s.len(),
            k <= pat.len(),
            forall|m: int| 0 <= m < k ==> s@[i + m] == pat@[m],
        decreases pat.len() - k,
    {
        if s[i + k] != pat[k] {
            assert(s@.subrange(i as int, i + pat.len())[k as int] != pat@[k as int]);
            return false;
        }
        k = k + 1;
    }
    assert(s@.subrange(i as int, i + pat.len()) == pat@);
    true
}

/// Whether `s` begins with `prefix` (`str::starts_with`).
pub fn starts_with(s: &str, prefix: &str) -> (r: bool)
    ensures
        r <==> prefix@.is_prefix_of(s@),
{
    let cs = chars_of(s);
    let ps = chars_of(prefix);
    let r = matches_at(&cs, &ps, 0);
    proof {
        if prefix@.is_prefix_of(s@) {
            assert(s@.subrange(0, prefix@.len() as int) == prefix@);
        }
        if r {
            assert forall|k: int| 0 <= k < prefix@.len() implies prefix@[k] == s@[k] by {
                assert(s@.subrange(0, prefix@.len() as int)[k] == s@[k]);
            }
        }
    }
    r
}

/// Whether `s` ends with `suffix` (`str::ends_with`).
pub fn ends_with(s: &str, suffix: &str) -> (r: bool)
    ensures
        r <==> (suffix@.len() <= s@.len() && s@.skip(s@.len() - suffix@.len()) == suffix@),
{
    let cs = chars_of(s);
    let ps = chars_of(suffix);
    if ps.len() > cs.len() {
        return false;
    }
    let r = matches_at(&cs, &ps, cs.len() - ps.len());
    proof {
        assert(s@.skip(s@.len() - suffix@.len()) == s@.subrange(
            s@.len() - suffix@.len(),
            s@.len() as int,
        ));
    }
    r
}

/// Index of the first occurrence of `pat` in `s` at or after `from`.
pub open spec fn first_occurrence_from(s: Seq<char>, pat: Seq<char>, from: int) -> Option<int> {
    if exists|i: int| from <= i && occurs_at(s, pat, i) {
        Some(choose|i: int| from <= i && occurs_at(s, pat, i) && (forall|j: int| from <= j < i ==> !occurs_at(s, pat, j)))
    } else {
        None
    }
}

/// Finds the first occurrence of `pat` in `s` at or after `from`.
pub fn find_from(s: &Vec<char>, pat: &Vec<char>, from: usize) -> (r: Option<usize>)
    ensures
        match r {
            Some(i) => from <= i && occurs_at(s@, pat@, i as int) && (forall|j: int|
                from <= j < i ==> !occurs_at(s@, pat@, j)),
            None => forall|j: int| from <= j ==> !occurs_at(s@, pat@, j),
        },
{
    if from > s.len() {
        assert forall|j: int| from <= j implies !occurs_at(s@, pat@, j) by {}
        return None;
    }
    let mut i: usize = from;
    while i < s.len()
        invariant
            from <= i <= s.len(),
            forall|j: int| from <= j < i ==> !occurs_at(s@, pat@, j),
        decreases s.len() - i,
    {
        if matches_at(s, pat, i) {
            return Some(i);
        }
        i = i + 1;
    }
    if matches_at(s, pat, i) {
        return Some(i);
    }
    assert forall|j: int| from <= j implies !occurs_at(s@, pat@, j) by {
        if j > i {
        }
    }
    None
}

// ── Replacing ────────────────────────────────────────────────────────────────

/// `s` with every non-overlapping occurrence of `from`, scanned left to right,
/// replaced by `to` (`str::replace` for a non-empty pattern).
pub open spec fn replace_all(s: Seq<char>, from: Seq<char>, to: Seq<char>) -> Seq<char>
    decreases s.len(),
{
    if from.len() == 0 || s.len() == 0 {
        s
    } else if occurs_at(s, from, 0) {
        to + replace_all(s.skip(from.len() as int), from, to)
    } else {
        seq![s[0]] + replace_all(s.drop_first(), from, to)
    }
}

/// Replaces every occurrence of `from` in `s` by `to`.
pub fn replace_chars(s: &Vec<char>, from: &Vec<char>, to: &Vec<char>) -> (r: Vec<char>)
    requires
        from@.len() > 0,
    ensures
        r@ == replace_all(s@, from@, to@),
{
    let mut out: Vec<char> = Vec::new();
    let mut i: usize = 0;
    assert(s@.skip(0) == s@);
    while i < s.len()
        invariant
            i <= s.len(),
            from@.len() > 0,
            out@ + replace_all(s@.skip(i as int), from@, to@) == replace_all(s@, from@, to@),
        decreases s.len() - i,
    {
        let ghost rest = s@.skip(i as int);
        if matches_at(s, from, i) {
            proof {
                assert(rest.subrange(0, from@.len() as int) == s@.subrange(
                    i as int,
                    i + from@.len(),
                ));
                assert(rest.skip(from@.len() as int) == s@.skip(i + from@.len()));
            }
            push_all(&mut out, to);
            i = i + from.len();
        } else {
            proof {
                if occurs_at(rest, from@, 0) {
                    assert(rest.subrange(0, from@.len() as int) == s@.subrange(
                        i as int,
                        i + from@.len(),
                    ));
                }
                assert(rest.drop_first() == s@.skip(i + 1));
                assert(rest[0] == s@[i as int]);
            }
            out.push(s[i]);
            i = i + 1;
        }
    }
    assert(s@.skip(i as int).len() == 0);
    assert(out@ + s@.skip(i as int) == out@);
    out
}

/// Replaces every occurrence of `from` in `s` by `to` (`str::replace`).
pub fn replace_str(s: &str, from: &str, to: &str) -> (r: String)
    requires
        from@.len() > 0,
    ensures
        r@ == replace_all(s@, from@, to@),
{
    let cs = chars_of(s);
    let fs = chars_of(from);
    let ts = chars_of(to);
    let r = replace_chars(&cs, &fs, &ts);
    string_from_chars(&r)
}

// ── Decimal rendering ────────────────────────────────────────────────────────

/// The ASCII digit for `d < 10`.
pub open spec fn digit_char(d: nat) -> char {
    ((48 + d) as u8) as char
}

/// Decimal representation of `n`, without leading zeros.
pub open spec fn decimal(n: nat) -> Seq<char>
    decreases n,
{
    if n < 10 {
        seq![digit_char(n)]
    } else {
        decimal(n / 10).push(digit_char(n % 10))
    }
}

/// `s` left-padded with `'0'` to at least `width` characters (`{:0width$}`).
pub open spec fn zero_pad(s: Seq<char>, width: nat) -> Seq<char> {
    if s.len() >= width {
        s
    } else {
        Seq::new((width - s.len()) as nat, |i: int| '0') + s
    }
}

fn digit(d: usize) -> (c: char)
    requires
        d < 10,
    ensures
        c == digit_char(d as nat),
{
    let b: u8 = 48 + d as u8;
    b as char
}

/// Decimal representation of `n`.
pub fn decimal_chars(n: u128) -> (r: Vec<char>)
    ensures
        r@ == decimal(n as nat),
    decreases n,
{
    if n < 10 {
        let mut v: Vec<char> = Vec::new();
        v.push(digit(n as usize));
        v
    } else {
        let mut v = decimal_chars(n / 10);
        v.push(digit((n % 10) as usize));
        v
    }
}

/// Decimal representation of `n`, zero-padded to `width` characters.
pub fn padded_decimal(n: u128, width: usize) -> (r: Vec<char>)
    ensures
        r@ == zero_pad(decimal(n as nat), width as nat),
{
    let d = decimal_chars(n);
    if d.len() >= width {
        return d;
    }
    let mut r: Vec<char> = Vec::new();
    let fill = width - d.len();
    let mut i: usize = 0;
    while i < fill
        invariant
            i <= fill,
            r@ == Seq::new(i as nat, |k: int| '0'),
        decreases fill - i,
    {
        r.push('0');
        i = i + 1;
        assert(r@ == Seq::new(i as nat, |k: int| '0'));
    }
    push_all(&mut r, &d);
    r
}

// ── Case and character classes (std, Unicode tables) ─────────────────────────

/// The result of `str::to_lowercase` on the given characters (Unicode
/// `Lowercase` mapping).
pub uninterp spec fn lowercase(s: Seq<char>) -> Seq<char>;

/// Whether every character is ASCII.
pub open spec fn all_ascii(s: Seq<char>) -> bool {
    forall|i: int| 0 <= i < s.len() ==> (s[i] as u32) < 128
}

/// ASCII lower-casing of one character.
pub open spec fn ascii_lower(c: char) -> char {
    if 'A' <= c && c <= 'Z' {
        ((c as u32) + 32) as char
    } else {
        c
    }
}

/// What `str::to_lowercase` gives: stated on ASCII text, named otherwise.
pub open spec fn lower_text(s: Seq<char>) -> Seq<char> {
    if all_ascii(s) {
        s.map_values(|c: char| ascii_lower(c))
    } else {
        lowercase(s)
    }
}

/// Lower-cases `s` with `str::to_lowercase`. The Unicode lower-case mapping
/// is named, not written out; what is stated beyond the name is that on ASCII
/// text it maps `A`..`Z` to `a`..`z` and keeps every other character.
#[verifier::external_body]
pub fn to_lowercase(s: &str) -> (r: String)
    ensures
        r@ == lowercase(s@),
        all_ascii(s@) ==> r@ == s@.map_values(|c: char| ascii_lower(c)),
{
    s.to_lowercase()
}

/// The result of `char::is_alphanumeric` (Unicode `Alphabetic` or `Numeric`).
pub uninterp spec fn alphanumeric(c: char) -> bool;

/// ASCII letters and digits.
pub open spec fn ascii_alnum(c: char) -> bool {
    ('a' <= c && c <= 'z') || ('A' <= c && c <= 'Z') || ('0' <= c && c <= '9')
}

/// Tests `c` with `char::is_alphanumeric`. The Unicode tables are named, not
/// written out; on ASCII characters the result is stated: letters and digits.
#[verifier::external_body]
pub fn is_alphanumeric(c: char) -> (r: bool)
    ensures
        r == alphanumeric(c),
        (c as u32) < 128 ==> (r <==> ascii_alnum(c)),
{
    c.is_alphanumeric()
}

/// The first character of `char::to_lowercase(c)`, or `'_'` when it yields none.
pub uninterp spec fn lower_first(c: char) -> char;

/// `c.to_lowercase().next().unwrap_or('_')`. The Unicode mapping is named; on
/// ASCII characters the result is stated.
#[verifier::external_body]
pub fn lowercase_first(c: char) -> (r: char)
    ensures
        r == lower_first(c),
        (c as u32) < 128 ==> r == ascii_lower(c),
{
    c.to_lowercase().next().unwrap_or('_')
}


// ── Lines ────────────────────────────────────────────────────────────────────

/// The pieces of `s` between `'\n'` characters; there is always at least one.
pub open spec fn split_newlines(s: Seq<char>) -> Seq<Seq<char>>
    decreases s.len(),
{
    if s.len() == 0 {
        seq![Seq::<char>::empty()]
    } else {
        let r = split_newlines(s.drop_last());
        if s.last() == '\n' {
            r.push(Seq::<char>::empty())
        } else {
            r.update(r.len() - 1, r.last().push(s.last()))
        }
    }
}

/// The lines of `s` as `str::lines` yields them, except that a carriage
/// return before a line break is kept: the pieces between line feeds, without
/// the last piece when it is empty.
pub open spec fn line_pieces(s: Seq<char>) -> Seq<Seq<char>> {
    let p = split_newlines(s);
    if p.last().len() == 0 {
        p.drop_last()
    } else {
        p
    }
}

/// Splitting at line breaks always gives at least one piece.
pub proof fn lemma_split_newlines_nonempty(s: Seq<char>)
    ensures
        split_newlines(s).len() >= 1,
    decreases s.len(),
{
    if s.len() > 0 {
        lemma_split_newlines_nonempty(s.drop_last());
    }
}


/// The characters of an optional string.
pub open spec fn opt_chars(o: Option<String>) -> Option<Seq<char>> {
    match o {
        Some(s) => Some(s@),
        None => None,
    }
}


/// Lines joined with `'\n'` between them (`join("\n")`).
pub open spec fn joined_lines(items: Seq<Seq<char>>) -> Seq<char>
    decreases items.len(),
{
    if items.len() == 0 {
        Seq::empty()
    } else if items.len() == 1 {
        items[0]
    } else {
        joined_lines(items.drop_last()) + seq!['\n'] + items.last()
    }
}

/// Joining one more line: a line break before it unless it is the first.
pub proof fn lemma_joined_lines_step(items: Seq<Seq<char>>, i: int)
    requires
        0 <= i < items.len(),
    ensures
        joined_lines(items.take(i + 1)) == joined_lines(items.take(i)) + (if i > 0 {
            seq!['\n']
        } else {
            Seq::<char>::empty()
        }) + items[i],
{
    assert(items.take(i + 1).drop_last() == items.take(i));
    assert(items.take(i + 1).last() == items[i]);
    if i == 0 {
        assert(joined_lines(items.take(0)) == Seq::<char>::empty());
        assert(Seq::<char>::empty() + Seq::<char>::empty() + items[0] == items[0]);
    }
}


// ── Splitting and joining ────────────────────────────────────────────────────

/// `s` split at its first `c`: the part before it, and the part after it
/// when there is one (`splitn(2, c)`).
pub open spec fn split_once(s: Seq<char>, c: char) -> (Seq<char>, Option<Seq<char>>)
    decreases s.len(),
{
    if s.len() == 0 {
        (Seq::empty(), None)
    } else if s[0] == c {
        (Seq::empty(), Some(s.drop_first()))
    } else {
        let (a, b) = split_once(s.drop_first(), c);
        (seq![s[0]] + a, b)
    }
}

proof fn lemma_split_once_at(s: Seq<char>, c: char, i: int)
    requires
        0 <= i <= s.len(),
        forall|k: int| 0 <= k < i ==> s[k] != c,
        i == s.len() || s[i] == c,
    ensures
        split_once(s, c) == (s.take(i), if i < s.len() {
            Some(s.skip(i + 1))
        } else {
            None::<Seq<char>>
        }),
    decreases i,
{
    if i == 0 {
        if s.len() > 0 {
            assert(s.drop_first() == s.skip(1));
        }
        assert(s.take(0) == Seq::<char>::empty());
    } else {
        let t = s.drop_first();
        assert forall|k: int| 0 <= k < i - 1 implies t[k] != c by {
            assert(t[k] == s[k + 1]);
        }
        lemma_split_once_at(t, c, i - 1);
        assert(seq![s[0]] + t.take(i - 1) == s.take(i));
        if i < s.len() {
            assert(t.skip(i) == s.skip(i + 1));
        }
    }
}

/// Splits `s` at its first `c`.
pub fn split_once_chars(s: &Vec<char>, c: char) -> (r: (Vec<char>, Option<Vec<char>>))
    ensures
        split_once(s@, c) == (r.0@, match r.1 {
            Some(v) => Some(v@),
            None => None,
        }),
{
    let mut i: usize = 0;
    while i < s.len() && s[i] != c
        invariant
            i <= s.len(),
            forall|k: int| 0 <= k < i ==> s@[k] != c,
        decreases s.len() - i,
    {
        i = i + 1;
    }
    proof {
        lemma_split_once_at(s@, c, i as int);
    }
    let mut a: Vec<char> = Vec::new();
    let mut k: usize = 0;
    while k < i
        invariant
            k <= i <= s.len(),
            a@ == s@.take(k as int),
        decreases i - k,
    {
        a.push(s[k]);
        k = k + 1;
        assert(a@ == s@.take(k as int));
    }
    if i == s.len() {
        return (a, None);
    }
    let mut b: Vec<char> = Vec::new();
    let mut k: usize = i + 1;
    while k < s.len()
        invariant
            i + 1 <= k <= s.len(),
            b@ == s@.subrange(i + 1, k as int),
        decreases s.len() - k,
    {
        b.push(s[k]);
        k = k + 1;
        assert(b@ == s@.subrange(i + 1, k as int));
    }
    assert(b@ == s@.skip(i + 1));
    (a, Some(b))
}

/// `s` with every trailing `c` removed.
pub open spec fn strip_suffix_chars(s: Seq<char>, c: char) -> Seq<char>
    decreases s.len(),
{
    if s.len() > 0 && s.last() == c {
        strip_suffix_chars(s.drop_last(), c)
    } else {
        s
    }
}

/// `s` with every leading `c` removed.
pub open spec fn strip_prefix_chars(s: Seq<char>, c: char) -> Seq<char>
    decreases s.len(),
{
    if s.len() > 0 && s[0] == c {
        strip_prefix_chars(s.drop_first(), c)
    } else {
        s
    }
}

/// Stripping the leading `c`s drops exactly the first `i` characters when
/// those are `c` and the next one is not.
pub proof fn lemma_strip_prefix_chars_skip(s: Seq<char>, c: char, i: int)
    requires
        0 <= i <= s.len(),
        forall|k: int| 0 <= k < i ==> s[k] == c,
        i == s.len() || s[i] != c,
    ensures
        strip_prefix_chars(s, c) == s.skip(i),
    decreases i,
{
    if i == 0 {
        assert(s.skip(0) == s);
    } else {
        let t = s.drop_first();
        assert forall|k: int| 0 <= k < i - 1 implies t[k] == c by {
            assert(t[k] == s[k + 1]);
        }
        lemma_strip_prefix_chars_skip(t, c, i - 1);
        assert(t.skip(i - 1) == s.skip(i));
    }
}

proof fn lemma_strip_suffix_chars_take(s: Seq<char>, c: char, j: int)
    requires
        0 <= j <= s.len(),
        forall|k: int| j <= k < s.len() ==> s[k] == c,
        j == 0 || s[j - 1] != c,
    ensures
        strip_suffix_chars(s, c) == s.take(j),
    decreases s.len() - j,
{
    if j == s.len() {
        assert(s.take(j) == s);
    } else {
        let t = s.drop_last();
        assert forall|k: int| j <= k < t.len() implies t[k] == c by {
            assert(t[k] == s[k]);
        }
        lemma_strip_suffix_chars_take(t, c, j);
        assert(t.take(j) == s.take(j));
    }
}

/// `s` without leading and trailing `c` (`str::trim_matches(c)`).
pub fn trim_matches_char(s: &Vec<char>, c: char) -> (r: Vec<char>)
    ensures
        r@ == strip_suffix_chars(strip_prefix_chars(s@, c), c),
{
    let n = s.len();
    let mut i: usize = 0;
    while i < n && s[i] == c
        invariant
            n == s.len(),
            i <= n,
            forall|k: int| 0 <= k < i ==> s@[k] == c,
        decreases n - i,
    {
        i = i + 1;
    }
    proof {
        lemma_strip_prefix_chars_skip(s@, c, i as int);
    }
    let mut j: usize = n;
    while j > i && s[j - 1] == c
        invariant
            n == s.len(),
            i <= j <= n,
            forall|k: int| j <= k < n ==> s@[k] == c,
        decreases j,
    {
        j = j - 1;
    }
    let ghost t = s@.skip(i as int);
    proof {
        assert forall|k: int| j - i <= k < t.len() implies t[k] == c by {
            assert(t[k] == s@[k + i]);
        }
        if j > i {
            assert(t[j - i - 1] == s@[j - 1]);
        }
        lemma_strip_suffix_chars_take(t, c, j - i);
        assert(t.take(j - i) == s@.subrange(i as int, j as int));
    }
    let mut r: Vec<char> = Vec::new();
    let mut k: usize = i;
    while k < j
        invariant
            i <= k <= j <= n,
            n == s.len(),
            r@ == s@.subrange(i as int, k as int),
        decreases j - k,
    {
        r.push(s[k]);
        k = k + 1;
        assert(r@ == s@.subrange(i as int, k as int));
    }
    r
}

/// Items joined with `sep` between them.
pub open spec fn joined_with(items: Seq<Seq<char>>, sep: char) -> Seq<char>
    decreases items.len(),
{
    if items.len() == 0 {
        Seq::empty()
    } else if items.len() == 1 {
        items[0]
    } else {
        joined_with(items.drop_last(), sep) + seq![sep] + items.last()
    }
}

/// The pieces of `s` between the occurrences of `c` (`str::split(c)`).
pub open spec fn split_on(s: Seq<char>, c: char) -> Seq<Seq<char>>
    decreases s.len(),
{
    if s.len() == 0 {
        seq![Seq::<char>::empty()]
    } else {
        let r = split_on(s.drop_last(), c);
        if s.last() == c {
            r.push(Seq::<char>::empty())
        } else {
            r.update(r.len() - 1, r.last().push(s.last()))
        }
    }
}

/// Splitting at a character always gives at least one piece.
pub proof fn lemma_split_on_nonempty(s: Seq<char>, c: char)
    ensures
        split_on(s, c).len() >= 1,
    decreases s.len(),
{
    if s.len() > 0 {
        lemma_split_on_nonempty(s.drop_last(), c);
    }
}

/// The first occurrence is unique: a position with no earlier occurrence is it.
pub proof fn lemma_first_occurrence_is(s: Seq<char>, pat: Seq<char>, from: int, i: int)
    requires
        from <= i,
        occurs_at(s, pat, i),
        forall|j: int| from <= j < i ==> !occurs_at(s, pat, j),
    ensures
        first_occurrence_from(s, pat, from) == Some(i),
{
    let k = choose|k: int|
        from <= k && occurs_at(s, pat, k) && (forall|j: int| from <= j < k ==> !occurs_at(s, pat, j));
    assert(from <= k && occurs_at(s, pat, k));
    if k < i {
        assert(!occurs_at(s, pat, k));
    }
    if i < k {
        assert(!occurs_at(s, pat, i));
    }
}

/// Case mapping of one character by `char::to_uppercase` (Unicode tables).
pub uninterp spec fn uppercase_of(c: char) -> Seq<char>;

/// `c.to_uppercase()` collected into a string. The Unicode mapping is named;
/// on ASCII it is stated: `a`..`z` become `A`..`Z`, all else is kept.
#[verifier::external_body]
pub fn char_to_uppercase(c: char) -> (r: String)
    ensures
        r@ == uppercase_of(c),
        (c as u32) < 128 ==> r@ == seq![
            if 'a' <= c && c <= 'z' {
                ((c as u32) - 32) as char
            } else {
                c
            },
        ],
{
    c.to_uppercase().collect()
}


/// `s` without its leading `c`s (`str::trim_start_matches(c)`).
pub fn strip_leading(s: &Vec<char>, c: char) -> (r: Vec<char>)
    ensures
        r@ == strip_prefix_chars(s@, c),
{
    let mut i: usize = 0;
    while i < s.len() && s[i] == c
        invariant
            i <= s.len(),
            forall|k: int| 0 <= k < i ==> s@[k] == c,
        decreases s.len() - i,
    {
        i = i + 1;
    }
    proof {
        lemma_strip_prefix_chars_skip(s@, c, i as int);
    }
    let mut r: Vec<char> = Vec::new();
    let mut k: usize = i;
    while k < s.len()
        invariant
            i <= k <= s.len(),
            r@ == s@.subrange(i as int, k as int),
        decreases s.len() - k,
    {
        r.push(s[k]);
        k = k + 1;
        assert(r@ == s@.subrange(i as int, k as int));
    }
    assert(r@ == s@.skip(i as int));
    r
}

/// The characters of `s` from `start` up to `end`.
pub fn slice_chars(s: &Vec<char>, start: usize, end: usize) -> (r: Vec<char>)
    requires
        start <= end <= s.len(),
    ensures
        r@ == s@.subrange(start as int, end as int),
{
    let mut r: Vec<char> = Vec::new();
    let mut k: usize = start;
    while k < end
        invariant
            start <= k <= end <= s.len(),
            r@ == s@.subrange(start as int, k as int),
        decreases end - k,
    {
        r.push(s[k]);
        k = k + 1;
        assert(r@ == s@.subrange(start as int, k as int));
    }
    r
}

/// The text between the first `open` and the first `close` after it.
pub open spec fn delimited(s: Seq<char>, open: Seq<char>, close: Seq<char>) -> Option<Seq<char>> {
    match first_occurrence_from(s, open, 0) {
        Some(i) => match first_occurrence_from(s, close, i + open.len()) {
            Some(e) => Some(s.subrange(i + open.len(), e)),
            None => None,
        },
        None => None,
    }
}

/// The text between the first `open` and the first `close` after it, computed.
pub fn delimited_chars(s: &Vec<char>, open: &Vec<char>, close: &Vec<char>) -> (r: Option<Vec<char>>)
    ensures
        match r {
            Some(v) => delimited(s@, open@, close@) == Some(v@),
            None => delimited(s@, open@, close@) is None,
        },
{
    let i = match find_from(s, open, 0) {
        Some(i) => i,
        None => {
            return None;
        },
    };
    proof {
        lemma_first_occurrence_is(s@, open@, 0, i as int);
    }
    let n = s.len();
    assert(i + open@.len() <= n);
    let start = i + open.len();
    let e = match find_from(s, close, start) {
        Some(e) => e,
        None => {
            return None;
        },
    };
    proof {
        lemma_first_occurrence_is(s@, close@, start as int, e as int);
    }
    Some(slice_chars(s, start, e))
}

/// The views of some character vectors.
pub open spec fn char_vecs(v: Seq<Vec<char>>) -> Seq<Seq<char>> {
    v.map_values(|x: Vec<char>| x@)
}

/// The pieces of `s` between the occurrences of `c` (`str::split(c)`).
pub fn split_chars(s: &Vec<char>, c: char) -> (r: Vec<Vec<char>>)
    ensures
        char_vecs(r@) == split_on(s@, c),
{
    let mut done: Vec<Vec<char>> = Vec::new();
    let mut cur: Vec<char> = Vec::new();
    let mut i: usize = 0;
    assert(s@.take(0) =~= Seq::<char>::empty());
    assert(char_vecs(done@).push(cur@) =~= seq![Seq::<char>::empty()]);
    while i < s.len()
        invariant
            i <= s.len(),
            split_on(s@.take(i as int), c) == char_vecs(done@).push(cur@),
        decreases s.len() - i,
    {
        let x = s[i];
        proof {
            assert(s@.take(i + 1).drop_last() == s@.take(i as int));
            assert(s@.take(i + 1).last() == x);
        }
        if x == c {
            let ghost d0 = char_vecs(done@);
            let ghost c0 = cur@;
            let mut piece: Vec<char> = Vec::new();
            std::mem::swap(&mut piece, &mut cur);
            done.push(piece);
            assert(char_vecs(done@) == d0.push(c0));
        } else {
            let ghost c0 = cur@;
            cur.push(x);
            assert(char_vecs(done@).push(c0).update(char_vecs(done@).len() as int, c0.push(x))
                == char_vecs(done@).push(cur@));
        }
        i = i + 1;
    }
    assert(s@.take(i as int) == s@);
    let ghost d0 = char_vecs(done@);
    let ghost c0 = cur@;
    done.push(cur);
    assert(char_vecs(done@) == d0.push(c0));
    done
}

/// Whether every character is an ASCII digit.
pub open spec fn all_digits(s: Seq<char>) -> bool {
    forall|i: int| 0 <= i < s.len() ==> '0' <= #[trigger] s[i] <= '9'
}

/// The number that ASCII digits spell.
pub open spec fn digits_value(s: Seq<char>) -> nat
    decreases s.len(),
{
    if s.len() == 0 {
        0
    } else {
        digits_value(s.drop_last()) * 10 + ((s.last() as nat) - 48) as nat
    }
}

/// What `str::parse::<u64>` gives: an optional `+` and at least one ASCII
/// digit, whose value fits.
pub open spec fn parsed_u64(s: Seq<char>) -> Option<u64> {
    let d = if s.len() > 0 && s[0] == '+' {
        s.drop_first()
    } else {
        s
    };
    if d.len() > 0 && all_digits(d) && digits_value(d) <= u64::MAX {
        Some(digits_value(d) as u64)
    } else {
        None
    }
}

/// A longer run of digits has at least the value of its prefix.
proof fn lemma_digits_value_grows(s: Seq<char>, k: int)
    requires
        0 <= k <= s.len(),
        all_digits(s),
    ensures
        digits_value(s.take(k)) <= digits_value(s),
    decreases s.len() - k,
{
    if k < s.len() {
        lemma_digits_value_grows(s, k + 1);
        assert(s.take(k + 1).drop_last() == s.take(k));
        assert('0' <= s[k] <= '9');
    } else {
        assert(s.take(k) == s);
    }
}

/// Parses an unsigned decimal number (`str::parse::<u64>`).
pub fn parse_u64(s: &str) -> (r: Option<u64>)
    ensures
        r == parsed_u64(s@),
{
    let cs = chars_of(s);
    let start: usize = if cs.len() > 0 && cs[0] == '+' {
        1
    } else {
        0
    };
    let ghost d = if cs@.len() > 0 && cs@[0] == '+' {
        cs@.drop_first()
    } else {
        cs@
    };
    assert(d == cs@.skip(start as int));
    if start >= cs.len() {
        return None;
    }
    let mut acc: u64 = 0;
    let mut i: usize = start;
    assert(d.take(0) =~= Seq::<char>::empty());
    while i < cs.len()
        invariant
            start <= i <= cs.len(),
            cs@ == s@,
            d == cs@.skip(start as int),
            d == (if s@.len() > 0 && s@[0] == '+' {
                s@.drop_first()
            } else {
                s@
            }),
            all_digits(d.take(i - start)),
            acc as nat == digits_value(d.take(i - start)),
        decreases cs.len() - i,
    {
        let c = cs[i];
        let ghost k = i - start;
        proof {
            assert(d[k] == c);
            assert(d.take(k + 1).drop_last() == d.take(k));
            assert(d.take(k + 1).last() == c);
        }
        if c < '0' || c > '9' {
            proof {
                assert(!('0' <= d[k] <= '9'));
                assert(!all_digits(d));
            }
            return None;
        }
        let dig: u64 = (c as u32 - 48) as u64;
        let next = match acc.checked_mul(10) {
            Some(m) => m.checked_add(dig),
            None => None,
        };
        match next {
            Some(n) => {
                acc = n;
            },
            None => {
                proof {
                    assert(digits_value(d.take(k + 1)) == acc * 10 + dig);
                    if all_digits(d) {
                        lemma_digits_value_grows(d, k + 1);
                    }
                }
                return None;
            },
        }
        i = i + 1;
        proof {
            assert forall|j: int| 0 <= j < d.take(i - start).len() implies '0' <= #[trigger] d.take(i - start)[j] <= '9' by {
                if j < k {
                    assert(d.take(i - start)[j] == d.take(k)[j]);
                }
            }
        }
    }
    assert(d.take(i - start) == d);
    Some(acc)
}

} // verus!
