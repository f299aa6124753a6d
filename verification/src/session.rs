//! The decisions of a crawl or an update: which chapters were downloaded
//! before, which remain to fetch, how freshly downloaded chapters merge into
//! an existing download, and which output formats to write.

use vstd::prelude::*;

use crate::cli::index_range;
use crate::models::{str_eq, Chapter, Novel, OutputFormat};
use crate::text::starts_with;
use std::collections::HashSet;

verus! {

// ── URL lists ────────────────────────────────────────────────────────────────

/// Whether `u` is one of `urls`.
pub open spec fn has_url(urls: Seq<String>, u: Seq<char>) -> bool {
    exists|i: int| 0 <= i < urls.len() && urls[i]@ == u
}

/// Whether `u` is one of `urls`.
pub fn contains_url(urls: &Vec<String>, u: &str) -> (r: bool)
    ensures
        r == has_url(urls@, u@),
{
    let mut i: usize = 0;
    while i < urls.len()
        invariant
            i <= urls.len(),
            forall|k: int| 0 <= k < i ==> urls@[k]@ != u@,
        decreases urls.len() - i,
    {
        if str_eq(urls[i].as_str(), u) {
            return true;
        }
        i = i + 1;
    }
    false
}

/// The URLs of the chapters that have a body, in chapter order.
pub open spec fn downloaded_of(chs: Seq<Chapter>) -> Seq<Seq<char>>
    decreases chs.len(),
{
    if chs.len() == 0 {
        Seq::empty()
    } else {
        let before = downloaded_of(chs.drop_last());
        if chs.last().body is Some {
            before.push(chs.last().url@)
        } else {
            before
        }
    }
}

/// The chapter URLs already downloaded in a previously saved novel (those with
/// a body); none when there is no saved novel.
pub fn load_downloaded_urls(existing: &Option<Novel>) -> (r: Vec<String>)
    ensures
        r@.map_values(|s: String| s@) == match existing {
            Some(n) => downloaded_of(n.chapters@),
            None => Seq::empty(),
        },
{
    let mut r: Vec<String> = Vec::new();
    match existing {
        None => {
            assert(r@.map_values(|s: String| s@) =~= Seq::<Seq<char>>::empty());
            r
        },
        Some(n) => {
            let mut i: usize = 0;
            while i < n.chapters.len()
                invariant
                    i <= n.chapters.len(),
                    r@.map_values(|s: String| s@) == downloaded_of(n.chapters@.take(i as int)),
                decreases n.chapters.len() - i,
            {
                proof {
                    assert(n.chapters@.take(i + 1).drop_last() == n.chapters@.take(i as int));
                }
                if n.chapters[i].body.is_some() {
                    let ghost before = r@;
                    r.push(n.chapters[i].url.clone());
                    assert(r@.map_values(|s: String| s@) == before.map_values(|s: String| s@).push(
                        n.chapters@[i as int].url@,
                    ));
                }
                i = i + 1;
            }
            assert(n.chapters@.take(i as int) == n.chapters@);
            r
        },
    }
}

/// The number of chapters whose URL is among `urls`.
pub open spec fn count_in(chs: Seq<Chapter>, urls: Seq<String>) -> nat
    decreases chs.len(),
{
    if chs.len() == 0 {
        0
    } else {
        count_in(chs.drop_last(), urls) + if has_url(urls, chs.last().url@) {
            1nat
        } else {
            0nat
        }
    }
}

proof fn lemma_count_in_bound(chs: Seq<Chapter>, urls: Seq<String>)
    ensures
        count_in(chs, urls) <= chs.len(),
    decreases chs.len(),
{
    if chs.len() > 0 {
        lemma_count_in_bound(chs.drop_last(), urls);
    }
}

/// How many of the chapters were downloaded before.
pub fn count_downloaded(chapters: &Vec<Chapter>, urls: &Vec<String>) -> (r: usize)
    ensures
        r == count_in(chapters@, urls@),
{
    let mut n: usize = 0;
    let mut i: usize = 0;
    while i < chapters.len()
        invariant
            i <= chapters.len(),
            n == count_in(chapters@.take(i as int), urls@),
        decreases chapters.len() - i,
    {
        proof {
            assert(chapters@.take(i + 1).drop_last() == chapters@.take(i as int));
            lemma_count_in_bound(chapters@.take(i as int), urls@);
        }
        if contains_url(urls, chapters[i].url.as_str()) {
            n = n + 1;
        }
        i = i + 1;
    }
    assert(chapters@.take(i as int) == chapters@);
    n
}

/// The indices whose chapter was not downloaded before, in the given order.
pub open spec fn not_downloaded(idx: Seq<usize>, chs: Seq<Chapter>, urls: Seq<String>) -> Seq<
    usize,
> {
    idx.filter(|i: usize| !has_url(urls, chs[i as int].url@))
}

/// Keeps the indices whose chapter was not downloaded before.
pub fn pending_indices(indices: &Vec<usize>, chapters: &Vec<Chapter>, urls: &Vec<String>) -> (r:
    Vec<usize>)
    requires
        forall|k: int| 0 <= k < indices@.len() ==> indices@[k] < chapters@.len(),
    ensures
        r@ == not_downloaded(indices@, chapters@, urls@),
{
    let ghost pred = |i: usize| !has_url(urls@, chapters@[i as int].url@);
    let mut r: Vec<usize> = Vec::new();
    let mut k: usize = 0;
    while k < indices.len()
        invariant
            k <= indices.len(),
            forall|m: int| 0 <= m < indices@.len() ==> indices@[m] < chapters@.len(),
            pred == (|i: usize| !has_url(urls@, chapters@[i as int].url@)),
            r@ == indices@.take(k as int).filter(pred),
        decreases indices.len() - k,
    {
        proof {
            reveal_with_fuel(Seq::<_>::filter, 1);
            assert(indices@.take(k + 1).drop_last() == indices@.take(k as int));
        }
        let i = indices[k];
        if !contains_url(urls, chapters[i].url.as_str()) {
            r.push(i);
        }
        k = k + 1;
    }
    assert(indices@.take(k as int) == indices@);
    r
}

// ── Interactive chapter choice ───────────────────────────────────────────────

/// The entries of the interactive chapter menu, with the numbers they ask for.
pub enum ChapterChoice {
    /// The chapters not downloaded yet
    Missing,
    /// Every chapter, downloaded or not
    All,
    /// The first N chapters
    First(usize),
    /// The last N chapters
    Last(usize),
    /// Chapters FROM..=TO (1-based)
    Range(usize, usize),
}

/// The indices a menu choice selects, before skipping downloaded chapters.
pub open spec fn choice_range(c: ChapterChoice, total: int) -> Seq<usize> {
    match c {
        ChapterChoice::Missing => index_range(0, total),
        ChapterChoice::All => index_range(0, total),
        ChapterChoice::First(n) => index_range(0, if n < total { n as int } else { total }),
        ChapterChoice::Last(n) => index_range(if n < total { total - n } else { 0 }, total),
        ChapterChoice::Range(from, to) => index_range(
            if from >= 1 { from - 1 } else { 0 },
            if to < total { to as int } else { total },
        ),
    }
}

/// The indices to download for a menu choice: all chapters for `All`, else
/// the chosen ones that were not downloaded before.
pub open spec fn choice_indices(c: ChapterChoice, chs: Seq<Chapter>, urls: Seq<String>) -> Seq<
    usize,
> {
    match c {
        ChapterChoice::All => index_range(0, chs.len() as int),
        _ => not_downloaded(choice_range(c, chs.len() as int), chs, urls),
    }
}

fn range_indices(from: usize, to: usize) -> (r: Vec<usize>)
    ensures
        r@ == index_range(from as int, to as int),
{
    let mut r: Vec<usize> = Vec::new();
    let mut i: usize = from;
    while i < to
        invariant
            from <= i,
            from < to ==> i <= to,
            from >= to ==> i == from,
            r@ == index_range(from as int, i as int),
        decreases to - i,
    {
        r.push(i);
        i = i + 1;
        assert(r@ == index_range(from as int, i as int));
    }
    if from >= to {
        assert(r@ =~= index_range(from as int, to as int));
    }
    r
}

/// Keeping the chapters not downloaded before keeps every one when nothing
/// was downloaded.
proof fn lemma_nothing_downloaded(idx: Seq<usize>, chs: Seq<Chapter>)
    ensures
        not_downloaded(idx, chs, Seq::empty()) == idx,
    decreases idx.len(),
{
    let pred = |i: usize| !has_url(Seq::<String>::empty(), chs[i as int].url@);
    reveal_with_fuel(Seq::<_>::filter, 1);
    if idx.len() > 0 {
        lemma_nothing_downloaded(idx.drop_last(), chs);
        assert(pred(idx.last()));
        assert(idx.drop_last().push(idx.last()) =~= idx);
    }
}

/// The menu's range FROM..=TO counts chapters from 1: with nothing downloaded
/// before, it picks chapters FROM, FROM + 1, … up to TO or the last chapter,
/// that is the 0-based indices FROM - 1, FROM, … in increasing order.
pub proof fn lemma_range_choice_counts_from_one(from: usize, to: usize, chs: Seq<Chapter>)
    requires
        1 <= from,
    ensures
        ({
            let r = choice_indices(ChapterChoice::Range(from, to), chs, Seq::empty());
            let last = if to < chs.len() { to as int } else { chs.len() as int };
            &&& r.len() == (if last >= from { last - from + 1 } else { 0 })
            &&& forall|k: int| 0 <= k < r.len() ==> r[k] + 1 == from + k
        }),
{
    lemma_nothing_downloaded(choice_range(ChapterChoice::Range(from, to), chs.len() as int), chs);
}

/// The chapter indices selected by an entry of the interactive menu.
pub fn chapter_choice_indices(choice: &ChapterChoice, chapters: &Vec<Chapter>, urls: &Vec<String>) -> (r: Vec<usize>)
    ensures
        r@ == choice_indices(*choice, chapters@, urls@),
{
    let total = chapters.len();
    let candidates = match choice {
        ChapterChoice::Missing => range_indices(0, total),
        ChapterChoice::All => {
            return range_indices(0, total);
        },
        ChapterChoice::First(n) => range_indices(0, if *n < total { *n } else { total }),
        ChapterChoice::Last(n) => range_indices(if *n < total { total - *n } else { 0 }, total),
        ChapterChoice::Range(from, to) => range_indices(
            if *from >= 1 { *from - 1 } else { 0 },
            if *to < total { *to } else { total },
        ),
    };
    pending_indices(&candidates, chapters, urls)
}

// ── Gathering and merging ────────────────────────────────────────────────────

/// The chapters at the given indices that have a body, in index order.
pub open spec fn with_body_at(idx: Seq<usize>, chs: Seq<Chapter>) -> Seq<Chapter>
    decreases idx.len(),
{
    if idx.len() == 0 {
        Seq::empty()
    } else {
        let before = with_body_at(idx.drop_last(), chs);
        let c = chs[idx.last() as int];
        if c.body is Some {
            before.push(c)
        } else {
            before
        }
    }
}

/// The downloaded chapters among the selected indices (those with a body).
pub fn selected_with_body<'a>(indices: &Vec<usize>, chapters: &'a Vec<Chapter>) -> (r: Vec<
    &'a Chapter,
>)
    requires
        forall|k: int| 0 <= k < indices@.len() ==> indices@[k] < chapters@.len(),
    ensures
        r@.map_values(|c: &Chapter| *c) == with_body_at(indices@, chapters@),
{
    let mut r: Vec<&Chapter> = Vec::new();
    let mut k: usize = 0;
    while k < indices.len()
        invariant
            k <= indices.len(),
            forall|m: int| 0 <= m < indices@.len() ==> indices@[m] < chapters@.len(),
            r@.map_values(|c: &Chapter| *c) == with_body_at(indices@.take(k as int), chapters@),
        decreases indices.len() - k,
    {
        proof {
            assert(indices@.take(k + 1).drop_last() == indices@.take(k as int));
            assert(indices@.take(k + 1).last() == indices@[k as int]);
        }
        let c = &chapters[indices[k]];
        if c.body.is_some() {
            let ghost before = r@;
            r.push(c);
            assert(r@.map_values(|c: &Chapter| *c) == before.map_values(|c: &Chapter| *c).push(
                *c,
            ));
        }
        k = k + 1;
    }
    assert(indices@.take(k as int) == indices@);
    r
}

/// `s` with `c` inserted after the last element whose id is at most `c.id`,
/// scanning from the end (one step of a stable insertion sort).
pub open spec fn insert_by_id(s: Seq<Chapter>, c: Chapter) -> Seq<Chapter>
    decreases s.len(),
{
    if s.len() == 0 || s.last().id <= c.id {
        s.push(c)
    } else {
        insert_by_id(s.drop_last(), c).push(s.last())
    }
}

/// `s` sorted by id, chapters with equal ids in their original order
/// (`sort_by_key(|c| c.id)`).
pub open spec fn sorted_by_id(s: Seq<Chapter>) -> Seq<Chapter>
    decreases s.len(),
{
    if s.len() == 0 {
        Seq::empty()
    } else {
        insert_by_id(sorted_by_id(s.drop_last()), s.last())
    }
}

/// Whether ids do not decrease along `s`.
pub open spec fn ids_ascending(s: Seq<Chapter>) -> bool {
    forall|i: int, j: int| 0 <= i < j < s.len() ==> s[i].id <= s[j].id
}

proof fn lemma_insert_position(s: Seq<Chapter>, c: Chapter, j: int)
    requires
        0 <= j <= s.len(),
        forall|k: int| j <= k < s.len() ==> s[k].id > c.id,
        j == 0 || s[j - 1].id <= c.id,
    ensures
        insert_by_id(s, c) == s.insert(j, c),
    decreases s.len() - j,
{
    if j == s.len() {
        assert(s.insert(j, c) == s.push(c));
    } else {
        let t = s.drop_last();
        lemma_insert_position(t, c, j);
        assert(s.insert(j, c) == t.insert(j, c).push(s.last()));
    }
}

/// Inserts `c` into `v` so that ids stay ascending and equal ids keep their order.
fn insert_chapter(v: &mut Vec<Chapter>, c: Chapter)
    ensures
        final(v)@ == insert_by_id(old(v)@, c),
{
    let mut j: usize = v.len();
    while j > 0 && v[j - 1].id > c.id
        invariant
            j <= v.len(),
            forall|k: int| j <= k < v.len() ==> v@[k].id > c.id,
        decreases j,
    {
        j = j - 1;
    }
    proof {
        lemma_insert_position(v@, c, j as int);
    }
    v.insert(j, c);
}

proof fn lemma_insert_by_id_facts(s: Seq<Chapter>, c: Chapter)
    requires
        ids_ascending(s),
    ensures
        ids_ascending(insert_by_id(s, c)),
        insert_by_id(s, c).to_multiset() == s.to_multiset().insert(c),
    decreases s.len(),
{
    broadcast use vstd::seq_lib::group_to_multiset_ensures;
    if s.len() == 0 || s.last().id <= c.id {
        assert(s.push(c).to_multiset() == s.to_multiset().insert(c));
    } else {
        let t = s.drop_last();
        assert(ids_ascending(t));
        lemma_insert_by_id_facts(t, c);
        let u = insert_by_id(t, c);
        assert(s == t.push(s.last()));
        assert(u.push(s.last()).to_multiset() == u.to_multiset().insert(s.last()));
        assert(t.push(s.last()).to_multiset() == t.to_multiset().insert(s.last()));
        assert(s.to_multiset().insert(c) =~= t.to_multiset().insert(c).insert(s.last()));
        assert forall|k: int| 0 <= k < u.len() implies u[k].id <= s.last().id by {
            assert(u.to_multiset().count(u[k]) > 0);
            if u[k] == c {
            } else {
                assert(t.to_multiset().count(u[k]) > 0);
                let m = choose|m: int| 0 <= m < t.len() && t[m] == u[k];
                assert(t[m] == s[m]);
            }
        }
    }
}

/// Sorting by id gives ascending ids and keeps exactly the same chapters.
pub proof fn lemma_sorted_by_id(s: Seq<Chapter>)
    ensures
        ids_ascending(sorted_by_id(s)),
        sorted_by_id(s).to_multiset() == s.to_multiset(),
    decreases s.len(),
{
    broadcast use vstd::seq_lib::group_to_multiset_ensures;
    if s.len() > 0 {
        lemma_sorted_by_id(s.drop_last());
        lemma_insert_by_id_facts(sorted_by_id(s.drop_last()), s.last());
        assert(s == s.drop_last().push(s.last()));
    }
}

/// The ids of the given chapters.
pub open spec fn ids_of(chs: Seq<&Chapter>) -> Set<usize> {
    Set::new(|id: usize| exists|k: int| 0 <= k < chs.len() && chs[k].id == id)
}

/// The earlier chapters whose ids are not among the new chapters, followed by
/// the new chapters, the whole sorted by id.
pub open spec fn merged_chapters(prev: Seq<Chapter>, fresh: Seq<&Chapter>) -> Seq<Chapter> {
    sorted_by_id(
        prev.filter(|c: Chapter| !ids_of(fresh).contains(c.id)) + fresh.map_values(
            |c: &Chapter| *c,
        ),
    )
}

/// The set of the ids of the given chapters.
fn id_set(chs: &[&Chapter]) -> (r: HashSet<usize>)
    ensures
        r@ == ids_of(chs@),
{
    broadcast use vstd::std_specs::hash::group_hash_axioms;

    let mut ids: HashSet<usize> = HashSet::new();
    let mut k: usize = 0;
    while k < chs.len()
        invariant
            k <= chs@.len(),
            ids@ == ids_of(chs@.take(k as int)),
        decreases chs.len() - k,
    {
        let ghost before = chs@.take(k as int);
        ids.insert(chs[k].id);
        k = k + 1;
        proof {
            let after = chs@.take(k as int);
            assert forall|id: usize| ids_of(after).contains(id) <==> ids@.contains(id) by {
                if ids_of(after).contains(id) {
                    let m = choose|m: int| 0 <= m < after.len() && after[m].id == id;
                    if m < k - 1 {
                        assert(before[m] == after[m]);
                        assert(ids_of(before).contains(id));
                    }
                }
                if ids@.contains(id) && id != chs@[k - 1].id {
                    assert(ids_of(before).contains(id));
                    let m = choose|m: int| 0 <= m < before.len() && before[m].id == id;
                    assert(after[m] == before[m]);
                }
                if id == chs@[k - 1].id {
                    assert(after[k - 1] == chs@[k - 1]);
                }
            }
            assert(ids@ =~= ids_of(after));
        }
    }
    assert(chs@.take(k as int) =~= chs@);
    ids
}

/// Merges freshly downloaded chapters into the chapters of an earlier
/// download: an earlier chapter with the id of a new one is replaced, and the
/// result is sorted by id.
pub fn merge_chapters(prev: &Vec<Chapter>, fresh: &[&Chapter]) -> (r: Vec<Chapter>)
    ensures
        r@ == merged_chapters(prev@, fresh@),
{
    let ghost keep = |c: Chapter| !ids_of(fresh@).contains(c.id);
    let ghost all = prev@.filter(keep) + fresh@.map_values(|c: &Chapter| *c);
    broadcast use vstd::std_specs::hash::group_hash_axioms;

    let new_ids = id_set(fresh);
    let mut combined: Vec<Chapter> = Vec::new();
    let mut i: usize = 0;
    while i < prev.len()
        invariant
            i <= prev.len(),
            new_ids@ == ids_of(fresh@),
            keep == (|c: Chapter| !ids_of(fresh@).contains(c.id)),
            combined@ == prev@.take(i as int).filter(keep),
        decreases prev.len() - i,
    {
        proof {
            reveal_with_fuel(Seq::<_>::filter, 1);
            assert(prev@.take(i + 1).drop_last() == prev@.take(i as int));
        }
        if !new_ids.contains(&prev[i].id) {
            combined.push(prev[i].clone());
        }
        i = i + 1;
    }
    assert(prev@.take(i as int) == prev@);
    let ghost retained = combined@;
    let mut k: usize = 0;
    while k < fresh.len()
        invariant
            k <= fresh@.len(),
            combined@ == retained + fresh@.take(k as int).map_values(|c: &Chapter| *c),
        decreases fresh.len() - k,
    {
        combined.push(fresh[k].clone());
        k = k + 1;
        assert(fresh@.take(k as int).map_values(|c: &Chapter| *c) == fresh@.take(
            (k - 1) as int,
        ).map_values(|c: &Chapter| *c).push(*fresh@[k - 1]));
    }
    assert(fresh@.take(k as int) == fresh@);
    assert(combined@ == all);
    let mut sorted: Vec<Chapter> = Vec::new();
    let mut m: usize = 0;
    while m < combined.len()
        invariant
            m <= combined.len(),
            sorted@ == sorted_by_id(combined@.take(m as int)),
        decreases combined.len() - m,
    {
        proof {
            assert(combined@.take(m + 1).drop_last() == combined@.take(m as int));
            assert(combined@.take(m + 1).last() == combined@[m as int]);
        }
        insert_chapter(&mut sorted, combined[m].clone());
        m = m + 1;
    }
    assert(combined@.take(m as int) == combined@);
    sorted
}

/// After a merge the chapters are in ascending id order, every new chapter is
/// present, and no earlier chapter that shares an id with a new one is left.
pub proof fn lemma_merge_laws(prev: Seq<Chapter>, fresh: Seq<&Chapter>)
    ensures
        ids_ascending(merged_chapters(prev, fresh)),
        forall|k: int| 0 <= k < fresh.len() ==> merged_chapters(prev, fresh).contains(*fresh[k]),
        forall|c: Chapter|
            merged_chapters(prev, fresh).contains(c) && !fresh.map_values(|x: &Chapter| *x).contains(c)
                ==> prev.contains(c) && !ids_of(fresh).contains(c.id),
{
    broadcast use vstd::seq_lib::group_to_multiset_ensures;
    let keep = |c: Chapter| !ids_of(fresh).contains(c.id);
    let kept = prev.filter(keep);
    let fr = fresh.map_values(|c: &Chapter| *c);
    let all = kept + fr;
    lemma_sorted_by_id(all);
    let m = merged_chapters(prev, fresh);
    assert forall|k: int| 0 <= k < fresh.len() implies m.contains(*fresh[k]) by {
        assert(all[kept.len() + k] == *fresh[k]);
        assert(all.to_multiset().count(*fresh[k]) > 0);
    }
    assert forall|c: Chapter| m.contains(c) && !fr.contains(c) implies prev.contains(c)
        && !ids_of(fresh).contains(c.id) by {
        assert(m.to_multiset().count(c) > 0);
        assert(all.contains(c));
        let i = choose|i: int| 0 <= i < all.len() && all[i] == c;
        if i >= kept.len() {
            assert(fr[i - kept.len()] == c);
        } else {
            assert(kept[i] == c);
            prev.lemma_filter_contains_rev(keep, c);
            prev.lemma_filter_pred(keep, i);
        }
    }
}

// ── Output formats ───────────────────────────────────────────────────────────

/// Whether one of the file extensions is `e`.
pub open spec fn has_ext(exts: Seq<Option<String>>, e: Seq<char>) -> bool {
    exists|i: int| 0 <= i < exts.len() && (#[trigger] exts[i] matches Some(x) && x@ == e)
}

/// The one format whose files the directory holds, when it holds files of
/// exactly one of the three formats.
pub open spec fn single_format(exts: Seq<Option<String>>) -> Option<OutputFormat> {
    let j = has_ext(exts, "json"@);
    let e = has_ext(exts, "epub"@);
    let t = has_ext(exts, "txt"@);
    if j && !e && !t {
        Some(OutputFormat::Json)
    } else if !j && e && !t {
        Some(OutputFormat::Epub)
    } else if !j && !e && t {
        Some(OutputFormat::Txt)
    } else {
        None
    }
}

fn ext_present(exts: &Vec<Option<String>>, e: &str) -> (r: bool)
    ensures
        r == has_ext(exts@, e@),
{
    let mut i: usize = 0;
    while i < exts.len()
        invariant
            i <= exts.len(),
            forall|k: int| 0 <= k < i ==> !(#[trigger] exts@[k] matches Some(x) && x@ == e@),
        decreases exts.len() - i,
    {
        match &exts[i] {
            Some(x) => {
                if str_eq(x.as_str(), e) {
                    return true;
                }
            },
            None => {},
        }
        i = i + 1;
    }
    false
}

/// Given the extensions of the files in an output directory, the format to
/// keep writing when files of exactly one known format (json, epub, txt) are
/// there.
pub fn detect_existing_formats(exts: &Vec<Option<String>>) -> (r: Option<Vec<OutputFormat>>)
    ensures
        match single_format(exts@) {
            Some(f) => r matches Some(v) && v@ == seq![f],
            None => r is None,
        },
{
    let j = ext_present(exts, "json");
    let e = ext_present(exts, "epub");
    let t = ext_present(exts, "txt");
    let mut v: Vec<OutputFormat> = Vec::new();
    if j && !e && !t {
        v.push(OutputFormat::Json);
    } else if !j && e && !t {
        v.push(OutputFormat::Epub);
    } else if !j && !e && t {
        v.push(OutputFormat::Txt);
    } else {
        return None;
    }
    Some(v)
}

/// The format offered at a position of the interactive format menu.
pub open spec fn menu_format(i: usize) -> OutputFormat {
    if i == 0 {
        OutputFormat::Json
    } else if i == 1 {
        OutputFormat::Epub
    } else {
        OutputFormat::Txt
    }
}

/// The formats chosen in the interactive menu (JSON, EPUB, TXT); JSON when
/// nothing was chosen.
pub fn formats_from_choice(chosen: &Vec<usize>) -> (r: Vec<OutputFormat>)
    requires
        forall|k: int| 0 <= k < chosen@.len() ==> chosen@[k] < 3,
    ensures
        chosen@.len() == 0 ==> r@ == seq![OutputFormat::Json],
        chosen@.len() > 0 ==> r@ == chosen@.map_values(|i: usize| menu_format(i)),
{
    let mut r: Vec<OutputFormat> = Vec::new();
    if chosen.len() == 0 {
        r.push(OutputFormat::Json);
        return r;
    }
    let mut k: usize = 0;
    while k < chosen.len()
        invariant
            k <= chosen.len(),
            r@ == chosen@.take(k as int).map_values(|i: usize| menu_format(i)),
        decreases chosen.len() - k,
    {
        let i = chosen[k];
        let f = if i == 0 {
            OutputFormat::Json
        } else if i == 1 {
            OutputFormat::Epub
        } else {
            OutputFormat::Txt
        };
        r.push(f);
        k = k + 1;
        assert(chosen@.take(k as int).map_values(|i: usize| menu_format(i)) == chosen@.take(
            (k - 1) as int,
        ).map_values(|i: usize| menu_format(i)).push(menu_format(i)));
    }
    assert(chosen@.take(k as int) == chosen@);
    r
}

/// The formats an update writes: those given on the command line, else the
/// one detected in the directory, else JSON.
pub fn update_formats(format: &Vec<String>, detected: Option<Vec<OutputFormat>>) -> (r: Vec<
    OutputFormat,
>)
    ensures
        format@.len() > 0 ==> r@ == crate::cli::parsed_formats(format@),
        format@.len() == 0 ==> r@ == match detected {
            Some(v) => v@,
            None => seq![OutputFormat::Json],
        },
{
    if format.len() > 0 {
        let mut r: Vec<OutputFormat> = Vec::new();
        let mut i: usize = 0;
        while i < format.len()
            invariant
                i <= format.len(),
                r@ == crate::cli::parsed_formats(format@.take(i as int)),
            decreases format.len() - i,
        {
            proof {
                assert(format@.take(i + 1).drop_last() == format@.take(i as int));
            }
            match OutputFormat::from_str(format[i].as_str()) {
                Some(f) => r.push(f),
                None => {},
            }
            i = i + 1;
        }
        assert(format@.take(i as int) == format@);
        return r;
    }
    match detected {
        Some(v) => v,
        None => {
            let mut r: Vec<OutputFormat> = Vec::new();
            r.push(OutputFormat::Json);
            r
        },
    }
}

// ── Interactive input and search filters ─────────────────────────────────────

/// Whether an interactive answer is a URL to crawl (else it is a search query).
pub fn is_url_input(input: &str) -> (r: bool)
    ensures
        r <==> ("http://"@.is_prefix_of(input@) || "https://"@.is_prefix_of(input@)),
{
    starts_with(input, "http://") || starts_with(input, "https://")
}

/// Whether `needle` occurs in `hay`.
pub open spec fn contains_text(hay: Seq<char>, needle: Seq<char>) -> bool {
    exists|i: int| crate::text::occurs_at(hay, needle, i)
}

/// Whether `needle` occurs in `hay` (`str::contains`).
pub fn str_contains(hay: &str, needle: &str) -> (r: bool)
    ensures
        r == contains_text(hay@, needle@),
{
    let h = crate::text::chars_of(hay);
    let n = crate::text::chars_of(needle);
    match crate::text::find_from(&h, &n, 0) {
        Some(i) => true,
        None => {
            assert forall|i: int| !crate::text::occurs_at(hay@, needle@, i) by {
                if i < 0 {
                }
            }
            false
        },
    }
}

/// Whether one of the crawler's base URLs occurs in one of the matching
/// source URLs.
pub open spec fn kind_in_sources(k: crate::crawler::CrawlerKind, matching: Seq<String>) -> bool {
    exists|a: int, b: int|
        0 <= a < crate::crawler::kind_base_urls(k).len() && 0 <= b < matching.len()
            && #[trigger] contains_text(matching[b]@, crate::crawler::kind_base_urls(k)[a])
}

fn any_match(urls: &Vec<&'static str>, matching: &Vec<String>) -> (r: bool)
    ensures
        r == (exists|a: int, b: int|
            0 <= a < crate::crawler::str_views(urls@).len() && 0 <= b < matching@.len()
                && #[trigger] contains_text(
                matching@[b]@,
                crate::crawler::str_views(urls@)[a],
            )),
{
    let ghost us = crate::crawler::str_views(urls@);
    assert(forall|a: int| 0 <= a < urls@.len() ==> us[a] == urls@[a]@);
    let mut a: usize = 0;
    while a < urls.len()
        invariant
            a <= urls.len(),
            forall|x: int, y: int|
                0 <= x < a && 0 <= y < matching@.len() ==> !contains_text(
                    matching@[y]@,
                    urls@[x]@,
                ),
        decreases urls.len() - a,
    {
        let mut b: usize = 0;
        while b < matching.len()
            invariant
                a < urls.len(),
                b <= matching.len(),
                forall|x: int, y: int|
                    0 <= x < a && 0 <= y < matching@.len() ==> !contains_text(
                        matching@[y]@,
                        urls@[x]@,
                    ),
                forall|y: int| 0 <= y < b ==> !contains_text(matching@[y]@, urls@[a as int]@),
            decreases matching.len() - b,
        {
            if str_contains(matching[b].as_str(), urls[a]) {
                assert(crate::crawler::str_views(urls@)[a as int] == urls@[a as int]@);
                assert(contains_text(matching@[b as int]@, crate::crawler::str_views(urls@)[a as int]));
                return true;
            }
            b = b + 1;
        }
        a = a + 1;
    }
    false
}

/// The searchable crawlers whose base URL occurs in one of the base URLs of
/// the sources a filter matched.
pub fn crawlers_for_sources(matching: &Vec<String>) -> (r: Vec<crate::crawler::CrawlerKind>)
    ensures
        r@ == crate::crawler::registered().filter(
            |k: crate::crawler::CrawlerKind|
                crate::crawler::kind_supports_search(k) && kind_in_sources(k, matching@),
        ),
{
    let all = crate::crawler::all_crawlers();
    let ghost pred = |k: crate::crawler::CrawlerKind|
        crate::crawler::kind_supports_search(k) && kind_in_sources(k, matching@);
    let mut r: Vec<crate::crawler::CrawlerKind> = Vec::new();
    let mut i: usize = 0;
    while i < all.len()
        invariant
            i <= all.len(),
            all@ == crate::crawler::registered(),
            pred == (|k: crate::crawler::CrawlerKind|
                crate::crawler::kind_supports_search(k) && kind_in_sources(k, matching@)),
            r@ == all@.take(i as int).filter(pred),
        decreases all.len() - i,
    {
        proof {
            reveal_with_fuel(Seq::<_>::filter, 1);
            assert(all@.take(i + 1).drop_last() == all@.take(i as int));
        }
        let k = all[i];
        let urls = k.base_urls();
        if k.supports_search() && any_match(&urls, matching) {
            r.push(k);
        }
        i = i + 1;
    }
    assert(all@.take(i as int) == all@);
    r
}

/// The first 220 characters of a synopsis, and whether it is longer than 220
/// bytes (then an ellipsis follows the preview).
pub fn synopsis_preview(syn: &str) -> (r: (String, bool))
    ensures
        r.0@ == syn@.take(if syn@.len() < 220 { syn@.len() as int } else { 220 }),
        r.1 == (syn.len() > 220),
{
    let cs = crate::text::chars_of(syn);
    let n = if cs.len() < 220 { cs.len() } else { 220 };
    let mut out: Vec<char> = Vec::new();
    let mut i: usize = 0;
    while i < n
        invariant
            i <= n <= cs.len(),
            out@ == cs@.take(i as int),
        decreases n - i,
    {
        out.push(cs[i]);
        i = i + 1;
        assert(out@ == cs@.take(i as int));
    }
    (crate::text::string_from_chars(&out), syn.len() > 220)
}

// ── Updates ──────────────────────────────────────────────────────────────────

/// Whether a saved novel is one the update filter names: its directory name
/// or its title, lower-cased, contains the lower-cased filter.
pub open spec fn filter_names(dir_name: Seq<char>, title: Seq<char>, filter: Seq<char>) -> bool {
    let f = crate::text::lowercase(filter);
    contains_text(crate::text::lowercase(dir_name), f) || contains_text(
        crate::text::lowercase(title),
        f,
    )
}

/// Whether a saved novel passes the update filter.
pub fn passes_filter(dir_name: &str, title: &str, filter: &str) -> (r: bool)
    ensures
        r == filter_names(dir_name@, title@, filter@),
{
    let f = crate::text::to_lowercase(filter);
    let d = crate::text::to_lowercase(dir_name);
    if str_contains(d.as_str(), f.as_str()) {
        return true;
    }
    let t = crate::text::to_lowercase(title);
    str_contains(t.as_str(), f.as_str())
}

/// A saved novel brought up to date: the metadata and volumes of the fresh
/// read, the saved URL and language, and the saved chapters with the newly
/// downloaded ones merged in.
pub fn updated_novel(existing: &Novel, fresh: &Novel, new_chapters: &[&Chapter]) -> (r: Novel)
    ensures
        r.url == existing.url,
        r.language == existing.language,
        r.title == fresh.title,
        r.author == fresh.author,
        r.cover_url == fresh.cover_url,
        r.synopsis == fresh.synopsis,
        r.volumes@ == fresh.volumes@,
        r.chapters@ == merged_chapters(existing.chapters@, new_chapters@),
{
    let mut volumes: Vec<crate::models::Volume> = Vec::new();
    let mut i: usize = 0;
    while i < fresh.volumes.len()
        invariant
            i <= fresh.volumes.len(),
            volumes@ == fresh.volumes@.take(i as int),
        decreases fresh.volumes.len() - i,
    {
        volumes.push(fresh.volumes[i].clone());
        i = i + 1;
        assert(volumes@ == fresh.volumes@.take(i as int));
    }
    assert(fresh.volumes@.take(i as int) == fresh.volumes@);
    Novel {
        title: fresh.title.clone(),
        url: existing.url.clone(),
        author: crate::models::clone_opt_string(&fresh.author),
        cover_url: crate::models::clone_opt_string(&fresh.cover_url),
        synopsis: crate::models::clone_opt_string(&fresh.synopsis),
        language: existing.language.clone(),
        volumes,
        chapters: merge_chapters(&existing.chapters, new_chapters),
    }
}

/// The first `limit` results of one source (all of them when there are
/// fewer).
pub fn limit_results(results: Vec<crate::models::SearchResult>, limit: usize) -> (r: Vec<
    crate::models::SearchResult,
>)
    ensures
        r@ == results@.take(if limit < results@.len() { limit as int } else { results@.len() as int }),
{
    let mut r = results;
    r.truncate(limit);
    r
}

} // verus!
