//! The catalogue of known sources and lookups in it.

use vstd::prelude::*;


use crate::patterns::{regex_finds, regex_search, regex_valid};
use crate::text::{lowercase, push_str, string_from_chars, to_lowercase};
use crate::urls::{host_of, url_host};

verus! {

/// Static metadata for every known source.
#[derive(Clone, Copy, Debug)]
pub struct SourceInfo {
    pub name: &'static str,
    pub base_url: &'static str,
    pub language: &'static str,
    pub supports_search: bool,
    /// Whether this source contains machine–translated content
    pub is_machine_translated: bool,
}

impl SourceInfo {
    pub fn new(
        name: &'static str,
        base_url: &'static str,
        language: &'static str,
        supports_search: bool,
        is_machine_translated: bool,
    ) -> (r: SourceInfo)
        ensures
            r == src_entry(name, base_url, language, supports_search, is_machine_translated),
    {
        SourceInfo { name, base_url, language, supports_search, is_machine_translated }
    }
}

/// A catalogue entry.
pub open spec fn src_entry(
    name: &'static str,
    base_url: &'static str,
    language: &'static str,
    supports_search: bool,
    is_machine_translated: bool,
) -> SourceInfo {
    SourceInfo { name, base_url, language, supports_search, is_machine_translated }
}

/// The full catalogue of supported sources.
pub open spec fn catalogue() -> Seq<SourceInfo> {
    seq![
        src_entry("BrightNovels", "https://brightnovels.com", "en", true, false),
        src_entry("Royal Road", "https://www.royalroad.com", "en", true, false),
        src_entry("ScribbleHub", "https://www.scribblehub.com", "en", true, false),
        src_entry("WebNovel", "https://www.webnovel.com", "en", true, false),
        src_entry("NovelFull", "https://novelfull.com", "en", true, false),
        src_entry("NovelBin", "https://novelbin.com", "en", true, false),
        src_entry("NovelHulk", "https://novelhulk.com", "en", true, false),
        src_entry("ReadNovelFull", "https://readnovelfull.com", "en", true, false),
        src_entry("BoxNovel", "https://boxnovel.com", "en", true, false),
        src_entry("LightNovelPub", "https://www.lightnovelworld.com", "en", true, false),
        src_entry("WuxiaWorld", "https://www.wuxiaworld.com", "en", true, false),
        src_entry("VolarNovels", "https://www.volarenovels.com", "en", true, false),
        src_entry("AllNovel", "https://allnovel.org", "en", true, false),
        src_entry("FreeWebNovel", "https://freewebnovel.com", "en", true, false),
        src_entry("LibRead", "https://libread.com", "en", true, false),
        src_entry("NovelNext", "https://novelnext.com", "en", true, false),
        src_entry("NovelGate", "https://novelgate.net", "en", true, false),
        src_entry("FanFiction", "https://www.fanfiction.net", "en", true, false),
        src_entry("FictionPress", "https://www.fictionpress.com", "en", true, false),
        src_entry("LnMTL", "https://lnmtl.com", "en", true, true),
        src_entry("Ranobes", "https://ranobes.net", "en", true, false),
        src_entry("MTLNation", "https://mtlnation.com", "en", true, true),
        src_entry("ReadWebNovels", "https://readwebnovels.net", "en", true, false),
        src_entry("WuxiaNovels", "https://wuxiaworld.online", "en", false, false),
        src_entry("NobleMTL", "https://noblemtl.com", "en", true, false),
        src_entry("FansTrans", "https://fanstranslations.com", "en", true, false),
        src_entry("DaoTranslate", "https://daotranslate.us", "en", true, true),
        src_entry("Webnovel (mobile)", "https://m.webnovel.com", "en", true, false),
        src_entry("WuxiaBox", "https://www.wuxiabox.com", "en", true, true),
        src_entry("ReadMTL", "https://readmtl.com", "en", true, true),
        src_entry("DaoNovel", "https://daonovel.com", "en", true, false),
        src_entry("BestLightNovel", "https://bestlightnovel.com", "en", true, false),
        src_entry("NovelOnlineFree", "https://novelonlinefree.com", "en", true, false),
        src_entry("WuxiaMTL", "https://www.wuxiamtl.com", "en", true, true),
        src_entry("WanderingInn", "https://wanderinginn.com", "en", false, false),
        src_entry("MCTranslation", "https://www.machine-translation.org", "en", true, true),
        src_entry("69Shu", "https://www.69shu.com", "zh", true, false),
        src_entry("27K", "https://www.27k.net", "zh", true, false),
        src_entry("PiaoTian", "https://www.piaotian.com", "zh", true, false),
        src_entry("BanXia", "https://www.banxia.cc", "zh", true, false),
        src_entry("DocLN", "https://docln.net", "vi", true, true),
        src_entry("TruyenFull", "https://truyenfull.vn", "vi", true, true),
        src_entry("Syosetu", "https://ncode.syosetu.com", "ja", true, false),
        src_entry("NovelKu", "https://novelku.id", "id", false, false),
        src_entry("MeioNovel", "https://meionovel.id", "id", true, false),
        src_entry("ArNovel", "https://arnovel.me", "ar", true, false),
        src_entry("LightNovelFR", "https://lightnovelfr.com", "fr", true, false),
        src_entry("CentralNovel", "https://centralnovel.com", "pt", true, false),
        src_entry("RanobeLib", "https://ranobelib.me", "ru", false, false),
    ]
}

/// The full catalogue of supported sources, in catalogue order.
pub fn sources() -> (r: Vec<SourceInfo>)
    ensures
        r@ == catalogue(),
{
    let mut v: Vec<SourceInfo> = Vec::new();
    v.push(SourceInfo::new("BrightNovels", "https://brightnovels.com", "en", true, false));
    v.push(SourceInfo::new("Royal Road", "https://www.royalroad.com", "en", true, false));
    v.push(SourceInfo::new("ScribbleHub", "https://www.scribblehub.com", "en", true, false));
    v.push(SourceInfo::new("WebNovel", "https://www.webnovel.com", "en", true, false));
    v.push(SourceInfo::new("NovelFull", "https://novelfull.com", "en", true, false));
    v.push(SourceInfo::new("NovelBin", "https://novelbin.com", "en", true, false));
    v.push(SourceInfo::new("NovelHulk", "https://novelhulk.com", "en", true, false));
    v.push(SourceInfo::new("ReadNovelFull", "https://readnovelfull.com", "en", true, false));
    v.push(SourceInfo::new("BoxNovel", "https://boxnovel.com", "en", true, false));
    v.push(SourceInfo::new("LightNovelPub", "https://www.lightnovelworld.com", "en", true, false));
    v.push(SourceInfo::new("WuxiaWorld", "https://www.wuxiaworld.com", "en", true, false));
    v.push(SourceInfo::new("VolarNovels", "https://www.volarenovels.com", "en", true, false));
    v.push(SourceInfo::new("AllNovel", "https://allnovel.org", "en", true, false));
    v.push(SourceInfo::new("FreeWebNovel", "https://freewebnovel.com", "en", true, false));
    v.push(SourceInfo::new("LibRead", "https://libread.com", "en", true, false));
    v.push(SourceInfo::new("NovelNext", "https://novelnext.com", "en", true, false));
    v.push(SourceInfo::new("NovelGate", "https://novelgate.net", "en", true, false));
    v.push(SourceInfo::new("FanFiction", "https://www.fanfiction.net", "en", true, false));
    v.push(SourceInfo::new("FictionPress", "https://www.fictionpress.com", "en", true, false));
    v.push(SourceInfo::new("LnMTL", "https://lnmtl.com", "en", true, true));
    v.push(SourceInfo::new("Ranobes", "https://ranobes.net", "en", true, false));
    v.push(SourceInfo::new("MTLNation", "https://mtlnation.com", "en", true, true));
    v.push(SourceInfo::new("ReadWebNovels", "https://readwebnovels.net", "en", true, false));
    v.push(SourceInfo::new("WuxiaNovels", "https://wuxiaworld.online", "en", false, false));
    v.push(SourceInfo::new("NobleMTL", "https://noblemtl.com", "en", true, false));
    v.push(SourceInfo::new("FansTrans", "https://fanstranslations.com", "en", true, false));
    v.push(SourceInfo::new("DaoTranslate", "https://daotranslate.us", "en", true, true));
    v.push(SourceInfo::new("Webnovel (mobile)", "https://m.webnovel.com", "en", true, false));
    v.push(SourceInfo::new("WuxiaBox", "https://www.wuxiabox.com", "en", true, true));
    v.push(SourceInfo::new("ReadMTL", "https://readmtl.com", "en", true, true));
    v.push(SourceInfo::new("DaoNovel", "https://daonovel.com", "en", true, false));
    v.push(SourceInfo::new("BestLightNovel", "https://bestlightnovel.com", "en", true, false));
    v.push(SourceInfo::new("NovelOnlineFree", "https://novelonlinefree.com", "en", true, false));
    v.push(SourceInfo::new("WuxiaMTL", "https://www.wuxiamtl.com", "en", true, true));
    v.push(SourceInfo::new("WanderingInn", "https://wanderinginn.com", "en", false, false));
    v.push(SourceInfo::new("MCTranslation", "https://www.machine-translation.org", "en", true, true));
    v.push(SourceInfo::new("69Shu", "https://www.69shu.com", "zh", true, false));
    v.push(SourceInfo::new("27K", "https://www.27k.net", "zh", true, false));
    v.push(SourceInfo::new("PiaoTian", "https://www.piaotian.com", "zh", true, false));
    v.push(SourceInfo::new("BanXia", "https://www.banxia.cc", "zh", true, false));
    v.push(SourceInfo::new("DocLN", "https://docln.net", "vi", true, true));
    v.push(SourceInfo::new("TruyenFull", "https://truyenfull.vn", "vi", true, true));
    v.push(SourceInfo::new("Syosetu", "https://ncode.syosetu.com", "ja", true, false));
    v.push(SourceInfo::new("NovelKu", "https://novelku.id", "id", false, false));
    v.push(SourceInfo::new("MeioNovel", "https://meionovel.id", "id", true, false));
    v.push(SourceInfo::new("ArNovel", "https://arnovel.me", "ar", true, false));
    v.push(SourceInfo::new("LightNovelFR", "https://lightnovelfr.com", "fr", true, false));
    v.push(SourceInfo::new("CentralNovel", "https://centralnovel.com", "pt", true, false));
    v.push(SourceInfo::new("RanobeLib", "https://ranobelib.me", "ru", false, false));
    assert(v@ =~= catalogue());
    v
}


/// Whether a lower-cased URL host is the host of the source with
/// `base_url`, lower-cased.
pub open spec fn host_belongs(host: Seq<char>, base_url: Seq<char>) -> bool {
    match url_host(base_url) {
        Some(h) => lowercase(h) == host,
        None => false,
    }
}

/// The first source of `list` that `host` belongs to.
pub open spec fn first_source_for_host(list: Seq<SourceInfo>, host: Seq<char>) -> Option<
    SourceInfo,
>
    decreases list.len(),
{
    if list.len() == 0 {
        None
    } else if host_belongs(host, list[0].base_url@) {
        Some(list[0])
    } else {
        first_source_for_host(list.drop_first(), host)
    }
}

/// The catalogue source that serves `url`, by lower-cased host.
pub open spec fn source_for_url(url: Seq<char>) -> Option<SourceInfo> {
    match url_host(url) {
        None => None,
        Some(h) => first_source_for_host(catalogue(), lowercase(h)),
    }
}

fn belongs(host: &str, base_url: &str) -> (r: bool)
    ensures
        r == host_belongs(host@, base_url@),
{
    match host_of(base_url) {
        Some(h) => {
            let lh = to_lowercase(h.as_str());
            crate::models::str_eq(lh.as_str(), host)
        },
        None => false,
    }
}

/// Find a source by exact base URL (lowercased host comparison).
pub fn find_source_for_url(url: &str) -> (r: Option<SourceInfo>)
    ensures
        r == source_for_url(url@),
{
    let h = host_of(url)?;
    let host = to_lowercase(h.as_str());
    let list = sources();
    let mut i: usize = 0;
    assert(list@.skip(0) == list@);
    while i < list.len()
        invariant
            i <= list.len(),
            list@ == catalogue(),
            url_host(url@) == Some(h@),
            host@ == lowercase(h@),
            first_source_for_host(list@.skip(i as int), host@) == first_source_for_host(
                catalogue(),
                host@,
            ),
        decreases list.len() - i,
    {
        let s = list[i];
        proof {
            assert(list@.skip(i as int)[0] == s);
            assert(list@.skip(i as int).drop_first() == list@.skip(i + 1));
        }
        if belongs(host.as_str(), s.base_url) {
            return Some(s);
        }
        i = i + 1;
    }
    None
}

/// The case-insensitive form of a user pattern.
pub open spec fn insensitive(pattern: Seq<char>) -> Seq<char> {
    "(?i)"@ + pattern
}

/// The sources whose name or base URL the pattern matches, case-insensitively;
/// none when the pattern is not a valid regular expression.
pub open spec fn sources_matching(pattern: Seq<char>) -> Seq<SourceInfo> {
    let p = insensitive(pattern);
    if regex_valid(p) {
        catalogue().filter(|s: SourceInfo| regex_finds(p, s.name@) || regex_finds(p, s.base_url@))
    } else {
        Seq::empty()
    }
}

/// A source is listed exactly when it is in the catalogue and the pattern,
/// case-insensitively, finds a match in its name or in its base URL.
pub proof fn lemma_filter_sources_name_or_url(pattern: Seq<char>, s: SourceInfo)
    requires
        regex_valid(insensitive(pattern)),
    ensures
        sources_matching(pattern).contains(s) <==> catalogue().contains(s) && (regex_finds(
            insensitive(pattern),
            s.name@,
        ) || regex_finds(insensitive(pattern), s.base_url@)),
{
    broadcast use vstd::seq_lib::group_filter_ensures;

    let p = insensitive(pattern);
    let pred = |x: SourceInfo| regex_finds(p, x.name@) || regex_finds(p, x.base_url@);
    let all = catalogue();
    assert(sources_matching(pattern) == all.filter(pred));
    if all.filter(pred).contains(s) {
        all.lemma_filter_contains_rev(pred, s);
        let k = choose|k: int| 0 <= k < all.filter(pred).len() && all.filter(pred)[k] == s;
        all.lemma_filter_pred(pred, k);
    }
    if all.contains(s) && pred(s) {
        let k = choose|k: int| 0 <= k < all.len() && all[k] == s;
        all.lemma_filter_contains(pred, k);
    }
}

/// Filter sources by a regex pattern (matches name or base_url).
pub fn filter_sources(pattern: &str) -> (r: Vec<SourceInfo>)
    ensures
        r@ == sources_matching(pattern@),
{
    let mut pv: Vec<char> = Vec::new();
    push_str(&mut pv, "(?i)");
    push_str(&mut pv, pattern);
    let p = string_from_chars(&pv);
    let ghost pred = |s: SourceInfo| regex_finds(p@, s.name@) || regex_finds(p@, s.base_url@);
    let list = sources();
    let mut r: Vec<SourceInfo> = Vec::new();
    let mut i: usize = 0;
    while i < list.len()
        invariant
            i <= list.len(),
            list@ == catalogue(),
            p@ == insensitive(pattern@),
            pred == (|s: SourceInfo| regex_finds(p@, s.name@) || regex_finds(p@, s.base_url@)),
            i > 0 ==> regex_valid(p@),
            r@ == list@.take(i as int).filter(pred),
        decreases list.len() - i,
    {
        let s = list[i];
        proof {
            reveal_with_fuel(Seq::<_>::filter, 1);
            assert(list@.take(i + 1).drop_last() == list@.take(i as int));
        }
        let keep = match regex_search(p.as_str(), s.name) {
            None => {
                return Vec::new();
            },
            Some(true) => true,
            Some(false) => match regex_search(p.as_str(), s.base_url) {
                None => {
                    return Vec::new();
                },
                Some(b) => b,
            },
        };
        if keep {
            r.push(s);
        }
        i = i + 1;
    }
    assert(list@.take(i as int) == list@);
    r
}

} // verus!
