//! Command-line arguments and the choices that follow from them: which
//! chapters to download and which output formats to write.

use std::path::PathBuf;

use vstd::prelude::*;

use crate::models::{format_named, OutputFormat};
use crate::text::lowercase;

verus! {

#[verifier::external_type_specification]
#[verifier::external_body]
pub struct ExPathBuf(PathBuf);

/// lncrawl — Lightnovel Crawler
///
/// Download light novels from online sources and export them as EPUB, JSON,
/// or plain text.
pub struct Cli {
    /// Verbosity: -l = warn, -ll = info, -lll = debug
    pub verbose: u8,
    /// Path to a config file
    pub config: Option<PathBuf>,
    pub command: Option<Commands>,
}

pub enum Commands {
    /// Show the current version
    Version,
    /// List or manage supported sources
    Sources(SourcesCmd),
    /// Crawl and download a novel from its URL
    Crawl(CrawlArgs),
    /// Search for novels across supported sources
    Search(SearchArgs),
}

pub enum SourcesCmd {
    /// List all supported sources (optionally filtered by a regex)
    List {
        /// Filter pattern (regex, case-insensitive) applied to name and URL
        filter: Option<String>,
    },
}

/// Arguments of the `crawl` command.
pub struct CrawlArgs {
    /// Novel page URL (prompted interactively if omitted)
    pub url: Option<String>,
    /// Download ALL available chapters
    pub all: bool,
    /// Download first N chapters
    pub first: Option<usize>,
    /// Download last N chapters
    pub last: Option<usize>,
    /// Download chapters in the index range FROM..=TO (1-based, inclusive)
    pub range: Option<Vec<usize>>,
    /// Download specific chapter URLs
    pub chapters: Option<Vec<String>>,
    /// Download specific volume numbers
    pub volumes: Option<Vec<usize>>,
    /// Output formats (json, epub, txt). Default: all
    pub format: Vec<String>,
    /// Output directory (default: ./Lightnovels/<novel-title>/)
    pub output: Option<PathBuf>,
    /// Override the output file stem
    pub filename: Option<String>,
    /// Only use this filename stem (skip appending the chapter range)
    pub filename_only: bool,
    /// Force-replace an existing output directory
    pub force: bool,
    /// Skip downloading if the output directory already exists
    pub ignore: bool,
    /// Suppress all interactive prompts and use defaults
    pub suppress: bool,
    /// Pack all chapters into a single output file
    pub single: bool,
    /// Produce one output file per volume
    pub multi: bool,
    /// Skip downloading chapter cover images
    pub ignore_images: bool,
    /// Resume a previously interrupted download
    pub resume: Option<String>,
    /// Maximum concurrent chapter downloads
    pub workers: usize,
}

/// Arguments of the `search` command.
pub struct SearchArgs {
    /// Search query string
    pub query: String,
    /// Filter sources by regex (applied to name and URL)
    pub sources: Option<String>,
    /// Maximum results per source
    pub limit: usize,
}

impl Default for CrawlArgs {
    fn default() -> (r: CrawlArgs)
        ensures
            r.url is None && !r.all && r.first is None && r.last is None && r.range is None
                && r.chapters is None && r.volumes is None && r.format@.len() == 0
                && r.output is None && r.filename is None && !r.filename_only && !r.force
                && !r.ignore && !r.suppress && !r.single && !r.multi && !r.ignore_images
                && r.resume is None && r.workers == 0,
    {
        CrawlArgs {
            url: None,
            all: false,
            first: None,
            last: None,
            range: None,
            chapters: None,
            volumes: None,
            format: Vec::new(),
            output: None,
            filename: None,
            filename_only: false,
            force: false,
            ignore: false,
            suppress: false,
            single: false,
            multi: false,
            ignore_images: false,
            resume: None,
            workers: 0,
        }
    }
}

/// The indices `from, from + 1, ..., to - 1` (none when `to <= from`).
pub open spec fn index_range(from: int, to: int) -> Seq<usize> {
    Seq::new(if to > from { (to - from) as nat } else { 0 }, |i: int| (from + i) as usize)
}

/// Whether no chapter selection was given at all.
pub open spec fn no_selection(a: CrawlArgs) -> bool {
    a.first is None && a.last is None && a.range is None && a.volumes is None && a.chapters is None
}

/// The chapter indices (0-based) selected out of `total` chapters.
pub open spec fn selected_indices(a: CrawlArgs, total: int) -> Seq<usize> {
    if a.all || no_selection(a) {
        index_range(0, total)
    } else if a.first is Some {
        let n = a.first->0;
        index_range(0, if n < total { n as int } else { total })
    } else if a.last is Some {
        let n = a.last->0;
        index_range(if n < total { total - n } else { 0 }, total)
    } else if a.range is Some {
        let r = a.range->0@;
        let from = if r[0] >= 1 { r[0] - 1 } else { 0 };
        let to = if r[1] < total { r[1] as int } else { total };
        index_range(from, to)
    } else {
        index_range(0, total)
    }
}

/// Whether `select_indices` reads a `--range` pair.
pub open spec fn uses_range(a: CrawlArgs) -> bool {
    !(a.all || no_selection(a)) && a.first is None && a.last is None && a.range is Some
}

/// The formats named by the given strings, in order, skipping unknown names.
pub open spec fn parsed_formats(fs: Seq<String>) -> Seq<OutputFormat>
    decreases fs.len(),
{
    if fs.len() == 0 {
        Seq::empty()
    } else {
        let before = parsed_formats(fs.drop_last());
        match format_named(lowercase(fs.last()@)) {
            Some(f) => before.push(f),
            None => before,
        }
    }
}

fn range_vec(from: usize, to: usize) -> (r: Vec<usize>)
    ensures
        r@ == index_range(from as int, to as int),
{
    let mut r: Vec<usize> = Vec::new();
    let mut i: usize = from;
    while i < to
        invariant
            from <= i,
            from < to ==> i <= to,
            from >= to ==> i == from,
            r@ == index_range(from as int, i as int),
        decreases to - i,
    {
        r.push(i);
        i = i + 1;
        assert(r@ == index_range(from as int, i as int));
    }
    if from >= to {
        assert(r@ =~= index_range(from as int, to as int));
    }
    r
}

impl CrawlArgs {
    /// Determine which chapter indices (0-based) to download, given the full list.
    pub fn select_indices(&self, total: usize) -> (r: Vec<usize>)
        requires
            uses_range(*self) ==> self.range->0@.len() >= 2,
        ensures
            r@ == selected_indices(*self, total as int),
    {
        if self.all || (self.first.is_none() && self.last.is_none() && self.range.is_none()
            && self.volumes.is_none() && self.chapters.is_none()) {
            return range_vec(0, total);
        }
        if let Some(n) = self.first {
            return range_vec(0, if n < total { n } else { total });
        }
        if let Some(n) = self.last {
            let start = if n < total { total - n } else { 0 };
            return range_vec(start, total);
        }
        if let Some(r) = &self.range {
            let from = if r[0] >= 1 { r[0] - 1 } else { 0 };
            let to = if r[1] < total { r[1] } else { total };
            return range_vec(from, to);
        }
        range_vec(0, total)
    }

    /// Resolve the output formats, defaulting to all three when none given.
    pub fn resolved_formats(&self) -> (r: Vec<OutputFormat>)
        ensures
            self.format@.len() == 0 ==> r@ == seq![
                OutputFormat::Json,
                OutputFormat::Epub,
                OutputFormat::Txt,
            ],
            self.format@.len() > 0 ==> r@ == parsed_formats(self.format@),
    {
        if self.format.len() == 0 {
            return OutputFormat::all_formats();
        }
        let mut r: Vec<OutputFormat> = Vec::new();
        let mut i: usize = 0;
        while i < self.format.len()
            invariant
                i <= self.format.len(),
                r@ == parsed_formats(self.format@.take(i as int)),
            decreases self.format.len() - i,
        {
            proof {
                assert(self.format@.take(i + 1).drop_last() == self.format@.take(i as int));
            }
            match OutputFormat::from_str(self.format[i].as_str()) {
                Some(f) => r.push(f),
                None => {},
            }
            i = i + 1;
        }
        assert(self.format@.take(i as int) == self.format@);
        r
    }
}

/// Every selected index lies below the number of chapters, and the indices
/// strictly increase, so no chapter is selected twice.
pub proof fn lemma_selected_indices_in_bounds(a: CrawlArgs, total: int)
    requires
        total >= 0,
        total <= usize::MAX,
    ensures
        forall|i: int|
            0 <= i < selected_indices(a, total).len() ==> #[trigger] selected_indices(a, total)[i]
                < total,
        forall|i: int, j: int|
            0 <= i < j < selected_indices(a, total).len() ==> selected_indices(a, total)[i]
                < selected_indices(a, total)[j],
{
}

} // verus!
