# lncrawl

A light-novel crawler: it reads a novel's page on one of the supported sites,
collects its chapter list, downloads the chapters and writes them out as
JSON, EPUB or plain text.

The library under `src/` is verified with Verus. It holds everything the
crawler decides or computes: the site registry, URL and query handling, the
parsers of each site's pages and JSON answers, the chapter selection and
merging of a resumed download, and the EPUB and text documents. HTML parsing
(`scraper`), URL parsing (`url`), regular expressions (`regex`) and JSON parsing
(`serde_json`) are called through a few trusted wrappers whose contracts name
what those crates compute.

`app/` is the program around it: the command line (`clap`), the HTTP session
(`reqwest`, `tokio`), prompts and progress bars, and the files it reads and
writes.

Modules of the library:

- `models` — novels, volumes, chapters, search results, output formats, and
  the plain text of chapter HTML.
- `cli` — the command-line arguments and the chapter and format choices that
  follow from them.
- `sources` — the catalogue of known sources and lookups in it.
- `crawler` — the crawler registry and shared helpers, with one module per site.
- `session` — the decisions of a crawl or an update: what was downloaded
  before, what remains, how new chapters merge in, which formats to write.
- `output` — file names, the EPUB documents and entries, the text document.
- `html`, `json`, `urls`, `patterns`, `text` — the trusted wrappers and the
  verified text handling they are used with.
