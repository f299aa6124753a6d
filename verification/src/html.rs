//! Queries on HTML through the `scraper` crate.
//!
//! A [`Page`] holds a document or fragment that `scraper` parsed, together
//! with the text it was parsed from. What a CSS selection yields is named,
//! not described: the HTML5 parsing and selector matching are `scraper`'s.
//! What the library does with the elements it is handed is stated exactly.

use vstd::prelude::*;

use scraper::{ElementRef, Selector};

use crate::text::{chars_of, opt_chars, string_from_chars, trim, trim_chars};

verus! {

#[verifier::external_type_specification]
#[verifier::external_body]
pub struct ExHtml(scraper::Html);

#[verifier::external_type_specification]
#[verifier::external_body]
pub struct ExElementRef<'a>(ElementRef<'a>);

/// The text of the root element of a parsed page: its text nodes joined in
/// document order (`ElementRef::text` on `Html::root_element`).
pub uninterp spec fn root_text(src: Seq<char>, fragment: bool) -> Seq<char>;

/// A parsed HTML document or fragment and the text it was parsed from.
pub struct Page {
    source: String,
    fragment: bool,
    doc: scraper::Html,
}

impl Page {
    /// The text the page was parsed from.
    pub closed spec fn source(&self) -> Seq<char> {
        self.source@
    }

    /// Whether the page was parsed as a fragment (else as a document).
    pub closed spec fn is_fragment(&self) -> bool {
        self.fragment
    }
}

/// Parses a whole document (`scraper::Html::parse_document`).
#[verifier::external_body]
pub fn parse_document(src: &str) -> (r: Page)
    ensures
        r.source() == src@,
        !r.is_fragment(),
{
    Page { source: src.to_string(), fragment: false, doc: scraper::Html::parse_document(src) }
}

/// Parses a fragment (`scraper::Html::parse_fragment`).
#[verifier::external_body]
pub fn parse_fragment(src: &str) -> (r: Page)
    ensures
        r.source() == src@,
        r.is_fragment(),
{
    Page { source: src.to_string(), fragment: true, doc: scraper::Html::parse_fragment(src) }
}

/// The text nodes of the page's root element joined in document order
/// (`Html::root_element().text()`). The result is named, not described.
#[verifier::external_body]
pub fn page_root_text(page: &Page) -> (r: String)
    ensures
        r@ == root_text(page.source(), page.is_fragment()),
{
    page.doc.root_element().text().collect()
}

/// An HTML fragment being edited: the text it was parsed from, the
/// selectors whose matches were removed from it so far, in order, and the
/// parsed tree.
pub struct Fragment {
    source: String,
    removed: Vec<String>,
    doc: scraper::Html,
}

impl Fragment {
    /// The text the fragment was parsed from.
    pub closed spec fn source(&self) -> Seq<char> {
        self.source@
    }

    /// The selectors whose matches were removed, in the order of removal.
    pub closed spec fn removed(&self) -> Seq<Seq<char>> {
        self.removed@.map_values(|s: String| s@)
    }
}

/// Whether a CSS selector parses (`Selector::parse` succeeds).
pub uninterp spec fn selector_parses(selector: Seq<char>) -> bool;

/// The serialized contents (`ElementRef::inner_html`) of the first element
/// under the tree root of the fragment parsed from `html`, after the
/// elements matched by each of `removed`, in turn, were detached from its
/// tree; the empty text when no element is left under the tree root.
pub uninterp spec fn fragment_without(html: Seq<char>, removed: Seq<Seq<char>>) -> Seq<char>;

/// Parses `src` as a fragment to be edited (`Html::parse_fragment`).
#[verifier::external_body]
pub(crate) fn edit_fragment(src: &str) -> (r: Fragment)
    ensures
        r.source() == src@,
        r.removed() == Seq::<Seq<char>>::empty(),
{
    Fragment { source: src.to_string(), removed: Vec::new(), doc: scraper::Html::parse_fragment(src) }
}

/// Detaches from the fragment's tree every element that `selector` matches
/// (`Html::select`, `NodeMut::detach`), and records the selector; when the
/// selector does not parse, returns `false` and leaves the fragment as it is.
#[verifier::external_body]
pub(crate) fn detach_matches(frag: &mut Fragment, selector: &str) -> (r: bool)
    ensures
        r == selector_parses(selector@),
        final(frag).source() == old(frag).source(),
        final(frag).removed() == (if r {
            old(frag).removed().push(selector@)
        } else {
            old(frag).removed()
        }),
{
    let Ok(sel) = Selector::parse(selector) else { return false };
    let ids: Vec<_> = frag.doc.select(&sel).map(|e| e.id()).collect();
    ids.into_iter().for_each(|id| drop(frag.doc.tree.get_mut(id).map(|mut n| n.detach())));
    frag.removed.push(selector.to_string());
    true
}

/// Serializes what is left under the first element child of the fragment's
/// tree root, as `Html::root_element` finds it (`ElementRef::inner_html`),
/// or the empty text when no element is left there. The result is named,
/// not described.
#[verifier::external_body]
pub(crate) fn fragment_html(frag: &Fragment) -> (r: String)
    ensures
        r@ == fragment_without(frag.source(), frag.removed()),
{
    let root = frag.doc.tree.root().children().find_map(ElementRef::wrap);
    root.map_or(String::new(), |e| e.inner_html())
}

/// An element found by a selector, converted to a [`Node`]: its collected
/// text, inner and outer HTML, and for each attribute, in the element's
/// order, its local name with what `Element::attr` gives for that name.
#[verifier::external_body]
fn node_of(e: ElementRef) -> Node {
    let el = e.value();
    Node {
        text: e.text().collect(),
        inner_html: e.inner_html(),
        html: e.html(),
        attrs: el.attrs().map(|(k, _)| (k.to_string(), el.attr(k).map(|v| v.to_string()))).collect(),
    }
}

/// An element found by a selector: its collected text, its inner HTML, its
/// outer HTML and its attributes in the element's order.
pub struct Node {
    pub text: String,
    pub inner_html: String,
    pub html: String,
    pub attrs: Vec<(String, Option<String>)>,
}

/// The plain content of an element.
pub ghost struct NodeView {
    pub text: Seq<char>,
    pub inner_html: Seq<char>,
    pub html: Seq<char>,
    pub attrs: Seq<(Seq<char>, Option<Seq<char>>)>,
}

impl View for Node {
    type V = NodeView;

    open spec fn view(&self) -> NodeView {
        NodeView {
            text: self.text@,
            inner_html: self.inner_html@,
            html: self.html@,
            attrs: self.attrs@.map_values(|p: (String, Option<String>)| (p.0@, opt_chars(p.1))),
        }
    }
}

/// The elements of the page that a selector matches, in the order
/// `Html::select` yields them (that of the parsed tree's node arena, which
/// after the parser moves nodes need not be document order); `None` when
/// the selector does not parse.
pub uninterp spec fn selection(src: Seq<char>, fragment: bool, selector: Seq<char>) -> Option<
    Seq<NodeView>,
>;

/// For each element the scope selector matches, in the order `Html::select`
/// yields them, the
/// element and the first descendant that each inner selector matches; `None`
/// when a selector does not parse.
pub uninterp spec fn scoped_selection(
    src: Seq<char>,
    fragment: bool,
    scope: Seq<char>,
    inner: Seq<Seq<char>>,
) -> Option<Seq<(NodeView, Seq<Option<NodeView>>)>>;

/// The views of some elements.
pub open spec fn node_views(v: Seq<Node>) -> Seq<NodeView> {
    v.map_values(|n: Node| n@)
}

/// The views of the first matches found in a scope element.
pub open spec fn row_view(row: Vec<Option<Node>>) -> Seq<Option<NodeView>> {
    row@.map_values(
        |o: Option<Node>|
            match o {
                Some(n) => Some(n@),
                None => None,
            },
    )
}

/// The views of the scope elements and the first matches found in each.
pub open spec fn scoped_views(v: Seq<(Node, Vec<Option<Node>>)>) -> Seq<
    (NodeView, Seq<Option<NodeView>>),
> {
    v.map_values(|p: (Node, Vec<Option<Node>>)| (p.0@, row_view(p.1)))
}

/// The elements of `page` that `selector` matches, each converted to a
/// [`Node`] (`Html::select`, `ElementRef::text`, `inner_html`, `html`,
/// `Element::attrs`).
#[verifier::external_body]
pub fn select_all(page: &Page, selector: &str) -> (r: Option<Vec<Node>>)
    ensures
        match r {
            Some(v) => selection(page.source(), page.is_fragment(), selector@) == Some(
                node_views(v@),
            ),
            None => selection(page.source(), page.is_fragment(), selector@) is None,
        },
{
    let sel = Selector::parse(selector).ok()?;
    Some(page.doc.select(&sel).map(node_of).collect())
}

/// For each element of `page` that `scope` matches, the element and the first
/// descendant that each of the `inner` selectors matches
/// (`ElementRef::select(..).next()`).
#[verifier::external_body]
pub fn select_within(page: &Page, scope: &str, inner: &Vec<&str>) -> (r: Option<
    Vec<(Node, Vec<Option<Node>>)>,
>)
    ensures
        match r {
            Some(v) => scoped_selection(
                page.source(),
                page.is_fragment(),
                scope@,
                inner@.map_values(|s: &str| s@),
            ) == Some(scoped_views(v@)),
            None => scoped_selection(
                page.source(),
                page.is_fragment(),
                scope@,
                inner@.map_values(|s: &str| s@),
            ) is None,
        },
{
    let scope = Selector::parse(scope).ok()?;
    let sels: Vec<_> = inner.iter().map(|s| Selector::parse(s).ok()).collect::<Option<_>>()?;
    Some(page.doc.select(&scope).map(|el| (node_of(el), sels.iter().map(|s| el.select(s).next().map(node_of)).collect())).collect())
}

// ── Reading elements ─────────────────────────────────────────────────────────

/// What `Element::attr` gives for `name`: the value recorded with the first
/// attribute of that local name.
pub open spec fn attr_in(attrs: Seq<(Seq<char>, Option<Seq<char>>)>, name: Seq<char>) -> Option<Seq<char>>
    decreases attrs.len(),
{
    if attrs.len() == 0 {
        None
    } else if attrs[0].0 == name {
        attrs[0].1
    } else {
        attr_in(attrs.drop_first(), name)
    }
}

/// The value of the attribute `name` of an element (`Element::attr`).
pub fn node_attr(n: &Node, name: &str) -> (r: Option<String>)
    ensures
        opt_chars(r) == attr_in(n@.attrs, name@),
{
    let ghost all = n@.attrs;
    let mut i: usize = 0;
    assert(all.skip(0) == all);
    while i < n.attrs.len()
        invariant
            i <= n.attrs.len(),
            all == n.attrs@.map_values(|p: (String, Option<String>)| (p.0@, opt_chars(p.1))),
            attr_in(all.skip(i as int), name@) == attr_in(all, name@),
        decreases n.attrs.len() - i,
    {
        proof {
            assert(all.skip(i as int)[0] == (n.attrs@[i as int].0@, opt_chars(n.attrs@[i as int].1)));
            assert(all.skip(i as int).drop_first() == all.skip(i + 1));
        }
        if crate::models::str_eq(n.attrs[i].0.as_str(), name) {
            return crate::models::clone_opt_string(&n.attrs[i].1);
        }
        i = i + 1;
    }
    None
}

/// The first element's content, when the selection parsed and is not empty.
pub open spec fn first_of(sel: Option<Seq<NodeView>>) -> Option<NodeView> {
    match sel {
        Some(v) => if v.len() > 0 {
            Some(v[0])
        } else {
            None
        },
        None => None,
    }
}

/// The first element of `page` that `selector` matches.
pub fn select_first(page: &Page, selector: &str) -> (r: Option<Node>)
    ensures
        match r {
            Some(n) => first_of(selection(page.source(), page.is_fragment(), selector@))
                == Some(n@),
            None => first_of(selection(page.source(), page.is_fragment(), selector@)) is None,
        },
{
    let all = select_all(page, selector)?;
    if all.len() == 0 {
        return None;
    }
    let mut all = all;
    Some(all.swap_remove(0))
}

/// The trimmed text of an optional element.
pub open spec fn trimmed_text(n: Option<NodeView>) -> Option<Seq<char>> {
    match n {
        Some(v) => Some(trim(v.text)),
        None => None,
    }
}

/// The trimmed inner HTML of an optional element.
pub open spec fn trimmed_inner(n: Option<NodeView>) -> Option<Seq<char>> {
    match n {
        Some(v) => Some(trim(v.inner_html)),
        None => None,
    }
}

/// The trimmed value of an attribute of an optional element.
pub open spec fn trimmed_attr(n: Option<NodeView>, name: Seq<char>) -> Option<Seq<char>> {
    match n {
        Some(v) => match attr_in(v.attrs, name) {
            Some(a) => Some(trim(a)),
            None => None,
        },
        None => None,
    }
}

/// The trimmed text of the first match of `selector` on `page`.
pub open spec fn first_text(page: Page, selector: Seq<char>) -> Option<Seq<char>> {
    trimmed_text(first_of(selection(page.source(), page.is_fragment(), selector)))
}

/// Trims a string.
pub fn trimmed(s: &String) -> (r: String)
    ensures
        r@ == trim(s@),
{
    let cs = chars_of(s.as_str());
    let t = trim_chars(&cs);
    string_from_chars(&t)
}

/// Select the **first** element matching `selector` and return its trimmed inner HTML.
pub fn select_first_html(page: &Page, selector: &str) -> (r: Option<String>)
    ensures
        opt_chars(r) == trimmed_inner(
            first_of(selection(page.source(), page.is_fragment(), selector@)),
        ),
{
    let n = select_first(page, selector)?;
    Some(trimmed(&n.inner_html))
}

/// Select the **first** element matching `selector` and return its trimmed text.
pub fn select_first_text(page: &Page, selector: &str) -> (r: Option<String>)
    ensures
        opt_chars(r) == first_text(*page, selector@),
{
    let n = select_first(page, selector)?;
    Some(trimmed(&n.text))
}

/// Select the `attr` attribute of the first element matching `selector`.
pub fn select_first_attr(page: &Page, selector: &str, attr: &str) -> (r: Option<String>)
    ensures
        opt_chars(r) == trimmed_attr(
            first_of(selection(page.source(), page.is_fragment(), selector@)),
            attr@,
        ),
{
    let n = select_first(page, selector)?;
    let a = node_attr(&n, attr)?;
    Some(trimmed(&a))
}

/// The content of an optional element.
pub open spec fn opt_node(o: Option<Node>) -> Option<NodeView> {
    match o {
        Some(n) => Some(n@),
        None => None,
    }
}

/// The attribute `name` of an optional element.
pub open spec fn attr_of(n: Option<NodeView>, name: Seq<char>) -> Option<Seq<char>> {
    match n {
        Some(v) => attr_in(v.attrs, name),
        None => None,
    }
}

/// The trimmed text of an optional element.
pub fn opt_text(n: &Option<Node>) -> (r: Option<String>)
    ensures
        opt_chars(r) == trimmed_text(opt_node(*n)),
{
    match n {
        Some(x) => Some(trimmed(&x.text)),
        None => None,
    }
}

/// The attribute `name` of an optional element, as it is.
pub fn opt_attr(n: &Option<Node>, name: &str) -> (r: Option<String>)
    ensures
        opt_chars(r) == attr_of(opt_node(*n), name@),
{
    match n {
        Some(x) => node_attr(x, name),
        None => None,
    }
}

/// The first element of a page that a selector matches.
pub open spec fn first_match(src: Seq<char>, fragment: bool, selector: Seq<char>) -> Option<
    NodeView,
> {
    first_of(selection(src, fragment, selector))
}

/// The first inner match in a row of `select_within`, when there is one.
pub open spec fn cell(row: Seq<Option<NodeView>>, i: int) -> Option<NodeView> {
    if 0 <= i < row.len() {
        row[i]
    } else {
        None
    }
}

/// The `i`-th first match of a row, taken out of it.
pub fn take_cell(row: &mut Vec<Option<Node>>, i: usize) -> (r: Option<Node>)
    ensures
        opt_node(r) == cell(row_view(*old(row)), i as int),
        i < old(row)@.len() ==> final(row)@ == old(row)@.update(i as int, None),
        i >= old(row)@.len() ==> final(row)@ == old(row)@,
{
    if i < row.len() {
        let mut x: Option<Node> = None;
        std::mem::swap(&mut x, &mut row[i]);
        x
    } else {
        None
    }
}

} // verus!
