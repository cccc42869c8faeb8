//! The HTML side of scraping: CSS selectors and the query of a parsed
//! document, both done by the `scraper` crate, and the plain values that the
//! query hands back.

use vstd::prelude::*;
use crate::text::strings_view;

verus! {

#[verifier::external_type_specification]
#[verifier::external_body]
pub struct ExSelector(scraper::Selector);

/// Whether `scraper::Selector::parse` accepts `s` as a CSS selector group.
pub uninterp spec fn css_selector_valid(s: Seq<char>) -> bool;

/// Whether `s` is a word of ASCII letters.
pub open spec fn ascii_word(s: Seq<char>) -> bool {
    s.len() > 0 && forall|i: int|
        0 <= i < s.len() ==> ('a' <= #[trigger] s[i] && s[i] <= 'z') || ('A' <= s[i] && s[i]
            <= 'Z')
}

/// Whether `s` is a type selector (a word of ASCII letters, such as `tr`)
/// or a class selector (`.` and such a word, such as `.total`).
pub open spec fn simple_selector(s: Seq<char>) -> bool {
    ascii_word(s) || (s.len() > 1 && s[0] == '.' && ascii_word(s.drop_first()))
}

/// The CSS text that `ToCss::to_css_string` writes for `sel`: each selector
/// of the group, in order, component by component. `scraper` itself takes
/// this text as the value of a selector (it serialises a selector as this
/// text and reads one back by parsing it).
pub uninterp spec fn selector_css(sel: scraper::Selector) -> Seq<char>;

/// The CSS text of the selector that `scraper::Selector::parse` makes of `s`,
/// where it accepts `s`.
pub uninterp spec fn parsed_css(s: Seq<char>) -> Seq<char>;

/// `scraper::Selector::parse`: succeeds exactly on the strings that it
/// accepts, which `css_selector_valid` names; among them are the type and
/// class selectors whose names are words of ASCII letters, which are CSS
/// identifiers. The selector that comes back is the parse of `s`: its CSS
/// text is `parsed_css(s)`.
#[verifier::external_body]
fn parse_selector(s: &str) -> (r: Option<scraper::Selector>)
    ensures
        r is Some == css_selector_valid(s@),
        simple_selector(s@) ==> r is Some,
        r matches Some(sel) ==> selector_css(sel) == parsed_css(s@),
{
    scraper::Selector::parse(s).ok()
}

/// `<scraper::Selector as Clone>::clone`, which `derive` writes: a copy of
/// the selector list, with the same CSS text.
#[verifier::external_body]
fn clone_selector(s: &scraper::Selector) -> (r: scraper::Selector)
    ensures
        selector_css(r) == selector_css(*s),
{
    s.clone()
}

/// A CSS selector together with the text it was parsed from.
///
/// Its fields are private, and the only ways to make one are to parse the
/// text (`CssSelector::parse`) or to copy such a pair (`CssSelector::clone`).
/// The type invariant states the pairing: the source was accepted by the
/// parser, and the CSS text of the stored selector is that of the parse of
/// the source.
pub struct CssSelector {
    source: String,
    inner: scraper::Selector,
}

impl View for CssSelector {
    type V = Seq<char>;

    /// The text the selector was parsed from.
    closed spec fn view(&self) -> Seq<char> {
        self.source@
    }
}

impl CssSelector {
    /// The CSS text of the stored selector.
    pub closed spec fn css(&self) -> Seq<char> {
        selector_css(self.inner)
    }

    /// Every selector was accepted by the parser, and is the parse of its
    /// source.
    #[verifier::type_invariant]
    closed spec fn inv(&self) -> bool {
        &&& css_selector_valid(self.source@)
        &&& selector_css(self.inner) == parsed_css(self.source@)
    }

    /// Parses `s` as a CSS selector group, or gives `None` where `scraper`
    /// refuses it.
    pub fn parse(s: &str) -> (r: Option<CssSelector>)
        ensures
            r is Some == css_selector_valid(s@),
            simple_selector(s@) ==> r is Some,
            r matches Some(c) ==> c@ == s@ && c.css() == parsed_css(s@),
    {
        match parse_selector(s) {
            Some(inner) => Some(CssSelector { source: String::from_str(s), inner }),
            None => None,
        }
    }

    /// Whether `s` is a valid CSS selector group.
    pub fn is_valid(s: &str) -> (r: bool)
        ensures
            r == css_selector_valid(s@),
            simple_selector(s@) ==> r,
    {
        parse_selector(s).is_some()
    }

    /// A copy of the selector.
    pub fn clone(&self) -> (r: CssSelector)
        ensures
            r@ == self@,
            r.css() == self.css(),
            r.css() == parsed_css(r@),
    {
        proof {
            use_type_invariant(self);
        }
        CssSelector { source: self.source.clone(), inner: clone_selector(&self.inner) }
    }

    /// The text the selector was parsed from, which the parser accepts and
    /// whose parse the selector is.
    pub fn source(&self) -> (r: &str)
        ensures
            r@ == self@,
            css_selector_valid(self@),
            self.css() == parsed_css(self@),
    {
        proof {
            use_type_invariant(self);
        }
        self.source.as_str()
    }
}

/// What the scraping reads of one table cell: its text nodes, in document
/// order, and for each element in it that the link selector matches, the
/// value of the link attribute (`None` where the element lacks it).
pub struct Cell {
    pub text: Vec<String>,
    pub links: Vec<Option<String>>,
}

/// What the scraping reads of a page: the cells of each row, and for each
/// element that the page-count selector matches, the value of the
/// page-count attribute.
pub struct PageData {
    pub rows: Vec<Vec<Cell>>,
    pub totals: Vec<Option<String>>,
}

/// A cell as plain values: its text nodes and its link attribute values.
pub type CellModel = (Seq<Seq<char>>, Seq<Option<Seq<char>>>);

/// A page as plain values: the cells of each row, and the page-count
/// attribute values.
pub type PageModel = (Seq<Seq<CellModel>>, Seq<Option<Seq<char>>>);

/// What `scraper` finds in the document `html` with the selectors whose CSS
/// texts (`selector_css`) are `row`, `cell`, `link` and `total`: for each
/// element matching `row` (in document order), the cells matching `cell`
/// inside it, each with its text nodes and the `link_attr` attribute of each
/// element matching `link` inside it; and the `total_attr` attribute of each
/// element matching `total`.
pub uninterp spec fn html_page(
    html: Seq<char>,
    row: Seq<char>,
    cell: Seq<char>,
    link: Seq<char>,
    link_attr: Seq<char>,
    total: Seq<char>,
    total_attr: Seq<char>,
) -> PageModel;

pub open spec fn opt_string_view(o: Option<String>) -> Option<Seq<char>> {
    match o {
        Some(s) => Some(s@),
        None => None,
    }
}

pub open spec fn cell_model(c: Cell) -> CellModel {
    (strings_view(c.text@), c.links@.map_values(|o: Option<String>| opt_string_view(o)))
}

pub open spec fn row_model(r: Vec<Cell>) -> Seq<CellModel> {
    r@.map_values(|c: Cell| cell_model(c))
}

pub open spec fn page_model(p: PageData) -> PageModel {
    (
        p.rows@.map_values(|r: Vec<Cell>| row_model(r)),
        p.totals@.map_values(|o: Option<String>| opt_string_view(o)),
    )
}

/// The selectors and attribute names of a page query.
pub struct PageQuery {
    pub row: CssSelector,
    pub cell: CssSelector,
    pub link: CssSelector,
    pub link_attr: String,
    pub total: CssSelector,
    pub total_attr: String,
}

/// `scraper::Html::parse_document` on `html`, then the query of the parsed
/// document with `Html::select`, `ElementRef::select`, `ElementRef::text` and
/// `ElementRef::attr`: the result is what `html_page` names, for the CSS
/// texts of the selectors and the attribute names of `q`.
#[verifier::external_body]
pub(crate) fn query_page(html: &str, q: &PageQuery) -> (r: PageData)
    ensures
        page_model(r) == html_page(
            html@,
            q.row.css(),
            q.cell.css(),
            q.link.css(),
            q.link_attr@,
            q.total.css(),
            q.total_attr@,
        ),
{
    let doc = scraper::Html::parse_document(html);
    let rows = doc.select(&q.row.inner).map(|r| r.select(&q.cell.inner).map(|c| Cell {
        text: c.text().map(String::from).collect(),
        links: c.select(&q.link.inner).map(|a| a.attr(&q.link_attr).map(String::from)).collect(),
    }).collect()).collect();
    let totals = doc.select(&q.total.inner).map(|t| t.attr(&q.total_attr).map(String::from));
    PageData { rows, totals: totals.collect() }
}

} // verus!
