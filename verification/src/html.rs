//! The HTML documents that the listing is read from, as the `scraper`
//! crate parses and queries them.

use vstd::prelude::*;

verus! {

/// The longest document, in characters, that is handed to the parser.
///
/// The parser holds text in buffers whose length in bytes is a 32-bit
/// number and stops the program where one would grow beyond that. A
/// character takes at most four bytes, in the document and in the text
/// that the parser makes of it, so a document of this length stays
/// within those buffers.
pub const MAX_DOCUMENT_CHARS: usize = 0x3fff_ffff;

/// Whether a document is short enough to be handed to the parser.
pub open spec fn document_fits(document: Seq<char>) -> bool {
    document.len() <= MAX_DOCUMENT_CHARS
}

/// Whether `scraper::Selector::parse` accepts `selector` as a CSS selector
/// group.
pub uninterp spec fn selector_parses(selector: Seq<char>) -> bool;

/// What selecting cells out of the rows of a parsed document yields: for
/// each element of `document` that matches `row_selector`, the inner HTML
/// of each of its descendants that matches `cell_selector`.
///
/// Rows come in the order in which the parser added their elements to the
/// tree, which for a table without misplaced content is the order of the
/// document. The cells of a row come in document order.
pub uninterp spec fn selected_cells(
    document: Seq<char>,
    row_selector: Seq<char>,
    cell_selector: Seq<char>,
) -> Seq<Seq<Seq<char>>>;

/// `scraper::Selector::parse`, which parses a CSS selector group.
///
/// Trusted: the result tells whether the call returned a selector rather
/// than an error, which depends on the text of `selector` alone and is
/// what [`selector_parses`] names.
#[verifier::external_body]
pub(crate) fn parses_as_selector(selector: &str) -> (parses: bool)
    ensures
        parses == selector_parses(selector@),
{
    scraper::Selector::parse(selector).is_ok()
}

/// `scraper::Html::select` on the document that
/// `scraper::Html::parse_document` makes of `document`, and for each row
/// that it yields `scraper::ElementRef::select`, with
/// `scraper::ElementRef::inner_html` of every cell.
///
/// Trusted: the result is the table that [`selected_cells`] names.
/// Parsing a document that fits the parser's buffers never fails, both
/// queries walk the parsed tree in a fixed order, and the inner HTML is
/// written out of that tree, so the table depends on the three texts
/// alone. The selectors are parsed again here, which cannot fail for
/// selectors that parse.
#[verifier::external_body]
pub(crate) fn select_cells(
    document: &str,
    row_selector: &str,
    cell_selector: &str,
) -> (table: Vec<Vec<String>>)
    requires
        document_fits(document@),
        selector_parses(row_selector@),
        selector_parses(cell_selector@),
    ensures
        table.deep_view() == selected_cells(document@, row_selector@, cell_selector@),
{
    let rows = scraper::Selector::parse(row_selector).unwrap();
    let cells = scraper::Selector::parse(cell_selector).unwrap();
    let html = scraper::Html::parse_document(document);
    html.select(&rows).map(
        |row| row.select(&cells).map(|cell| cell.inner_html()).collect(),
    ).collect()
}

} // verus!
