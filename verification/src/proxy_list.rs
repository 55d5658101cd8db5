//! The proxy listing: from the page that lists public proxies to the
//! endpoints of those that qualify.
//!
//! The page holds a table with one row per proxy. Columns are read by
//! position. A row qualifies when its country is `Canada` and its HTTPS
//! flag is `yes`; it then yields the endpoint `host:port`.

use crate::client::Outcome;
use crate::client::Request;
use crate::client::RequestView;
use crate::error::CrawlError;
use crate::html::document_fits;
use crate::html::parses_as_selector;
use crate::html::select_cells;
use crate::html::selected_cells;
use crate::html::selector_parses;
use crate::html::MAX_DOCUMENT_CHARS;
use crate::text::same_text;
use crate::text::trim;
use crate::text::trimmed;
use vstd::prelude::*;
use vstd::string::StrSliceExecFns;

verus! {

/// The column that holds the address of the proxy.
pub const IP_COLUMN: usize = 0;

/// The column that holds the port of the proxy.
pub const PORT_COLUMN: usize = 1;

/// The column that holds the country of the proxy.
pub const COUNTRY_COLUMN: usize = 3;

/// The column that holds the HTTPS flag of the proxy.
pub const HTTPS_COLUMN: usize = 6;

/// The number of cells that a row needs for every column to be read.
pub const REQUIRED_CELLS: usize = HTTPS_COLUMN + 1;

/// The URL of the listing page.
pub const LISTING_URL: &'static str = "https://free-proxy-list.net/";

/// The selector of the rows of the listing table.
pub const ROW_SELECTOR: &'static str = ".table-responsive tbody tr";

/// The selector of the cells of a row.
pub const CELL_SELECTOR: &'static str = "td";

/// The country whose proxies are listed.
pub const WANTED_COUNTRY: &'static str = "Canada";

/// The HTTPS flag of the proxies that are listed.
pub const WANTED_FLAG: &'static str = "yes";

/// One row of the listing table.
#[derive(Clone, Debug, PartialEq, Eq)]
pub struct ProxyListingRow {
    /// The address of the proxy, as the cell holds it.
    pub ip: String,
    /// The port of the proxy, as the cell holds it.
    pub port: String,
    /// The country of the proxy.
    pub country: String,
    /// Whether the proxy serves HTTPS: `yes` or `no`.
    pub https_capable: String,
}

/// What a [`ProxyListingRow`] is, as plain values.
pub struct RowView {
    pub ip: Seq<char>,
    pub port: Seq<char>,
    pub country: Seq<char>,
    pub https_capable: Seq<char>,
}

impl View for ProxyListingRow {
    type V = RowView;

    open spec fn view(&self) -> RowView {
        RowView {
            ip: self.ip@,
            port: self.port@,
            country: self.country@,
            https_capable: self.https_capable@,
        }
    }
}

impl DeepView for ProxyListingRow {
    type V = RowView;

    open spec fn deep_view(&self) -> RowView {
        self.view()
    }
}

/// Whether a row of cells holds every column that is read.
pub open spec fn has_listing_columns(cells: Seq<Seq<char>>) -> bool {
    cells.len() >= REQUIRED_CELLS
}

/// The row that a sequence of cells stands for.
pub open spec fn row_of_cells(cells: Seq<Seq<char>>) -> RowView {
    RowView {
        ip: cells[IP_COLUMN as int],
        port: cells[PORT_COLUMN as int],
        country: cells[COUNTRY_COLUMN as int],
        https_capable: cells[HTTPS_COLUMN as int],
    }
}

/// The rows of a table: one for each row of cells that holds every
/// column, in the order of the table.
pub open spec fn extracted_rows(table: Seq<Seq<Seq<char>>>) -> Seq<RowView> {
    table.filter(|cells: Seq<Seq<char>>| has_listing_columns(cells)).map_values(
        |cells: Seq<Seq<char>>| row_of_cells(cells),
    )
}

/// Whether a row qualifies: the country and the flag are compared as they
/// stand, without trimming and with regard to case.
pub open spec fn is_wanted(row: RowView) -> bool {
    row.country == WANTED_COUNTRY@ && row.https_capable == WANTED_FLAG@
}

/// The endpoint of a row: address and port without surrounding white
/// space, joined by a colon.
pub open spec fn endpoint_of(row: RowView) -> Seq<char> {
    trimmed(row.ip) + ":"@ + trimmed(row.port)
}

/// The endpoints of the rows that qualify, in the order of the rows.
pub open spec fn endpoints(rows: Seq<RowView>) -> Seq<Seq<char>> {
    rows.filter(|row: RowView| is_wanted(row)).map_values(|row: RowView| endpoint_of(row))
}

/// The endpoints that a table of cells lists.
pub open spec fn listed_endpoints(table: Seq<Seq<Seq<char>>>) -> Seq<Seq<char>> {
    endpoints(extracted_rows(table))
}

/// Whether a row of cells qualifies for the listing: it holds every
/// column, its country is `Canada` and its HTTPS flag is `yes`.
pub open spec fn qualifies(cells: Seq<Seq<char>>) -> bool {
    has_listing_columns(cells) && is_wanted(row_of_cells(cells))
}

/// The endpoint that a row of cells yields where it qualifies.
pub open spec fn endpoint_of_cells(cells: Seq<Seq<char>>) -> Seq<char> {
    endpoint_of(row_of_cells(cells))
}

/// Filtering and then mapping a sequence with one more element at its end
/// adds the image of that element where it passes the filter, and nothing
/// otherwise.
pub(crate) proof fn lemma_filter_map_push<A, B>(
    s: Seq<A>,
    x: A,
    keep: spec_fn(A) -> bool,
    f: spec_fn(A) -> B,
)
    ensures
        s.push(x).filter(keep).map_values(f) == if keep(x) {
            s.filter(keep).map_values(f).push(f(x))
        } else {
            s.filter(keep).map_values(f)
        },
{
    reveal(Seq::filter);
    assert(s.push(x).drop_last() =~= s);
    assert(s.push(x).last() == x);
    if keep(x) {
        assert(s.push(x).filter(keep) == s.filter(keep).push(x));
        assert(s.filter(keep).push(x).map_values(f) =~= s.filter(keep).map_values(f).push(f(x)));
    }
}

/// Adding a row of cells at the end of a table adds its row at the end of
/// the extracted rows where it holds every column, and nothing otherwise.
pub(crate) proof fn lemma_extracted_rows_push(table: Seq<Seq<Seq<char>>>, cells: Seq<Seq<char>>)
    ensures
        extracted_rows(table.push(cells)) == if has_listing_columns(cells) {
            extracted_rows(table).push(row_of_cells(cells))
        } else {
            extracted_rows(table)
        },
{
    lemma_filter_map_push(
        table,
        cells,
        |cells: Seq<Seq<char>>| has_listing_columns(cells),
        |cells: Seq<Seq<char>>| row_of_cells(cells),
    );
}

/// Adding a row at the end adds its endpoint at the end of the endpoints
/// where it qualifies, and nothing otherwise.
pub(crate) proof fn lemma_endpoints_push(rows: Seq<RowView>, row: RowView)
    ensures
        endpoints(rows.push(row)) == if is_wanted(row) {
            endpoints(rows).push(endpoint_of(row))
        } else {
            endpoints(rows)
        },
{
    lemma_filter_map_push(
        rows,
        row,
        |row: RowView| is_wanted(row),
        |row: RowView| endpoint_of(row),
    );
}

/// Reads the rows of a table of cells: one row for each sequence of cells
/// that holds every column, in the order of the table. A sequence with
/// fewer cells is passed over.
pub fn rows_from_cells(table: &Vec<Vec<String>>) -> (rows: Vec<ProxyListingRow>)
    ensures
        rows.deep_view() == extracted_rows(table.deep_view()),
{
    let mut rows: Vec<ProxyListingRow> = Vec::new();
    let mut i: usize = 0;
    while i < table.len()
        invariant
            i <= table.len(),
            rows.deep_view() == extracted_rows(table.deep_view().take(i as int)),
        decreases table.len() - i,
    {
        let cells = &table[i];
        proof {
            let t = table.deep_view();
            assert(t.take(i + 1) =~= t.take(i as int).push(t[i as int]));
            assert(t[i as int] == cells.deep_view());
            lemma_extracted_rows_push(t.take(i as int), t[i as int]);
        }
        if cells.len() >= REQUIRED_CELLS {
            let row = ProxyListingRow {
                ip: cells[IP_COLUMN].clone(),
                port: cells[PORT_COLUMN].clone(),
                country: cells[COUNTRY_COLUMN].clone(),
                https_capable: cells[HTTPS_COLUMN].clone(),
            };
            assert(row.deep_view() == row_of_cells(cells.deep_view()));
            let ghost before = rows.deep_view();
            rows.push(row);
            assert(rows.deep_view() =~= before.push(row.deep_view()));
        }
        i = i + 1;
    }
    assert(table.deep_view().take(table.len() as int) =~= table.deep_view());
    rows
}

impl ProxyListingRow {
    /// Whether the row qualifies for the listing: its country is `Canada`
    /// and its HTTPS flag is `yes`, letter for letter.
    pub fn is_wanted(&self) -> (wanted: bool)
        ensures
            wanted == is_wanted(self@),
    {
        same_text(self.country.as_str(), WANTED_COUNTRY) && same_text(
            self.https_capable.as_str(),
            WANTED_FLAG,
        )
    }

    /// The endpoint of the row, `host:port`: address and port without
    /// surrounding white space, joined by a colon.
    pub fn endpoint(&self) -> (endpoint: String)
        ensures
            endpoint@ == endpoint_of(self@),
    {
        let mut endpoint = String::from_str(trim(self.ip.as_str()));
        endpoint.append(":");
        endpoint.append(trim(self.port.as_str()));
        endpoint
    }
}

/// Lists the endpoints of the rows that qualify, in the order of the rows
/// and without removing repetitions.
pub fn select_proxies(rows: &Vec<ProxyListingRow>) -> (proxies: Vec<String>)
    ensures
        proxies.deep_view() == endpoints(rows.deep_view()),
{
    let mut proxies: Vec<String> = Vec::new();
    let mut i: usize = 0;
    while i < rows.len()
        invariant
            i <= rows.len(),
            proxies.deep_view() == endpoints(rows.deep_view().take(i as int)),
        decreases rows.len() - i,
    {
        let row = &rows[i];
        proof {
            let r = rows.deep_view();
            assert(r.take(i + 1) =~= r.take(i as int).push(r[i as int]));
            assert(r[i as int] == row@);
            lemma_endpoints_push(r.take(i as int), r[i as int]);
        }
        if row.is_wanted() {
            let endpoint = row.endpoint();
            let ghost before = proxies.deep_view();
            proxies.push(endpoint);
            assert(proxies.deep_view() =~= before.push(endpoint@));
        }
        i = i + 1;
    }
    assert(rows.deep_view().take(rows.len() as int) =~= rows.deep_view());
    proxies
}

/// Whether rows can be extracted from `document` with the two selectors:
/// the document is short enough for the parser and both selectors parse.
pub open spec fn extractable(
    document: Seq<char>,
    row_selector: Seq<char>,
    cell_selector: Seq<char>,
) -> bool {
    document_fits(document) && selector_parses(row_selector) && selector_parses(cell_selector)
}

/// Extracts the rows of a table from an HTML document: one row for each
/// element that `row_selector` matches and that holds, among its
/// descendants that `cell_selector` matches, a cell for every column. A
/// row with fewer cells is passed over. A selector that cannot be parsed,
/// or a document of more than [`MAX_DOCUMENT_CHARS`] characters, is a
/// [`CrawlError::Parse`].
pub fn extract_rows(
    document: &str,
    row_selector: &str,
    cell_selector: &str,
) -> (r: Result<Vec<ProxyListingRow>, CrawlError>)
    ensures
        match r {
            Ok(rows) => extractable(document@, row_selector@, cell_selector@)
                && rows.deep_view() == extracted_rows(
                selected_cells(document@, row_selector@, cell_selector@),
            ),
            Err(e) => !extractable(document@, row_selector@, cell_selector@) && e
                == CrawlError::Parse,
        },
{
    if document.unicode_len() <= MAX_DOCUMENT_CHARS && parses_as_selector(row_selector)
        && parses_as_selector(cell_selector) {
        let table = select_cells(document, row_selector, cell_selector);
        Ok(rows_from_cells(&table))
    } else {
        Err(CrawlError::Parse)
    }
}

/// The table of cells that the listing page with the text `body` holds.
pub open spec fn listing_table(body: Seq<char>) -> Seq<Seq<Seq<char>>> {
    selected_cells(body, ROW_SELECTOR@, CELL_SELECTOR@)
}

/// Whether the listing page with the text `body` can be read: it is short
/// enough for the parser and the two selectors of the listing table parse.
pub open spec fn listing_readable(body: Seq<char>) -> bool {
    extractable(body, ROW_SELECTOR@, CELL_SELECTOR@)
}

/// The endpoints that the listing page with the text `body` lists.
pub open spec fn listing_of(body: Seq<char>) -> Seq<Seq<char>> {
    listed_endpoints(listing_table(body))
}

/// Reads the endpoints of the proxies that qualify out of the text of the
/// listing page, in the order of their rows. A page without such rows, or
/// without the table, gives no endpoints and no error.
pub fn parse_listing(body: &str) -> (r: Result<Vec<String>, CrawlError>)
    ensures
        match r {
            Ok(proxies) => listing_readable(body@) && proxies.deep_view() == listing_of(body@),
            Err(e) => !listing_readable(body@) && e == CrawlError::Parse,
        },
{
    match extract_rows(body, ROW_SELECTOR, CELL_SELECTOR) {
        Ok(rows) => Ok(select_proxies(&rows)),
        Err(e) => Err(e),
    }
}

/// The request for the listing page: a GET to the fixed URL of the page
/// whose body is read, without a proxy and with the time limit left to
/// the client.
pub fn listing_request() -> (request: Request)
    ensures
        request@ == (RequestView {
            url: LISTING_URL@,
            proxy_uri: None,
            timeout_secs: None,
            read_body: true,
        }),
{
    Request {
        url: String::from_str(LISTING_URL),
        proxy_uri: None,
        timeout_secs: None,
        read_body: true,
    }
}

/// The text of the body that an outcome carries, if it carries one.
pub open spec fn body_of(outcome: Outcome) -> Option<Seq<char>> {
    match outcome {
        Outcome::Response { status, body: Some(text) } => Some(text@),
        _ => None,
    }
}

/// What the acquisition of the proxy list comes to: the endpoints that
/// the body lists where the outcome carries a body that can be read, and
/// the failure otherwise.
pub open spec fn acquired(outcome: Outcome) -> Result<Seq<Seq<char>>, CrawlError> {
    match body_of(outcome) {
        Some(body) => if listing_readable(body) {
            Ok(listing_of(body))
        } else {
            Err(CrawlError::Parse)
        },
        None => Err(CrawlError::Fetch),
    }
}

/// Concludes the acquisition of the proxy list from the outcome of the
/// [`listing_request`]: the endpoints that the body lists, whatever the
/// status of the response. Where no body was obtained the failure is
/// passed on as [`CrawlError::Fetch`]; a body that cannot be read is a
/// [`CrawlError::Parse`].
pub fn fetch_proxies(outcome: &Outcome) -> (r: Result<Vec<String>, CrawlError>)
    ensures
        match r {
            Ok(proxies) => acquired(*outcome) == Ok::<Seq<Seq<char>>, CrawlError>(
                proxies.deep_view(),
            ),
            Err(e) => acquired(*outcome) == Err::<Seq<Seq<char>>, CrawlError>(e),
        },
{
    match outcome {
        Outcome::Response { status: _, body: Some(text) } => parse_listing(text.as_str()),
        _ => Err(CrawlError::Fetch),
    }
}

} // verus!
