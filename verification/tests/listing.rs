use proxy_crawler::client::Outcome;
use proxy_crawler::error::CrawlError;
use proxy_crawler::html::MAX_DOCUMENT_CHARS;
use proxy_crawler::proxy_list::extract_rows;
use proxy_crawler::proxy_list::fetch_proxies;
use proxy_crawler::proxy_list::listing_request;
use proxy_crawler::proxy_list::parse_listing;
use proxy_crawler::proxy_list::rows_from_cells;
use proxy_crawler::proxy_list::select_proxies;
use proxy_crawler::proxy_list::ProxyListingRow;
use proxy_crawler::proxy_list::CELL_SELECTOR;
use proxy_crawler::proxy_list::COUNTRY_COLUMN;
use proxy_crawler::proxy_list::HTTPS_COLUMN;
use proxy_crawler::proxy_list::IP_COLUMN;
use proxy_crawler::proxy_list::LISTING_URL;
use proxy_crawler::proxy_list::PORT_COLUMN;
use proxy_crawler::proxy_list::REQUIRED_CELLS;
use proxy_crawler::proxy_list::ROW_SELECTOR;
use proxy_crawler::proxy_list::WANTED_COUNTRY;
use proxy_crawler::proxy_list::WANTED_FLAG;

fn table(rows: &[&str]) -> String {
    let mut html = String::from("<table class=\"table-responsive\"><tbody>");
    for row in rows {
        html.push_str(row);
    }
    html.push_str("</tbody></table>");
    html
}

fn row(cells: &[&str]) -> String {
    let mut html = String::from("<tr>");
    for cell in cells {
        html.push_str("<td>");
        html.push_str(cell);
        html.push_str("</td>");
    }
    html.push_str("</tr>");
    html
}

fn listing_row(ip: &str, port: &str, country: &str, https: &str) -> ProxyListingRow {
    ProxyListingRow {
        ip: ip.to_string(),
        port: port.to_string(),
        country: country.to_string(),
        https_capable: https.to_string(),
    }
}

fn cells(texts: &[&str]) -> Vec<String> {
    texts.iter().map(|t| t.to_string()).collect()
}

#[test]
fn canadian_https_row_is_listed() {
    let html = "<table class=\"table-responsive\"><tbody><tr><td>1.2.3.4</td><td>8080</td><td>x</td><td>Canada</td><td>x</td><td>x</td><td>yes</td></tr></tbody></table>";
    assert_eq!(parse_listing(html), Ok(vec!["1.2.3.4:8080".to_string()]));
}

#[test]
fn row_of_another_country_is_not_listed() {
    let html = "<table class=\"table-responsive\"><tbody><tr><td>1.2.3.4</td><td>8080</td><td>x</td><td>USA</td><td>x</td><td>x</td><td>yes</td></tr></tbody></table>";
    assert_eq!(parse_listing(html), Ok(Vec::<String>::new()));
}

#[test]
fn row_without_https_is_not_listed() {
    let html = table(&[row(&["1.2.3.4", "8080", "CA", "Canada", "elite", "no", "no", "1 min"]).as_str()]);
    assert_eq!(parse_listing(&html), Ok(Vec::<String>::new()));
}

#[test]
fn listing_keeps_document_order_and_repetitions() {
    let html = table(&[
        row(&["9.9.9.9", "1", "CA", "Canada", "a", "b", "yes", "z"]).as_str(),
        row(&["5.5.5.5", "80", "US", "USA", "a", "b", "yes", "z"]).as_str(),
        row(&["1.1.1.1", "3128", "CA", "Canada", "a", "b", "yes", "z"]).as_str(),
        row(&["7.7.7.7", "81", "CA", "Canada", "a", "b", "no", "z"]).as_str(),
        row(&["9.9.9.9", "1", "CA", "Canada", "a", "b", "yes", "z"]).as_str(),
    ]);
    assert_eq!(
        parse_listing(&html),
        Ok(vec!["9.9.9.9:1".to_string(), "1.1.1.1:3128".to_string(), "9.9.9.9:1".to_string()])
    );
}

#[test]
fn country_and_flag_are_compared_letter_for_letter() {
    let html = table(&[
        row(&["1.1.1.1", "1", "x", "canada", "x", "x", "yes"]).as_str(),
        row(&["2.2.2.2", "2", "x", " Canada", "x", "x", "yes"]).as_str(),
        row(&["3.3.3.3", "3", "x", "Canada", "x", "x", "Yes"]).as_str(),
        row(&["4.4.4.4", "4", "x", "Canada", "x", "x", "yes "]).as_str(),
        row(&["5.5.5.5", "5", "x", "Canada", "x", "x", "<b>yes</b>"]).as_str(),
        row(&["6.6.6.6", "6", "x", "Canada", "x", "x", "yes"]).as_str(),
    ]);
    assert_eq!(parse_listing(&html), Ok(vec!["6.6.6.6:6".to_string()]));
}

#[test]
fn address_and_port_are_trimmed() {
    let html = table(&[row(&["  1.2.3.4\n", "\t 8080 ", "x", "Canada", "x", "x", "yes"]).as_str()]);
    assert_eq!(parse_listing(&html), Ok(vec!["1.2.3.4:8080".to_string()]));
}

#[test]
fn short_rows_are_passed_over() {
    let html = table(&[
        row(&[]).as_str(),
        row(&["1.1.1.1"]).as_str(),
        row(&["2.2.2.2", "80"]).as_str(),
        row(&["3.3.3.3", "80", "x", "Canada"]).as_str(),
        row(&["4.4.4.4", "80", "x", "Canada", "x", "yes"]).as_str(),
        row(&["5.5.5.5", "80", "x", "Canada", "x", "x", "yes"]).as_str(),
    ]);
    assert_eq!(parse_listing(&html), Ok(vec!["5.5.5.5:80".to_string()]));
}

#[test]
fn page_without_the_table_lists_nothing() {
    assert_eq!(parse_listing(""), Ok(Vec::<String>::new()));
    assert_eq!(parse_listing("<p>no proxies today</p>"), Ok(Vec::<String>::new()));
    let other = "<table class=\"other\"><tbody><tr><td>1.2.3.4</td><td>8080</td><td>x</td><td>Canada</td><td>x</td><td>x</td><td>yes</td></tr></tbody></table>";
    assert_eq!(parse_listing(other), Ok(Vec::<String>::new()));
    assert_eq!(parse_listing(&table(&[])), Ok(Vec::<String>::new()));
}

#[test]
fn table_inside_the_responsive_block_is_read() {
    let html = "<div class=\"table-responsive\"><table><thead><tr><th>IP</th><th>Port</th></tr></thead><tbody><tr><td>1.2.3.4</td><td>8080</td><td>CA</td><td>Canada</td><td>elite</td><td>no</td><td>yes</td><td>now</td></tr></tbody></table></div>";
    assert_eq!(parse_listing(html), Ok(vec!["1.2.3.4:8080".to_string()]));
}

#[test]
fn rows_outside_a_table_body_are_not_read() {
    let html = "<table class=\"table-responsive\"><thead><tr><td>1.2.3.4</td><td>8080</td><td>x</td><td>Canada</td><td>x</td><td>x</td><td>yes</td></tr></thead></table>";
    assert_eq!(parse_listing(html), Ok(Vec::<String>::new()));
}

#[test]
fn table_body_that_the_markup_leaves_out_is_supplied() {
    let html = "<table class=\"table-responsive\"><tr><td>1.2.3.4</td><td>8080</td><td>x</td><td>Canada</td><td>x</td><td>x</td><td>yes</td></tr></table>";
    assert_eq!(parse_listing(html), Ok(vec!["1.2.3.4:8080".to_string()]));
}

#[test]
fn cells_of_a_nested_table_count_for_the_outer_row() {
    let inner = "<table><tbody><tr><td>in</td></tr></tbody></table>";
    let html = table(&[row(&["1.2.3.4", inner, "x", "Canada", "x", "x", "yes"]).as_str()]);
    let rows = extract_rows(&html, ROW_SELECTOR, CELL_SELECTOR).unwrap();
    assert_eq!(rows.len(), 1);
    assert_eq!(rows[0].ip, "1.2.3.4");
    assert_eq!(rows[0].port, inner);
    assert_eq!(rows[0].country, "x");
    assert_eq!(parse_listing(&html), Ok(Vec::<String>::new()));
}

#[test]
fn extract_rows_reads_columns_by_position() {
    let html = table(&[
        row(&["1.2.3.4", "8080", "CA", "Canada", "elite proxy", "no", "yes", "1 min ago"]).as_str(),
        row(&["too", "short"]).as_str(),
        row(&[" 5.6.7.8 ", "3128", "US", "USA", "anonymous", "yes", "no"]).as_str(),
    ]);
    let rows = extract_rows(&html, ".table-responsive tbody tr", "td");
    assert_eq!(
        rows,
        Ok(vec![
            listing_row("1.2.3.4", "8080", "Canada", "yes"),
            listing_row(" 5.6.7.8 ", "3128", "USA", "no"),
        ])
    );
}

#[test]
fn extract_rows_takes_the_selectors_it_is_given() {
    let html = "<ul id=\"l\"><li><b>a</b><b>b</b><b>c</b><b>d</b><b>e</b><b>f</b><b>g</b></li><li><b>h</b></li></ul>";
    assert_eq!(extract_rows(html, "#l li", "b"), Ok(vec![listing_row("a", "b", "d", "g")]));
    assert_eq!(extract_rows(html, "#l li", "i"), Ok(Vec::<ProxyListingRow>::new()));
    assert_eq!(extract_rows(html, "#other li", "b"), Ok(Vec::<ProxyListingRow>::new()));
}

#[test]
fn cell_text_is_inner_html_as_it_stands() {
    let html = table(&[row(&["<span>1.2.3.4</span>", "80", "x", "a &amp; b", "x", "x", "yes"]).as_str()]);
    let rows = extract_rows(&html, ".table-responsive tbody tr", "td");
    assert_eq!(rows, Ok(vec![listing_row("<span>1.2.3.4</span>", "80", "a &amp; b", "yes")]));
}

#[test]
fn selector_that_cannot_be_parsed_is_a_parse_error() {
    let html = table(&[row(&["1.2.3.4", "8080", "x", "Canada", "x", "x", "yes"]).as_str()]);
    assert_eq!(extract_rows(&html, "tr[", "td"), Err(CrawlError::Parse));
    assert_eq!(extract_rows(&html, "tr", "td:::"), Err(CrawlError::Parse));
    assert_eq!(extract_rows(&html, "", "td"), Err(CrawlError::Parse));
    assert!(extract_rows(&html, "tr", "td").is_ok());
}

#[test]
fn document_too_long_for_the_parser_is_a_parse_error() {
    assert_eq!(MAX_DOCUMENT_CHARS, 0x3fff_ffff);
    let document = " ".repeat(MAX_DOCUMENT_CHARS + 1);
    assert_eq!(extract_rows(&document, "tr", "td"), Err(CrawlError::Parse));
    assert_eq!(parse_listing(&document), Err(CrawlError::Parse));
    let outcome = Outcome::Response { status: 200, body: Some(document) };
    assert_eq!(fetch_proxies(&outcome), Err(CrawlError::Parse));
}

#[test]
fn rows_from_cells_keeps_rows_with_every_column() {
    let table = vec![
        cells(&["a", "b", "c", "d", "e", "f", "g"]),
        cells(&["a", "b", "c", "d", "e", "f"]),
        cells(&[]),
        cells(&["1", "2", "3", "4", "5", "6", "7", "8", "9"]),
    ];
    assert_eq!(
        rows_from_cells(&table),
        vec![listing_row("a", "b", "d", "g"), listing_row("1", "2", "4", "7")]
    );
    assert_eq!(rows_from_cells(&Vec::new()), Vec::<ProxyListingRow>::new());
}

#[test]
fn column_positions_are_fixed() {
    assert_eq!(IP_COLUMN, 0);
    assert_eq!(PORT_COLUMN, 1);
    assert_eq!(COUNTRY_COLUMN, 3);
    assert_eq!(HTTPS_COLUMN, 6);
    assert_eq!(REQUIRED_CELLS, 7);
}

#[test]
fn listing_constants() {
    assert_eq!(LISTING_URL, "https://free-proxy-list.net/");
    assert_eq!(ROW_SELECTOR, ".table-responsive tbody tr");
    assert_eq!(CELL_SELECTOR, "td");
    assert_eq!(WANTED_COUNTRY, "Canada");
    assert_eq!(WANTED_FLAG, "yes");
}

#[test]
fn extract_rows_with_the_listing_selectors() {
    let html = table(&[row(&["1.2.3.4", "8080", "CA", "Canada", "elite", "no", "yes", "now"]).as_str()]);
    assert_eq!(
        extract_rows(&html, ROW_SELECTOR, CELL_SELECTOR),
        Ok(vec![listing_row("1.2.3.4", "8080", "Canada", "yes")])
    );
}

#[test]
fn select_proxies_filters_and_formats() {
    let rows = vec![
        listing_row("1.1.1.1", "80", "Canada", "yes"),
        listing_row("2.2.2.2", "80", "Canada", "no"),
        listing_row("3.3.3.3", "80", "France", "yes"),
        listing_row(" 4.4.4.4 ", " 8080\n", "Canada", "yes"),
        listing_row("", "", "Canada", "yes"),
    ];
    assert_eq!(
        select_proxies(&rows),
        vec!["1.1.1.1:80".to_string(), "4.4.4.4:8080".to_string(), ":".to_string()]
    );
    assert_eq!(select_proxies(&Vec::new()), Vec::<String>::new());
}

#[test]
fn row_knows_whether_it_is_wanted() {
    assert!(listing_row("1.1.1.1", "80", "Canada", "yes").is_wanted());
    assert!(!listing_row("1.1.1.1", "80", "Canada", "no").is_wanted());
    assert!(!listing_row("1.1.1.1", "80", "USA", "yes").is_wanted());
    assert!(!listing_row("1.1.1.1", "80", "CANADA", "yes").is_wanted());
    assert!(!listing_row("1.1.1.1", "80", "Canada ", "yes").is_wanted());
    assert!(!listing_row("1.1.1.1", "80", "", "").is_wanted());
}

#[test]
fn endpoint_joins_trimmed_address_and_port() {
    assert_eq!(listing_row("1.2.3.4", "8080", "x", "y").endpoint(), "1.2.3.4:8080");
    assert_eq!(listing_row("\u{a0}1.2.3.4\u{3000}", "\r\n8080 ", "x", "y").endpoint(), "1.2.3.4:8080");
    assert_eq!(listing_row("proxy host", "80 80", "x", "y").endpoint(), "proxy host:80 80");
    assert_eq!(listing_row("   ", "", "x", "y").endpoint(), ":");
}

#[test]
fn listing_request_is_a_plain_get_of_the_listing_page() {
    let request = listing_request();
    assert_eq!(request.url, "https://free-proxy-list.net/");
    assert_eq!(request.proxy_uri, None);
    assert_eq!(request.timeout_secs, None);
    assert!(request.read_body);
}

#[test]
fn fetch_proxies_reads_the_body_of_any_response() {
    let html = table(&[row(&["1.2.3.4", "8080", "x", "Canada", "x", "x", "yes"]).as_str()]);
    let ok = Outcome::Response { status: 200, body: Some(html.clone()) };
    assert_eq!(fetch_proxies(&ok), Ok(vec!["1.2.3.4:8080".to_string()]));
    let not_found = Outcome::Response { status: 404, body: Some(html) };
    assert_eq!(fetch_proxies(&not_found), Ok(vec!["1.2.3.4:8080".to_string()]));
    let empty = Outcome::Response { status: 200, body: Some(String::new()) };
    assert_eq!(fetch_proxies(&empty), Ok(Vec::<String>::new()));
}

#[test]
fn fetch_proxies_passes_a_failed_request_on() {
    assert_eq!(fetch_proxies(&Outcome::Failed), Err(CrawlError::Fetch));
    let unread = Outcome::Response { status: 200, body: None };
    assert_eq!(fetch_proxies(&unread), Err(CrawlError::Fetch));
}
