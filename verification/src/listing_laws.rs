//! What holds of every listing: which rows of a page are listed, how
//! often and in which order.
//!
//! The first part speaks of a table of cells, the second of the
//! acquisition as a whole: of the outcome of the listing request and of
//! what [`fetch_proxies`](crate::proxy_list::fetch_proxies) makes of it.

use crate::client::Outcome;
use crate::error::CrawlError;
use crate::proxy_list::acquired;
use crate::proxy_list::body_of;
use crate::proxy_list::endpoint_of;
use crate::proxy_list::endpoint_of_cells;
use crate::proxy_list::endpoints;
use crate::proxy_list::extracted_rows;
use crate::proxy_list::has_listing_columns;
use crate::proxy_list::is_wanted;
use crate::proxy_list::lemma_endpoints_push;
use crate::proxy_list::lemma_extracted_rows_push;
use crate::proxy_list::lemma_filter_map_push;
use crate::proxy_list::listed_endpoints;
use crate::proxy_list::listing_readable;
use crate::proxy_list::listing_table;
use crate::proxy_list::qualifies;
use crate::proxy_list::row_of_cells;
use crate::proxy_list::RowView;
use crate::proxy_list::REQUIRED_CELLS;
use crate::proxy_list::WANTED_COUNTRY;
use crate::proxy_list::WANTED_FLAG;
use vstd::prelude::*;

verus! {

/// Filtering and then mapping a concatenation is the concatenation of the
/// parts filtered and mapped.
proof fn lemma_filter_map_add<A, B>(
    a: Seq<A>,
    b: Seq<A>,
    keep: spec_fn(A) -> bool,
    f: spec_fn(A) -> B,
)
    ensures
        (a + b).filter(keep).map_values(f) == a.filter(keep).map_values(f) + b.filter(
            keep,
        ).map_values(f),
{
    Seq::filter_distributes_over_add(a, b, keep);
    assert((a.filter(keep) + b.filter(keep)).map_values(f) =~= a.filter(keep).map_values(f)
        + b.filter(keep).map_values(f));
}

/// An empty table lists nothing.
proof fn lemma_listed_endpoints_empty()
    ensures
        listed_endpoints(Seq::<Seq<Seq<char>>>::empty()) == Seq::<Seq<char>>::empty(),
{
    reveal(Seq::filter);
    assert(extracted_rows(Seq::<Seq<Seq<char>>>::empty()) =~= Seq::<RowView>::empty());
    assert(endpoints(Seq::<RowView>::empty()) =~= Seq::<Seq<char>>::empty());
}

/// A row of cells at the end of a table adds its endpoint at the end of
/// the listing where it qualifies, and nothing otherwise.
proof fn lemma_listed_endpoints_push(table: Seq<Seq<Seq<char>>>, cells: Seq<Seq<char>>)
    ensures
        listed_endpoints(table.push(cells)) == if qualifies(cells) {
            listed_endpoints(table).push(endpoint_of_cells(cells))
        } else {
            listed_endpoints(table)
        },
{
    lemma_extracted_rows_push(table, cells);
    if has_listing_columns(cells) {
        lemma_endpoints_push(extracted_rows(table), row_of_cells(cells));
    }
}

/// What two tables list one after the other is what the two list as one
/// table.
proof fn lemma_listed_endpoints_add(a: Seq<Seq<Seq<char>>>, b: Seq<Seq<Seq<char>>>)
    ensures
        listed_endpoints(a + b) == listed_endpoints(a) + listed_endpoints(b),
{
    lemma_filter_map_add(
        a,
        b,
        |cells: Seq<Seq<char>>| has_listing_columns(cells),
        |cells: Seq<Seq<char>>| row_of_cells(cells),
    );
    lemma_filter_map_add(
        extracted_rows(a),
        extracted_rows(b),
        |row: RowView| is_wanted(row),
        |row: RowView| endpoint_of(row),
    );
}

/// What a table of one row lists: the endpoint of the row where it
/// qualifies, and nothing otherwise.
proof fn lemma_listed_endpoints_single(cells: Seq<Seq<char>>)
    ensures
        listed_endpoints(seq![cells]) == if qualifies(cells) {
            seq![endpoint_of_cells(cells)]
        } else {
            Seq::<Seq<char>>::empty()
        },
{
    let none = Seq::<Seq<Seq<char>>>::empty();
    assert(seq![cells] =~= none.push(cells));
    lemma_listed_endpoints_empty();
    lemma_listed_endpoints_push(none, cells);
    if qualifies(cells) {
        assert(Seq::<Seq<char>>::empty().push(endpoint_of_cells(cells)) =~= seq![
            endpoint_of_cells(cells),
        ]);
    }
}

/// The endpoints that a table lists are those of its part before a row,
/// of the row alone and of its part after the row, in this order.
proof fn lemma_listed_endpoints_split(table: Seq<Seq<Seq<char>>>, i: int)
    requires
        0 <= i < table.len(),
    ensures
        listed_endpoints(table) == listed_endpoints(table.take(i)) + listed_endpoints(
            seq![table[i]],
        ) + listed_endpoints(table.skip(i + 1)),
{
    let before = table.take(i);
    let row = seq![table[i]];
    let after = table.skip(i + 1);
    assert(table =~= before + row + after);
    lemma_listed_endpoints_add(before + row, after);
    lemma_listed_endpoints_add(before, row);
}

/// A row that does not qualify can be taken out of a table without a
/// change to what the table lists.
proof fn lemma_listed_endpoints_remove(table: Seq<Seq<Seq<char>>>, i: int)
    requires
        0 <= i < table.len(),
        !qualifies(table[i]),
    ensures
        listed_endpoints(table) == listed_endpoints(table.remove(i)),
        listed_endpoints(table) == listed_endpoints(table.take(i)) + listed_endpoints(
            table.skip(i + 1),
        ),
{
    lemma_listed_endpoints_split(table, i);
    lemma_listed_endpoints_single(table[i]);
    let before = listed_endpoints(table.take(i));
    assert(before + Seq::<Seq<char>>::empty() =~= before);
    assert(table.remove(i) =~= table.take(i) + table.skip(i + 1));
    lemma_listed_endpoints_add(table.take(i), table.skip(i + 1));
}

/// A row that holds every column, with the country `Canada` and the HTTPS
/// flag `yes`, is listed exactly once and in its place: the listing is
/// what the rows before it list, then the endpoint of the row, then what
/// the rows after it list.
pub proof fn lemma_wanted_row_is_listed_once(table: Seq<Seq<Seq<char>>>, i: int)
    requires
        0 <= i < table.len(),
        has_listing_columns(table[i]),
        is_wanted(row_of_cells(table[i])),
    ensures
        listed_endpoints(table) == listed_endpoints(table.take(i)).push(
            endpoint_of_cells(table[i]),
        ) + listed_endpoints(table.skip(i + 1)),
        listed_endpoints(table.take(i)).len() < listed_endpoints(table).len(),
        listed_endpoints(table)[listed_endpoints(table.take(i)).len() as int]
            == endpoint_of_cells(table[i]),
        listed_endpoints(table).contains(endpoint_of_cells(table[i])),
{
    lemma_listed_endpoints_split(table, i);
    lemma_listed_endpoints_single(table[i]);
    let before = listed_endpoints(table.take(i));
    let endpoint = endpoint_of_cells(table[i]);
    assert(before + seq![endpoint] =~= before.push(endpoint));
    assert(listed_endpoints(table)[before.len() as int] == endpoint);
}

/// A row whose country is not `Canada` or whose HTTPS flag is not `yes`
/// is left out, whatever its other cells hold: the listing is that of the
/// table without the row.
pub proof fn lemma_unwanted_row_is_left_out(table: Seq<Seq<Seq<char>>>, i: int)
    requires
        0 <= i < table.len(),
        row_of_cells(table[i]).country != WANTED_COUNTRY@ || row_of_cells(
            table[i],
        ).https_capable != WANTED_FLAG@,
    ensures
        listed_endpoints(table) == listed_endpoints(table.remove(i)),
        listed_endpoints(table) == listed_endpoints(table.take(i)) + listed_endpoints(
            table.skip(i + 1),
        ),
{
    lemma_listed_endpoints_remove(table, i);
}

/// A row with fewer cells than the columns that are read is passed over,
/// whatever its cells hold, and the rows after it are still read: the
/// listing is that of the table without the row.
pub proof fn lemma_short_row_is_passed_over(table: Seq<Seq<Seq<char>>>, i: int)
    requires
        0 <= i < table.len(),
        table[i].len() < REQUIRED_CELLS,
    ensures
        listed_endpoints(table) == listed_endpoints(table.remove(i)),
        listed_endpoints(table) == listed_endpoints(table.take(i)) + listed_endpoints(
            table.skip(i + 1),
        ),
{
    lemma_listed_endpoints_remove(table, i);
}

/// The listing is the rows that qualify, each turned into its endpoint,
/// in the order of the table: it is not sorted, and an endpoint that
/// several rows yield is listed for each of them.
pub proof fn lemma_listing_is_qualifying_rows_in_order(table: Seq<Seq<Seq<char>>>)
    ensures
        listed_endpoints(table) == table.filter(
            |cells: Seq<Seq<char>>| qualifies(cells),
        ).map_values(|cells: Seq<Seq<char>>| endpoint_of_cells(cells)),
        listed_endpoints(table).len() == table.filter(
            |cells: Seq<Seq<char>>| qualifies(cells),
        ).len(),
    decreases table.len(),
{
    let keep = |cells: Seq<Seq<char>>| qualifies(cells);
    let name = |cells: Seq<Seq<char>>| endpoint_of_cells(cells);
    if table.len() == 0 {
        assert(table =~= Seq::<Seq<Seq<char>>>::empty());
        lemma_listed_endpoints_empty();
        assert(table.filter(keep).map_values(name) =~= Seq::<Seq<char>>::empty()) by {
            reveal(Seq::filter);
        }
    } else {
        let front = table.drop_last();
        assert(table =~= front.push(table.last()));
        lemma_listing_is_qualifying_rows_in_order(front);
        lemma_listed_endpoints_push(front, table.last());
        lemma_filter_map_push(front, table.last(), keep, name);
    }
}

/// The listing holds one endpoint for each row that qualifies and nothing
/// else, in the order of the rows. The result numbers the rows that are
/// listed: entry `k` of the listing is the endpoint of row `rows[k]`, the
/// numbers rise, and every row that qualifies is among them.
pub proof fn lemma_listing_enumerates_qualifying_rows(table: Seq<Seq<Seq<char>>>) -> (rows: Seq<
    int,
>)
    ensures
        rows.len() == listed_endpoints(table).len(),
        forall|k: int|
            0 <= k < rows.len() ==> 0 <= #[trigger] rows[k] < table.len() && qualifies(
                table[rows[k]],
            ) && listed_endpoints(table)[k] == endpoint_of_cells(table[rows[k]]),
        forall|j: int, k: int| 0 <= j < k < rows.len() ==> rows[j] < rows[k],
        forall|i: int| 0 <= i < table.len() && qualifies(#[trigger] table[i]) ==> rows.contains(i),
    decreases table.len(),
{
    if table.len() == 0 {
        assert(table =~= Seq::<Seq<Seq<char>>>::empty());
        lemma_listed_endpoints_empty();
        Seq::<int>::empty()
    } else {
        let front = table.drop_last();
        let last = table.len() - 1;
        assert(table =~= front.push(table[last]));
        let earlier = lemma_listing_enumerates_qualifying_rows(front);
        lemma_listed_endpoints_push(front, table[last]);
        assert forall|k: int| 0 <= k < earlier.len() implies table[#[trigger] earlier[k]]
            == front[earlier[k]] by {}
        if qualifies(table[last]) {
            let rows = earlier.push(last);
            assert forall|i: int| 0 <= i < table.len() && qualifies(
                #[trigger] table[i],
            ) implies rows.contains(i) by {
                if i < last {
                    assert(front[i] == table[i]);
                    let k = choose|k: int| 0 <= k < earlier.len() && earlier[k] == i;
                    assert(rows[k] == i);
                } else {
                    assert(rows[earlier.len() as int] == i);
                }
            }
            rows
        } else {
            assert forall|i: int| 0 <= i < table.len() && qualifies(
                #[trigger] table[i],
            ) implies earlier.contains(i) by {
                assert(front[i] == table[i]);
            }
            earlier
        }
    }
}

/// Where the rows that qualify yield different endpoints, no endpoint is
/// listed twice.
pub proof fn lemma_distinct_endpoints_are_listed_once(table: Seq<Seq<Seq<char>>>)
    requires
        forall|i: int, j: int|
            0 <= i < j < table.len() && qualifies(#[trigger] table[i]) && qualifies(
                #[trigger] table[j],
            ) ==> endpoint_of_cells(table[i]) != endpoint_of_cells(table[j]),
    ensures
        listed_endpoints(table).no_duplicates(),
{
    let rows = lemma_listing_enumerates_qualifying_rows(table);
    let listing = listed_endpoints(table);
    assert forall|j: int, k: int| 0 <= j < listing.len() && 0 <= k < listing.len() && j
        != k implies listing[j] != listing[k] by {
        if j < k {
            assert(rows[j] < rows[k]);
        } else {
            assert(rows[k] < rows[j]);
        }
    }
}

/// Whether the acquisition has a page to read: the outcome carries a body
/// that is short enough for the parser, and the two selectors of the
/// listing table parse.
pub open spec fn acquirable(outcome: Outcome) -> bool {
    body_of(outcome) is Some && listing_readable(body_of(outcome).unwrap())
}

/// The table of cells that the body of an outcome holds.
pub open spec fn acquired_table(outcome: Outcome) -> Seq<Seq<Seq<char>>> {
    listing_table(body_of(outcome).unwrap())
}

/// An acquisition that has a page to read succeeds with what the table of
/// the page lists; without a body it fails with [`CrawlError::Fetch`].
pub proof fn lemma_acquired_is_the_listing_of_the_page(outcome: Outcome)
    ensures
        acquirable(outcome) ==> acquired(outcome) == Ok::<Seq<Seq<char>>, CrawlError>(
            listed_endpoints(acquired_table(outcome)),
        ),
        body_of(outcome) is None ==> acquired(outcome) == Err::<Seq<Seq<char>>, CrawlError>(
            CrawlError::Fetch,
        ),
        acquired(outcome) is Ok ==> acquirable(outcome),
{
}

/// The acquisition lists every row of the page that holds every column,
/// with the country `Canada` and the HTTPS flag `yes`: its result holds
/// the endpoint of the row, once for this row and in the place of the
/// row.
pub proof fn lemma_acquired_lists_wanted_row(outcome: Outcome, i: int)
    requires
        acquirable(outcome),
        0 <= i < acquired_table(outcome).len(),
        has_listing_columns(acquired_table(outcome)[i]),
        is_wanted(row_of_cells(acquired_table(outcome)[i])),
    ensures
        acquired(outcome) is Ok,
        acquired(outcome).unwrap().contains(endpoint_of_cells(acquired_table(outcome)[i])),
        acquired(outcome).unwrap() == listed_endpoints(acquired_table(outcome).take(i)).push(
            endpoint_of_cells(acquired_table(outcome)[i]),
        ) + listed_endpoints(acquired_table(outcome).skip(i + 1)),
{
    lemma_wanted_row_is_listed_once(acquired_table(outcome), i);
}

/// The acquisition lists one endpoint for each row of the page that
/// qualifies and nothing else, in the order of the rows: its result is
/// the rows that qualify, each turned into its endpoint; it has as many
/// entries as there are such rows, and it is neither sorted nor rid of
/// repetitions. The result of the proof numbers the rows that are listed,
/// as [`lemma_listing_enumerates_qualifying_rows`] does.
pub proof fn lemma_acquired_enumerates_qualifying_rows(outcome: Outcome) -> (rows: Seq<int>)
    requires
        acquirable(outcome),
    ensures
        acquired(outcome) is Ok,
        acquired(outcome).unwrap() == acquired_table(outcome).filter(
            |cells: Seq<Seq<char>>| qualifies(cells),
        ).map_values(|cells: Seq<Seq<char>>| endpoint_of_cells(cells)),
        acquired(outcome).unwrap().len() == acquired_table(outcome).filter(
            |cells: Seq<Seq<char>>| qualifies(cells),
        ).len(),
        rows.len() == acquired(outcome).unwrap().len(),
        forall|k: int|
            0 <= k < rows.len() ==> 0 <= #[trigger] rows[k] < acquired_table(outcome).len()
                && qualifies(acquired_table(outcome)[rows[k]]) && acquired(outcome).unwrap()[k]
                == endpoint_of_cells(acquired_table(outcome)[rows[k]]),
        forall|j: int, k: int| 0 <= j < k < rows.len() ==> rows[j] < rows[k],
        forall|i: int|
            0 <= i < acquired_table(outcome).len() && qualifies(
                #[trigger] acquired_table(outcome)[i],
            ) ==> rows.contains(i),
{
    lemma_listing_is_qualifying_rows_in_order(acquired_table(outcome));
    lemma_listing_enumerates_qualifying_rows(acquired_table(outcome))
}

/// Where the rows of the page that qualify yield different endpoints, the
/// acquisition lists each of them exactly once.
pub proof fn lemma_acquired_lists_distinct_endpoints_once(outcome: Outcome)
    requires
        acquirable(outcome),
        forall|i: int, j: int|
            0 <= i < j < acquired_table(outcome).len() && qualifies(
                #[trigger] acquired_table(outcome)[i],
            ) && qualifies(#[trigger] acquired_table(outcome)[j]) ==> endpoint_of_cells(
                acquired_table(outcome)[i],
            ) != endpoint_of_cells(acquired_table(outcome)[j]),
    ensures
        acquired(outcome) is Ok,
        acquired(outcome).unwrap().no_duplicates(),
{
    lemma_distinct_endpoints_are_listed_once(acquired_table(outcome));
}

/// A row of the page whose country is not `Canada`, or whose HTTPS flag
/// is not `yes`, yields nothing, whatever its other cells hold. The
/// comparison is letter for letter. The acquisition comes to what it
/// comes to for a page that holds the same rows without this one.
pub proof fn lemma_acquired_leaves_out_unwanted_row(outcome: Outcome, i: int, without: Outcome)
    requires
        acquirable(outcome),
        0 <= i < acquired_table(outcome).len(),
        row_of_cells(acquired_table(outcome)[i]).country != WANTED_COUNTRY@ || row_of_cells(
            acquired_table(outcome)[i],
        ).https_capable != WANTED_FLAG@,
        acquirable(without),
        acquired_table(without) == acquired_table(outcome).remove(i),
    ensures
        acquired(outcome) is Ok,
        acquired(outcome) == acquired(without),
        acquired(outcome).unwrap() == listed_endpoints(acquired_table(outcome).remove(i)),
{
    lemma_unwanted_row_is_left_out(acquired_table(outcome), i);
}

/// A row of the page with fewer cells than the columns that are read is
/// passed over, whatever its cells hold: it is no failure, and the rows
/// after it are still read. The acquisition comes to what it comes to for
/// a page that holds the same rows without this one.
pub proof fn lemma_acquired_passes_over_short_row(outcome: Outcome, i: int, without: Outcome)
    requires
        acquirable(outcome),
        0 <= i < acquired_table(outcome).len(),
        acquired_table(outcome)[i].len() < REQUIRED_CELLS,
        acquirable(without),
        acquired_table(without) == acquired_table(outcome).remove(i),
    ensures
        acquired(outcome) is Ok,
        acquired(outcome) == acquired(without),
        acquired(outcome).unwrap() == listed_endpoints(acquired_table(outcome).remove(i)),
{
    lemma_short_row_is_passed_over(acquired_table(outcome), i);
}

} // verus!
