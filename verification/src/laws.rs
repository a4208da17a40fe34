//! What holds of every search, proved from the definitions.

use vstd::prelude::*;
use crate::decode::{gather, row_results, rows_of};
use crate::error::{CliError, CliErrorView, CsvErrorView};
use crate::layout::Layout;
use crate::reader::{records_of, Reading};
use crate::record::{PopulationData, PopulationDataView, RowView};
use crate::report::report_of;
use crate::search::{found, keeper, matches_of, outcome_view};

verus! {

/// The records of a single row: the row's own record, if it has one.
pub proof fn law_one_row(row: RowView, city: Seq<char>)
    ensures
        matches_of(seq![row], city) == match row.selected(city) {
            Some(data) => seq![data],
            None => Seq::empty(),
        },
{
    Seq::lemma_filter_map_singleton(row, keeper(city));
}

/// The records keep the order of the rows: the records of rows put one
/// after the other are the records of the first ones, then those of the
/// others.
pub proof fn law_matches_keep_order(first: Seq<RowView>, second: Seq<RowView>, city: Seq<char>)
    ensures
        matches_of(first + second, city) == matches_of(first, city) + matches_of(second, city),
    decreases second.len(),
{
    if second.len() == 0 {
        assert(first + second =~= first);
        assert(matches_of(first, city) + matches_of(second, city) =~= matches_of(first, city));
    } else {
        let all = first + second;
        assert(all.drop_last() =~= first + second.drop_last());
        assert(all.last() == second.last());
        law_matches_keep_order(first, second.drop_last(), city);
        match second.last().selected(city) {
            Some(data) => {
                assert(matches_of(all, city) =~= matches_of(first, city) + matches_of(
                    second,
                    city,
                ));
            },
            None => {},
        }
    }
}

/// Every record stands for a row about the city with a known population:
/// it holds that row's country, city and population, and its city is the
/// one asked for.
pub proof fn law_every_record_matches(rows: Seq<RowView>, city: Seq<char>, k: int)
    requires
        0 <= k < matches_of(rows, city).len(),
    ensures
        matches_of(rows, city)[k].city == city,
        exists|i: int|
            0 <= i < rows.len() && (#[trigger] rows[i]).selected(city) == Some(
                matches_of(rows, city)[k],
            ),
{
    let data = matches_of(rows, city)[k];
    assert(matches_of(rows, city).contains(data));
    rows.lemma_filter_map_contains(keeper(city), data);
    let row = choose|row: RowView| #[trigger] rows.contains(row) && keeper(city)(row) == Some(data);
    let i = choose|i: int| 0 <= i < rows.len() && rows[i] == row;
    assert(rows[i].selected(city) == Some(data));
}

/// Every row about the city with a known population has its record among
/// the records.
pub proof fn law_every_match_is_kept(rows: Seq<RowView>, city: Seq<char>, i: int)
    requires
        0 <= i < rows.len(),
        rows[i].population is Some,
        rows[i].city == city,
    ensures
        rows[i].selected(city) is Some,
        matches_of(rows, city).contains(rows[i].selected(city)->0),
    decreases rows.len(),
{
    let data = rows[i].selected(city)->0;
    let front = rows.drop_last();
    if i == rows.len() - 1 {
        let kept = matches_of(rows, city);
        assert(kept == matches_of(front, city) + seq![data]);
        assert(kept[kept.len() - 1] == data);
    } else {
        law_every_match_is_kept(front, city, i);
        let before = matches_of(front, city);
        let at = choose|at: int| 0 <= at < before.len() && before[at] == data;
        assert(matches_of(rows, city)[at] == data);
    }
}

/// Where the data decodes into rows and one of them is about the city with
/// a known population, the search gives exactly the records of the matching
/// rows, in the order of the data, and at least one.
pub proof fn law_found_gives_the_matches(
    records: Seq<Reading>,
    city: Seq<char>,
    rows: Seq<RowView>,
    i: int,
)
    requires
        rows_of(records) == Ok::<Seq<RowView>, CsvErrorView>(rows),
        0 <= i < rows.len(),
        rows[i].population is Some,
        rows[i].city == city,
    ensures
        found(records, city) == Ok::<Seq<PopulationDataView>, CliErrorView>(
            matches_of(rows, city),
        ),
        matches_of(rows, city).len() > 0,
{
    law_every_match_is_kept(rows, city, i);
}

/// Where the data decodes into rows and none of them is about the city
/// with a known population, the search fails with `NotFound`.
pub proof fn law_nothing_found(records: Seq<Reading>, city: Seq<char>, rows: Seq<RowView>)
    requires
        rows_of(records) == Ok::<Seq<RowView>, CsvErrorView>(rows),
        forall|i: int|
            0 <= i < rows.len() ==> !((#[trigger] rows[i]).population is Some && rows[i].city
                == city),
    ensures
        found(records, city) == Err::<Seq<PopulationDataView>, CliErrorView>(
            CliErrorView::NotFound,
        ),
{
    if matches_of(rows, city).len() > 0 {
        law_every_record_matches(rows, city, 0);
    }
}

/// A row whose population cell is empty decodes without failure, has no
/// population, and is kept for no city, not even its own.
pub proof fn law_empty_population_is_skipped(
    layout: Layout,
    cells: Seq<Seq<char>>,
    city: Seq<char>,
)
    requires
        cells.len() >= layout.reach(),
        layout.population is Some,
        cells[layout.population->0 as int].len() == 0,
    ensures
        layout.row_of(cells) is Ok,
        layout.row_of(cells)->Ok_0.population is None,
        layout.row_of(cells)->Ok_0.selected(city) is None,
        matches_of(seq![layout.row_of(cells)->Ok_0], city).len() == 0,
{
    law_one_row(layout.row_of(cells)->Ok_0, city);
}

/// Gathering gives rows exactly where every result is a row, and then each
/// row in its place; otherwise it gives the failure of the first result
/// that is one.
pub proof fn law_gather_all_or_first(results: Seq<Result<RowView, CsvErrorView>>)
    ensures
        match gather(results) {
            Ok(rows) => {
                &&& rows.len() == results.len()
                &&& forall|i: int|
                    0 <= i < results.len() ==> #[trigger] results[i] == Ok::<
                        RowView,
                        CsvErrorView,
                    >(rows[i])
            },
            Err(error) => exists|k: int|
                {
                    &&& 0 <= k < results.len()
                    &&& #[trigger] results[k] == Err::<RowView, CsvErrorView>(error)
                    &&& forall|i: int| 0 <= i < k ==> (#[trigger] results[i]) is Ok
                },
        },
    decreases results.len(),
{
    if results.len() > 0 {
        let front = results.drop_last();
        law_gather_all_or_first(front);
        match gather(front) {
            Ok(rows) => {
                match results.last() {
                    Ok(row) => {
                        assert forall|i: int| 0 <= i < results.len() implies #[trigger] results[i]
                            == Ok::<RowView, CsvErrorView>(rows.push(row)[i]) by {
                            if i < front.len() {
                                assert(front[i] == results[i]);
                            }
                        }
                    },
                    Err(error) => {
                        let k = results.len() - 1;
                        assert forall|i: int| 0 <= i < k implies (#[trigger] results[i]) is Ok by {
                            assert(front[i] == results[i]);
                        }
                        assert(results[k] == Err::<RowView, CsvErrorView>(error));
                    },
                }
            },
            Err(error) => {
                let k = choose|k: int|
                    {
                        &&& 0 <= k < front.len()
                        &&& #[trigger] front[k] == Err::<RowView, CsvErrorView>(error)
                        &&& forall|i: int| 0 <= i < k ==> (#[trigger] front[i]) is Ok
                    };
                assert(results[k] == front[k]);
                assert forall|i: int| 0 <= i < k implies (#[trigger] results[i]) is Ok by {
                    assert(front[i] == results[i]);
                }
            },
        }
    }
}

/// Data with a record that cannot be read gives no record: the search
/// fails, and its failure is of the CSV kind.
pub proof fn law_bad_record_fails(records: Seq<Reading>, city: Seq<char>, k: int)
    requires
        0 <= k < records.len(),
        records[k] is Err,
    ensures
        found(records, city) is Err,
        found(records, city)->Err_0 is Csv,
{
    if records[0] is Ok {
        let results = row_results(records);
        assert(results[k - 1] is Err) by {
            assert(records.skip(1)[k - 1] == records[k]);
        }
        law_gather_all_or_first(results);
    }
}

/// A search has one outcome for the same data and city: two outcomes that
/// both meet the contract of the search are the same, and so is what is
/// reported of them.
pub proof fn law_same_input_same_outcome(
    data: Seq<u8>,
    city: Seq<char>,
    quiet: bool,
    first: Result<Vec<PopulationData>, CliError>,
    second: Result<Vec<PopulationData>, CliError>,
)
    requires
        outcome_view(first) == found(records_of(data), city),
        outcome_view(second) == found(records_of(data), city),
    ensures
        outcome_view(first) == outcome_view(second),
        report_of(outcome_view(first), quiet) == report_of(outcome_view(second), quiet),
{
}

} // verus!
