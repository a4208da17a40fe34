//! The search itself: which rows are kept, and what comes of the data as a
//! whole.

use vstd::prelude::*;
use crate::decode::{decode, rows_of};
use crate::error::{CliError, CliErrorView};
use crate::laws::law_every_record_matches;
use crate::reader::{records_of, Reading};
use crate::record::{data_views, row_views, PopulationData, PopulationDataView, Row, RowView};

verus! {

/// The rule that keeps a row for `city`.
pub open spec fn keeper(city: Seq<char>) -> spec_fn(RowView) -> Option<PopulationDataView> {
    |row: RowView| row.selected(city)
}

/// The records that `rows` give for `city`: one for each row about that city
/// with a known population, in the order of the rows.
pub open spec fn matches_of(rows: Seq<RowView>, city: Seq<char>) -> Seq<PopulationDataView> {
    rows.filter_map(keeper(city))
}

/// What a search among `rows` gives: the matching records, or the failure
/// that there are none.
pub open spec fn chosen(rows: Seq<RowView>, city: Seq<char>) -> Result<
    Seq<PopulationDataView>,
    CliErrorView,
> {
    if matches_of(rows, city).len() == 0 {
        Err(CliErrorView::NotFound)
    } else {
        Ok(matches_of(rows, city))
    }
}

/// What a search gives on data with these readings: the failure of the
/// decoding where it fails, and what the search among its rows gives
/// otherwise.
pub open spec fn found(records: Seq<Reading>, city: Seq<char>) -> Result<
    Seq<PopulationDataView>,
    CliErrorView,
> {
    match rows_of(records) {
        Err(error) => Err(CliErrorView::Csv(error)),
        Ok(rows) => chosen(rows, city),
    }
}

/// The outcome of a search with its text as characters.
pub open spec fn outcome_view(outcome: Result<Vec<PopulationData>, CliError>) -> Result<
    Seq<PopulationDataView>,
    CliErrorView,
> {
    match outcome {
        Ok(records) => Ok(data_views(records@)),
        Err(error) => Err(error@),
    }
}

/// Picks the rows about `city` whose population is known.
///
/// The city is compared character for character. The records come in the
/// order of the rows, one for each matching row, none left out and none
/// twice. Where no row matches, the search fails with `NotFound`.
pub fn select(rows: &Vec<Row>, city: &str) -> (outcome: Result<Vec<PopulationData>, CliError>)
    ensures
        outcome_view(outcome) == chosen(row_views(rows@), city@),
        outcome matches Ok(records) ==> records.len() > 0 && forall|k: int|
            0 <= k < records.len() ==> (#[trigger] records@[k]).city@ == city@,
{
    let ghost all = row_views(rows@);
    let mut kept: Vec<PopulationData> = Vec::new();
    let mut i: usize = 0;
    assert(data_views(kept@) =~= matches_of(all.take(0), city@));
    while i < rows.len()
        invariant
            i <= rows.len(),
            all == row_views(rows@),
            data_views(kept@) == matches_of(all.take(i as int), city@),
        decreases rows.len() - i,
    {
        let ghost before = data_views(kept@);
        proof {
            all.lemma_filter_map_take_succ(keeper(city@), i as int);
            assert(all[i as int] == rows@[i as int]@);
        }
        match rows[i].select(city) {
            Some(data) => {
                kept.push(data);
                assert(data_views(kept@) =~= before + seq![data@]);
            },
            None => {
                assert(before + Seq::<PopulationDataView>::empty() =~= before);
            },
        }
        i += 1;
    }
    assert(all.take(i as int) =~= all);
    assert forall|k: int| 0 <= k < kept.len() implies (#[trigger] kept@[k]).city@ == city@ by {
        law_every_record_matches(all, city@, k);
        assert(data_views(kept@)[k] == kept@[k]@);
    }
    if kept.is_empty() {
        Err(CliError::NotFound)
    } else {
        Ok(kept)
    }
}

/// Looks `city` up in CSV data.
///
/// The data is decoded into rows, and the rows about `city` with a known
/// population are given back in the order of the data. Data that cannot be
/// decoded fails with the decoding's failure and gives no record; data
/// without a matching row fails with `NotFound`.
pub fn search(data: &[u8], city: &str) -> (outcome: Result<Vec<PopulationData>, CliError>)
    ensures
        outcome_view(outcome) == found(records_of(data@), city@),
        outcome matches Ok(records) ==> records.len() > 0 && forall|k: int|
            0 <= k < records.len() ==> (#[trigger] records@[k]).city@ == city@,
        outcome matches Err(error) ==> error@ is Csv || error@ is NotFound,
{
    match decode(data) {
        Ok(rows) => select(&rows, city),
        Err(error) => Err(error),
    }
}

} // verus!
