//! From CSV bytes to rows.

use vstd::prelude::*;
use crate::error::{CliError, CsvError, CsvErrorView};
use crate::layout::{layout_of, Layout};
use crate::reader::{next_record, open, records_of, texts, unread, Reading};
use crate::record::{row_views, Row, RowView};

verus! {

/// What one reading after the header gives: the reader's failure, the
/// header's fault, or the row that the layout reads from the cells.
pub open spec fn row_from(layout: Result<Layout, CsvErrorView>, reading: Reading) -> Result<
    RowView,
    CsvErrorView,
> {
    match reading {
        Err(why) => Err(CsvErrorView::Syntax(why)),
        Ok(cells) => match layout {
            Err(fault) => Err(fault),
            Ok(layout) => layout.row_of(cells),
        },
    }
}

/// All the rows, where every one of `results` is a row; the first failure
/// among them otherwise.
pub open spec fn gather(results: Seq<Result<RowView, CsvErrorView>>) -> Result<
    Seq<RowView>,
    CsvErrorView,
>
    decreases results.len(),
{
    if results.len() == 0 {
        Ok(Seq::empty())
    } else {
        match gather(results.drop_last()) {
            Err(error) => Err(error),
            Ok(rows) => match results.last() {
                Err(error) => Err(error),
                Ok(row) => Ok(rows.push(row)),
            },
        }
    }
}

/// What each reading after the header gives, in order.
pub open spec fn row_results(records: Seq<Reading>) -> Seq<Result<RowView, CsvErrorView>>
    recommends
        records.len() > 0,
        records[0] is Ok,
{
    records.skip(1).map_values(|reading: Reading| row_from(layout_of(records[0]->Ok_0), reading))
}

/// The rows that the readings of some data give.
///
/// The first reading is the header line, the others are one row each, in the
/// order of the data. Data without any record has no rows. A header that
/// cannot be read fails the decoding; a header that is at fault fails it at
/// the first record after it, if there is one.
pub open spec fn rows_of(records: Seq<Reading>) -> Result<Seq<RowView>, CsvErrorView> {
    if records.len() == 0 {
        Ok(Seq::empty())
    } else {
        match records[0] {
            Err(why) => Err(CsvErrorView::Syntax(why)),
            Ok(_) => gather(row_results(records)),
        }
    }
}

/// A failure among the first results is the failure of them all.
pub proof fn lemma_gather_stops(results: Seq<Result<RowView, CsvErrorView>>, n: int)
    requires
        0 <= n <= results.len(),
        gather(results.take(n)) is Err,
    ensures
        gather(results) == gather(results.take(n)),
    decreases results.len() - n,
{
    if n == results.len() {
        assert(results.take(n) =~= results);
    } else {
        let front = results.drop_last();
        assert(front.take(n) =~= results.take(n));
        lemma_gather_stops(front, n);
    }
}

/// A layout, or the fault of the header, with its text as characters.
pub open spec fn plan_view(plan: Result<Layout, CsvError>) -> Result<Layout, CsvErrorView> {
    match plan {
        Ok(layout) => Ok(layout),
        Err(fault) => Err(fault@),
    }
}

/// What the reader gave for one record, with its text as characters.
pub open spec fn reading_view(reading: Result<Vec<String>, String>) -> Reading {
    match reading {
        Ok(cells) => Ok(texts(cells@)),
        Err(why) => Err(why@),
    }
}

/// Decodes what the reader gave for one record after the header.
///
/// A record that the reader could not read fails with the reader's
/// diagnostic. One that was read fails with the fault of the header, if the
/// header has one, and is decoded by the layout otherwise.
pub fn decode_record(plan: &Result<Layout, CsvError>, reading: Result<Vec<String>, String>) -> (row:
    Result<Row, CsvError>)
    ensures
        match row {
            Ok(row) => row_from(plan_view(*plan), reading_view(reading)) == Ok::<
                RowView,
                CsvErrorView,
            >(row@),
            Err(error) => row_from(plan_view(*plan), reading_view(reading)) == Err::<
                RowView,
                CsvErrorView,
            >(error@),
        },
{
    match reading {
        Err(why) => Err(CsvError::Syntax(why)),
        Ok(cells) => match plan {
            Err(fault) => Err(fault.copy()),
            Ok(layout) => layout.read(&cells),
        },
    }
}

/// Decodes CSV data into rows.
///
/// The data is read record by record. The first record is the header line,
/// which says where the country, the city and the population stand. Each
/// record after it gives one row, in the order of the data. The first record
/// that cannot be read or decoded ends the decoding with its failure, and no
/// row is given.
pub fn decode(data: &[u8]) -> (decoded: Result<Vec<Row>, CliError>)
    ensures
        match decoded {
            Ok(rows) => rows_of(records_of(data@)) == Ok::<Seq<RowView>, CsvErrorView>(
                row_views(rows@),
            ),
            Err(error) => error@ is Csv && rows_of(records_of(data@)) == Err::<
                Seq<RowView>,
                CsvErrorView,
            >(error@->Csv_0),
        },
{
    let ghost records = records_of(data@);
    let mut reader = open(data);
    let mut rows: Vec<Row> = Vec::new();
    let header = match next_record(&mut reader) {
        Ok(Some(header)) => header,
        Ok(None) => {
            assert(row_views(rows@) =~= Seq::<RowView>::empty());
            return Ok(rows);
        },
        Err(why) => {
            return Err(CliError::Csv(CsvError::Syntax(why)));
        },
    };
    let plan = Layout::locate(&header);
    let ghost results = row_results(records);
    proof {
        assert(records.skip(1).skip(0) =~= records.skip(1));
        assert(results.take(0) =~= Seq::<Result<RowView, CsvErrorView>>::empty());
        assert(row_views(rows@) =~= Seq::<RowView>::empty());
    }
    loop
        invariant
            records == records_of(data@),
            records.len() > 0,
            records[0] is Ok,
            plan_view(plan) == layout_of(records[0]->Ok_0),
            results == row_results(records),
            rows.len() + 1 <= records.len(),
            unread(reader) == records.skip(1 + rows.len()),
            gather(results.take(rows.len() as int)) == Ok::<Seq<RowView>, CsvErrorView>(
                row_views(rows@),
            ),
        decreases unread(reader).len(),
    {
        let ghost n = rows.len() as int;
        let ghost before = row_views(rows@);
        let reading = match next_record(&mut reader) {
            Ok(Some(cells)) => Ok(cells),
            Ok(None) => {
                assert(results.take(n) =~= results);
                return Ok(rows);
            },
            Err(why) => Err(why),
        };
        proof {
            assert(records.skip(1 + n)[0] == records[1 + n]);
            assert(reading_view(reading) == records[1 + n]);
            assert(results[n] == row_from(plan_view(plan), records[1 + n]));
            assert(results.take(n + 1).drop_last() =~= results.take(n));
            assert(results.take(n + 1).last() == results[n]);
        }
        match decode_record(&plan, reading) {
            Ok(row) => {
                proof {
                    assert(records.skip(1 + n).skip(1) =~= records.skip(2 + n));
                }
                rows.push(row);
                assert(row_views(rows@) =~= before.push(row@));
            },
            Err(error) => {
                proof {
                    lemma_gather_stops(results, n + 1);
                }
                return Err(CliError::Csv(error));
            },
        }
    }
}

} // verus!
