//! The boundary to the `csv` crate: a reader over bytes in memory, and what it
//! hands out.
//!
//! Nothing in this file is proved. The two functions call into `csv`, and their
//! contracts say what the rest of the library relies on.

use vstd::prelude::*;

verus! {

/// The `csv` crate's reader. Its inside is not visible to the proofs.
#[verifier::external_type_specification]
#[verifier::external_body]
#[verifier::reject_recursive_types(R)]
pub struct ExReader<R>(csv::Reader<R>);

/// What reading one record gives: its cells, or the reader's diagnostic where
/// the record cannot be read.
pub type Reading = Result<Seq<Seq<char>>, Seq<char>>;

/// The readings that `csv` gives for `data`, one for each record from the
/// first line on, in the order of the input. The reader treats no line as a
/// header and asks every record for as many cells as the first one has.
pub uninterp spec fn records_of(data: Seq<u8>) -> Seq<Reading>;

/// The readings that `reader` has yet to hand out, next one first.
pub uninterp spec fn unread(reader: csv::Reader<&[u8]>) -> Seq<Reading>;

/// The characters of each string of `cells`.
pub open spec fn texts(cells: Seq<String>) -> Seq<Seq<char>> {
    cells.map_values(|cell: String| cell@)
}

/// Calls `csv::ReaderBuilder::from_reader` on a builder with the crate's
/// default settings, but for `has_headers(false)`, so that the header line is
/// handed out as a record like the others. The new reader has all of
/// `records_of(data)` still to hand out.
#[verifier::external_body]
pub(crate) fn open(data: &[u8]) -> (reader: csv::Reader<&[u8]>)
    ensures
        unread(reader) == records_of(data@),
{
    csv::ReaderBuilder::new().has_headers(false).from_reader(data)
}

/// Calls `csv::Reader::read_record` on a fresh `csv::StringRecord` and copies
/// out the record's cells, or the text of the error. The call takes the next
/// reading off the reader: `None` when there is none left, the cells of a
/// record that was read, or the diagnostic of one that could not be. Of the
/// reader after a failure nothing is said.
#[verifier::external_body]
pub(crate) fn next_record(reader: &mut csv::Reader<&[u8]>) -> (step: Result<
    Option<Vec<String>>,
    String,
>)
    ensures
        match step {
            Ok(None) => unread(*old(reader)).len() == 0 && unread(*final(reader)).len() == 0,
            Ok(Some(cells)) => unread(*old(reader)).len() > 0 && unread(*old(reader))[0] == Ok::<
                Seq<Seq<char>>,
                Seq<char>,
            >(texts(cells@)) && unread(*final(reader)) == unread(*old(reader)).skip(1),
            Err(why) => unread(*old(reader)).len() > 0 && unread(*old(reader))[0] == Err::<
                Seq<Seq<char>>,
                Seq<char>,
            >(why@),
        },
{
    let mut record = csv::StringRecord::new();
    match reader.read_record(&mut record) {
        Ok(true) => Ok(Some(record.iter().map(String::from).collect())),
        Ok(false) => Ok(None),
        Err(error) => Err(error.to_string()),
    }
}

} // verus!
