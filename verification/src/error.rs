//! What can go wrong in a search, and how it is worded.

use vstd::prelude::*;
use vstd::string::*;

verus! {

/// One of the three columns that a row is read from.
#[derive(Clone, Copy, Debug, PartialEq, Eq, Structural)]
pub enum Column {
    Country,
    City,
    Population,
}

impl Column {
    /// The name that the header line gives this column.
    pub open spec fn name(self) -> Seq<char> {
        match self {
            Column::Country => "Country"@,
            Column::City => "City"@,
            Column::Population => "Population"@,
        }
    }

    /// The name that the header line gives this column.
    pub fn title(self) -> (text: &'static str)
        ensures
            text@ == self.name(),
    {
        match self {
            Column::Country => "Country",
            Column::City => "City",
            Column::Population => "Population",
        }
    }
}

/// Why CSV data could not be decoded into rows.
#[derive(Clone, Debug, PartialEq, Eq)]
pub enum CsvError {
    /// The reader could not read a record; the text is its diagnostic.
    Syntax(String),
    /// No column of the header line has this name, and a row cannot do without.
    MissingField(Column),
    /// Two columns of the header line have this name.
    DuplicateField(Column),
    /// A record has fewer cells than the header line has columns.
    EndOfRow,
}

/// A `CsvError` with its text as characters.
pub enum CsvErrorView {
    Syntax(Seq<char>),
    MissingField(Column),
    DuplicateField(Column),
    EndOfRow,
}

impl View for CsvError {
    type V = CsvErrorView;

    open spec fn view(&self) -> CsvErrorView {
        match self {
            CsvError::Syntax(text) => CsvErrorView::Syntax(text@),
            CsvError::MissingField(column) => CsvErrorView::MissingField(*column),
            CsvError::DuplicateField(column) => CsvErrorView::DuplicateField(*column),
            CsvError::EndOfRow => CsvErrorView::EndOfRow,
        }
    }
}

impl CsvErrorView {
    /// The wording of this failure.
    pub open spec fn message(self) -> Seq<char> {
        match self {
            CsvErrorView::Syntax(text) => text,
            CsvErrorView::MissingField(column) => "CSV deserialize error: missing field `"@
                + column.name() + "`"@,
            CsvErrorView::DuplicateField(column) => "CSV deserialize error: duplicate field `"@
                + column.name() + "`"@,
            CsvErrorView::EndOfRow => "CSV deserialize error: expected field, but got end of row"@,
        }
    }
}

impl CsvError {
    /// A second value that says the same as this one.
    pub fn copy(&self) -> (same: CsvError)
        ensures
            same@ == self@,
    {
        match self {
            CsvError::Syntax(text) => CsvError::Syntax(text.clone()),
            CsvError::MissingField(column) => CsvError::MissingField(*column),
            CsvError::DuplicateField(column) => CsvError::DuplicateField(*column),
            CsvError::EndOfRow => CsvError::EndOfRow,
        }
    }

    /// The wording of this failure: the reader's own diagnostic, or a
    /// sentence that names the column at fault.
    pub fn message(&self) -> (text: String)
        ensures
            text@ == self@.message(),
    {
        match self {
            CsvError::Syntax(text) => text.clone(),
            CsvError::MissingField(column) => {
                let mut text = String::from_str("CSV deserialize error: missing field `");
                text.append(column.title());
                text.append("`");
                text
            },
            CsvError::DuplicateField(column) => {
                let mut text = String::from_str("CSV deserialize error: duplicate field `");
                text.append(column.title());
                text.append("`");
                text
            },
            CsvError::EndOfRow => String::from_str(
                "CSV deserialize error: expected field, but got end of row",
            ),
        }
    }
}

/// Why a search gave no records.
#[derive(Clone, Debug, PartialEq, Eq)]
pub enum CliError {
    /// The data could not be opened or read; the text is the system's
    /// description of the failure.
    Io(String),
    /// The data is not CSV that rows can be decoded from.
    Csv(CsvError),
    /// No row is about the city with a known population.
    NotFound,
}

/// A `CliError` with its text as characters.
pub enum CliErrorView {
    Io(Seq<char>),
    Csv(CsvErrorView),
    NotFound,
}

impl View for CliError {
    type V = CliErrorView;

    open spec fn view(&self) -> CliErrorView {
        match self {
            CliError::Io(text) => CliErrorView::Io(text@),
            CliError::Csv(error) => CliErrorView::Csv(error@),
            CliError::NotFound => CliErrorView::NotFound,
        }
    }
}

impl CliErrorView {
    /// The wording of this failure.
    pub open spec fn message(self) -> Seq<char> {
        match self {
            CliErrorView::Io(text) => text,
            CliErrorView::Csv(error) => error.message(),
            CliErrorView::NotFound => "No match found for given city"@,
        }
    }
}

impl CliError {
    /// The wording of this failure: the text of the I/O or CSV failure, or
    /// a fixed sentence where nothing was found.
    pub fn message(&self) -> (text: String)
        ensures
            text@ == self@.message(),
    {
        match self {
            CliError::Io(text) => text.clone(),
            CliError::Csv(error) => error.message(),
            CliError::NotFound => String::from_str("No match found for given city"),
        }
    }
}

} // verus!
