//! Rows as they are decoded, and the records that a search gives back.

use vstd::prelude::*;
use vstd::string::*;
use crate::text::same_text;

verus! {

/// One decoded record of the data, before any filtering.
#[derive(Clone, Debug, PartialEq, Eq)]
pub struct Row {
    pub country: String,
    pub city: String,
    /// `None` where the population cell is empty or holds no number.
    pub population: Option<u64>,
}

/// A `Row` with its text as characters.
pub struct RowView {
    pub country: Seq<char>,
    pub city: Seq<char>,
    pub population: Option<u64>,
}

impl View for Row {
    type V = RowView;

    open spec fn view(&self) -> RowView {
        RowView { country: self.country@, city: self.city@, population: self.population }
    }
}

/// A row that passed the filter: its city is the one asked for and its
/// population is known.
#[derive(Clone, Debug, PartialEq, Eq)]
pub struct PopulationData {
    pub country: String,
    pub city: String,
    pub population: u64,
}

/// A `PopulationData` with its text as characters.
pub struct PopulationDataView {
    pub country: Seq<char>,
    pub city: Seq<char>,
    pub population: u64,
}

impl View for PopulationData {
    type V = PopulationDataView;

    open spec fn view(&self) -> PopulationDataView {
        PopulationDataView { country: self.country@, city: self.city@, population: self.population }
    }
}

impl RowView {
    /// The record that this row gives for `city`: one with the row's three
    /// values where the population is known and the city is exactly `city`,
    /// none otherwise.
    pub open spec fn selected(self, city: Seq<char>) -> Option<PopulationDataView> {
        match self.population {
            Some(population) if self.city == city => Some(
                PopulationDataView { country: self.country, city: self.city, population },
            ),
            _ => None,
        }
    }
}

impl Row {
    /// The record that this row gives for `city`, if it gives one: the
    /// population must be known and the city must be `city`, character for
    /// character.
    pub fn select(&self, city: &str) -> (found: Option<PopulationData>)
        ensures
            match found {
                Some(data) => self@.selected(city@) == Some(data@),
                None => self@.selected(city@) is None,
            },
    {
        match self.population {
            Some(population) => {
                if same_text(self.city.as_str(), city) {
                    Some(
                        PopulationData {
                            country: self.country.clone(),
                            city: self.city.clone(),
                            population,
                        },
                    )
                } else {
                    None
                }
            },
            None => None,
        }
    }
}

/// The view of each row of `rows`.
pub open spec fn row_views(rows: Seq<Row>) -> Seq<RowView> {
    rows.map_values(|row: Row| row@)
}

/// The view of each record of `found`.
pub open spec fn data_views(found: Seq<PopulationData>) -> Seq<PopulationDataView> {
    found.map_values(|data: PopulationData| data@)
}

} // verus!
