//! Where the three columns stand in the data, and how a record becomes a row.

use vstd::prelude::*;
use vstd::string::*;
use crate::error::{Column, CsvError, CsvErrorView};
use crate::number::{number_of, parse_number};
use crate::record::{Row, RowView};
use crate::text::same_text;
use crate::reader::texts;

verus! {

/// The places of the columns, as the header line gives them.
#[derive(Clone, Copy, Debug, PartialEq, Eq)]
pub struct Layout {
    /// How many columns the header line has.
    pub width: usize,
    /// The index of the column named `Country`.
    pub country: usize,
    /// The index of the column named `City`.
    pub city: usize,
    /// The index of the column named `Population`, if there is one.
    pub population: Option<usize>,
}

/// The column that a header cell names, if it names one.
pub open spec fn column_named(name: Seq<char>) -> Option<Column> {
    if name == Column::Country.name() {
        Some(Column::Country)
    } else if name == Column::City.name() {
        Some(Column::City)
    } else if name == Column::Population.name() {
        Some(Column::Population)
    } else {
        None
    }
}

/// Whether cell `j` of the header names a column that an earlier cell has
/// named already.
pub open spec fn repeats(header: Seq<Seq<char>>, j: int) -> bool {
    &&& 0 <= j < header.len()
    &&& column_named(header[j]) is Some
    &&& exists|i: int| 0 <= i < j && #[trigger] header[i] == header[j]
}

/// Whether `j` is the first cell of the header that repeats a column.
pub open spec fn first_repeat(header: Seq<Seq<char>>, j: int) -> bool {
    repeats(header, j) && forall|k: int| 0 <= k < j ==> !repeats(header, k)
}

/// The index of the cell of the header that names `column`, if one does.
pub open spec fn place_of(header: Seq<Seq<char>>, column: Column) -> Option<usize> {
    if header.contains(column.name()) {
        Some(header.index_of(column.name()) as usize)
    } else {
        None
    }
}

/// The layout that a header line gives.
///
/// The first cell that names a column a second time makes the header
/// unusable. So does a header that names no country or no city column, the
/// country being looked for first. No population column is needed: every
/// row is then without a population.
pub open spec fn layout_of(header: Seq<Seq<char>>) -> Result<Layout, CsvErrorView> {
    if exists|j: int| repeats(header, j) {
        let j = choose|j: int| first_repeat(header, j);
        Err(CsvErrorView::DuplicateField(column_named(header[j])->0))
    } else if place_of(header, Column::Country) is None {
        Err(CsvErrorView::MissingField(Column::Country))
    } else if place_of(header, Column::City) is None {
        Err(CsvErrorView::MissingField(Column::City))
    } else {
        Ok(
            Layout {
                width: header.len() as usize,
                country: place_of(header, Column::Country)->0,
                city: place_of(header, Column::City)->0,
                population: place_of(header, Column::Population),
            },
        )
    }
}

/// The three column names differ from each other.
pub proof fn lemma_names_differ()
    ensures
        Column::Country.name() != Column::City.name(),
        Column::Country.name() != Column::Population.name(),
        Column::City.name() != Column::Population.name(),
{
    reveal_strlit("Country");
    reveal_strlit("City");
    reveal_strlit("Population");
    assert(Column::Country.name().len() == 7);
    assert(Column::City.name().len() == 4);
    assert(Column::Population.name().len() == 10);
}

/// Which column a header cell names.
fn column_of(name: &str) -> (column: Option<Column>)
    ensures
        column == column_named(name@),
{
    if same_text(name, "Country") {
        Some(Column::Country)
    } else if same_text(name, "City") {
        Some(Column::City)
    } else if same_text(name, "Population") {
        Some(Column::Population)
    } else {
        None
    }
}

/// What a scan of the first `n` cells of the header has found for `column`:
/// the one cell that names it, or that none does.
spec fn found_in(header: Seq<Seq<char>>, n: int, column: Column, place: Option<usize>) -> bool {
    match place {
        Some(p) => p < n && header[p as int] == column.name(),
        None => forall|i: int| 0 <= i < n ==> #[trigger] header[i] != column.name(),
    }
}

/// In a header without repeats, the cell found for a column is the one that
/// `place_of` names.
proof fn lemma_found_is_place(header: Seq<Seq<char>>, column: Column, place: Option<usize>)
    requires
        header.len() <= usize::MAX,
        forall|j: int| 0 <= j < header.len() ==> !repeats(header, j),
        found_in(header, header.len() as int, column, place),
    ensures
        place_of(header, column) == place,
{
    lemma_names_differ();
    match place {
        Some(p) => {
            assert(header[p as int] == column.name());
            assert(header.contains(column.name()));
            let q = header.index_of(column.name());
            assert(column_named(column.name()) is Some);
            if q < p {
                assert(repeats(header, p as int));
            } else if p < q {
                assert(repeats(header, q));
            }
        },
        None => {
            if header.contains(column.name()) {
                let q = choose|i: int| 0 <= i < header.len() && header[i] == column.name();
                assert(header[q] != column.name());
            }
        },
    }
}

impl Layout {
    /// Finds the three columns in the header line.
    ///
    /// A column is found by its exact name. The header is refused where a
    /// cell names a column for the second time, and where no cell names the
    /// country or the city.
    pub fn locate(header: &Vec<String>) -> (found: Result<Layout, CsvError>)
        ensures
            match found {
                Ok(layout) => layout_of(texts(header@)) == Ok::<Layout, CsvErrorView>(layout),
                Err(error) => layout_of(texts(header@)) == Err::<Layout, CsvErrorView>(error@),
            },
    {
        let ghost names = texts(header@);
        let mut country: Option<usize> = None;
        let mut city: Option<usize> = None;
        let mut population: Option<usize> = None;
        let mut i: usize = 0;
        proof {
            lemma_names_differ();
        }
        while i < header.len()
            invariant
                i <= header.len(),
                names == texts(header@),
                forall|j: int| 0 <= j < i ==> !repeats(names, j),
                found_in(names, i as int, Column::Country, country),
                found_in(names, i as int, Column::City, city),
                found_in(names, i as int, Column::Population, population),
                Column::Country.name() != Column::City.name(),
                Column::Country.name() != Column::Population.name(),
                Column::City.name() != Column::Population.name(),
            decreases header.len() - i,
        {
            assert(names[i as int] == header@[i as int]@);
            let named = column_of(header[i].as_str());
            let seen = match named {
                Some(Column::Country) => country,
                Some(Column::City) => city,
                Some(Column::Population) => population,
                None => None,
            };
            if let Some(column) = named {
                if let Some(before) = seen {
                    proof {
                        assert(names[before as int] == names[i as int]);
                        assert(repeats(names, i as int));
                        assert(first_repeat(names, i as int));
                        let j = choose|j: int| first_repeat(names, j);
                        assert(j == i);
                    }
                    return Err(CsvError::DuplicateField(column));
                }
            }
            proof {
                if repeats(names, i as int) {
                    let e = choose|e: int| 0 <= e < i && #[trigger] names[e] == names[i as int];
                    assert(names[e] == named->0.name());
                }
            }
            match named {
                Some(Column::Country) => {
                    country = Some(i);
                },
                Some(Column::City) => {
                    city = Some(i);
                },
                Some(Column::Population) => {
                    population = Some(i);
                },
                None => {},
            }
            i += 1;
        }
        proof {
            assert(!(exists|j: int| repeats(names, j)));
            lemma_found_is_place(names, Column::Country, country);
            lemma_found_is_place(names, Column::City, city);
            lemma_found_is_place(names, Column::Population, population);
        }
        match (country, city) {
            (None, _) => Err(CsvError::MissingField(Column::Country)),
            (Some(_), None) => Err(CsvError::MissingField(Column::City)),
            (Some(country), Some(city)) => Ok(
                Layout { width: header.len(), country, city, population },
            ),
        }
    }

    /// How many cells a record needs for this layout: as many as the header
    /// has, and enough to hold each of the three columns.
    pub open spec fn reach(self) -> int {
        let most = if self.country >= self.city {
            self.country
        } else {
            self.city
        };
        let most = match self.population {
            Some(p) if p > most => p,
            _ => most,
        };
        if self.width > most {
            self.width as int
        } else {
            most + 1
        }
    }

    /// The row that the cells of one record give: the country and the city
    /// as they stand, and the number in the population cell, if there is a
    /// population column and the cell holds a number. A record with too few
    /// cells gives no row.
    pub open spec fn row_of(self, cells: Seq<Seq<char>>) -> Result<RowView, CsvErrorView> {
        if cells.len() < self.reach() {
            Err(CsvErrorView::EndOfRow)
        } else {
            Ok(
                RowView {
                    country: cells[self.country as int],
                    city: cells[self.city as int],
                    population: match self.population {
                        Some(p) => number_of(cells[p as int]),
                        None => None,
                    },
                },
            )
        }
    }

    /// Decodes the cells of one record into a row.
    ///
    /// An empty population cell, or one that holds no number, leaves the
    /// population unknown; it is no failure. The one failure is a record
    /// with fewer cells than the layout asks for.
    pub fn read(&self, cells: &Vec<String>) -> (row: Result<Row, CsvError>)
        ensures
            match row {
                Ok(row) => self.row_of(texts(cells@)) == Ok::<RowView, CsvErrorView>(row@),
                Err(error) => self.row_of(texts(cells@)) == Err::<RowView, CsvErrorView>(error@),
            },
    {
        let n = cells.len();
        let short = n < self.width || n <= self.country || n <= self.city || match self.population {
            Some(p) => n <= p,
            None => false,
        };
        if short {
            return Err(CsvError::EndOfRow);
        }
        let population = match self.population {
            Some(p) => {
                assert(texts(cells@)[p as int] == cells@[p as int]@);
                parse_number(cells[p].as_str())
            },
            None => None,
        };
        assert(texts(cells@)[self.country as int] == cells@[self.country as int]@);
        assert(texts(cells@)[self.city as int] == cells@[self.city as int]@);
        Ok(Row { country: cells[self.country].clone(), city: cells[self.city].clone(), population })
    }
}

} // verus!
