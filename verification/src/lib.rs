//! Looks up the population records of one city in CSV data.
//!
//! The data is read record by record with the `csv` crate; which columns hold
//! the country, the city and the population, how a population cell is read,
//! which rows are kept and how the outcome is reported are decided here, and
//! every one of those decisions carries a contract.

pub mod decode;
pub mod error;
pub mod laws;
pub mod layout;
pub mod number;
pub mod reader;
pub mod record;
pub mod report;
pub mod search;
pub mod text;
