use city_pop::error::{CliError, Column, CsvError};
use city_pop::record::PopulationData;
use city_pop::report::{report, Report};
use city_pop::search::search;

fn data(country: &str, city: &str, population: u64) -> PopulationData {
    PopulationData { country: country.to_string(), city: city.to_string(), population }
}

#[test]
fn record_line_has_the_fixed_form() {
    assert_eq!(
        data("Japan", "Tokyo", 13960000).line(),
        "country=Japan, city=Tokyo, population=Some(13960000)"
    );
    assert_eq!(data("", "", 0).line(), "country=, city=, population=Some(0)");
    assert_eq!(
        data("Korea, Republic of", "Seoul", u64::MAX).line(),
        "country=Korea, Republic of, city=Seoul, population=Some(18446744073709551615)"
    );
}

#[test]
fn messages_are_worded() {
    assert_eq!(CliError::NotFound.message(), "No match found for given city");
    assert_eq!(CliError::Io("No such file or directory (os error 2)".to_string()).message(),
        "No such file or directory (os error 2)");
    assert_eq!(CliError::Csv(CsvError::Syntax("bad record".to_string())).message(), "bad record");
    assert_eq!(
        CliError::Csv(CsvError::MissingField(Column::City)).message(),
        "CSV deserialize error: missing field `City`"
    );
    assert_eq!(
        CsvError::MissingField(Column::Country).message(),
        "CSV deserialize error: missing field `Country`"
    );
    assert_eq!(
        CsvError::DuplicateField(Column::Population).message(),
        "CSV deserialize error: duplicate field `Population`"
    );
    assert_eq!(
        CsvError::EndOfRow.message(),
        "CSV deserialize error: expected field, but got end of row"
    );
}

#[test]
fn column_titles() {
    assert_eq!(Column::Country.title(), "Country");
    assert_eq!(Column::City.title(), "City");
    assert_eq!(Column::Population.title(), "Population");
}

#[test]
fn copy_says_the_same() {
    for error in [
        CsvError::Syntax("x".to_string()),
        CsvError::MissingField(Column::City),
        CsvError::DuplicateField(Column::Country),
        CsvError::EndOfRow,
    ] {
        assert_eq!(error.copy(), error);
    }
}

#[test]
fn success_is_reported_line_by_line() {
    let outcome = Ok(vec![data("Japan", "Tokyo", 13960000), data("US", "Tokyo", 5)]);
    let expected = Report {
        lines: vec![
            "country=Japan, city=Tokyo, population=Some(13960000)".to_string(),
            "country=US, city=Tokyo, population=Some(5)".to_string(),
        ],
        complaint: None,
        status: 0,
    };
    assert_eq!(report(&outcome, false), expected);
    assert_eq!(report(&outcome, true), expected);
}

#[test]
fn not_found_is_silent_when_quiet() {
    let outcome = Err(CliError::NotFound);
    assert_eq!(report(&outcome, true), Report { lines: vec![], complaint: None, status: 1 });
}

#[test]
fn not_found_is_complained_about_otherwise() {
    let outcome = Err(CliError::NotFound);
    assert_eq!(
        report(&outcome, false),
        Report {
            lines: vec![],
            complaint: Some(
                "Failed to execute program -- No match found for given city".to_string()
            ),
            status: 1,
        }
    );
}

#[test]
fn other_failures_are_complained_about_even_when_quiet() {
    for quiet in [false, true] {
        assert_eq!(
            report(&Err(CliError::Io("permission denied".to_string())), quiet),
            Report {
                lines: vec![],
                complaint: Some("Failed to execute program -- permission denied".to_string()),
                status: 1,
            }
        );
        assert_eq!(
            report(&Err(CliError::Csv(CsvError::MissingField(Column::City))), quiet),
            Report {
                lines: vec![],
                complaint: Some(
                    "Failed to execute program -- CSV deserialize error: missing field `City`"
                        .to_string()
                ),
                status: 1,
            }
        );
    }
}

#[test]
fn tokyo_from_data_to_report() {
    let text = "Country,City,Population\nJapan,Tokyo,13960000\nJapan,Osaka,\nUSA,Tokyo,\n";
    let said = report(&search(text.as_bytes(), "Tokyo"), false);
    assert_eq!(said.lines, vec!["country=Japan, city=Tokyo, population=Some(13960000)"]);
    assert_eq!(said.complaint, None);
    assert_eq!(said.status, 0);
}

#[test]
fn nagoya_from_data_to_report() {
    let text = "Country,City,Population\nJapan,Tokyo,13960000\nJapan,Osaka,\nUSA,Tokyo,\n";
    let quiet = report(&search(text.as_bytes(), "Nagoya"), true);
    assert_eq!(quiet, Report { lines: vec![], complaint: None, status: 1 });
    let loud = report(&search(text.as_bytes(), "Nagoya"), false);
    assert_eq!(loud.lines, Vec::<String>::new());
    assert_eq!(
        loud.complaint,
        Some("Failed to execute program -- No match found for given city".to_string())
    );
    assert_eq!(loud.status, 1);
}

#[test]
fn reporting_twice_gives_the_same() {
    let text = "Country,City,Population\nJapan,Tokyo,13960000\n";
    let first = report(&search(text.as_bytes(), "Tokyo"), false);
    let second = report(&search(text.as_bytes(), "Tokyo"), false);
    assert_eq!(first, second);
}
