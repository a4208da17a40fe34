use city_pop::decode::decode_record;
use city_pop::error::{Column, CsvError};
use city_pop::layout::Layout;
use city_pop::record::Row;

fn cells(texts: &[&str]) -> Vec<String> {
    texts.iter().map(|text| text.to_string()).collect()
}

#[test]
fn usual_header_is_located() {
    assert_eq!(
        Layout::locate(&cells(&["Country", "City", "Population"])),
        Ok(Layout { width: 3, country: 0, city: 1, population: Some(2) })
    );
}

#[test]
fn columns_may_stand_anywhere() {
    assert_eq!(
        Layout::locate(&cells(&["Population", "", "City", "Area", "Country"])),
        Ok(Layout { width: 5, country: 4, city: 2, population: Some(0) })
    );
    assert_eq!(
        Layout::locate(&cells(&["City", "Country"])),
        Ok(Layout { width: 2, country: 1, city: 0, population: None })
    );
}

#[test]
fn unknown_columns_may_repeat() {
    assert_eq!(
        Layout::locate(&cells(&["x", "Country", "x", "City", "x"])),
        Ok(Layout { width: 5, country: 1, city: 3, population: None })
    );
}

#[test]
fn missing_columns_are_named() {
    assert_eq!(Layout::locate(&cells(&[])), Err(CsvError::MissingField(Column::Country)));
    assert_eq!(
        Layout::locate(&cells(&["City", "Population"])),
        Err(CsvError::MissingField(Column::Country))
    );
    assert_eq!(
        Layout::locate(&cells(&["Country", "Population"])),
        Err(CsvError::MissingField(Column::City))
    );
    assert_eq!(
        Layout::locate(&cells(&["COUNTRY", "City", "Population"])),
        Err(CsvError::MissingField(Column::Country))
    );
    assert_eq!(
        Layout::locate(&cells(&["Country", " City", "Population"])),
        Err(CsvError::MissingField(Column::City))
    );
}

#[test]
fn first_repeated_column_is_named() {
    assert_eq!(
        Layout::locate(&cells(&["Country", "City", "Population", "Population", "City"])),
        Err(CsvError::DuplicateField(Column::Population))
    );
    assert_eq!(
        Layout::locate(&cells(&["Country", "Country"])),
        Err(CsvError::DuplicateField(Column::Country))
    );
    assert_eq!(
        Layout::locate(&cells(&["City", "x", "City"])),
        Err(CsvError::DuplicateField(Column::City))
    );
}

#[test]
fn record_is_read_by_the_layout() {
    let layout = Layout { width: 3, country: 0, city: 1, population: Some(2) };
    assert_eq!(
        layout.read(&cells(&["Japan", "Tokyo", "13960000"])),
        Ok(Row {
            country: "Japan".to_string(),
            city: "Tokyo".to_string(),
            population: Some(13960000)
        })
    );
    let turned = Layout { width: 3, country: 2, city: 1, population: Some(0) };
    assert_eq!(
        turned.read(&cells(&["0x10", "Tokyo", "Japan", "more"])),
        Ok(Row { country: "Japan".to_string(), city: "Tokyo".to_string(), population: Some(16) })
    );
}

#[test]
fn empty_population_cell_is_no_failure() {
    let layout = Layout { width: 3, country: 0, city: 1, population: Some(2) };
    let row = layout.read(&cells(&["USA", "Tokyo", ""]));
    assert_eq!(
        row,
        Ok(Row { country: "USA".to_string(), city: "Tokyo".to_string(), population: None })
    );
    assert_eq!(row.unwrap().select("Tokyo"), None);
}

#[test]
fn layout_without_population_column_reads_none() {
    let layout = Layout { width: 2, country: 0, city: 1, population: None };
    assert_eq!(
        layout.read(&cells(&["USA", "Tokyo"])),
        Ok(Row { country: "USA".to_string(), city: "Tokyo".to_string(), population: None })
    );
}

#[test]
fn short_record_is_refused() {
    let layout = Layout { width: 3, country: 0, city: 1, population: Some(2) };
    assert_eq!(layout.read(&cells(&["USA", "Tokyo"])), Err(CsvError::EndOfRow));
    assert_eq!(layout.read(&cells(&[])), Err(CsvError::EndOfRow));
    let wide = Layout { width: 4, country: 0, city: 1, population: None };
    assert_eq!(wide.read(&cells(&["USA", "Tokyo", "1"])), Err(CsvError::EndOfRow));
    let far = Layout { width: 1, country: 0, city: 5, population: None };
    assert_eq!(far.read(&cells(&["USA", "Tokyo", "1"])), Err(CsvError::EndOfRow));
    let farther = Layout { width: 1, country: 0, city: 0, population: Some(3) };
    assert_eq!(farther.read(&cells(&["USA", "Tokyo", "1"])), Err(CsvError::EndOfRow));
}

#[test]
fn record_after_the_header_is_decoded_in_three_steps() {
    let plan = Ok(Layout { width: 3, country: 0, city: 1, population: Some(2) });
    let fault = Err(CsvError::MissingField(Column::City));
    assert_eq!(
        decode_record(&plan, Ok(cells(&["Japan", "Tokyo", "7"]))),
        Ok(Row { country: "Japan".to_string(), city: "Tokyo".to_string(), population: Some(7) })
    );
    assert_eq!(decode_record(&plan, Ok(cells(&["Japan"]))), Err(CsvError::EndOfRow));
    assert_eq!(
        decode_record(&plan, Err("bad".to_string())),
        Err(CsvError::Syntax("bad".to_string()))
    );
    assert_eq!(
        decode_record(&fault, Ok(cells(&["Japan", "Tokyo", "7"]))),
        Err(CsvError::MissingField(Column::City))
    );
    assert_eq!(
        decode_record(&fault, Err("bad".to_string())),
        Err(CsvError::Syntax("bad".to_string()))
    );
}
