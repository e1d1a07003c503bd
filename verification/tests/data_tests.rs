use lightspeedvalidator::data::{CsvImporter, DataFormat, ImportError, RawMeasurement};

fn texts(measurements: &[RawMeasurement]) -> Vec<(String, String, String)> {
    measurements
        .iter()
        .map(|m| (m.energy.clone(), m.arrival_time.clone(), m.error.clone()))
        .collect()
}

fn triple(a: &str, b: &str, c: &str) -> (String, String, String) {
    (a.to_string(), b.to_string(), c.to_string())
}

#[test]
fn every_record_is_a_measurement() {
    let data = b"100,1234567890.123,0.001\n200,1234567891.456,0.002\n500,1234567893.789,0.003\n";
    let import = CsvImporter.load_from_bytes(data);
    assert!(import.failure.is_none());
    assert_eq!(
        texts(&import.measurements),
        vec![
            triple("100", "1234567890.123", "0.001"),
            triple("200", "1234567891.456", "0.002"),
            triple("500", "1234567893.789", "0.003"),
        ]
    );
}

#[test]
fn missing_fields_are_zero() {
    let import = CsvImporter.load_from_bytes(b"100,12.5\n200,13.5\n");
    assert!(import.failure.is_none());
    assert_eq!(texts(&import.measurements), vec![triple("100", "12.5", "0"), triple("200", "13.5", "0")]);

    let import = CsvImporter.load_from_bytes(b"7\n");
    assert_eq!(texts(&import.measurements), vec![triple("7", "0", "0")]);
}

#[test]
fn further_fields_are_not_read() {
    let import = CsvImporter.load_from_bytes(b"1,2,3,4,5\n");
    assert!(import.failure.is_none());
    assert_eq!(texts(&import.measurements), vec![triple("1", "2", "3")]);
}

#[test]
fn quoted_fields_are_unquoted() {
    let import = CsvImporter.load_from_bytes(b"\"1,5\",\"2\"\"\",3\r\n");
    assert!(import.failure.is_none());
    assert_eq!(texts(&import.measurements), vec![triple("1,5", "2\"", "3")]);
}

#[test]
fn empty_data_has_no_measurements() {
    let import = CsvImporter.load_from_bytes(b"");
    assert!(import.failure.is_none());
    assert_eq!(import.measurements.len(), 0);
}

#[test]
fn reading_stops_at_a_refused_record() {
    let import = CsvImporter.load_from_bytes(b"1,2,3\n4,5,6\n7,8\n9,10,11\n");
    assert!(matches!(import.failure, Some(ImportError::Csv(_))));
    assert_eq!(texts(&import.measurements), vec![triple("1", "2", "3"), triple("4", "5", "6")]);

    let import = CsvImporter.load_from_bytes(b"1,2,3\n4,\xff,6\n");
    assert!(matches!(import.failure, Some(ImportError::Csv(_))));
    assert_eq!(texts(&import.measurements), vec![triple("1", "2", "3")]);
}

#[test]
fn fields_of_records_default_one_by_one() {
    let records = vec![
        vec!["a".to_string(), "b".to_string(), "c".to_string(), "d".to_string()],
        vec!["e".to_string()],
        vec![],
    ];
    let measurements = CsvImporter::measurements_from_records(&records);
    assert_eq!(texts(&measurements), vec![triple("a", "b", "c"), triple("e", "0", "0"), triple("0", "0", "0")]);
    assert_eq!(CsvImporter::field(&records[0], 3), "d");
    assert_eq!(CsvImporter::field(&records[0], 4), "0");
    assert_eq!(CsvImporter::field(&records[2], 0), "0");
}

#[test]
fn formats_are_three() {
    let formats = vec![DataFormat::Csv, DataFormat::Json, DataFormat::Ascii];
    assert!(matches!(formats[0].clone(), DataFormat::Csv));
    assert!(matches!(formats[1].clone(), DataFormat::Json));
    assert!(matches!(formats[2].clone(), DataFormat::Ascii));
    assert_eq!(format!("{:?}", formats[2]), "Ascii");
}
