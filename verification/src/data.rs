//! Reading measurements from comma-separated text.
//!
//! Each record is one measurement: energy, arrival time and error, in that
//! order, with no header line. A record with fewer than three fields has `0`
//! for each missing one. The fields are handed on as text: turning them into
//! numbers is left to the caller.

use vstd::prelude::*;

verus! {

/// The error type of the `csv` crate.
#[verifier::external_type_specification]
#[verifier::external_body]
pub struct ExCsvError(csv::Error);

/// The input formats of measurement data.
#[derive(Debug, Clone)]
pub enum DataFormat {
    Csv,
    Json,
    Ascii,
}

/// Why reading stopped before the end of the data.
pub enum ImportError {
    /// The `csv` reader refused a record.
    Csv(csv::Error),
}

/// The three fields of one measurement, as text.
pub struct RawMeasurement {
    pub energy: String,
    pub arrival_time: String,
    pub error: String,
}

/// The text of a [`RawMeasurement`].
pub ghost struct RawMeasurementText {
    pub energy: Seq<char>,
    pub arrival_time: Seq<char>,
    pub error: Seq<char>,
}

impl View for RawMeasurement {
    type V = RawMeasurementText;

    open spec fn view(&self) -> RawMeasurementText {
        RawMeasurementText {
            energy: self.energy@,
            arrival_time: self.arrival_time@,
            error: self.error@,
        }
    }
}

/// What a `csv` reader without a header line reads from `data`: the fields of
/// the records up to the first one that it refuses, and whether it refused
/// one.
pub uninterp spec fn csv_records(data: Seq<u8>) -> (Seq<Seq<Seq<char>>>, bool);

/// The field of `record` at `position`, and `0` where the record is too short.
pub open spec fn field_or_zero(record: Seq<Seq<char>>, position: int) -> Seq<char> {
    if 0 <= position < record.len() {
        record[position]
    } else {
        "0"@
    }
}

/// The measurement text of a record: its first three fields.
pub open spec fn raw_measurement(record: Seq<Seq<char>>) -> RawMeasurementText {
    RawMeasurementText {
        energy: field_or_zero(record, 0),
        arrival_time: field_or_zero(record, 1),
        error: field_or_zero(record, 2),
    }
}

/// What was read from comma-separated data.
pub struct CsvImport {
    /// The measurements of the records read, in the order of the data.
    pub measurements: Vec<RawMeasurement>,
    /// The failure that ended the reading, if one did.
    pub failure: Option<ImportError>,
}

/// Reads `data` with `csv::ReaderBuilder::new().has_headers(false)`, through
/// `Reader::records`, up to the first record that the reader refuses. The
/// result is named, not stated: the fields read are `csv_records(data).0`, and
/// an error is returned exactly if `csv_records(data).1`.
#[verifier::external_body]
fn read_records(data: &[u8]) -> (r: (Vec<Vec<String>>, Option<csv::Error>))
    ensures
        r.0.deep_view() == csv_records(data@).0,
        (r.1 is Some) == csv_records(data@).1,
{
    let mut reader = csv::ReaderBuilder::new().has_headers(false).from_reader(data);
    let mut rows: Vec<Vec<String>> = Vec::new();
    for record in reader.records() {
        match record {
            Ok(fields) => rows.push(fields.iter().map(String::from).collect()),
            Err(error) => return (rows, Some(error)),
        }
    }
    (rows, None)
}

/// Reader of comma-separated measurement data.
pub struct CsvImporter;

impl CsvImporter {
    /// The field of `record` at `position` as a string of its own, and `0`
    /// where the record is too short.
    pub fn field(record: &Vec<String>, position: usize) -> (r: String)
        ensures
            r@ == field_or_zero(record.deep_view(), position as int),
    {
        if position < record.len() {
            record[position].clone()
        } else {
            "0".to_owned()
        }
    }

    /// The measurement text of each record, in the order of the records.
    pub fn measurements_from_records(records: &Vec<Vec<String>>) -> (r: Vec<RawMeasurement>)
        ensures
            r@.len() == records@.len(),
            forall|i: int|
                0 <= i < r@.len() ==> (#[trigger] r@[i])@ == raw_measurement(
                    records.deep_view()[i],
                ),
    {
        let mut measurements: Vec<RawMeasurement> = Vec::new();
        let mut i: usize = 0;
        while i < records.len()
            invariant
                i <= records@.len(),
                measurements@.len() == i,
                forall|k: int|
                    0 <= k < i ==> (#[trigger] measurements@[k])@ == raw_measurement(
                        records.deep_view()[k],
                    ),
            decreases records@.len() - i,
        {
            let record: &Vec<String> = &records[i];
            assert(records.deep_view()[i as int] == record.deep_view());
            measurements.push(
                RawMeasurement {
                    energy: Self::field(record, 0),
                    arrival_time: Self::field(record, 1),
                    error: Self::field(record, 2),
                },
            );
            i += 1;
        }
        measurements
    }

    /// Reads measurements from comma-separated `data`: one for each record
    /// that the reader accepts before the first that it refuses, and the
    /// failure if it refused one.
    pub fn load_from_bytes(&self, data: &[u8]) -> (r: CsvImport)
        ensures
            r.measurements@.len() == csv_records(data@).0.len(),
            forall|i: int|
                0 <= i < r.measurements@.len() ==> (#[trigger] r.measurements@[i])@
                    == raw_measurement(csv_records(data@).0[i]),
            (r.failure is Some) == csv_records(data@).1,
    {
        let (records, failure) = read_records(data);
        let measurements: Vec<RawMeasurement> = Self::measurements_from_records(&records);
        let failure: Option<ImportError> = match failure {
            Some(error) => Some(ImportError::Csv(error)),
            None => None,
        };
        CsvImport { measurements, failure }
    }
}

} // verus!
