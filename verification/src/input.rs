use vstd::prelude::*;

verus! {

/// The record rows that csv's reader yields for these bytes, with every
/// field trimmed of surrounding whitespace, headers off and ragged record
/// sets refused; `None` when the reader reports an error instead. The
/// reader's result depends on the bytes alone.
pub uninterp spec fn csv_rows_of(data: Seq<u8>) -> Option<Seq<Seq<Seq<char>>>>;

/// Declares csv's opaque `Error` type so the reader wrapper can return it.
#[verifier::external_type_specification]
#[verifier::external_body]
pub struct ExCsvError(csv::Error);

/// Relies on csv's `ReaderBuilder` (`has_headers(false)`, `trim(Trim::All)`)
/// and `Reader::records` to parse the bytes into trimmed string fields per
/// row; the same bytes always parse to the same rows or the same failure.
#[verifier::external_body]
fn read_records(data: &Vec<u8>) -> (r: Result<Vec<Vec<String>>, csv::Error>)
    ensures
        match r {
            Ok(rows) => csv_rows_of(data@) == Some(rows.deep_view()),
            Err(_) => csv_rows_of(data@) is None,
        },
{
    let mut rdr = csv::ReaderBuilder::new().has_headers(false).trim(csv::Trim::All).from_reader(
        data.as_slice(),
    );
    rdr.records().map(|rec| rec.map(|sr| sr.iter().map(String::from).collect())).collect()
}

/// Relies on the `Display` impl of `csv::Error` for a human-readable
/// description of what went wrong.
#[verifier::external_body]
fn csv_error_text(e: &csv::Error) -> String {
    e.to_string()
}

/// The input could not be read as delimited records.
#[derive(Debug)]
pub struct ParseError {
    pub message: String,
}

impl ParseError {
    /// The diagnostic text of this error.
    pub fn text(&self) -> (s: &str)
        ensures
            s@ == self.message@,
    {
        self.message.as_str()
    }
}

/// Parses delimited input bytes into records of trimmed string fields.
/// Succeeds exactly when the csv reader accepts the bytes, and then returns
/// exactly the rows the reader yields.
pub fn parse_records(data: &Vec<u8>) -> (r: Result<Vec<Vec<String>>, ParseError>)
    ensures
        match r {
            Ok(rows) => csv_rows_of(data@) == Some(rows.deep_view()),
            Err(_) => csv_rows_of(data@) is None,
        },
{
    match read_records(data) {
        Ok(rows) => Ok(rows),
        Err(e) => Err(ParseError { message: csv_error_text(&e) }),
    }
}

} // verus!
