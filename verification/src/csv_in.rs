use vstd::prelude::*;

verus! {

#[verifier::external_type_specification]
#[verifier::external_body]
pub struct ExCsvError(csv::Error);

/// What the comma-separated reader makes of `data`: the header row and the
/// data rows, or nothing when the bytes are malformed (a record that does
/// not decode as text). The outcome depends on the bytes alone.
pub uninterp spec fn csv_table(data: Seq<u8>) -> Option<(Seq<Seq<char>>, Seq<Seq<Seq<char>>>)>;

/// Relies on csv::ReaderBuilder and csv::Reader over an in-memory slice:
/// the first record is the header row (empty when the input is empty), the
/// remaining records are the data rows, in input order, and rows may differ
/// in length. Reading fails exactly where a record does not decode as
/// UTF-8. Reading from a slice does no input or output, so the outcome is a
/// function of the bytes alone.
#[verifier::external_body]
pub(crate) fn parse_csv(data: &[u8]) -> (r: Result<(Vec<String>, Vec<Vec<String>>), csv::Error>)
    ensures
        match r {
            Ok(table) => csv_table(data@) == Some((table.0.deep_view(), table.1.deep_view())),
            Err(_) => csv_table(data@) is None,
        },
{
    let mut rdr = csv::ReaderBuilder::new().flexible(true).from_reader(data);
    let headers: Vec<String> = match rdr.headers() {
        Ok(h) => h.iter().map(|f| f.to_string()).collect(),
        Err(e) => return Err(e),
    };
    let mut rows: Vec<Vec<String>> = Vec::new();
    for record in rdr.records() {
        match record {
            Ok(rec) => rows.push(rec.iter().map(|f| f.to_string()).collect()),
            Err(e) => return Err(e),
        }
    }
    Ok((headers, rows))
}

} // verus!
