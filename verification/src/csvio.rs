use vstd::prelude::*;

verus! {

/// A csv writer over an in-memory buffer; opaque to the verifier, which
/// sees it only through `csv_written`.
#[verifier::external_body]
pub struct CsvOut {
    inner: csv::Writer<Vec<u8>>,
}

/// The records handed to a csv writer so far, each a sequence of fields.
pub uninterp spec fn csv_written(w: CsvOut) -> Seq<Seq<Seq<char>>>;

/// The text the csv crate's default writer produces for a record
/// sequence: a fixed function of the records, named here so that
/// contracts can speak of it.
pub uninterp spec fn csv_encoding(records: Seq<Seq<Seq<char>>>) -> Seq<char>;

/// The views of a vector of records.
pub open spec fn rec_view(rec: Seq<String>) -> Seq<Seq<char>> {
    rec.map_values(|s: String| s@)
}

/// Relies on csv::Writer::from_writer: a writer with nothing written yet.
#[verifier::external_body]
pub fn csv_writer_new() -> (w: CsvOut)
    ensures
        csv_written(w) == Seq::<Seq<Seq<char>>>::empty(),
{
    CsvOut { inner: csv::Writer::from_writer(Vec::new()) }
}

/// Relies on csv::Writer::write_record: appends one record; with the
/// default configuration this succeeds whenever the record has as many
/// fields as the first one written.
#[verifier::external_body]
pub fn csv_write_record(w: &mut CsvOut, rec: &Vec<String>)
    requires
        csv_written(*old(w)).len() > 0 ==> rec@.len() == csv_written(*old(w))[0].len(),
    ensures
        csv_written(*final(w)) == csv_written(*old(w)).push(rec_view(rec@)),
{
    let _ = w.inner.write_record(rec.iter());
}

/// Relies on csv::Writer::into_inner: the encoded text of the records
/// written, which is empty when none were written.
#[verifier::external_body]
pub fn csv_writer_finish(w: CsvOut) -> (r: String)
    ensures
        r@ == csv_encoding(csv_written(w)),
        csv_written(w).len() == 0 ==> r@.len() == 0,
{
    match w.inner.into_inner() {
        Ok(buf) => {
            match String::from_utf8(buf) {
                Ok(s) => s,
                Err(_) => String::new(),
            }
        },
        Err(_) => String::new(),
    }
}

} // verus!
