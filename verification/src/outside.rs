//! What this library takes on trust: the calls into other crates, and two
//! functions of the standard library. Nothing here is proved. Each contract
//! restates what the called code documents; where that takes pages, the
//! contract only gives the result a name.

use crate::formats::tree::{Json, JsonView};
use crate::info::{Date, Span, Version};
use chrono::Datelike;
use vstd::prelude::*;
use vstd::utf8::{decode_utf8, valid_utf8};

verus! {

/// `String::push` appends one character to the end of the string.
pub assume_specification[ String::push ](s: &mut String, c: char)
    ensures
        final(s)@ == old(s)@.push(c),
;

/// Why `String::from_utf8` refuses a byte vector.
#[verifier::external_type_specification]
#[verifier::external_body]
pub struct ExFromUtf8Error(std::string::FromUtf8Error);

/// `String::from_utf8` accepts exactly the byte vectors that are valid UTF-8,
/// and gives the text that they encode.
pub assume_specification[ String::from_utf8 ](vec: Vec<u8>) -> (r: Result<
    String,
    std::string::FromUtf8Error,
>)
    ensures
        r is Ok <==> valid_utf8(vec@),
        r matches Ok(s) ==> s@ == decode_utf8(vec@),
;

/// Why `csv` could not read a record.
#[verifier::external_type_specification]
#[verifier::external_body]
pub struct ExCsvError(csv::Error);

/// The records that `csv` reads from `bytes` without treating any as a
/// header, in order: the cells of each record that it could read, `None` for
/// each that it could not.
pub uninterp spec fn csv_records(bytes: Seq<u8>) -> Seq<Option<Seq<Seq<char>>>>;

/// The cells of a row as texts.
pub open spec fn row_view(row: Vec<String>) -> Seq<Seq<char>> {
    Seq::new(row@.len(), |i: int| row@[i]@)
}

/// What was read for one record: its cells, or nothing.
pub open spec fn record_view(record: Result<Vec<String>, csv::Error>) -> Option<Seq<Seq<char>>> {
    match record {
        Ok(row) => Some(row_view(row)),
        Err(_) => None,
    }
}

/// What was read for each record.
pub open spec fn record_views(records: Seq<Result<Vec<String>, csv::Error>>) -> Seq<
    Option<Seq<Seq<char>>>,
> {
    Seq::new(records.len(), |i: int| record_view(records[i]))
}

/// Reads `bytes` as CSV with `csv::Reader::records`, the reader built by
/// `csv::ReaderBuilder` with `has_headers(false)`. The result holds, for every
/// record of the input in order, its cells or the error that `csv` reported
/// for it.
#[verifier::external_body]
pub(crate) fn read_csv_records(bytes: &[u8]) -> (r: Vec<Result<Vec<String>, csv::Error>>)
    ensures
        record_views(r@) == csv_records(bytes@),
{
    let mut reader = csv::ReaderBuilder::new().has_headers(false).from_reader(bytes);
    let cells = |row: csv::StringRecord| row.iter().map(String::from).collect();
    reader.records().map(|record| record.map(cells)).collect()
}

/// A JSON document as `serde_json` holds it: a `serde_json::Value`.
#[verifier::external_body]
pub struct Document {
    inner: serde_json::Value,
}

/// Why `serde_json` could not read a document.
#[verifier::external_type_specification]
#[verifier::external_body]
pub struct ExJsonError(serde_json::Error);

/// The document that `serde_json` reads from `bytes`, if it reads one.
pub uninterp spec fn json_document(bytes: Seq<u8>) -> Option<JsonView>;

/// The tree that a document holds.
pub uninterp spec fn document_tree(document: Document) -> JsonView;

/// Reads `bytes` as one JSON document with `serde_json::from_slice`.
#[verifier::external_body]
pub(crate) fn read_document(bytes: &[u8]) -> (r: Result<Document, serde_json::Error>)
    ensures
        match r {
            Ok(document) => json_document(bytes@) == Some(document_tree(document)),
            Err(_) => json_document(bytes@) is None,
        },
{
    serde_json::from_slice::<serde_json::Value>(bytes).map(|inner| Document { inner })
}

/// Turns a document into a tree of plain values, variant by variant. Of a
/// number it keeps what `Number::as_u64` gives, else what `Number::as_i64`
/// gives; a number for which both give nothing is a fraction. The members of
/// an object come in the order in which `serde_json::Map` yields them, each
/// name once.
#[verifier::external_body]
pub(crate) fn into_tree(document: Document) -> (r: Json)
    ensures
        r@ == document_tree(document),
{
    match document.inner {
        serde_json::Value::Null => Json::Null,
        serde_json::Value::Bool(b) => Json::Bool(b),
        serde_json::Value::Number(n) => match (n.as_u64(), n.as_i64()) {
            (Some(u), _) => Json::Unsigned(u),
            (_, Some(i)) => Json::Signed(i),
            _ => Json::Fraction,
        },
        serde_json::Value::String(s) => Json::Text(s),
        serde_json::Value::Array(a) => Json::List(
            a.into_iter().map(|inner| into_tree(Document { inner })).collect()),
        serde_json::Value::Object(m) => Json::Object(
            m.into_iter().map(|(k, inner)| (k, into_tree(Document { inner }))).collect()),
    }
}

/// Why `semver` refuses a version.
#[verifier::external_type_specification]
#[verifier::external_body]
pub struct ExSemverError(semver::Error);

/// The version that `semver` reads from `text`, if it reads one: major,
/// minor, patch, pre-release and build metadata.
pub uninterp spec fn semver_version(text: Seq<char>) -> Option<
    (u64, u64, u64, Seq<char>, Seq<char>),
>;

/// Reads a version with `semver::Version::parse` and copies out its five
/// parts.
#[verifier::external_body]
pub(crate) fn parse_version(text: &str) -> (r: Result<Version, semver::Error>)
    ensures
        match r {
            Ok(version) => semver_version(text@) == Some(version@),
            Err(_) => semver_version(text@) is None,
        },
{
    semver::Version::parse(text).map(
        |v|
            Version {
                major: v.major,
                minor: v.minor,
                patch: v.patch,
                pre: v.pre.as_str().to_owned(),
                build: v.build.as_str().to_owned(),
            },
    )
}

/// Why `chrono` refuses a date.
#[verifier::external_type_specification]
#[verifier::external_body]
pub struct ExChronoParseError(chrono::ParseError);

/// The calendar date that `chrono` reads from `text`, if it reads one: year,
/// month and day.
pub uninterp spec fn chrono_date(text: Seq<char>) -> Option<(i32, u32, u32)>;

/// Reads a date with `chrono::NaiveDate`'s `FromStr` and copies out its
/// year, month and day.
#[verifier::external_body]
pub(crate) fn parse_date(text: &str) -> (r: Result<Date, chrono::ParseError>)
    ensures
        match r {
            Ok(date) => chrono_date(text@) == Some((date.year, date.month, date.day)),
            Err(_) => chrono_date(text@) is None,
        },
{
    text.parse::<chrono::NaiveDate>().map(
        |d| Date { year: d.year(), month: d.month(), day: d.day() },
    )
}

/// The duration that `duration_str` reads from `text`, if it reads one:
/// whole seconds, and the nanoseconds beyond them.
pub uninterp spec fn duration_span(text: Seq<char>) -> Option<(u64, u32)>;

/// Reads a duration with `duration_str::parse` and copies out its seconds
/// and nanoseconds. The error is the message that `duration_str` gives.
#[verifier::external_body]
pub(crate) fn parse_duration(text: &str) -> (r: Result<Span, String>)
    ensures
        match r {
            Ok(span) => duration_span(text@) == Some((span.secs, span.nanos)),
            Err(_) => duration_span(text@) is None,
        },
{
    duration_str::parse(text).map(|d| Span { secs: d.as_secs(), nanos: d.subsec_nanos() })
}

} // verus!
