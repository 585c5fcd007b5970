//! The boundary to `textdb`, the crate that holds a table in memory and
//! searches it.
//!
//! Nothing in this file is proved. Each function makes one kind of call into
//! `textdb` (or `std`), and its contract says what that call does, in the
//! terms of [`crate::text`]. The proofs of the rest of the crate rest on
//! these contracts.

use crate::text::{
    column_or_empty, key_column, last_position, lines_of, matching, parse_isize, parse_usize,
    sorted_by_key, strip_newlines,
};
use textdb::accessor::TsvParse;
use textdb::maps::SafeMemoryMap;
use vstd::prelude::*;
use vstd::utf8::*;

verus! {

/// A `textdb::Table` over a `SafeMemoryMap`, with the integer in column 0
/// as the key of a line.
///
/// Held in a struct of this crate because the bounds of `textdb::Table` are
/// traits that the verifier does not know.
#[verifier::external_body]
pub struct RawTable {
    inner: textdb::Table<SafeMemoryMap, TsvParse<isize, 0>>,
}

/// A `textdb::Line`: one line of a [`RawTable`], borrowed from it.
#[verifier::external_body]
pub struct MatchedLine<'a> {
    inner: textdb::Line<'a, SafeMemoryMap, TsvParse<isize, 0>>,
}

/// The bytes that a table holds.
pub uninterp spec fn table_bytes(table: RawTable) -> Seq<u8>;

/// The bytes of a line, without the newline that ends it.
pub uninterp spec fn line_bytes(line: MatchedLine<'_>) -> Seq<u8>;

/// The lines of a table.
pub open spec fn table_lines(table: RawTable) -> Seq<Seq<u8>> {
    lines_of(table_bytes(table))
}

/// Whether `text` is what `std::str::from_utf8` gives for `bytes`: the
/// decoded text where the bytes are valid UTF-8, an error where they are not.
pub open spec fn decodes(text: Result<&str, core::str::Utf8Error>, bytes: Seq<u8>) -> bool {
    match text {
        Ok(s) => valid_utf8(bytes) && s@ == decode_utf8(bytes),
        Err(_) => !valid_utf8(bytes),
    }
}

/// `SafeMemoryMap::from_string`, and `Table::new` on the map it returns.
///
/// Trusted: the table holds the UTF-8 bytes of `text` without the newlines
/// at their end.
#[verifier::external_body]
pub(crate) fn table_from_text(text: String) -> (table: RawTable)
    ensures
        table_bytes(table) == strip_newlines(encode_utf8(text@)),
{
    RawTable { inner: textdb::Table::new(SafeMemoryMap::from_string(text), TsvParse::default()) }
}

/// `SafeMemoryMap::from_str`, and `Table::new` on the map it returns.
///
/// Trusted: the table holds `bytes` without the newlines at their end.
#[verifier::external_body]
pub(crate) fn table_from_bytes(bytes: &[u8]) -> (table: RawTable)
    ensures
        table_bytes(table) == strip_newlines(bytes@),
{
    RawTable { inner: textdb::Table::new(SafeMemoryMap::from_str(bytes), TsvParse::default()) }
}

/// `Table::keys`: the key column of every line, decoded.
///
/// Trusted: there is one item for each line of the table, in order, and
/// item `i` is `std::str::from_utf8` of the first column of line `i`.
#[verifier::external_body]
pub(crate) fn key_columns<'a>(table: &'a RawTable) -> (cols: Vec<
    Result<&'a str, core::str::Utf8Error>,
>)
    ensures
        cols@.len() == table_lines(*table).len(),
        forall|i: int|
            0 <= i < cols@.len() ==> decodes(#[trigger] cols@[i], key_column(table_lines(*table)[i])),
{
    table.inner.keys().collect()
}

/// `str::parse::<isize>`.
///
/// Trusted: the text is accepted where it is an optional sign followed by
/// decimal digits only, and the number fits in an `isize`.
#[verifier::external_body]
pub(crate) fn parse_key(text: &str) -> (key: Option<isize>)
    ensures
        key == parse_isize(text@),
{
    text.parse::<isize>().ok()
}

/// `str::parse::<usize>`.
///
/// Trusted: the text is accepted where it is an optional plus sign followed
/// by decimal digits only, and the number fits in a `usize`.
#[verifier::external_body]
pub(crate) fn parse_index(text: &str) -> (index: Option<usize>)
    ensures
        index == parse_usize(text@),
{
    text.parse::<usize>().ok()
}

/// Whether `item` is what the decoded columns `col` of `lines` hold at place
/// `at`: the decoded column of line `at`, and nothing past the last line.
pub open spec fn is_column_at(
    item: Option<Result<&str, core::str::Utf8Error>>,
    lines: Seq<Seq<u8>>,
    col: int,
    at: int,
) -> bool {
    match item {
        Some(text) => at < lines.len() && decodes(text, column_or_empty(lines[at], col)),
        None => at >= lines.len(),
    }
}

/// `Table::cols`, and the item at place `at` of what it yields: column `col`
/// of line `at`, decoded.
///
/// Trusted: `Table::cols` yields one item for each line of the table, in
/// order, and item `at` is `std::str::from_utf8` of column `col` of line
/// `at`, or of no bytes at all where the line has no such column. Past the
/// last line there is no item.
#[verifier::external_body]
pub(crate) fn column_at<'a>(table: &'a RawTable, col: usize, at: usize) -> (item: Option<
    Result<&'a str, core::str::Utf8Error>,
>)
    ensures
        is_column_at(item, table_lines(*table), col as int, at as int),
{
    table.inner.cols(col).nth(at)
}

/// `Table::get_matching_lines`: the lines whose key is `key`.
///
/// `textdb` finds them by bisection over the bytes of the table. It compares
/// the key of a line as [`crate::text::line_key`] reads it, and it panics
/// when the search narrows to nothing, which is what happens for a key that
/// the table does not hold, and on a table of no bytes for any key. So this
/// may only be called on a table that has bytes and is sorted by key, for a
/// key that some line has. Then a line with the key stays between the bounds
/// of the search at every step, every step that does not end the search
/// moves a bound by at least one line, and the search ends with the first
/// line that has the key at its lower bound and the last at its upper bound.
/// (Both makers of a `SafeMemoryMap` drop the newlines at the end, so the
/// last line of a table that has bytes is not empty.)
///
/// Trusted: under that condition the call returns, and the result is the
/// lines with the key, all of them, in the order in which the table stores
/// them.
#[verifier::external_body]
pub(crate) fn matching_lines<'a>(table: &'a RawTable, key: isize) -> (found: Vec<MatchedLine<'a>>)
    requires
        sorted_by_key(table_lines(*table)),
        table_bytes(*table).len() > 0,
        last_position(table_lines(*table), key) >= 0,
    ensures
        found@.len() == matching(table_lines(*table), key).len(),
        forall|i: int|
            0 <= i < found@.len() ==> line_bytes(#[trigger] found@[i]) == matching(
                table_lines(*table),
                key,
            )[i],
{
    table.inner.get_matching_lines(&key).map(|line| MatchedLine { inner: line }).collect()
}

/// `Line::col`: one column of a line, decoded.
///
/// Trusted: the result is `std::str::from_utf8` of column `col`, and of no
/// bytes at all where the line has no such column.
#[verifier::external_body]
pub(crate) fn line_col<'b>(line: &'b MatchedLine<'_>, col: usize) -> (text: Result<
    &'b str,
    core::str::Utf8Error,
>)
    ensures
        decodes(text, column_or_empty(line_bytes(*line), col as int)),
{
    line.inner.col(col)
}

} // verus!
