//! What holds of every lookup, whatever the table and the keys.

use crate::outcome::Outcome;
use crate::render::{json_pretty, rendered};
use crate::search::{batch_outcomes, first_failure, line_outcome, lookup_outcome, BatchReport};
use crate::table::TableHandle;
use crate::outcome::LookupError;
use crate::text::{column_or_empty, columns, last_position, lemma_last_position, line_key};
use vstd::prelude::*;
use vstd::utf8::*;

verus! {

/// A batch of `n` keys has `n` outcomes: outcome `i` belongs to key `i` and
/// is the outcome of looking that key up.
pub proof fn theorem_one_outcome_for_each_key(records: Seq<Seq<u8>>, keys: Seq<isize>, col: int)
    ensures
        batch_outcomes(records, keys, col).len() == keys.len(),
        forall|i: int|
            0 <= i < keys.len() ==> (#[trigger] batch_outcomes(records, keys, col)[i]) == (
                keys[i],
                lookup_outcome(records, keys[i], col),
            ),
{
}

/// The record that answers for a key is the one that is stored last among
/// those with the key, in any table, sorted or not: where `at` is the
/// position of a record with the key and no later record has it, the outcome
/// is that of the record at `at`, and no other record has a part in it.
pub proof fn theorem_last_record_answers(records: Seq<Seq<u8>>, key: isize, col: int, at: int)
    requires
        0 <= at < records.len(),
        line_key(records[at]) == key,
        forall|later: int| at < later < records.len() ==> line_key(#[trigger] records[later]) != key,
    ensures
        last_position(records, key) == at,
        lookup_outcome(records, key, col) == line_outcome(records[at], col),
{
    lemma_last_position(records, key);
}

/// A column that the answering record does not have fails as out of range,
/// whatever the record holds, and is neither found nor missed.
pub proof fn theorem_column_past_the_line_fails(
    records: Seq<Seq<u8>>,
    key: isize,
    col: int,
)
    requires
        last_position(records, key) >= 0,
        col >= columns(records[last_position(records, key)]).len(),
    ensures
        lookup_outcome(records, key, col) == Outcome::Failed(LookupError::ColumnRange),
{
}

/// A column that the answering record has is found exactly when it is text,
/// and what is found is the column, rendered; an empty column is found as
/// well as any other.
pub proof fn theorem_column_of_the_line_is_found(records: Seq<Seq<u8>>, key: isize, col: int)
    requires
        last_position(records, key) >= 0,
        0 <= col < columns(records[last_position(records, key)]).len(),
    ensures
        ({
            let cell = columns(records[last_position(records, key)])[col];
            lookup_outcome(records, key, col) == (if valid_utf8(cell) {
                Outcome::Found(rendered(decode_utf8(cell)))
            } else {
                Outcome::Failed(LookupError::Decode)
            })
        }),
{
}

/// A key that no record has is not found, in any table.
pub proof fn theorem_absent_key_is_not_found(records: Seq<Seq<u8>>, key: isize, col: int)
    requires
        forall|i: int| 0 <= i < records.len() ==> line_key(#[trigger] records[i]) != key,
    ensures
        lookup_outcome(records, key, col) == Outcome::NotFound,
{
    lemma_last_position(records, key);
}

/// The outcome of a key does not depend on the batch it is in: a key has
/// the same outcome at any place of any batch, whatever the other keys of
/// the batch are and whatever became of them.
pub proof fn theorem_outcomes_are_independent(
    records: Seq<Seq<u8>>,
    col: int,
    keys: Seq<isize>,
    i: int,
    others: Seq<isize>,
    j: int,
)
    requires
        0 <= i < keys.len(),
        0 <= j < others.len(),
        keys[i] == others[j],
    ensures
        batch_outcomes(records, keys, col)[i] == batch_outcomes(records, others, col)[j],
        batch_outcomes(records, keys, col)[i].1 == lookup_outcome(records, keys[i], col),
{
}

/// Two reports of the same batch on the same table are equal, outcome by
/// outcome and character by character.
pub proof fn theorem_same_batch_same_report(
    table: TableHandle,
    keys: Seq<isize>,
    col: int,
    first: BatchReport,
    second: BatchReport,
)
    requires
        first@ == batch_outcomes(table@, keys, col),
        second@ == batch_outcomes(table@, keys, col),
    ensures
        first@ == second@,
        first.entries@.len() == second.entries@.len(),
        forall|i: int|
            0 <= i < first.entries@.len() ==> (#[trigger] first.entries@[i])@ == second.entries@[i]@,
{
    assert(first@.len() == first.entries@.len());
    assert(second@.len() == second.entries@.len());
    assert forall|i: int| 0 <= i < first.entries@.len() implies (#[trigger] first.entries@[i])@
        == second.entries@[i]@ by {
        assert(first@[i] == first.entries@[i]@);
        assert(second@[i] == second.entries@[i]@);
    }
}

/// A value that is not JSON is rendered as it is.
pub proof fn theorem_plain_text_is_unchanged(raw: Seq<char>)
    requires
        json_pretty(raw) is None,
    ensures
        rendered(raw) == raw,
{
}

/// Where the column of a line is found and its text is not JSON, the value
/// found is that text, exactly.
pub proof fn theorem_plain_column_is_unchanged(line: Seq<u8>, col: int)
    requires
        line_outcome(line, col) is Found,
        json_pretty(decode_utf8(column_or_empty(line, col))) is None,
    ensures
        line_outcome(line, col) == Outcome::Found(decode_utf8(column_or_empty(line, col))),
{
}

/// The verdict on a batch is its first failure: no outcome before it is a
/// failure, and where there is no failure at all there is no verdict
/// against the batch. An outcome "not found" is never a failure.
pub proof fn theorem_first_failure(entries: Seq<(isize, Outcome)>)
    ensures
        match first_failure(entries) {
            None => forall|i: int| 0 <= i < entries.len() ==> !((#[trigger] entries[i]).1 is Failed),
            Some(error) => exists|at: int|
                0 <= at < entries.len() && (#[trigger] entries[at]).1 == Outcome::Failed(error)
                    && forall|i: int| 0 <= i < at ==> !((#[trigger] entries[i]).1 is Failed),
        },
    decreases entries.len(),
{
    if entries.len() > 0 {
        let rest = entries.drop_first();
        theorem_first_failure(rest);
        match entries.first().1 {
            Outcome::Failed(error) => {
                assert(entries[0].1 == Outcome::Failed(error));
            },
            _ => {
                match first_failure(rest) {
                    None => {
                        assert forall|i: int| 0 <= i < entries.len() implies !((
                        #[trigger] entries[i]).1 is Failed) by {
                            if i > 0 {
                                assert(rest[i - 1] == entries[i]);
                            }
                        }
                    },
                    Some(error) => {
                        let at = choose|at: int|
                            0 <= at < rest.len() && (#[trigger] rest[at]).1 == Outcome::Failed(
                                error,
                            ) && forall|i: int| 0 <= i < at ==> !((#[trigger] rest[i]).1 is Failed);
                        assert(entries[at + 1] == rest[at]);
                        assert forall|i: int| 0 <= i < at + 1 implies !((
                        #[trigger] entries[i]).1 is Failed) by {
                            if i > 0 {
                                assert(rest[i - 1] == entries[i]);
                            }
                        }
                    },
                }
            },
        }
    }
}

} // verus!
