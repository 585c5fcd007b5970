//! Batch lookup: one outcome for each key of a batch, in the order in which
//! the keys were given.
//!
//! Where several records have the same key, the last of them answers.

use crate::outcome::{LookupError, LookupResult, Outcome};
use crate::render::rendered;
use crate::table::TableHandle;
use crate::text::{column_or_empty, columns, last_position, lemma_last_position};
use vstd::prelude::*;
use vstd::utf8::*;

verus! {

/// What the column `col` of a line comes to: a failure where the line has
/// no such column, a failure where the column is not text, and the column,
/// rendered, where it is.
pub open spec fn line_outcome(line: Seq<u8>, col: int) -> Outcome {
    if col >= columns(line).len() {
        Outcome::Failed(LookupError::ColumnRange)
    } else if !valid_utf8(column_or_empty(line, col)) {
        Outcome::Failed(LookupError::Decode)
    } else {
        Outcome::Found(rendered(decode_utf8(column_or_empty(line, col))))
    }
}

/// What the lookup of `key` in `records` comes to, for column `col`.
///
/// A key that no record has is not found. A key that some record has is
/// answered by the last record that has it, whatever the order of the
/// records is.
pub open spec fn lookup_outcome(records: Seq<Seq<u8>>, key: isize, col: int) -> Outcome {
    let at = last_position(records, key);
    if at < 0 {
        Outcome::NotFound
    } else {
        line_outcome(records[at], col)
    }
}

/// The outcome of one key of a batch, with the key.
#[derive(Debug, PartialEq, Eq)]
pub struct KeyOutcome {
    pub key: isize,
    pub outcome: LookupResult,
}

impl View for KeyOutcome {
    type V = (isize, Outcome);

    open spec fn view(&self) -> (isize, Outcome) {
        (self.key, self.outcome@)
    }
}

/// The outcomes of a batch, one for each key, in the order of the keys.
#[derive(Debug, PartialEq, Eq)]
pub struct BatchReport {
    pub entries: Vec<KeyOutcome>,
}

impl View for BatchReport {
    type V = Seq<(isize, Outcome)>;

    open spec fn view(&self) -> Seq<(isize, Outcome)> {
        Seq::new(self.entries@.len(), |i: int| self.entries@[i]@)
    }
}

/// What a batch comes to: for each key, in order, the key and the outcome of
/// its lookup.
pub open spec fn batch_outcomes(records: Seq<Seq<u8>>, keys: Seq<isize>, col: int) -> Seq<
    (isize, Outcome),
> {
    Seq::new(keys.len(), |i: int| (keys[i], lookup_outcome(records, keys[i], col)))
}

/// The first failure among the outcomes of a batch, if there is one.
pub open spec fn first_failure(entries: Seq<(isize, Outcome)>) -> Option<LookupError>
    decreases entries.len(),
{
    if entries.len() == 0 {
        None
    } else {
        match entries.first().1 {
            Outcome::Failed(error) => Some(error),
            _ => first_failure(entries.drop_first()),
        }
    }
}

/// Looks up one key: the rendered column `col` of the last record that has
/// the key.
pub fn lookup_key(table: &TableHandle, key: isize, col: usize) -> (result: LookupResult)
    ensures
        result@ == lookup_outcome(table@, key, col as int),
{
    match table.position_of(key) {
        None => LookupResult::NotFound,
        Some(at) => {
            proof {
                lemma_last_position(table@, key);
            }
            if !table.has_column(at, col) {
                LookupResult::Failed(LookupError::ColumnRange)
            } else {
                match table.rendered_cell(at, key, col) {
                    Ok(value) => LookupResult::Found(value),
                    Err(error) => LookupResult::Failed(error),
                }
            }
        },
    }
}

/// Looks up every key of a batch. No failure ends the batch early: each key
/// has its own outcome, whatever became of the others.
pub fn get_key(table: &TableHandle, keys: &Vec<isize>, col: usize) -> (report: BatchReport)
    ensures
        report@ == batch_outcomes(table@, keys@, col as int),
        report@.len() == keys@.len(),
{
    let mut entries: Vec<KeyOutcome> = Vec::new();
    let mut i: usize = 0;
    while i < keys.len()
        invariant
            i <= keys.len(),
            entries@.len() == i,
            forall|j: int|
                0 <= j < i ==> (#[trigger] entries@[j])@ == (
                    keys@[j],
                    lookup_outcome(table@, keys@[j], col as int),
                ),
        decreases keys.len() - i,
    {
        let key = keys[i];
        let outcome = lookup_key(table, key, col);
        entries.push(KeyOutcome { key, outcome });
        i = i + 1;
    }
    let report = BatchReport { entries };
    assert(report@ =~= batch_outcomes(table@, keys@, col as int));
    report
}

impl BatchReport {
    /// The number of outcomes, which is the number of keys of the batch.
    pub fn len(&self) -> (n: usize)
        ensures
            n == self@.len(),
    {
        self.entries.len()
    }

    /// The verdict on the whole batch: the first failure, where any key
    /// failed. A key that was not found is no failure.
    pub fn verdict(&self) -> (verdict: Result<(), LookupError>)
        ensures
            verdict == (match first_failure(self@) {
                Some(error) => Err::<(), LookupError>(error),
                None => Ok::<(), LookupError>(()),
            }),
    {
        let mut i: usize = 0;
        assert(self@.skip(0) =~= self@);
        while i < self.entries.len()
            invariant
                i <= self.entries.len(),
                first_failure(self@) == first_failure(self@.skip(i as int)),
            decreases self.entries.len() - i,
        {
            proof {
                let rest = self@.skip(i as int);
                assert(rest.first() == self@[i as int]);
                assert(rest.drop_first() =~= self@.skip(i + 1));
            }
            match &self.entries[i].outcome {
                LookupResult::Failed(error) => {
                    return Err(*error);
                },
                _ => {},
            }
            i = i + 1;
        }
        Ok(())
    }
}

} // verus!
