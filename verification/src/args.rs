//! The values of a request, read from the words in which a caller gives
//! them: the keys, and the column to return.

use crate::source::{parse_index, parse_key};
use crate::text::{parse_isize, parse_usize};
use vstd::prelude::*;

verus! {

/// The column that is returned where none is asked for: the one after the
/// key.
pub const DEFAULT_COLUMN: usize = 1;

/// Whether every word of `words` is the text of a key.
pub open spec fn all_keys(words: Seq<String>) -> bool {
    forall|i: int| 0 <= i < words.len() ==> parse_isize((#[trigger] words[i])@) is Some
}

/// Reads the keys of a batch, in order. One word that is no integer spoils
/// the batch.
pub fn parse_keys(words: &Vec<String>) -> (keys: Option<Vec<isize>>)
    ensures
        keys is Some <==> all_keys(words@),
        keys matches Some(ks) ==> ks@.len() == words@.len() && forall|i: int|
            0 <= i < ks@.len() ==> Some(#[trigger] ks@[i]) == parse_isize(words@[i]@),
{
    let mut keys: Vec<isize> = Vec::new();
    let mut i: usize = 0;
    while i < words.len()
        invariant
            i <= words.len(),
            keys@.len() == i,
            forall|j: int| 0 <= j < i ==> Some(#[trigger] keys@[j]) == parse_isize(words@[j]@),
        decreases words.len() - i,
    {
        match parse_key(words[i].as_str()) {
            Some(key) => {
                keys.push(key);
            },
            None => {
                assert(parse_isize(words@[i as int]@) is None);
                return None;
            },
        }
        i = i + 1;
    }
    assert forall|j: int| 0 <= j < words@.len() implies parse_isize(
        (#[trigger] words@[j])@,
    ) is Some by {
        assert(Some(keys@[j]) == parse_isize(words@[j]@));
    }
    Some(keys)
}

/// Reads the column of a request: the number in `word`, or the default
/// column where no word is given.
pub fn parse_column(word: Option<&str>) -> (col: Option<usize>)
    ensures
        col == (match word {
            Some(text) => parse_usize(text@),
            None => Some(DEFAULT_COLUMN),
        }),
{
    match word {
        Some(text) => parse_index(text),
        None => Some(DEFAULT_COLUMN),
    }
}

} // verus!
