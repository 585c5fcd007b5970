//! The byte-level model of a tab-separated table: how a file's bytes fall
//! into lines, a line into columns, and which integer key a line carries.
//!
//! Everything here is a mathematical description over `Seq<u8>` and
//! `Seq<char>`; the contracts of the rest of the crate are stated in these
//! terms.

use vstd::prelude::*;
use vstd::utf8::*;

verus! {

/// The byte that ends a line.
pub const NEWLINE: u8 = 10;

/// The byte that separates the columns of a line.
pub const TAB: u8 = 9;

/// The pieces of `bytes` between occurrences of `sep`.
///
/// A sequence with `n` separators has `n + 1` pieces, some of which may be
/// empty; the empty sequence has one empty piece.
pub open spec fn split(bytes: Seq<u8>, sep: u8) -> Seq<Seq<u8>>
    decreases bytes.len(),
{
    if bytes.len() == 0 {
        seq![Seq::<u8>::empty()]
    } else {
        let before = split(bytes.drop_last(), sep);
        if bytes.last() == sep {
            before.push(Seq::<u8>::empty())
        } else {
            before.drop_last().push(before.last().push(bytes.last()))
        }
    }
}

/// `bytes` without the newlines at its end.
pub open spec fn strip_newlines(bytes: Seq<u8>) -> Seq<u8>
    decreases bytes.len(),
{
    if bytes.len() > 0 && bytes.last() == NEWLINE {
        strip_newlines(bytes.drop_last())
    } else {
        bytes
    }
}

/// The lines of a table, in the order in which they are stored.
pub open spec fn lines_of(bytes: Seq<u8>) -> Seq<Seq<u8>> {
    split(bytes, NEWLINE)
}

/// The columns of a line.
pub open spec fn columns(line: Seq<u8>) -> Seq<Seq<u8>> {
    split(line, TAB)
}

/// Column `col` of a line, or nothing where the line has no such column.
pub open spec fn column_or_empty(line: Seq<u8>, col: int) -> Seq<u8> {
    if 0 <= col < columns(line).len() {
        columns(line)[col]
    } else {
        Seq::<u8>::empty()
    }
}

/// The first column of a line, which holds its key.
pub open spec fn key_column(line: Seq<u8>) -> Seq<u8> {
    columns(line)[0]
}

/// Whether `c` is one of the ten decimal digits.
pub open spec fn is_digit(c: char) -> bool {
    48 <= c as u32 <= 57
}

/// The number that a string of decimal digits denotes.
pub open spec fn digits_value(digits: Seq<char>) -> int
    decreases digits.len(),
{
    if digits.len() == 0 {
        0
    } else {
        10 * digits_value(digits.drop_last()) + (digits.last() as u32 - 48)
    }
}

/// Whether `digits` is a non-empty string of decimal digits.
pub open spec fn all_digits(digits: Seq<char>) -> bool {
    digits.len() > 0 && forall|i: int| 0 <= i < digits.len() ==> is_digit(#[trigger] digits[i])
}

/// The natural number written in `text`: an optional plus sign, then decimal
/// digits and nothing else.
pub open spec fn unsigned_value(text: Seq<char>) -> Option<int> {
    if text.len() > 0 && text[0] == '+' {
        if all_digits(text.skip(1)) {
            Some(digits_value(text.skip(1)))
        } else {
            None
        }
    } else if all_digits(text) {
        Some(digits_value(text))
    } else {
        None
    }
}

/// The integer written in `text`: an optional sign, then decimal digits and
/// nothing else.
pub open spec fn decimal_value(text: Seq<char>) -> Option<int> {
    if text.len() > 0 && text[0] == '-' {
        if all_digits(text.skip(1)) {
            Some(-digits_value(text.skip(1)))
        } else {
            None
        }
    } else {
        unsigned_value(text)
    }
}

/// The `isize` written in `text`, where it is an integer that fits.
pub open spec fn parse_isize(text: Seq<char>) -> Option<isize> {
    match decimal_value(text) {
        Some(v) => if isize::MIN <= v <= isize::MAX {
            Some(v as isize)
        } else {
            None
        },
        None => None,
    }
}

/// The `usize` written in `text`, where it is a natural number that fits.
pub open spec fn parse_usize(text: Seq<char>) -> Option<usize> {
    match unsigned_value(text) {
        Some(v) => if v <= usize::MAX {
            Some(v as usize)
        } else {
            None
        },
        None => None,
    }
}

/// The key under which a line is stored: the integer in its first column,
/// and 0 where that column is not the text of an `isize`.
pub open spec fn line_key(line: Seq<u8>) -> isize {
    if valid_utf8(key_column(line)) {
        match parse_isize(decode_utf8(key_column(line))) {
            Some(key) => key,
            None => 0,
        }
    } else {
        0
    }
}

/// Whether the keys of `lines` never decrease from one line to the next.
pub open spec fn sorted_by_key(lines: Seq<Seq<u8>>) -> bool {
    forall|i: int, j: int|
        0 <= i <= j < lines.len() ==> line_key(#[trigger] lines[i]) <= line_key(#[trigger] lines[j])
}

/// The records of a table that holds `bytes`: its lines, of which a table
/// with no bytes has none.
pub open spec fn records_of(bytes: Seq<u8>) -> Seq<Seq<u8>> {
    if bytes.len() == 0 {
        Seq::<Seq<u8>>::empty()
    } else {
        lines_of(bytes)
    }
}

/// Whether `tabs` holds, for every line of `lines`, in order, the number of
/// its tabs, which is one less than the number of its columns.
pub open spec fn tabs_of(tabs: Seq<usize>, lines: Seq<Seq<u8>>) -> bool {
    &&& tabs.len() == lines.len()
    &&& forall|i: int| 0 <= i < lines.len() ==> (#[trigger] tabs[i]) + 1 == columns(lines[i]).len()
}

/// The lines whose key is `key`, in the order in which they are stored.
pub open spec fn matching(lines: Seq<Seq<u8>>, key: isize) -> Seq<Seq<u8>>
    decreases lines.len(),
{
    if lines.len() == 0 {
        Seq::<Seq<u8>>::empty()
    } else if line_key(lines.last()) == key {
        matching(lines.drop_last(), key).push(lines.last())
    } else {
        matching(lines.drop_last(), key)
    }
}

/// The position of the last line whose key is `key`, or -1 where no line
/// has that key.
pub open spec fn last_position(lines: Seq<Seq<u8>>, key: isize) -> int
    decreases lines.len(),
{
    if lines.len() == 0 {
        -1
    } else if line_key(lines.last()) == key {
        lines.len() - 1
    } else {
        last_position(lines.drop_last(), key)
    }
}

/// Every split has at least one piece.
pub proof fn lemma_split_nonempty(bytes: Seq<u8>, sep: u8)
    ensures
        split(bytes, sep).len() >= 1,
    decreases bytes.len(),
{
    if bytes.len() > 0 {
        lemma_split_nonempty(bytes.drop_last(), sep);
    }
}

/// `last_position` is the greatest position that holds `key`.
pub proof fn lemma_last_position(lines: Seq<Seq<u8>>, key: isize)
    ensures
        -1 <= last_position(lines, key) < lines.len(),
        last_position(lines, key) >= 0 ==> line_key(lines[last_position(lines, key)]) == key,
        forall|i: int|
            last_position(lines, key) < i < lines.len() ==> line_key(#[trigger] lines[i]) != key,
    decreases lines.len(),
{
    if lines.len() > 0 {
        lemma_last_position(lines.drop_last(), key);
        assert forall|i: int| last_position(lines, key) < i < lines.len() implies line_key(
            #[trigger] lines[i],
        ) != key by {
            if i < lines.len() - 1 {
                assert(lines.drop_last()[i] == lines[i]);
            }
        }
    }
}

/// The last of the matching lines is the line at `last_position`, and there
/// is a matching line exactly when that position exists.
pub proof fn lemma_matching_last(lines: Seq<Seq<u8>>, key: isize)
    ensures
        matching(lines, key).len() > 0 <==> last_position(lines, key) >= 0,
        last_position(lines, key) >= 0 ==> matching(lines, key).last() == lines[last_position(
            lines,
            key,
        )],
    decreases lines.len(),
{
    if lines.len() > 0 {
        lemma_matching_last(lines.drop_last(), key);
        lemma_last_position(lines.drop_last(), key);
        if line_key(lines.last()) != key && last_position(lines, key) >= 0 {
            assert(lines.drop_last()[last_position(lines, key)] == lines[last_position(lines, key)]);
        }
    }
}

/// A position that holds the key, with no later one that does, is the last
/// position; and -1 is, where no line holds the key.
pub proof fn lemma_last_position_is(lines: Seq<Seq<u8>>, key: isize, at: int)
    requires
        at == -1 || (0 <= at < lines.len() && line_key(lines[at]) == key),
        forall|i: int| at < i < lines.len() && 0 <= i ==> line_key(#[trigger] lines[i]) != key,
    ensures
        last_position(lines, key) == at,
{
    lemma_last_position(lines, key);
}

/// The length of `bytes` without the newlines at its end.
pub fn stripped_len(bytes: &[u8]) -> (n: usize)
    ensures
        n <= bytes@.len(),
        bytes@.take(n as int) == strip_newlines(bytes@),
{
    let mut n: usize = bytes.len();
    assert(bytes@.take(n as int) =~= bytes@);
    while n > 0 && bytes[n - 1] == NEWLINE
        invariant
            n <= bytes@.len(),
            strip_newlines(bytes@.take(n as int)) == strip_newlines(bytes@),
        decreases n,
    {
        assert(bytes@.take(n as int).drop_last() =~= bytes@.take(n - 1));
        n = n - 1;
    }
    n
}

/// The number of tabs of every line of a table that is made of `bytes`:
/// the newlines at the end of `bytes` are no lines.
pub fn tab_counts(bytes: &[u8]) -> (tabs: Vec<usize>)
    ensures
        tabs_of(tabs@, lines_of(strip_newlines(bytes@))),
{
    let n = stripped_len(bytes);
    let mut tabs: Vec<usize> = Vec::new();
    let mut current: usize = 0;
    let mut i: usize = 0;
    assert(bytes@.take(0) =~= Seq::<u8>::empty());
    while i < n
        invariant
            i <= n <= bytes@.len(),
            current <= i,
            tabs@.len() + 1 == lines_of(bytes@.take(i as int)).len(),
            forall|j: int|
                0 <= j < tabs@.len() ==> (#[trigger] tabs@[j]) + 1 == columns(
                    lines_of(bytes@.take(i as int))[j],
                ).len(),
            current + 1 == columns(lines_of(bytes@.take(i as int)).last()).len(),
        decreases n - i,
    {
        let byte = bytes[i];
        proof {
            let before = bytes@.take(i as int);
            let next = bytes@.take(i + 1);
            let line = lines_of(before).last();
            assert(next.drop_last() =~= before);
            assert(next.last() == byte);
            if byte != NEWLINE {
                assert(line.push(byte).drop_last() =~= line);
                assert(line.push(byte).last() == byte);
                lemma_split_nonempty(line, TAB);
            }
        }
        if byte == NEWLINE {
            tabs.push(current);
            current = 0;
        } else if byte == TAB {
            current = current + 1;
        }
        i = i + 1;
    }
    tabs.push(current);
    tabs
}

} // verus!
