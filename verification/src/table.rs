//! The table handle: a table in memory together with what the handle reads
//! off its bytes when it opens it, the key and the number of columns of
//! every line.
//!
//! The handle finds the record that answers for a key by its own index, and
//! asks `textdb` only for what the record holds. The search of `textdb` may
//! run only for a key that the table holds, on a table that is sorted; on
//! any other table the handle reaches the record by its place.

use crate::outcome::LookupError;
use crate::render::{print_json, rendered};
use crate::source::{
    column_at, decodes, key_columns, line_col, matching_lines, parse_key,
    table_bytes, table_from_bytes, table_from_text, table_lines, RawTable,
};
use crate::text::{
    column_or_empty, columns, key_column, last_position, lemma_last_position,
    lemma_last_position_is,
    lemma_matching_last, line_key, records_of, sorted_by_key, stripped_len, strip_newlines,
    tab_counts, tabs_of,
};
use vstd::prelude::*;
use vstd::utf8::*;

verus! {

/// Whether the items of `keys` never decrease.
pub open spec fn nondecreasing(keys: Seq<isize>) -> bool {
    forall|i: int, j: int| 0 <= i <= j < keys.len() ==> #[trigger] keys[i] <= #[trigger] keys[j]
}

/// Whether `keys` holds the key of every line of `lines`, in order.
pub open spec fn keys_of(keys: Seq<isize>, lines: Seq<Seq<u8>>) -> bool {
    &&& keys.len() == lines.len()
    &&& forall|i: int| 0 <= i < lines.len() ==> keys[i] == line_key(#[trigger] lines[i])
}

/// Whether `at` is the last place of `key` among `keys`, or no place where
/// `key` is not among them.
pub open spec fn is_last_place(keys: Seq<isize>, key: isize, at: Option<usize>) -> bool {
    match at {
        Some(place) => {
            &&& place < keys.len()
            &&& keys[place as int] == key
            &&& forall|i: int| place < i < keys.len() ==> keys[i] != key
        },
        None => forall|i: int| 0 <= i < keys.len() ==> keys[i] != key,
    }
}

/// An opened table, read-only, with the key and the number of tabs of each
/// of its lines.
///
/// Its view is the sequence of its records, each as the bytes of its line.
pub struct TableHandle {
    table: RawTable,
    keys: Vec<isize>,
    tabs: Vec<usize>,
    sorted: bool,
    empty: bool,
}

impl View for TableHandle {
    type V = Seq<Seq<u8>>;

    closed spec fn view(&self) -> Seq<Seq<u8>> {
        records_of(table_bytes(self.table))
    }
}

/// The key of a line, from its decoded key column.
fn key_of_column(col: &Result<&str, core::str::Utf8Error>, Ghost(line): Ghost<Seq<u8>>) -> (key:
    isize)
    requires
        decodes(*col, key_column(line)),
    ensures
        key == line_key(line),
{
    match col {
        Ok(text) => match parse_key(text) {
            Some(key) => key,
            None => 0,
        },
        Err(_) => 0,
    }
}

/// Whether the items of `keys` never decrease.
fn is_nondecreasing(keys: &Vec<isize>) -> (sorted: bool)
    ensures
        sorted == nondecreasing(keys@),
{
    if keys.len() < 2 {
        return true;
    }
    let mut i: usize = 1;
    while i < keys.len()
        invariant
            1 <= i <= keys.len(),
            nondecreasing(keys@.take(i as int)),
        decreases keys.len() - i,
    {
        if keys[i - 1] > keys[i] {
            return false;
        }
        proof {
            let ghost before = keys@.take(i as int);
            let ghost next = keys@.take(i + 1);
            assert forall|a: int, b: int| 0 <= a <= b < next.len() implies #[trigger] next[a]
                <= #[trigger] next[b] by {
                if b < i {
                    assert(before[a] <= before[b]);
                } else if a < i {
                    assert(before[a] <= before[i - 1]);
                }
            }
        }
        i = i + 1;
    }
    assert(keys@.take(i as int) =~= keys@);
    true
}

/// The last place of `key` among keys that never decrease, by bisection.
fn last_place_sorted(keys: &Vec<isize>, key: isize) -> (at: Option<usize>)
    requires
        nondecreasing(keys@),
    ensures
        is_last_place(keys@, key, at),
{
    let mut low: usize = 0;
    let mut high: usize = keys.len();
    while low < high
        invariant
            low <= high <= keys.len(),
            nondecreasing(keys@),
            forall|i: int| 0 <= i < low ==> keys[i] <= key,
            forall|i: int| high <= i < keys.len() ==> keys[i] > key,
        decreases high - low,
    {
        let mid = low + (high - low) / 2;
        if keys[mid] <= key {
            low = mid + 1;
        } else {
            high = mid;
        }
    }
    if low > 0 && keys[low - 1] == key {
        Some(low - 1)
    } else {
        assert forall|i: int| 0 <= i < keys.len() implies keys[i] != key by {
            if i < low {
                assert(keys@[i] <= keys@[low - 1]);
            }
        }
        None
    }
}

/// The last place of `key` among any keys, by looking at each from the end.
fn last_place_unsorted(keys: &Vec<isize>, key: isize) -> (at: Option<usize>)
    ensures
        is_last_place(keys@, key, at),
{
    let mut i: usize = keys.len();
    while i > 0
        invariant
            i <= keys.len(),
            forall|j: int| i <= j < keys.len() ==> keys[j] != key,
        decreases i,
    {
        if keys[i - 1] == key {
            return Some(i - 1);
        }
        i = i - 1;
    }
    None
}

/// The last place of a key among the keys of some lines is the last position
/// of the key among the lines.
proof fn lemma_last_place(keys: Seq<isize>, lines: Seq<Seq<u8>>, key: isize, at: Option<usize>)
    requires
        keys_of(keys, lines),
        is_last_place(keys, key, at),
    ensures
        match at {
            Some(place) => last_position(lines, key) == place,
            None => last_position(lines, key) == -1,
        },
{
    match at {
        Some(place) => {
            assert(line_key(lines[place as int]) == key);
            assert forall|i: int| place < i < lines.len() && 0 <= i implies line_key(
                #[trigger] lines[i],
            ) != key by {
                assert(keys[i] != key);
            }
            lemma_last_position_is(lines, key, place as int);
        },
        None => {
            assert forall|i: int| -1 < i < lines.len() && 0 <= i implies line_key(
                #[trigger] lines[i],
            ) != key by {
                assert(keys[i] != key);
            }
            lemma_last_position_is(lines, key, -1);
        },
    }
}

/// The keys are sorted exactly when the lines are sorted by key.
proof fn lemma_sorted_keys(keys: Seq<isize>, lines: Seq<Seq<u8>>)
    requires
        keys_of(keys, lines),
    ensures
        nondecreasing(keys) <==> sorted_by_key(lines),
{
    if nondecreasing(keys) {
        assert forall|i: int, j: int| 0 <= i <= j < lines.len() implies line_key(
            #[trigger] lines[i],
        ) <= line_key(#[trigger] lines[j]) by {
            assert(keys[i] <= keys[j]);
        }
    }
    if sorted_by_key(lines) {
        assert forall|i: int, j: int| 0 <= i <= j < keys.len() implies keys[i] <= keys[j] by {
            assert(line_key(lines[i]) <= line_key(lines[j]));
        }
    }
}

impl TableHandle {
    #[verifier::type_invariant]
    spec fn inv(&self) -> bool {
        &&& keys_of(self.keys@, table_lines(self.table))
        &&& tabs_of(self.tabs@, table_lines(self.table))
        &&& self.sorted == sorted_by_key(table_lines(self.table))
        &&& self.empty == (table_bytes(self.table).len() == 0)
    }

    /// Reads the key of every line of `table` once.
    fn index(table: RawTable, tabs: Vec<usize>, empty: bool) -> (handle: TableHandle)
        requires
            tabs_of(tabs@, table_lines(table)),
            empty == (table_bytes(table).len() == 0),
        ensures
            handle@ == records_of(table_bytes(table)),
    {
        let cols = key_columns(&table);
        let ghost lines = table_lines(table);
        let mut keys: Vec<isize> = Vec::new();
        let mut i: usize = 0;
        while i < cols.len()
            invariant
                i <= cols.len(),
                cols@.len() == lines.len(),
                forall|j: int| 0 <= j < cols@.len() ==> decodes(#[trigger] cols@[j], key_column(lines[j])),
                keys@.len() == i,
                forall|j: int| 0 <= j < i ==> keys@[j] == line_key(#[trigger] lines[j]),
            decreases cols.len() - i,
        {
            let key = key_of_column(&cols[i], Ghost(lines[i as int]));
            keys.push(key);
            i = i + 1;
        }
        let sorted = is_nondecreasing(&keys);
        proof {
            lemma_sorted_keys(keys@, lines);
        }
        TableHandle { table, keys, tabs, sorted, empty }
    }

    /// Opens a table from bytes that need not be text.
    ///
    /// The records of the table are the lines of the bytes; newlines at the
    /// end of the bytes are no lines.
    pub fn from_bytes(bytes: &[u8]) -> (handle: TableHandle)
        ensures
            handle@ == records_of(strip_newlines(bytes@)),
    {
        let tabs = tab_counts(bytes);
        let empty = stripped_len(bytes) == 0;
        let table = table_from_bytes(bytes);
        TableHandle::index(table, tabs, empty)
    }

    /// The number of records.
    pub fn len(&self) -> (n: usize)
        ensures
            n == self@.len(),
    {
        proof {
            use_type_invariant(self);
        }
        if self.empty {
            0
        } else {
            self.keys.len()
        }
    }

    /// Whether the records are sorted by key.
    pub fn is_sorted(&self) -> (sorted: bool)
        ensures
            sorted == sorted_by_key(self@),
    {
        proof {
            use_type_invariant(self);
        }
        self.empty || self.sorted
    }

    /// The position of the record that answers for `key`: the last of the
    /// records that have the key, wherever in the table it stands. There is
    /// none where no record has the key.
    pub fn position_of(&self, key: isize) -> (at: Option<usize>)
        ensures
            match at {
                Some(place) => last_position(self@, key) == place,
                None => last_position(self@, key) == -1,
            },
    {
        proof {
            use_type_invariant(self);
            lemma_sorted_keys(self.keys@, table_lines(self.table));
        }
        if self.empty {
            return None;
        }
        let at = if self.sorted {
            last_place_sorted(&self.keys, key)
        } else {
            last_place_unsorted(&self.keys, key)
        };
        proof {
            lemma_last_place(self.keys@, table_lines(self.table), key, at);
        }
        at
    }

    /// Whether a record has the key `key`.
    pub fn contains_key(&self, key: isize) -> (found: bool)
        ensures
            found == (last_position(self@, key) >= 0),
    {
        self.position_of(key).is_some()
    }

    /// Whether the record at `at` has a column `col`. No record stands past
    /// the last, so there the answer is no.
    pub fn has_column(&self, at: usize, col: usize) -> (has: bool)
        ensures
            has == (at < self@.len() && col < columns(self@[at as int]).len()),
    {
        proof {
            use_type_invariant(self);
        }
        !self.empty && at < self.tabs.len() && col <= self.tabs[at]
    }

    /// Column `col` of the record at `at`, rendered, where `at` is the
    /// position of the record that answers for `key`; the failure to decode
    /// it where it is not text.
    pub(crate) fn rendered_cell(&self, at: usize, key: isize, col: usize) -> (cell: Result<
        String,
        LookupError,
    >)
        requires
            last_position(self@, key) == at,
        ensures
            match cell {
                Ok(text) => valid_utf8(column_or_empty(self@[at as int], col as int)) && text@
                    == rendered(decode_utf8(column_or_empty(self@[at as int], col as int))),
                Err(error) => !valid_utf8(column_or_empty(self@[at as int], col as int)) && error
                    == LookupError::Decode,
            },
    {
        proof {
            use_type_invariant(self);
            lemma_last_position(self@, key);
        }
        if self.sorted {
            let mut lines = matching_lines(&self.table, key);
            proof {
                lemma_matching_last(table_lines(self.table), key);
            }
            match lines.pop() {
                Some(line) => print_json(line_col(&line, col)),
                None => Err(LookupError::Decode),
            }
        } else {
            match column_at(&self.table, col, at) {
                Some(text) => print_json(text),
                None => Err(LookupError::Decode),
            }
        }
    }
}

/// Opens a table from the text of a file whose lines are records, each a key
/// and its values, separated by tabs. Newlines at the end of the text are no
/// lines.
pub fn read_table(text: String) -> (handle: TableHandle)
    ensures
        handle@ == records_of(strip_newlines(encode_utf8(text@))),
{
    let tabs = tab_counts(text.as_str().as_bytes());
    let empty = stripped_len(text.as_str().as_bytes()) == 0;
    let table = table_from_text(text);
    TableHandle::index(table, tabs, empty)
}

} // verus!
