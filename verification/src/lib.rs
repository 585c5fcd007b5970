//! Batch lookups of integer keys in a sorted, tab-separated table.
//!
//! A table is opened once ([`read_table`]) and then asked for batches of keys
//! ([`get_key`]). Each key of a batch gets an outcome of its own: the value
//! of the requested column, pretty-printed where it is JSON; "not found";
//! or a failure that concerns that key alone.

pub mod args;
pub mod outcome;
pub mod render;
pub mod report;
pub mod search;
mod source;
pub mod table;
pub mod text;
pub mod theorems;

pub use args::{parse_column, parse_keys, DEFAULT_COLUMN};
pub use outcome::{LookupError, LookupResult};
pub use render::{print_json, render, render_with};
pub use report::{key_text, report_line};
pub use search::{get_key, lookup_key, BatchReport, KeyOutcome};
pub use table::{read_table, TableHandle};
