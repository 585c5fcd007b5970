//! Rendering of a value: pretty-printed where it is JSON, unchanged where
//! it is not.

use crate::outcome::LookupError;
use vstd::prelude::*;

verus! {

#[verifier::external_type_specification]
#[verifier::external_body]
pub struct ExJsonError(serde_json::Error);

#[verifier::external_type_specification]
#[verifier::external_body]
pub struct ExUtf8Error(core::str::Utf8Error);

/// The pretty, multi-line form of `text` read as JSON, or `None` where
/// `text` is not JSON.
pub uninterp spec fn json_pretty(text: Seq<char>) -> Option<Seq<char>>;

/// The rendered form of a value: its pretty form where it has one, and the
/// value itself where it has none.
pub open spec fn rendered(raw: Seq<char>) -> Seq<char> {
    match json_pretty(raw) {
        Some(pretty) => pretty,
        None => raw,
    }
}

/// Reads `json_str` with `serde_json::from_str` into a `serde_json::Value`
/// and writes that value back with `serde_json::to_string_pretty`.
///
/// Trusted: the result is a function of the text alone, named
/// [`json_pretty`]; it is an error exactly where `json_pretty` is `None`.
#[verifier::external_body]
fn pretty_print_json(json_str: &str) -> (pretty: Result<String, serde_json::Error>)
    ensures
        match pretty {
            Ok(text) => json_pretty(json_str@) == Some(text@),
            Err(_) => json_pretty(json_str@) is None,
        },
{
    let parsed: serde_json::Value = serde_json::from_str(json_str)?;
    serde_json::to_string_pretty(&parsed)
}

/// Chooses between the pretty form of a value and the value itself: the
/// pretty form where there is one, the raw text otherwise.
pub fn render_with(raw: &str, pretty: Result<String, serde_json::Error>) -> (out: String)
    ensures
        out@ == (match pretty {
            Ok(text) => text@,
            Err(_) => raw@,
        }),
{
    match pretty {
        Ok(text) => text,
        Err(_) => raw.to_owned(),
    }
}

/// Renders a value for display. Text that is not JSON comes back unchanged.
pub fn render(raw: &str) -> (out: String)
    ensures
        out@ == rendered(raw@),
        json_pretty(raw@) is None ==> out@ == raw@,
{
    let pretty = pretty_print_json(raw);
    render_with(raw, pretty)
}

/// Renders a decoded column, or passes on the failure to decode it.
pub fn print_json(json_str: Result<&str, core::str::Utf8Error>) -> (out: Result<
    String,
    LookupError,
>)
    ensures
        match json_str {
            Ok(raw) => out matches Ok(text) && text@ == rendered(raw@),
            Err(_) => out == Err::<String, LookupError>(LookupError::Decode),
        },
{
    match json_str {
        Ok(raw) => Ok(render(raw)),
        Err(_) => Err(LookupError::Decode),
    }
}

} // verus!
