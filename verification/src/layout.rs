//! Loading the input-method table from its JSON form: an object whose
//! members give, for each key, the list of its spellings.

use vstd::prelude::*;
use std::collections::BTreeMap;
use crate::model::{strings_view, TextConvert};

verus! {

/// The error of the JSON reader.
#[verifier::external_type_specification]
#[verifier::external_body]
pub struct ExJsonError(serde_json::Error);

/// Why a text is not a table.
#[derive(Debug, Clone, Copy, PartialEq, Eq)]
pub enum LayoutError {
    /// The text is not JSON.
    Syntax,
    /// The text is JSON, but not an object of lists of strings.
    Data,
    /// The text ends too early.
    Eof,
    /// The text could not be read.
    Io,
}

/// The table that a JSON text stands for, with its entries in the order of
/// their keys; nothing where the text is not an object of lists of strings.
pub uninterp spec fn json_table(text: Seq<char>) -> Option<Seq<(Seq<char>, Seq<Seq<char>>)>>;

/// The values of a sequence of entries.
pub open spec fn entries_view(entries: Seq<(String, Vec<String>)>) -> Seq<
    (Seq<char>, Seq<Seq<char>>),
> {
    Seq::new(
        entries.len(),
        |i: int| (entries[i].0@, strings_view(entries[i].1@)),
    )
}

/// Reads a JSON object of lists of strings. Stands for
/// `serde_json::from_str`, asked for a map ordered by its keys: the entries
/// come out in that order, and the reader's error where the text is not such
/// an object. The same text gives the same outcome every time.
#[verifier::external_body]
fn read_table(text: &str) -> (read: Result<Vec<(String, Vec<String>)>, serde_json::Error>)
    ensures
        match read {
            Ok(entries) => json_table(text@) == Some(entries_view(entries@)),
            Err(_) => json_table(text@) is None,
        },
{
    match serde_json::from_str::<BTreeMap<String, Vec<String>>>(text) {
        Ok(table) => Ok(Vec::from_iter(table)),
        Err(error) => Err(error),
    }
}

/// Tells the kinds of the reader's errors apart. Stands for
/// `serde_json::Error::classify`.
#[verifier::external_body]
fn error_kind(error: &serde_json::Error) -> LayoutError {
    match error.classify() {
        serde_json::error::Category::Io => LayoutError::Io,
        serde_json::error::Category::Syntax => LayoutError::Syntax,
        serde_json::error::Category::Data => LayoutError::Data,
        serde_json::error::Category::Eof => LayoutError::Eof,
    }
}

/// Loads a table from its JSON form.
pub fn layout_from_json(text: &str) -> (loaded: Result<TextConvert, LayoutError>)
    ensures
        match loaded {
            Ok(layout) => json_table(text@) == Some(layout@),
            Err(_) => json_table(text@) is None,
        },
{
    match read_table(text) {
        Ok(mapping) => Ok(TextConvert { mapping }),
        Err(error) => Err(error_kind(&error)),
    }
}

} // verus!
