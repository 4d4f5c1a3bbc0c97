//! Motivational quote library: a JSON-backed quote collection with tag
//! filtering and random or exhaustive selection.
//!
//! The pipeline is load -> filter -> present: [`json::load`] turns source
//! text into an [`quotes::AllQuotes`] collection, [`filter::filter`] narrows
//! it to a tag, and [`present::present`] produces the lines to print.
//! [`run_quotes`] chains the three.

use vstd::prelude::*;

pub mod filter;
pub mod json;
pub mod present;
pub mod quotes;

use crate::filter::{filter, filter_spec, lower_of};
use crate::json::{load, parse_doc, ParseError};
use crate::present::{present, present_post};
use crate::quotes::Quote;

verus! {

/// The resolved command-line configuration that the pipeline consumes.
pub struct Config {
    /// Path of the quotes file; absent means the built-in collection.
    pub file_path: Option<String>,
    /// Case-insensitive tag to filter by; absent or empty means no filter.
    pub tag: Option<String>,
    /// Print every quote of the (filtered) collection instead of one.
    pub show_all: bool,
    /// Suppress the banner shown when no quotes file was given.
    pub quiet_output: bool,
}

/// The quotes source named by the configuration: the given file path, or
/// the text of the built-in collection where none was given.
pub fn get_file_name(f: &Option<String>) -> (r: String)
    ensures
        match f {
            Some(p) => r@ == p@,
            None => r@ == quotes::built_in_text(),
        },
{
    match f {
        Some(p) => p.clone(),
        None => Quote::built_in_quotes(),
    }
}

/// Run the pipeline on source text: parse the quotes document, narrow it to
/// the tag, and produce the lines to print. The tag filter applies first;
/// `show_all` only chooses between printing the whole filtered collection
/// and one random pick from it.
pub fn run_quotes(text: &str, tag: &String, show_all: bool) -> (r: Result<Vec<String>, ParseError>)
    ensures
        match r {
            Ok(lines) => parse_doc(text@) matches Some(qs) && present_post(
                if tag@.len() == 0 {
                    qs
                } else {
                    filter_spec(qs, lower_of(tag@))
                },
                show_all,
                lines.deep_view(),
            ),
            Err(_) => parse_doc(text@) is None,
        },
{
    let c = match load(text) {
        Ok(c) => c,
        Err(e) => {
            return Err(e);
        },
    };
    let narrowed = filter(&c, tag);
    let lines = present(&narrowed, show_all);
    Ok(lines)
}

} // verus!
