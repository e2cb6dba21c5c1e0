//! A small parsing library for a speaker-history command line tool: a
//! free-text name splitter, a slash-separated date parser, and the error
//! type they share. The parsers are pure and stateless; every function
//! here carries a contract that pins its result down.
use vstd::prelude::*;

pub mod day;
pub mod error;
pub mod name;
pub mod text;

verus! {

/// Command-line arguments of the tool: the path of the history file
/// whose rows are listed.
#[derive(Debug)]
pub struct Args {
    pub history_file: String,
}

} // verus!
