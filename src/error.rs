//! The failures that the tools detect before any output is written.

use vstd::prelude::*;

verus! {

#[verifier::external_type_specification]
#[verifier::external_body]
pub struct ExRegexError(regex::Error);

/// Why a run stops before writing its output header.
#[derive(Debug)]
pub enum ToolError {
    /// The options select no pattern or column list, or more than one.
    Configuration,
    /// The regular expression does not compile.
    PatternCompile(regex::Error),
    /// A requested column is not in the input header.
    UnknownColumn(String),
    /// The column to append already exists in the input header.
    DuplicateColumn(String),
}

} // verus!
