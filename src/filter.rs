//! Keeping or dropping whole records by a pattern matched against one cell.

use vstd::prelude::*;
use crate::columns::{has_column, is_first_position, resolve_column};
use crate::error::ToolError;
use crate::pattern::Pattern;

verus! {

/// How many of `values` are true.
pub open spec fn count_true(values: Seq<bool>) -> nat
    decreases values.len(),
{
    if values.len() == 0 {
        0
    } else {
        count_true(values.drop_last()) + if values.last() {
            1nat
        } else {
            0nat
        }
    }
}

/// Whether exactly one of `values` is true.
pub fn exactly_one(values: &[bool]) -> (r: bool)
    ensures
        r == (count_true(values@) == 1),
{
    let mut n: usize = 0;
    let mut i: usize = 0;
    while i < values.len()
        invariant
            i <= values@.len(),
            n == count_true(values@.take(i as int)),
            n <= i,
        decreases values@.len() - i,
    {
        assert(values@.take(i as int + 1).drop_last() =~= values@.take(i as int));
        if values[i] {
            n = n + 1;
        }
        i = i + 1;
    }
    assert(values@.take(i as int) =~= values@);
    n == 1
}

/// Which kind of pattern was given, with its text: an expression, a fixed
/// string, or the location of a list of exact values.
pub enum PatternChoice {
    Regex(String),
    FixedString(String),
    File(String),
}

/// Checks that exactly one kind of pattern is given.
pub fn choose_pattern(
    regex: Option<String>,
    fixed_string: Option<String>,
    file_path: Option<String>,
) -> (r: Result<PatternChoice, ToolError>)
    ensures
        r is Ok <==> count_true(seq![regex is Some, fixed_string is Some, file_path is Some]) == 1,
        r matches Err(e) ==> e is Configuration,
        r matches Ok(PatternChoice::Regex(s)) ==> regex == Some(s),
        r matches Ok(PatternChoice::FixedString(s)) ==> fixed_string == Some(s),
        r matches Ok(PatternChoice::File(s)) ==> file_path == Some(s),
{
    let given = [regex.is_some(), fixed_string.is_some(), file_path.is_some()];
    assert(given@ =~= seq![regex is Some, fixed_string is Some, file_path is Some]);
    proof {
        reveal_with_fuel(count_true, 4);
    }
    if !exactly_one(&given) {
        return Err(ToolError::Configuration);
    }
    match (regex, fixed_string, file_path) {
        (Some(s), None, None) => Ok(PatternChoice::Regex(s)),
        (None, Some(s), None) => Ok(PatternChoice::FixedString(s)),
        (None, None, Some(s)) => Ok(PatternChoice::File(s)),
        _ => Err(ToolError::Configuration),
    }
}

/// A row filter: the column it reads, the pattern, and whether the
/// selection is inverted.
pub struct RowFilter {
    pub column: usize,
    pub pattern: Pattern,
    pub invert: bool,
}

impl RowFilter {
    /// Whether `record` is written: the pattern's verdict on the chosen
    /// cell, inverted when `invert` is set.
    pub open spec fn spec_keeps(&self, record: Seq<String>) -> bool {
        self.invert != self.pattern.spec_matches(record[self.column as int]@)
    }

    /// Resolves `column` against `header`.
    pub fn new(header: &Vec<String>, column: &String, pattern: Pattern, invert: bool) -> (r: Result<
        RowFilter,
        ToolError,
    >)
        ensures
            r is Ok <==> has_column(header@, column@),
            r matches Err(e) ==> e == ToolError::UnknownColumn(*column),
            r matches Ok(f) ==> {
                &&& is_first_position(header@, column@, f.column as int)
                &&& f.pattern == pattern
                &&& f.invert == invert
            },
    {
        match resolve_column(header, column) {
            Some(i) => Ok(RowFilter { column: i, pattern, invert }),
            None => Err(ToolError::UnknownColumn(column.clone())),
        }
    }

    /// Whether `record` is written.
    pub fn keeps(&self, record: &Vec<String>) -> (r: bool)
        requires
            self.column < record@.len(),
        ensures
            r == self.spec_keeps(record@),
    {
        self.pattern.keeps(self.invert, record[self.column].as_str())
    }
}

/// Inverting a filter reverses its verdict on every record.
pub proof fn lemma_invert_reverses(f: RowFilter, g: RowFilter, record: Seq<String>)
    requires
        g.column == f.column,
        g.pattern == f.pattern,
        g.invert == !f.invert,
        f.column < record.len(),
    ensures
        g.spec_keeps(record) == !f.spec_keeps(record),
{
}

} // verus!
