//! The cell matchers: a regular expression, a fixed string, or a set of
//! exact values.

use vstd::prelude::*;
use regex::Regex;
use crate::error::ToolError;
use crate::text::{contains_text, occurs_in, split_lines, text_lines, texts};

verus! {

#[verifier::external_type_specification]
#[verifier::external_body]
pub struct ExRegex(Regex);

/// Whether `pattern` is a regular expression that compiles.
pub uninterp spec fn regex_compiles(pattern: Seq<char>) -> bool;

/// Whether the regular expression `pattern` matches somewhere in `cell`.
pub uninterp spec fn regex_finds(pattern: Seq<char>, cell: Seq<char>) -> bool;

/// `cell` with every non-overlapping match of `pattern` replaced by
/// `replacement`, in which `$name` and `${name}` stand for capture groups.
pub uninterp spec fn regex_replaced(
    pattern: Seq<char>,
    cell: Seq<char>,
    replacement: Seq<char>,
) -> Seq<char>;

/// Relies on regex::Regex::new, which fails exactly on a pattern that does
/// not compile (a syntax error, or over the default size limit).
#[verifier::external_body]
fn compile_regex(pattern: &str) -> (r: Result<Regex, regex::Error>)
    ensures
        r is Ok == regex_compiles(pattern@),
{
    Regex::new(pattern)
}

/// A compiled regular expression together with the text it was compiled
/// from. Only `CompiledRegex::new` builds one, so the two always agree.
pub struct CompiledRegex {
    re: Regex,
    source: String,
}

impl CompiledRegex {
    /// The text this expression was compiled from.
    pub closed spec fn source(&self) -> Seq<char> {
        self.source@
    }

    /// Compiles `pattern`.
    pub fn new(pattern: &str) -> (r: Result<CompiledRegex, regex::Error>)
        ensures
            r is Ok == regex_compiles(pattern@),
            r matches Ok(c) ==> c.source() == pattern@,
    {
        match compile_regex(pattern) {
            Ok(re) => Ok(CompiledRegex { re, source: pattern.to_owned() }),
            Err(e) => Err(e),
        }
    }

    /// The text this expression was compiled from.
    pub fn source_text(&self) -> (r: &str)
        ensures
            r@ == self.source(),
    {
        self.source.as_str()
    }
}

/// Relies on regex::Regex::find: it returns a match exactly when the
/// expression matches somewhere in the haystack. `c.re` was compiled from
/// `c.source`.
#[verifier::external_body]
fn regex_find(c: &CompiledRegex, cell: &str) -> (r: bool)
    ensures
        r == regex_finds(c.source(), cell@),
{
    c.re.find(cell).is_some()
}

/// Relies on regex::Regex::replace_all: every non-overlapping match is
/// replaced, with capture-group references expanded. `c.re` was compiled
/// from `c.source`.
#[verifier::external_body]
pub(crate) fn regex_replace_all(c: &CompiledRegex, cell: &str, replacement: &str) -> (r: String)
    ensures
        r@ == regex_replaced(c.source(), cell@, replacement@),
{
    c.re.replace_all(cell, replacement).into_owned()
}

/// Whether some entry of `set` is exactly `cell`.
pub open spec fn in_exact_set(set: Seq<String>, cell: Seq<char>) -> bool {
    exists|i: int| 0 <= i < set.len() && (#[trigger] set[i])@ == cell
}

fn exact_member(set: &Vec<String>, cell: &str) -> (r: bool)
    ensures
        r == in_exact_set(set@, cell@),
{
    let owned = cell.to_owned();
    let mut i: usize = 0;
    while i < set.len()
        invariant
            owned@ == cell@,
            i <= set@.len(),
            forall|j: int| 0 <= j < i ==> (#[trigger] set@[j])@ != cell@,
        decreases set@.len() - i,
    {
        if set[i] == owned {
            assert(set@[i as int]@ == cell@);
            return true;
        }
        i = i + 1;
    }
    false
}

/// The matching rule applied to one cell of each record.
pub enum Pattern {
    /// A match of the expression anywhere in the cell.
    Regex(CompiledRegex),
    /// The string anywhere in the cell.
    FixedString(String),
    /// The whole cell equal to one of the entries.
    ExactSet(Vec<String>),
}

impl Pattern {
    /// Whether this pattern matches `cell`.
    pub open spec fn spec_matches(&self, cell: Seq<char>) -> bool {
        match self {
            Pattern::Regex(c) => regex_finds(c.source(), cell),
            Pattern::FixedString(f) => occurs_in(f@, cell),
            Pattern::ExactSet(set) => in_exact_set(set@, cell),
        }
    }

    /// A regular-expression pattern, or the compile error.
    pub fn from_regex(pattern: &str) -> (r: Result<Pattern, ToolError>)
        ensures
            r is Ok == regex_compiles(pattern@),
            r matches Ok(p) ==> p matches Pattern::Regex(c) && c.source() == pattern@,
            r matches Err(e) ==> e is PatternCompile,
    {
        match CompiledRegex::new(pattern) {
            Ok(c) => Ok(Pattern::Regex(c)),
            Err(e) => Err(ToolError::PatternCompile(e)),
        }
    }

    /// An exact-set pattern whose entries are the lines of `text`.
    pub fn exact_set_from_text(text: &str) -> (r: Pattern)
        ensures
            r matches Pattern::ExactSet(set) && texts(set@) == text_lines(text@),
    {
        Pattern::ExactSet(split_lines(text))
    }

    /// Whether this pattern matches `cell`.
    pub fn matches(&self, cell: &str) -> (r: bool)
        ensures
            r == self.spec_matches(cell@),
    {
        match self {
            Pattern::Regex(c) => regex_find(c, cell),
            Pattern::FixedString(f) => contains_text(cell, f.as_str()),
            Pattern::ExactSet(set) => exact_member(set, cell),
        }
    }

    /// Whether a record whose cell is `cell` is kept: the match, inverted
    /// when `invert` is set.
    pub fn keeps(&self, invert: bool, cell: &str) -> (r: bool)
        ensures
            r == (invert != self.spec_matches(cell@)),
    {
        invert != self.matches(cell)
    }
}

} // verus!
