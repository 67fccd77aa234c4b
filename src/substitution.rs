//! Rewriting one cell of every record by regular-expression replacement,
//! in place or into an appended column.

use vstd::prelude::*;
use crate::columns::{has_column, is_first_position, resolve_column};
use crate::error::ToolError;
use crate::text::texts;
use crate::pattern::{regex_replace_all, regex_replaced, CompiledRegex};

verus! {

/// A substitution: the source column, the expression and its replacement,
/// and whether the result goes to an appended column.
pub struct Substitution {
    pub column: usize,
    pub width: usize,
    pub append: bool,
    pub pattern: CompiledRegex,
    pub replacement: String,
}

/// The header after a substitution: unchanged in place, or with
/// `result_column` appended.
pub open spec fn substituted_header(header: Seq<String>, result_column: Option<String>) -> Seq<
    String,
> {
    match result_column {
        Some(name) => header.push(name),
        None => header,
    }
}

impl Substitution {
    pub open spec fn wf(&self) -> bool {
        self.column < self.width
    }

    /// The rewritten text of `cell`.
    pub open spec fn spec_rewrite(&self, cell: Seq<char>) -> Seq<char> {
        regex_replaced(self.pattern.source(), cell, self.replacement@)
    }

    /// Whether `r` is the output for `record`: every input cell kept, and
    /// the rewritten source cell appended or put in its place.
    pub open spec fn spec_output(&self, record: Seq<String>, r: Seq<String>) -> bool {
        let new_cell = self.spec_rewrite(record[self.column as int]@);
        if self.append {
            &&& r.len() == record.len() + 1
            &&& r.take(record.len() as int) == record
            &&& r.last()@ == new_cell
        } else {
            &&& r.len() == record.len()
            &&& forall|k: int| 0 <= k < r.len() && k != self.column ==> #[trigger] r[k] == record[k]
            &&& r[self.column as int]@ == new_cell
        }
    }

    /// Resolves `column` against `header` and checks that `result_column`,
    /// if given, is new. Returns the substitution and the output header.
    pub fn new(
        header: &Vec<String>,
        column: &String,
        result_column: Option<String>,
        pattern: CompiledRegex,
        replacement: String,
    ) -> (r: Result<(Substitution, Vec<String>), ToolError>)
        ensures
            r is Ok <==> (has_column(header@, column@) && !(result_column is Some && has_column(
                header@,
                result_column->0@,
            ))),
            !has_column(header@, column@) ==> r == Err::<(Substitution, Vec<String>), ToolError>(
                ToolError::UnknownColumn(*column),
            ),
            has_column(header@, column@) && result_column is Some && has_column(
                header@,
                result_column->0@,
            ) ==> r == Err::<(Substitution, Vec<String>), ToolError>(
                ToolError::DuplicateColumn(result_column->0),
            ),
            r matches Ok((s, out_header)) ==> {
                &&& s.wf()
                &&& s.width == header@.len()
                &&& is_first_position(header@, column@, s.column as int)
                &&& s.append == result_column is Some
                &&& s.pattern == pattern
                &&& s.replacement == replacement
                &&& out_header@ == substituted_header(header@, result_column)
            },
    {
        let i = match resolve_column(header, column) {
            Some(i) => i,
            None => {
                return Err(ToolError::UnknownColumn(column.clone()));
            },
        };
        let mut out_header = header.clone();
        assert(out_header@ == header@);
        let append = result_column.is_some();
        match result_column {
            Some(name) => {
                if resolve_column(header, &name).is_some() {
                    return Err(ToolError::DuplicateColumn(name));
                }
                out_header.push(name);
            },
            None => {},
        }
        Ok((Substitution { column: i, width: header.len(), append, pattern, replacement }, out_header))
    }

    /// The output record for `record`, a record of the resolved header's width.
    pub fn apply(&self, record: &Vec<String>) -> (r: Vec<String>)
        requires
            self.wf(),
            record@.len() == self.width,
        ensures
            self.spec_output(record@, r@),
    {
        let new_cell = regex_replace_all(
            &self.pattern,
            record[self.column].as_str(),
            self.replacement.as_str(),
        );
        let mut out = record.clone();
        assert(out@ == record@);
        if self.append {
            out.push(new_cell);
            assert(out@.take(record@.len() as int) =~= record@);
        } else {
            out.set(self.column, new_cell);
        }
        out
    }
}

/// An appended substitution leaves every input cell as it was, the source
/// cell included.
pub proof fn lemma_append_keeps_source(s: Substitution, record: Seq<String>, r: Seq<String>)
    requires
        s.wf(),
        s.append,
        record.len() == s.width,
        s.spec_output(record, r),
    ensures
        r[s.column as int] == record[s.column as int],
        forall|k: int| 0 <= k < record.len() ==> #[trigger] r[k] == record[k],
{
    assert forall|k: int| 0 <= k < record.len() implies #[trigger] r[k] == record[k] by {
        assert(r.take(record.len() as int)[k] == r[k]);
    }
}

/// A substitution gives the same output text whenever it is given the same
/// record: its output depends on nothing but its input.
pub proof fn lemma_output_determined(
    s: Substitution,
    record: Seq<String>,
    r1: Seq<String>,
    r2: Seq<String>,
)
    requires
        s.wf(),
        record.len() == s.width,
        s.spec_output(record, r1),
        s.spec_output(record, r2),
    ensures
        texts(r1) == texts(r2),
{
    if s.append {
        lemma_append_keeps_source(s, record, r1);
        lemma_append_keeps_source(s, record, r2);
        assert(r1.last() == r1[record.len() as int]);
        assert(texts(r1) =~= texts(r2));
    } else {
        assert(texts(r1) =~= texts(r2)) by {
            assert forall|k: int| 0 <= k < r1.len() implies texts(r1)[k] == texts(r2)[k] by {
                if k != s.column {
                    assert(r1[k] == record[k]);
                    assert(r2[k] == record[k]);
                }
            }
        }
    }
}

} // verus!
