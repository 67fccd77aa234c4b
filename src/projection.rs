//! Keeping or dropping columns of every record.

use vstd::prelude::*;
use crate::columns::{
    all_present, drop_columns, excluded, has_column, included, is_first_position, resolve_spec,
    spec_names, take_columns,
};
use crate::error::ToolError;
use crate::text::split_at_sep;

verus! {

/// Which column list was given: the columns to keep, in output order, or
/// the columns to drop.
pub enum ColumnChoice {
    Keep(String),
    Omit(String),
}

impl ColumnChoice {
    pub open spec fn spec_list(&self) -> Seq<char> {
        match self {
            ColumnChoice::Keep(s) => s@,
            ColumnChoice::Omit(s) => s@,
        }
    }

    pub open spec fn is_keep(&self) -> bool {
        self is Keep
    }
}

/// Checks that exactly one of the two column lists is given.
pub fn choose_columns(keep_listed: Option<String>, omit: Option<String>) -> (r: Result<
    ColumnChoice,
    ToolError,
>)
    ensures
        r is Ok <==> (keep_listed is Some != omit is Some),
        r matches Err(e) ==> e is Configuration,
        r matches Ok(ColumnChoice::Keep(s)) ==> keep_listed == Some(s),
        r matches Ok(ColumnChoice::Omit(s)) ==> omit == Some(s),
{
    match (keep_listed, omit) {
        (Some(s), None) => Ok(ColumnChoice::Keep(s)),
        (None, Some(s)) => Ok(ColumnChoice::Omit(s)),
        _ => Err(ToolError::Configuration),
    }
}

/// Resolved column positions for a header of `width` columns.
pub struct Projection {
    pub keep_listed: bool,
    pub indices: Vec<usize>,
    pub width: usize,
}

impl Projection {
    pub open spec fn wf(&self) -> bool {
        forall|k: int| 0 <= k < self.indices@.len() ==> #[trigger] self.indices@[k] < self.width
    }

    /// The cells of `record` that this projection outputs.
    pub open spec fn spec_apply(&self, record: Seq<String>) -> Seq<String> {
        if self.keep_listed {
            included(record, self.indices@)
        } else {
            excluded(record, self.indices@)
        }
    }

    /// Resolves the column list of `choice` against `header`. Fails on the
    /// first listed name that `header` lacks.
    pub fn new(header: &Vec<String>, choice: &ColumnChoice) -> (r: Result<Projection, ToolError>)
        ensures
            r is Ok <==> all_present(header@, spec_names(choice.spec_list())),
            r matches Err(e) ==> e matches ToolError::UnknownColumn(name) && spec_names(
                choice.spec_list(),
            ).contains(name@) && !has_column(header@, name@),
            r matches Ok(p) ==> {
                &&& p.wf()
                &&& p.width == header@.len()
                &&& p.keep_listed == choice.is_keep()
                &&& p.indices@.len() == spec_names(choice.spec_list()).len()
                &&& forall|k: int|
                    0 <= k < p.indices@.len() ==> is_first_position(
                        header@,
                        spec_names(choice.spec_list())[k],
                        #[trigger] p.indices@[k] as int,
                    )
            },
    {
        let (keep_listed, list) = match choice {
            ColumnChoice::Keep(s) => (true, s),
            ColumnChoice::Omit(s) => (false, s),
        };
        match resolve_spec(header, list.as_str()) {
            Ok(indices) => {
                let p = Projection { keep_listed, indices, width: header.len() };
                assert(p.wf()) by {
                    assert forall|k: int| 0 <= k < p.indices@.len() implies #[trigger] p.indices@[k]
                        < p.width by {
                        assert(is_first_position(
                            header@,
                            spec_names(list@)[k],
                            p.indices@[k] as int,
                        ));
                    }
                }
                Ok(p)
            },
            Err(name) => {
                proof {
                    let k = choose|k: int|
                        0 <= k < spec_names(list@).len() && spec_names(list@)[k] == name@
                            && !has_column(header@, name@) && all_present(
                            header@,
                            spec_names(list@).take(k),
                        );
                    assert(spec_names(list@)[k] == name@);
                }
                Err(ToolError::UnknownColumn(name))
            },
        }
    }

    /// The output cells for `record`, a record of the resolved header's width.
    pub fn apply(&self, record: &Vec<String>) -> (r: Vec<String>)
        requires
            self.wf(),
            record@.len() == self.width,
        ensures
            r@ == self.spec_apply(record@),
    {
        if self.keep_listed {
            take_columns(record, &self.indices)
        } else {
            drop_columns(record, &self.indices)
        }
    }
}

/// Keeping listed columns puts them in the order of the list, repeated as
/// often as the list repeats them, whatever their order in the header.
pub proof fn lemma_kept_columns_follow_list(
    header: Seq<String>,
    list: Seq<char>,
    indices: Seq<usize>,
    record: Seq<String>,
)
    requires
        indices.len() == spec_names(list).len(),
        forall|k: int|
            0 <= k < indices.len() ==> is_first_position(
                header,
                spec_names(list)[k],
                #[trigger] indices[k] as int,
            ),
        record.len() == header.len(),
    ensures
        included(record, indices).len() == split_at_sep(list, ',').len(),
        forall|k: int|
            0 <= k < indices.len() ==> #[trigger] included(record, indices)[k] == record[indices[k] as int]
                && header[indices[k] as int]@ == split_at_sep(list, ',')[k],
{
}

/// Dropping one column keeps the others in their original relative order.
pub proof fn lemma_dropping_one_column(record: Seq<String>, b: usize)
    requires
        b < record.len() <= usize::MAX,
    ensures
        excluded(record, seq![b]) == record.take(b as int) + record.skip(b as int + 1),
    decreases record.len(),
{
    let n = record.len();
    if n - 1 == b {
        assert(seq![b][0] == b);
        assert(seq![b].contains((n - 1) as usize));
        lemma_excluded_none_listed(record.drop_last(), seq![b]);
        assert(record.drop_last() =~= record.take(b as int));
        assert(record.skip(b as int + 1) =~= Seq::<String>::empty());
        assert(record.take(b as int) + record.skip(b as int + 1) =~= record.take(b as int));
    } else {
        lemma_dropping_one_column(record.drop_last(), b);
        assert(!seq![b].contains((n - 1) as usize)) by {
            assert(seq![b].len() == 1);
            assert(seq![b][0] == b);
        }
        assert(record.drop_last().take(b as int) =~= record.take(b as int));
        assert((record.take(b as int) + record.drop_last().skip(b as int + 1)).push(record.last())
            =~= record.take(b as int) + record.skip(b as int + 1));
    }
}

/// With no position listed below its length, a record is kept whole.
pub proof fn lemma_excluded_none_listed(record: Seq<String>, indices: Seq<usize>)
    requires
        forall|k: int| 0 <= k < indices.len() ==> #[trigger] indices[k] >= record.len(),
    ensures
        excluded(record, indices) == record,
    decreases record.len(),
{
    if record.len() > 0 {
        lemma_excluded_none_listed(record.drop_last(), indices);
        assert(!indices.contains((record.len() - 1) as usize));
        assert(record.drop_last().push(record.last()) =~= record);
    }
}

} // verus!
