//! Resolving column names against a header, and projecting records onto
//! chosen columns.

use vstd::prelude::*;
use crate::text::{split_at_sep, split_on, texts};

verus! {

/// Whether `i` is the leftmost position of `header` that holds `name`.
pub open spec fn is_first_position(header: Seq<String>, name: Seq<char>, i: int) -> bool {
    &&& 0 <= i < header.len()
    &&& header[i]@ == name
    &&& forall|j: int| 0 <= j < i ==> (#[trigger] header[j])@ != name
}

/// Whether some column of `header` is named `name`.
pub open spec fn has_column(header: Seq<String>, name: Seq<char>) -> bool {
    exists|j: int| 0 <= j < header.len() && (#[trigger] header[j])@ == name
}

/// Whether every name of `names` is a column of `header`.
pub open spec fn all_present(header: Seq<String>, names: Seq<Seq<char>>) -> bool {
    forall|k: int| 0 <= k < names.len() ==> has_column(header, #[trigger] names[k])
}

/// The names that a comma-separated column list holds, in order.
pub open spec fn spec_names(spec: Seq<char>) -> Seq<Seq<char>> {
    split_at_sep(spec, ',')
}

/// The cells of `record` at `indices`, in the order of `indices`.
pub open spec fn included(record: Seq<String>, indices: Seq<usize>) -> Seq<String> {
    Seq::new(indices.len(), |k: int| record[indices[k] as int])
}

/// The cells of `record` whose positions are not in `indices`, in their order.
pub open spec fn excluded(record: Seq<String>, indices: Seq<usize>) -> Seq<String>
    decreases record.len(),
{
    if record.len() == 0 {
        Seq::<String>::empty()
    } else {
        let rest = excluded(record.drop_last(), indices);
        if indices.contains((record.len() - 1) as usize) {
            rest
        } else {
            rest.push(record.last())
        }
    }
}

/// The leftmost position of `header` that holds `name`, if any.
pub fn resolve_column(header: &Vec<String>, name: &String) -> (r: Option<usize>)
    ensures
        match r {
            Some(i) => is_first_position(header@, name@, i as int),
            None => !has_column(header@, name@),
        },
{
    let mut i: usize = 0;
    while i < header.len()
        invariant
            i <= header@.len(),
            forall|j: int| 0 <= j < i ==> (#[trigger] header@[j])@ != name@,
        decreases header@.len() - i,
    {
        if header[i] == *name {
            return Some(i);
        }
        i = i + 1;
    }
    None
}

/// Resolves each name of the comma-separated `spec`, keeping their order
/// and repetitions. On failure returns the first name that `header` lacks.
pub fn resolve_spec(header: &Vec<String>, spec: &str) -> (r: Result<Vec<usize>, String>)
    ensures
        r is Ok <==> all_present(header@, spec_names(spec@)),
        match r {
            Ok(ix) => ix@.len() == spec_names(spec@).len() && forall|k: int|
                0 <= k < ix@.len() ==> is_first_position(
                    header@,
                    spec_names(spec@)[k],
                    #[trigger] ix@[k] as int,
                ),
            Err(name) => exists|k: int|
                0 <= k < spec_names(spec@).len() && spec_names(spec@)[k] == name@
                    && !has_column(header@, name@) && all_present(
                    header@,
                    spec_names(spec@).take(k),
                ),
        },
{
    let names = split_on(spec, ',');
    let ghost nv = texts(names@);
    let mut indices: Vec<usize> = Vec::new();
    let mut k: usize = 0;
    while k < names.len()
        invariant
            nv == texts(names@),
            nv == spec_names(spec@),
            k <= names@.len(),
            indices@.len() == k,
            forall|q: int| 0 <= q < k ==> is_first_position(header@, nv[q], #[trigger] indices@[q] as int),
        decreases names@.len() - k,
    {
        match resolve_column(header, &names[k]) {
            Some(i) => {
                indices.push(i);
            },
            None => {
                assert(nv[k as int] == names@[k as int]@);
                assert forall|q: int| 0 <= q < k implies has_column(header@, #[trigger] nv.take(k as int)[q]) by {
                    assert(header@[indices@[q] as int]@ == nv[q]);
                }
                return Err(names[k].clone());
            },
        }
        k = k + 1;
    }
    assert forall|q: int| 0 <= q < nv.len() implies has_column(header@, #[trigger] nv[q]) by {
        assert(header@[indices@[q] as int]@ == nv[q]);
    }
    Ok(indices)
}

/// The cells of `record` at `indices`, in the order of `indices`.
pub fn take_columns(record: &Vec<String>, indices: &Vec<usize>) -> (r: Vec<String>)
    requires
        forall|k: int| 0 <= k < indices@.len() ==> #[trigger] indices@[k] < record@.len(),
    ensures
        r@ == included(record@, indices@),
{
    let mut out: Vec<String> = Vec::new();
    let mut k: usize = 0;
    while k < indices.len()
        invariant
            k <= indices@.len(),
            forall|q: int| 0 <= q < indices@.len() ==> #[trigger] indices@[q] < record@.len(),
            out@ == included(record@, indices@.take(k as int)),
        decreases indices@.len() - k,
    {
        out.push(record[indices[k]].clone());
        k = k + 1;
        assert(out@ =~= included(record@, indices@.take(k as int)));
    }
    assert(indices@.take(k as int) =~= indices@);
    out
}

fn lists_index(indices: &Vec<usize>, i: usize) -> (r: bool)
    ensures
        r == indices@.contains(i),
{
    let mut k: usize = 0;
    while k < indices.len()
        invariant
            k <= indices@.len(),
            forall|q: int| 0 <= q < k ==> indices@[q] != i,
        decreases indices@.len() - k,
    {
        if indices[k] == i {
            return true;
        }
        k = k + 1;
    }
    false
}

/// The cells of `record` whose positions are not in `indices`.
pub fn drop_columns(record: &Vec<String>, indices: &Vec<usize>) -> (r: Vec<String>)
    ensures
        r@ == excluded(record@, indices@),
{
    let mut out: Vec<String> = Vec::new();
    let mut i: usize = 0;
    while i < record.len()
        invariant
            i <= record@.len(),
            out@ == excluded(record@.take(i as int), indices@),
        decreases record@.len() - i,
    {
        let ghost prefix = record@.take(i as int + 1);
        assert(prefix.drop_last() =~= record@.take(i as int));
        if !lists_index(indices, i) {
            out.push(record[i].clone());
        }
        i = i + 1;
    }
    assert(record@.take(i as int) =~= record@);
    out
}

} // verus!
