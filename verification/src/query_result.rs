//! Post-processing of ad-hoc query results in the log browser: finding the
//! columns that hold producer and level ids, and replacing those ids by
//! names.

use crate::chars::{str_chars, trim_bounds, string_from_chars, trim};
use std::collections::HashMap;
use vstd::prelude::*;
use vstd::utf8::*;

verus! {

broadcast use vstd::std_specs::hash::group_hash_axioms;

/// An ad-hoc query that holds nothing but whitespace.
#[derive(Clone, Copy, PartialEq, Eq, Structural, Debug)]
pub struct EmptySql;

impl EmptySql {
    /// The message that describes the error.
    pub fn message(&self) -> (text: String)
        ensures
            text@ == "SQL query cannot be empty"@,
    {
        "SQL query cannot be empty".to_owned()
    }
}

/// The text of an ad-hoc query without surrounding whitespace; refused where
/// nothing else is left.
pub open spec fn spec_query_text(sql: Seq<char>) -> Option<Seq<char>> {
    if trim(sql).len() == 0 {
        None
    } else {
        Some(trim(sql))
    }
}

/// The text of an ad-hoc query without surrounding whitespace; refused where
/// nothing else is left.
pub fn query_text(sql: &str) -> (res: Result<String, EmptySql>)
    ensures
        match spec_query_text(sql@) {
            Some(t) => res matches Ok(s) && s@ == t,
            None => res is Err,
        },
{
    let chars = str_chars(sql);
    let (a, b) = trim_bounds(&chars, 0, chars.len());
    assert(chars@.subrange(0, chars@.len() as int) =~= sql@);
    if a == b {
        Err(EmptySql)
    } else {
        Ok(string_from_chars(&chars, a, b))
    }
}

/// `b` with ASCII capitals turned into lowercase.
pub open spec fn ascii_lower(b: u8) -> u8 {
    if 65 <= b <= 90 {
        (b + 32) as u8
    } else {
        b
    }
}

/// Whether `a` and `b` are equal up to ASCII letter case, as
/// `str::eq_ignore_ascii_case` decides on their bytes.
pub open spec fn spec_eq_ignore_ascii_case(a: Seq<u8>, b: Seq<u8>) -> bool {
    a.len() == b.len() && forall|i: int| 0 <= i < a.len() ==> ascii_lower(#[trigger] a[i]) == ascii_lower(b[i])
}

/// The indices, in increasing order, of the first `k` columns whose names
/// equal `name` up to ASCII letter case.
pub open spec fn matching_upto(columns: Seq<Seq<char>>, name: Seq<char>, k: int) -> Seq<usize>
    decreases k,
{
    if k <= 0 {
        Seq::empty()
    } else {
        matching_upto(columns, name, k - 1) + if spec_eq_ignore_ascii_case(
            encode_utf8(columns[k - 1]),
            encode_utf8(name),
        ) {
            seq![(k - 1) as usize]
        } else {
            Seq::empty()
        }
    }
}

/// The indices, in increasing order, of the columns whose names equal
/// `name` up to ASCII letter case.
pub open spec fn spec_matching_columns(columns: Seq<Seq<char>>, name: Seq<char>) -> Seq<usize> {
    matching_upto(columns, name, columns.len() as int)
}

fn ascii_lower_byte(b: u8) -> (l: u8)
    ensures
        l == ascii_lower(b),
{
    if 65 <= b && b <= 90 {
        b + 32
    } else {
        b
    }
}

/// Whether `a` and `b` are equal up to ASCII letter case.
pub fn eq_ignore_ascii_case(a: &str, b: &str) -> (eq: bool)
    ensures
        eq == spec_eq_ignore_ascii_case(encode_utf8(a@), encode_utf8(b@)),
{
    let x = a.as_bytes();
    let y = b.as_bytes();
    if x.len() != y.len() {
        return false;
    }
    let mut i: usize = 0;
    while i < x.len()
        invariant
            x@ == encode_utf8(a@),
            y@ == encode_utf8(b@),
            x@.len() == y@.len(),
            i <= x@.len(),
            forall|j: int| 0 <= j < i ==> ascii_lower(#[trigger] x@[j]) == ascii_lower(y@[j]),
        decreases x@.len() - i,
    {
        if ascii_lower_byte(x[i]) != ascii_lower_byte(y[i]) {
            assert(ascii_lower(x@[i as int]) != ascii_lower(y@[i as int]));
            return false;
        }
        i = i + 1;
    }
    true
}

/// The indices of the columns named `name`, ignoring ASCII letter case.
pub fn matching_columns(columns: &Vec<String>, name: &str) -> (indices: Vec<usize>)
    ensures
        indices@ == spec_matching_columns(columns@.map_values(|c: String| c@), name@),
{
    let ghost names = columns@.map_values(|c: String| c@);
    let mut indices: Vec<usize> = Vec::new();
    let mut i: usize = 0;
    while i < columns.len()
        invariant
            i <= columns@.len(),
            names == columns@.map_values(|c: String| c@),
            indices@ == matching_upto(names, name@, i as int),
        decreases columns@.len() - i,
    {
        assert(names[i as int] == columns@[i as int]@);
        if eq_ignore_ascii_case(columns[i].as_str(), name) {
            indices.push(i);
        }
        i = i + 1;
        assert(indices@ =~= matching_upto(names, name@, i as int));
    }
    indices
}

/// The columns of a result that hold producer ids and level ids.
pub struct IdColumns {
    pub producer: Vec<usize>,
    pub level: Vec<usize>,
}

/// The columns named `producer` and `level` (in any ASCII letter case).
pub fn id_columns(columns: &Vec<String>) -> (ids: IdColumns)
    ensures
        ids.producer@ == spec_matching_columns(columns@.map_values(|c: String| c@), "producer"@),
        ids.level@ == spec_matching_columns(columns@.map_values(|c: String| c@), "level"@),
{
    IdColumns {
        producer: matching_columns(columns, "producer"),
        level: matching_columns(columns, "level"),
    }
}

/// A value of a query result, as far as id replacement looks at it.
#[derive(Debug)]
pub enum QueryCell {
    /// A value that is an integer that fits in `i64`.
    Id(i64),
    /// A name put in place of an id.
    Name(String),
    /// Any other value.
    Other,
}

/// A `QueryCell` with its name as characters.
pub enum QueryCellView {
    Id(i64),
    Name(Seq<char>),
    Other,
}

impl View for QueryCell {
    type V = QueryCellView;

    open spec fn view(&self) -> QueryCellView {
        match self {
            QueryCell::Id(i) => QueryCellView::Id(*i),
            QueryCell::Name(n) => QueryCellView::Name(n@),
            QueryCell::Other => QueryCellView::Other,
        }
    }
}

/// `cell` with its id replaced by the name `names` gives it, where it is an
/// id that `names` knows.
pub open spec fn spec_replace_id(cell: QueryCellView, names: Map<i64, String>) -> QueryCellView {
    match cell {
        QueryCellView::Id(id) => if names.contains_key(id) {
            QueryCellView::Name(names[id]@)
        } else {
            cell
        },
        _ => cell,
    }
}

/// Replaces the id in `value` by its name, where `names` knows it.
pub fn replace_id(value: &mut QueryCell, names: &HashMap<i64, String>)
    ensures
        final(value)@ == spec_replace_id(old(value)@, names@),
{
    let id = match value {
        QueryCell::Id(id) => *id,
        _ => {
            return;
        },
    };
    match names.get(&id) {
        Some(name) => {
            *value = QueryCell::Name(name.clone());
        },
        None => {},
    }
}

/// The view of the rows of a result.
pub open spec fn rows_view(rows: Seq<Vec<QueryCell>>) -> Seq<Seq<QueryCellView>> {
    rows.map_values(|r: Vec<QueryCell>| r@.map_values(|c: QueryCell| c@))
}

/// Whether one of the first `j` entries of `columns` is `c`.
pub open spec fn selects(columns: Seq<usize>, j: int, c: int) -> bool {
    exists|t: int| 0 <= t < j && columns[t] as int == c
}

/// `row` with the ids in the columns `columns` replaced by names.
pub open spec fn spec_replace_row(
    row: Seq<QueryCellView>,
    columns: Seq<usize>,
    names: Map<i64, String>,
) -> Seq<QueryCellView> {
    Seq::new(
        row.len(),
        |c: int|
            if selects(columns, columns.len() as int, c) {
                spec_replace_id(row[c], names)
            } else {
                row[c]
            },
    )
}

proof fn lemma_replace_id_idempotent(cell: QueryCellView, names: Map<i64, String>)
    ensures
        spec_replace_id(spec_replace_id(cell, names), names) == spec_replace_id(cell, names),
{
}

/// Replacing ids by names twice changes nothing more than doing it once.
pub proof fn lemma_replace_row_idempotent(
    row: Seq<QueryCellView>,
    columns: Seq<usize>,
    names: Map<i64, String>,
)
    ensures
        spec_replace_row(spec_replace_row(row, columns, names), columns, names) == spec_replace_row(
            row,
            columns,
            names,
        ),
{
    let once = spec_replace_row(row, columns, names);
    assert forall|c: int| 0 <= c < row.len() implies #[trigger] spec_replace_row(once, columns, names)[c]
        == once[c] by {
        lemma_replace_id_idempotent(row[c], names);
    }
    assert(spec_replace_row(once, columns, names) =~= once);
}

/// Replacing in a row changes exactly the listed cells that hold an id
/// `names` knows: each such cell, in every listed column, holds that id's
/// name afterwards; every other cell, listed or not, is kept; the row keeps
/// its length.
pub proof fn lemma_replace_row_cells(
    row: Seq<QueryCellView>,
    columns: Seq<usize>,
    names: Map<i64, String>,
)
    ensures
        spec_replace_row(row, columns, names).len() == row.len(),
        forall|t: int|
            0 <= t < columns.len() && columns[t] < row.len() ==> (row[columns[t] as int] matches QueryCellView::Id(
                id,
            ) ==> (names.contains_key(id) ==> #[trigger] spec_replace_row(row, columns, names)[columns[t] as int]
                == QueryCellView::Name(names[id]@))),
        forall|c: int|
            0 <= c < row.len() && !(row[c] matches QueryCellView::Id(id) && names.contains_key(id))
                ==> #[trigger] spec_replace_row(row, columns, names)[c] == row[c],
        forall|c: int|
            0 <= c < row.len() && (forall|t: int| 0 <= t < columns.len() ==> columns[t] as int != c)
                ==> #[trigger] spec_replace_row(row, columns, names)[c] == row[c],
{
    assert forall|t: int| 0 <= t < columns.len() && columns[t] < row.len() implies (
    row[columns[t] as int] matches QueryCellView::Id(id) ==> (names.contains_key(id)
        ==> #[trigger] spec_replace_row(row, columns, names)[columns[t] as int] == QueryCellView::Name(
        names[id]@,
    ))) by {
        assert(selects(columns, columns.len() as int, columns[t] as int));
    }
}

/// Replaces the ids in the columns `columns` of `row` by the names `names`
/// gives them.
fn replace_in_row(row: &mut Vec<QueryCell>, columns: &Vec<usize>, names: &HashMap<i64, String>)
    ensures
        final(row)@.map_values(|c: QueryCell| c@) == spec_replace_row(
            old(row)@.map_values(|c: QueryCell| c@),
            columns@,
            names@,
        ),
{
    let ghost row_before = row@.map_values(|c: QueryCell| c@);
    let mut j: usize = 0;
    while j < columns.len()
        invariant
            j <= columns@.len(),
            row_before == old(row)@.map_values(|c: QueryCell| c@),
            row@.len() == row_before.len(),
            forall|c: int|
                0 <= c < row_before.len() ==> #[trigger] row@[c]@ == if selects(
                    columns@,
                    j as int,
                    c,
                ) {
                    spec_replace_id(row_before[c], names@)
                } else {
                    row_before[c]
                },
        decreases columns@.len() - j,
    {
        let index = columns[j];
        let ghost prev = row@;
        if index < row.len() {
            replace_id(&mut row[index], names);
        }
        proof {
            assert(columns@[j as int] == index);
            assert forall|c: int| 0 <= c < row_before.len() implies #[trigger] row@[c]@ == if selects(
                columns@,
                j + 1,
                c,
            ) {
                spec_replace_id(row_before[c], names@)
            } else {
                row_before[c]
            } by {
                lemma_replace_id_idempotent(row_before[c], names@);
                if c != index as int {
                    assert(row@[c] == prev[c]);
                    if selects(columns@, j + 1, c) {
                        let t = choose|t: int| 0 <= t < j + 1 && columns@[t] as int == c;
                        assert(t != j);
                    }
                } else {
                    assert(selects(columns@, j + 1, c));
                }
            }
        }
        j = j + 1;
    }
    proof {
        assert(row@.map_values(|c: QueryCell| c@) =~= spec_replace_row(row_before, columns@, names@));
    }
}

/// Replaces, in every row, the ids in the columns `columns` by the names
/// `names` gives them. Columns beyond a row's end are passed over.
pub fn replace_ids(rows: &mut Vec<Vec<QueryCell>>, columns: &Vec<usize>, names: &HashMap<i64, String>)
    ensures
        final(rows)@.len() == old(rows)@.len(),
        forall|r: int|
            0 <= r < old(rows)@.len() ==> #[trigger] rows_view(final(rows)@)[r] == spec_replace_row(
                rows_view(old(rows)@)[r],
                columns@,
                names@,
            ),
{
    let ghost before = rows_view(rows@);
    let mut r: usize = 0;
    while r < rows.len()
        invariant
            r <= rows@.len(),
            rows@.len() == before.len(),
            before == rows_view(old(rows)@),
            forall|k: int|
                0 <= k < r ==> #[trigger] rows_view(rows@)[k] == spec_replace_row(
                    before[k],
                    columns@,
                    names@,
                ),
            forall|k: int| r <= k < rows@.len() ==> #[trigger] rows_view(rows@)[k] == before[k],
        decreases before.len() - r,
    {
        let ghost prev = rows@;
        replace_in_row(&mut rows[r], columns, names);
        proof {
            assert forall|k: int| 0 <= k < rows@.len() && k != r implies #[trigger] rows_view(rows@)[k]
                == rows_view(prev)[k] by {
                assert(rows@[k] == prev[k]);
            }
            assert(rows_view(rows@)[r as int] == rows@[r as int]@.map_values(|c: QueryCell| c@));
            assert(rows_view(prev)[r as int] == prev[r as int]@.map_values(|c: QueryCell| c@));
        }
        r = r + 1;
    }
}

} // verus!
