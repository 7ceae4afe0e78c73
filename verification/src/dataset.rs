//! From rows of cells to examples: which rows are kept, and where a row is cut into
//! inputs and wanted outputs.

use vstd::prelude::*;

verus! {

/// Where a row is cut: after `inputs_count` values, or at its end where it is
/// shorter.
pub open spec fn cut<T>(row: Seq<T>, inputs_count: usize) -> int {
    if inputs_count <= row.len() {
        inputs_count as int
    } else {
        row.len() as int
    }
}

/// No cell of `row` is missing.
pub open spec fn is_complete<T>(row: Seq<Option<T>>) -> bool {
    forall|i: int| 0 <= i < row.len() ==> (#[trigger] row[i]).is_some()
}

/// The values of a row in which no cell is missing.
pub open spec fn values_of<T>(row: Seq<Option<T>>) -> Seq<T> {
    Seq::new(row.len(), |i: int| row[i].unwrap())
}

/// The rows of `rows` in which no cell is missing, in their order, each as its
/// values.
pub open spec fn complete_rows_of<T>(rows: Seq<Vec<Option<T>>>) -> Seq<Seq<T>>
    decreases rows.len(),
{
    if rows.len() == 0 {
        Seq::empty()
    } else if is_complete(rows.last()@) {
        complete_rows_of(rows.drop_last()).push(values_of(rows.last()@))
    } else {
        complete_rows_of(rows.drop_last())
    }
}

/// The view of each row of `rows`.
pub open spec fn rows_of<T>(rows: Seq<Vec<T>>) -> Seq<Seq<T>> {
    Seq::new(rows.len(), |i: int| rows[i]@)
}

/// Cuts `row` into an example: its first `inputs_count` values are the inputs, the
/// rest the wanted outputs. A row that is shorter gives only inputs.
pub fn split_example<T: Copy>(row: &Vec<T>, inputs_count: usize) -> (example: (Vec<T>, Vec<T>))
    ensures
        example.0@ == row@.take(cut(row@, inputs_count)),
        example.1@ == row@.skip(cut(row@, inputs_count)),
{
    let k = if inputs_count <= row.len() {
        inputs_count
    } else {
        row.len()
    };
    let mut inputs: Vec<T> = Vec::new();
    let mut y_desired: Vec<T> = Vec::new();
    let mut i: usize = 0;
    while i < row.len()
        invariant
            i <= row@.len(),
            k == cut(row@, inputs_count),
            inputs@ == row@.take(
                if i <= k {
                    i as int
                } else {
                    k as int
                },
            ),
            y_desired@ == row@.subrange(
                k as int,
                if i <= k {
                    k as int
                } else {
                    i as int
                },
            ),
        decreases row@.len() - i,
    {
        if i < k {
            inputs.push(row[i]);
            assert(row@.take(i + 1) == row@.take(i as int).push(row@[i as int]));
        } else {
            y_desired.push(row[i]);
            assert(row@.subrange(k as int, i + 1) == row@.subrange(k as int, i as int).push(
                row@[i as int],
            ));
        }
        i = i + 1;
    }
    assert(row@.subrange(k as int, row@.len() as int) == row@.skip(k as int));
    (inputs, y_desired)
}

/// Cuts every row of `rows` into an example.
pub fn split_examples<T: Copy>(rows: &Vec<Vec<T>>, inputs_count: usize) -> (examples: Vec<
    (Vec<T>, Vec<T>),
>)
    ensures
        examples@.len() == rows@.len(),
        forall|e: int|
            0 <= e < rows@.len() ==> {
                &&& (#[trigger] examples@[e]).0@ == rows@[e]@.take(cut(rows@[e]@, inputs_count))
                &&& examples@[e].1@ == rows@[e]@.skip(cut(rows@[e]@, inputs_count))
            },
{
    let mut examples: Vec<(Vec<T>, Vec<T>)> = Vec::new();
    let mut e: usize = 0;
    while e < rows.len()
        invariant
            e <= rows@.len(),
            examples@.len() == e,
            forall|k: int|
                0 <= k < e ==> {
                    &&& (#[trigger] examples@[k]).0@ == rows@[k]@.take(
                        cut(rows@[k]@, inputs_count),
                    )
                    &&& examples@[k].1@ == rows@[k]@.skip(cut(rows@[k]@, inputs_count))
                },
        decreases rows@.len() - e,
    {
        examples.push(split_example(&rows[e], inputs_count));
        e = e + 1;
    }
    examples
}

/// The values of `row`, where no cell is missing.
fn complete_row<T: Copy>(row: &Vec<Option<T>>) -> (values: Option<Vec<T>>)
    ensures
        values.is_some() == is_complete(row@),
        values matches Some(v) ==> v@ == values_of(row@),
{
    let mut values: Vec<T> = Vec::new();
    let mut i: usize = 0;
    while i < row.len()
        invariant
            i <= row@.len(),
            values@.len() == i,
            forall|j: int| 0 <= j < i ==> (#[trigger] row@[j]).is_some() && values@[j] == row@[j].unwrap(),
        decreases row@.len() - i,
    {
        match row[i] {
            Some(value) => values.push(value),
            None => {
                return None;
            },
        }
        i = i + 1;
    }
    assert(values@ == values_of(row@));
    Some(values)
}

/// The rows in which no cell is missing, in their order. A row with a missing cell
/// is dropped whole.
pub fn complete_rows<T: Copy>(rows: &Vec<Vec<Option<T>>>) -> (kept: Vec<Vec<T>>)
    ensures
        rows_of(kept@) == complete_rows_of(rows@),
{
    let mut kept: Vec<Vec<T>> = Vec::new();
    let mut r: usize = 0;
    while r < rows.len()
        invariant
            r <= rows@.len(),
            rows_of(kept@) == complete_rows_of(rows@.take(r as int)),
        decreases rows@.len() - r,
    {
        let ghost before = kept@;
        assert(rows@.take(r + 1).drop_last() == rows@.take(r as int));
        match complete_row(&rows[r]) {
            Some(values) => {
                kept.push(values);
                assert(rows_of(kept@) == rows_of(before).push(values@));
            },
            None => {},
        }
        r = r + 1;
    }
    assert(rows@.take(r as int) == rows@);
    kept
}

} // verus!
