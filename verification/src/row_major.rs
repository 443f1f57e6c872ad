//! The layout of model inputs: rows laid end to end are `[rows, cols]`
//! tensors in row-major order.

use vstd::prelude::*;

use crate::inference::{field_rows, flatten, inputs_match, is_rectangular, InferenceInputs};

verus! {

/// Rows of `cols` entries each, laid end to end, put entry `c` of row `r` at
/// position `r * cols + c`.
pub proof fn lemma_flatten_is_row_major(rows: Seq<Seq<i64>>, cols: nat)
    requires
        forall|r: int| 0 <= r < rows.len() ==> #[trigger] rows[r].len() == cols,
    ensures
        flatten(rows).len() == rows.len() * cols,
        forall|r: int, c: int|
            0 <= r < rows.len() && 0 <= c < cols ==> flatten(rows)[r * cols + c] == #[trigger] rows[r][c],
    decreases rows.len(),
{
    if rows.len() > 0 {
        let front = rows.drop_last();
        let n = rows.len();
        lemma_flatten_is_row_major(front, cols);
        assert(flatten(rows) == flatten(front) + rows.last());
        assert((n - 1) * cols + cols == n * cols) by (nonlinear_arith);
        assert forall|r: int, c: int| 0 <= r < rows.len() && 0 <= c < cols implies flatten(rows)[r * cols + c]
            == #[trigger] rows[r][c] by {
            if r < n - 1 {
                assert(r * cols + c < (n - 1) * cols) by (nonlinear_arith)
                    requires
                        0 <= r < n - 1,
                        0 <= c < cols,
                ;
                assert(rows[r] == front[r]);
            } else {
                assert(r * cols == (n - 1) * cols);
            }
        }
    }
}

/// Entry `c` of row `r` of one list of a rectangular batch sits at position
/// `r * cols + c` of that list laid end to end.
proof fn lemma_field_is_row_major(rows: Seq<(Seq<u32>, Seq<u32>, Seq<u32>)>, field: int)
    requires
        rows.len() > 0,
        is_rectangular(rows),
    ensures
        flatten(field_rows(rows, field)).len() == rows.len() * rows[0].0.len(),
        forall|r: int, c: int|
            0 <= r < rows.len() && 0 <= c < rows[0].0.len() ==> flatten(field_rows(rows, field))[r
                * rows[0].0.len() + c] == #[trigger] field_rows(rows, field)[r][c],
        forall|r: int| 0 <= r < rows.len() ==> #[trigger] field_rows(rows, field)[r].len() == rows[0].0.len(),
{
    let cols = rows[0].0.len();
    assert forall|r: int| 0 <= r < rows.len() implies #[trigger] field_rows(rows, field)[r].len() == cols by {
        assert(rows[r].0.len() == rows[0].0.len());
    }
    lemma_flatten_is_row_major(field_rows(rows, field), cols);
}

/// The inputs of a rectangular batch are `[rows, cols]` tensors in row-major
/// order: entry `c` of pair `r` is at position `r * cols + c` of the ids,
/// the attention mask and (when present) the type ids.
pub proof fn lemma_inputs_are_row_major(x: InferenceInputs, rows: Seq<(Seq<u32>, Seq<u32>, Seq<u32>)>, use_type_ids: bool)
    requires
        rows.len() > 0,
        is_rectangular(rows),
        inputs_match(x, rows, use_type_ids),
    ensures
        x.input_ids@.len() == x.rows * x.cols,
        x.attention_mask@.len() == x.rows * x.cols,
        forall|r: int, c: int|
            0 <= r < x.rows && 0 <= c < x.cols ==> x.input_ids@[r * x.cols + c] == #[trigger] rows[r].0[c] as i64,
        forall|r: int, c: int|
            0 <= r < x.rows && 0 <= c < x.cols ==> x.attention_mask@[r * x.cols + c] == #[trigger] rows[r].2[c] as i64,
        use_type_ids ==> (x.token_type_ids matches Some(t) && t@.len() == x.rows * x.cols && forall|r: int, c: int|
            0 <= r < x.rows && 0 <= c < x.cols ==> t@[r * x.cols + c] == #[trigger] rows[r].1[c] as i64),
        !use_type_ids ==> x.token_type_ids is None,
{
    assert(x.input_ids@.len() == x.rows * x.cols && forall|r: int, c: int|
        0 <= r < x.rows && 0 <= c < x.cols ==> x.input_ids@[r * x.cols + c] == #[trigger] rows[r].0[c] as i64) by {
        lemma_field_is_row_major(rows, 0);
        assert forall|r: int, c: int| 0 <= r < x.rows && 0 <= c < x.cols implies x.input_ids@[r * x.cols + c]
            == #[trigger] rows[r].0[c] as i64 by {
            assert(field_rows(rows, 0)[r].len() == x.cols);
            assert(field_rows(rows, 0)[r][c] == rows[r].0[c] as i64);
        }
    }
    assert(x.attention_mask@.len() == x.rows * x.cols && forall|r: int, c: int|
        0 <= r < x.rows && 0 <= c < x.cols ==> x.attention_mask@[r * x.cols + c] == #[trigger] rows[r].2[c] as i64) by {
        lemma_field_is_row_major(rows, 2);
        assert forall|r: int, c: int| 0 <= r < x.rows && 0 <= c < x.cols implies x.attention_mask@[r * x.cols + c]
            == #[trigger] rows[r].2[c] as i64 by {
            assert(field_rows(rows, 2)[r].len() == x.cols);
            assert(field_rows(rows, 2)[r][c] == rows[r].2[c] as i64);
        }
    }
    if use_type_ids {
        let t = x.token_type_ids->0;
        lemma_field_is_row_major(rows, 1);
        assert forall|r: int, c: int| 0 <= r < x.rows && 0 <= c < x.cols implies t@[r * x.cols + c]
            == #[trigger] rows[r].1[c] as i64 by {
            assert(field_rows(rows, 1)[r].len() == x.cols);
            assert(field_rows(rows, 1)[r][c] == rows[r].1[c] as i64);
        }
    }
}

} // verus!
