//! Model inputs of a padded batch, and the choice of score head.

use vstd::prelude::*;

use crate::errors::CrossEncoderError;
use crate::text::{decimal, decimal_string};
use crate::tokenizer::{
    encoding_attention_mask, encoding_ids, encoding_len, encoding_row, encoding_type_ids,
    token_rows,
};
use tokenizers::Encoding;

verus! {

/// One of the three lists of each row (0: ids, 1: type ids, 2: attention
/// mask), widened to `i64` as the model takes them.
pub open spec fn field_rows(rows: Seq<(Seq<u32>, Seq<u32>, Seq<u32>)>, field: int) -> Seq<Seq<i64>> {
    rows.map_values(
        |row: (Seq<u32>, Seq<u32>, Seq<u32>)|
            (if field == 0 {
                row.0
            } else if field == 1 {
                row.1
            } else {
                row.2
            }).map_values(|v: u32| v as i64),
    )
}

/// Rows laid end to end (row-major order).
pub open spec fn flatten(rows: Seq<Seq<i64>>) -> Seq<i64>
    decreases rows.len(),
{
    if rows.len() == 0 {
        seq![]
    } else {
        flatten(rows.drop_last()) + rows.last()
    }
}

/// Every list of every row has as many entries as the first row has ids.
pub open spec fn is_rectangular(rows: Seq<(Seq<u32>, Seq<u32>, Seq<u32>)>) -> bool {
    forall|r: int|
        0 <= r < rows.len() ==> #[trigger] rows[r].0.len() == rows[0].0.len() && rows[r].1.len()
            == rows[0].0.len() && rows[r].2.len() == rows[0].0.len()
}

/// The three `[rows, cols]` tensors a cross-encoder takes, flattened in
/// row-major order. `token_type_ids` is present only for models that take it.
pub struct InferenceInputs {
    pub rows: usize,
    pub cols: usize,
    pub input_ids: Vec<i64>,
    pub attention_mask: Vec<i64>,
    pub token_type_ids: Option<Vec<i64>>,
}

/// What the model's inputs for a batch are, given its token rows.
pub open spec fn inputs_match(x: InferenceInputs, rows: Seq<(Seq<u32>, Seq<u32>, Seq<u32>)>, use_type_ids: bool) -> bool {
    &&& x.rows == rows.len()
    &&& x.cols == rows[0].0.len()
    &&& x.input_ids@ == flatten(field_rows(rows, 0))
    &&& x.attention_mask@ == flatten(field_rows(rows, 2))
    &&& if use_type_ids {
        x.token_type_ids matches Some(t) && t@ == flatten(field_rows(rows, 1))
    } else {
        x.token_type_ids is None
    }
}

proof fn lemma_flatten_take(rows: Seq<(Seq<u32>, Seq<u32>, Seq<u32>)>, r: int, field: int)
    requires
        0 <= r < rows.len(),
    ensures
        flatten(field_rows(rows.take(r + 1), field)) == flatten(field_rows(rows.take(r), field))
            + field_rows(rows, field)[r],
{
    let a = field_rows(rows.take(r + 1), field);
    assert(a.drop_last() =~= field_rows(rows.take(r), field));
    assert(a.last() == field_rows(rows, field)[r]);
}

fn append_widened(out: &mut Vec<i64>, vals: &Vec<u32>)
    ensures
        final(out)@ == old(out)@ + vals@.map_values(|v: u32| v as i64),
{
    let n = vals.len();
    let ghost start = out@;
    for c in 0..n
        invariant
            n == vals@.len(),
            out@ == start + vals@.take(c as int).map_values(|v: u32| v as i64),
    {
        out.push(vals[c] as i64);
        assert(vals@.take(c + 1).map_values(|v: u32| v as i64) =~= vals@.take(c as int).map_values(
            |v: u32| v as i64,
        ).push(vals@[c as int] as i64));
    }
    assert(vals@.take(n as int) =~= vals@);
}

impl InferenceInputs {
    /// Lays out a batch of (padded) encodings as model inputs. A batch whose
    /// encodings differ in length cannot form a tensor and is refused.
    pub fn from_batch(batch: &Vec<Encoding>, use_type_ids: bool) -> (r: Result<InferenceInputs, CrossEncoderError>)
        requires
            batch.len() > 0,
        ensures
            r is Ok <==> is_rectangular(token_rows(batch@)),
            r matches Ok(x) ==> inputs_match(x, token_rows(batch@), use_type_ids),
            r matches Err(e) ==> e is InferenceError,
    {
        let ghost rows = token_rows(batch@);
        let k = batch.len();
        let cols = encoding_len(&batch[0]);
        assert(rows[0] == encoding_row(batch@[0]));
        let mut ids: Vec<i64> = Vec::new();
        let mut mask: Vec<i64> = Vec::new();
        let mut types: Vec<i64> = Vec::new();
        for r in 0..k
            invariant
                k == batch.len(),
                rows == token_rows(batch@),
                cols == rows[0].0.len(),
                forall|j: int|
                    0 <= j < r ==> #[trigger] rows[j].0.len() == cols && rows[j].1.len() == cols
                        && rows[j].2.len() == cols,
                ids@ == flatten(field_rows(rows.take(r as int), 0)),
                mask@ == flatten(field_rows(rows.take(r as int), 2)),
                types@ == flatten(field_rows(rows.take(r as int), 1)),
        {
            let e = &batch[r];
            let row_ids = encoding_ids(e);
            let row_types = encoding_type_ids(e);
            let row_mask = encoding_attention_mask(e);
            assert(rows[r as int] == encoding_row(batch@[r as int]));
            assert(row_ids@ == rows[r as int].0 && row_types@ == rows[r as int].1 && row_mask@ == rows[r as int].2);
            if row_ids.len() != cols || row_types.len() != cols || row_mask.len() != cols {
                assert(!is_rectangular(rows)) by {
                    assert(!(rows[r as int].0.len() == rows[0].0.len() && rows[r as int].1.len()
                        == rows[0].0.len() && rows[r as int].2.len() == rows[0].0.len()));
                }
                return Err(CrossEncoderError::InferenceError(String::from_str(
                    "encodings of a batch differ in length",
                )));
            }
            proof {
                lemma_flatten_take(rows, r as int, 0);
                lemma_flatten_take(rows, r as int, 1);
                lemma_flatten_take(rows, r as int, 2);
            }
            append_widened(&mut ids, &row_ids);
            append_widened(&mut mask, &row_mask);
            append_widened(&mut types, &row_types);
        }
        assert(rows.take(k as int) =~= rows);
        Ok(InferenceInputs {
            rows: k,
            cols,
            input_ids: ids,
            attention_mask: mask,
            token_type_ids: if use_type_ids { Some(types) } else { None },
        })
    }
}

/// How a model's logits turn into a relevance score in `[0, 1]`.
#[derive(Debug, Clone, Copy, PartialEq, Eq)]
pub enum ScoreHead {
    /// One label: the sigmoid of the logit.
    Sigmoid,
    /// Two labels: the softmax probability of the second ("relevant") label.
    Softmax,
}

/// The score head for a model with `num_labels` output labels; any count but
/// one or two is refused.
pub fn score_head(num_labels: usize) -> (r: Result<ScoreHead, CrossEncoderError>)
    ensures
        num_labels == 1 ==> r == Ok::<ScoreHead, CrossEncoderError>(ScoreHead::Sigmoid),
        num_labels == 2 ==> r == Ok::<ScoreHead, CrossEncoderError>(ScoreHead::Softmax),
        num_labels != 1 && num_labels != 2 ==> (r matches Err(CrossEncoderError::InferenceError(m))
            && m@ == "Unsupported num_labels: "@ + decimal(num_labels as nat)),
{
    if num_labels == 1 {
        Ok(ScoreHead::Sigmoid)
    } else if num_labels == 2 {
        Ok(ScoreHead::Softmax)
    } else {
        let n = decimal_string(num_labels);
        Err(CrossEncoderError::InferenceError(String::from_str("Unsupported num_labels: ").concat(n.as_str())))
    }
}

} // verus!
