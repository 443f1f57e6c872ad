//! Reranking a request: documents are encoded, ordered by token length and cut
//! into batches, so that each batch is only padded to its own longest pair; the
//! scores of each batch are laid back at the input positions of its documents.
//!
//! The model itself runs outside this module: [`RerankJob::next_batch`] hands
//! out the inputs of the next batch and [`RerankJob::record_scores`] takes its
//! scores back, whatever type the scores have.

use vstd::prelude::*;

use crate::errors::CrossEncoderError;
use crate::inference::{inputs_match, is_rectangular, InferenceInputs};
use crate::ordering::{is_length_order, lemma_length_order_is_stable_ascending, order_by_length};
use crate::tokenizer::{
    encode_batch, encoding_len, encoding_row, lemma_batch_longest_padding_is_rectangular, longest,
    pad_batch, pad_row, pad_target,
    token_rows, all_pairs_encode, pair_encoding, CrossTokenizer, PaddingConfig, PaddingLength,
};
use tokenizers::Encoding;

verus! {

/// Batch size used when the caller gives none.
pub const DEFAULT_BATCH_SIZE: usize = 16;

/// The batch size actually used: the one asked for (default
/// [`DEFAULT_BATCH_SIZE`]), but at least 1.
pub open spec fn effective_batch_size(batch_size: Option<usize>) -> usize {
    let b = match batch_size {
        Some(b) => b,
        None => DEFAULT_BATCH_SIZE,
    };
    if b < 1 {
        1
    } else {
        b
    }
}

/// Computes [`effective_batch_size`].
pub fn batch_size_or_default(batch_size: Option<usize>) -> (r: usize)
    ensures
        r == effective_batch_size(batch_size),
        r >= 1,
        batch_size is None ==> r == DEFAULT_BATCH_SIZE,
        batch_size matches Some(b) ==> (if b == 0 {
            r == 1
        } else {
            r == b
        }),
{
    let b = match batch_size {
        Some(b) => b,
        None => DEFAULT_BATCH_SIZE,
    };
    if b < 1 {
        1
    } else {
        b
    }
}

/// `scores` after the first `count` pairs `(positions[j], values[j])` were
/// written into it, in order.
pub open spec fn scatter<S>(scores: Seq<S>, positions: Seq<usize>, values: Seq<S>, count: nat) -> Seq<S>
    decreases count,
{
    if count == 0 {
        scores
    } else {
        scatter(scores, positions, values, (count - 1) as nat).update(
            positions[count - 1] as int,
            values[count - 1],
        )
    }
}

/// `scores` after a sequence of batches was laid back along `order`, the first
/// batch starting at position `start` of the order and each next batch where
/// the previous one ended.
pub open spec fn record_batches<S>(scores: Seq<S>, order: Seq<usize>, start: int, batches: Seq<Seq<S>>) -> Seq<S>
    decreases batches.len(),
{
    if batches.len() == 0 {
        scores
    } else {
        let b = batches[0];
        record_batches(
            scatter(scores, order.subrange(start, start + b.len()), b, b.len()),
            order,
            start + b.len(),
            batches.drop_first(),
        )
    }
}

/// The batches laid end to end.
pub open spec fn concat_batches<S>(batches: Seq<Seq<S>>) -> Seq<S>
    decreases batches.len(),
{
    if batches.len() == 0 {
        seq![]
    } else {
        batches[0] + concat_batches(batches.drop_first())
    }
}

/// Writing the first `count` scores of a batch puts each one at the input
/// position of its document and leaves every other document's score alone.
pub proof fn lemma_scatter_places<S>(scores: Seq<S>, positions: Seq<usize>, values: Seq<S>, count: nat)
    requires
        count <= positions.len(),
        count <= values.len(),
        forall|j: int| 0 <= j < positions.len() ==> #[trigger] positions[j] < scores.len(),
        forall|p: int, q: int|
            0 <= p < q < positions.len() ==> #[trigger] positions[p] != #[trigger] positions[q],
    ensures
        scatter(scores, positions, values, count).len() == scores.len(),
        forall|j: int|
            0 <= j < count ==> #[trigger] scatter(scores, positions, values, count)[positions[j] as int]
                == values[j],
        forall|i: int|
            0 <= i < scores.len() && (forall|j: int| 0 <= j < count ==> #[trigger] positions[j] != i)
                ==> scatter(scores, positions, values, count)[i] == scores[i],
    decreases count,
{
    if count > 0 {
        lemma_scatter_places(scores, positions, values, (count - 1) as nat);
        let prev = scatter(scores, positions, values, (count - 1) as nat);
        assert forall|j: int| 0 <= j < count implies #[trigger] scatter(
            scores,
            positions,
            values,
            count,
        )[positions[j] as int] == values[j] by {
            if j < count - 1 {
                assert(positions[j] != positions[count - 1]);
            }
        }
    }
}

/// Scoring the length-ordered documents batch by batch, each batch taking up
/// where the previous one ended, and laying every batch's scores back, leaves
/// each document with the score computed for it: the document at position
/// `start + k` of the order gets the `k`-th score produced, and documents
/// outside the batches keep their score.
pub proof fn lemma_record_batches_follow_order<S>(
    scores: Seq<S>,
    order: Seq<usize>,
    start: int,
    batches: Seq<Seq<S>>,
)
    requires
        0 <= start,
        start + concat_batches(batches).len() <= order.len(),
        forall|k: int| 0 <= k < order.len() ==> #[trigger] order[k] < scores.len(),
        forall|p: int, q: int| 0 <= p < q < order.len() ==> #[trigger] order[p] != #[trigger] order[q],
    ensures
        record_batches(scores, order, start, batches).len() == scores.len(),
        forall|k: int|
            0 <= k < concat_batches(batches).len() ==> #[trigger] record_batches(
                scores,
                order,
                start,
                batches,
            )[order[start + k] as int] == concat_batches(batches)[k],
        forall|i: int|
            0 <= i < scores.len() && (forall|k: int|
                start <= k < start + concat_batches(batches).len() ==> #[trigger] order[k] != i)
                ==> record_batches(scores, order, start, batches)[i] == scores[i],
    decreases batches.len(),
{
    if batches.len() > 0 {
        let b = batches[0];
        let rest = batches.drop_first();
        let total = concat_batches(batches);
        assert(total == b + concat_batches(rest));
        let window = order.subrange(start, start + b.len());
        lemma_scatter_places(scores, window, b, b.len());
        let mid = scatter(scores, window, b, b.len());
        lemma_record_batches_follow_order(mid, order, start + b.len(), rest);
        let result = record_batches(scores, order, start, batches);
        assert(result == record_batches(mid, order, start + b.len(), rest));
        assert forall|k: int| 0 <= k < total.len() implies #[trigger] result[order[start + k] as int]
            == total[k] by {
            if k < b.len() {
                assert(window.len() == b.len());
                assert(window[k] == order[start + k]);
                let i = order[start + k] as int;
                assert(mid[window[k] as int] == b[k]);
                assert forall|m: int|
                    start + b.len() <= m < start + b.len() + concat_batches(rest).len() implies #[trigger] order[m]
                    != i by {
                    assert(start + k < m);
                }
                assert(0 <= i < mid.len());
                assert(result[i] == mid[i]);
                assert(total[k] == b[k]);
            } else {
                assert(order[start + k] == order[(start + b.len()) + (k - b.len())]);
            }
        }
        assert forall|i: int|
            0 <= i < scores.len() && (forall|k: int|
                start <= k < start + total.len() ==> #[trigger] order[k] != i) implies result[i] == scores[i] by {
            assert forall|j: int| 0 <= j < b.len() implies #[trigger] window[j] != i by {
                assert(window[j] == order[start + j]);
            }
        }
    }
}

/// A single document's rerank outcome: its original index, its score and, if
/// requested, the document text.
#[derive(Debug, Clone, Copy)]
pub struct RerankResult<'a, S> {
    pub index: usize,
    pub score: S,
    pub document: Option<&'a str>,
}

/// What the rerank result of document `i` is.
pub open spec fn result_for<'a, S>(
    i: int,
    score: S,
    documents: Seq<&'a str>,
    with_documents: bool,
) -> RerankResult<'a, S> {
    RerankResult {
        index: i as usize,
        score,
        document: if with_documents {
            Some(documents[i])
        } else {
            None
        },
    }
}

/// The result of document `i` names that document: its index is `i`, it
/// carries the score given, and its text is the `i`-th document exactly when
/// texts are asked for.
pub proof fn lemma_result_names_its_document<'a, S>(
    i: int,
    score: S,
    documents: Seq<&'a str>,
    with_documents: bool,
)
    requires
        0 <= i < documents.len(),
        documents.len() <= usize::MAX,
    ensures
        result_for(i, score, documents, with_documents).index == i,
        result_for(i, score, documents, with_documents).score == score,
        with_documents ==> result_for(i, score, documents, with_documents).document == Some(documents[i]),
        !with_documents ==> result_for(i, score, documents, with_documents).document is None,
{
}

/// Whether the ids, type ids and attention mask of a row are equally long.
pub open spec fn row_lists_agree(row: (Seq<u32>, Seq<u32>, Seq<u32>)) -> bool {
    row.1.len() == row.0.len() && row.2.len() == row.0.len()
}

/// The state of one rerank request between model calls.
pub struct RerankJob<'a, S> {
    documents: Vec<&'a str>,
    with_documents: bool,
    use_type_ids: bool,
    padding: PaddingConfig,
    batch_size: usize,
    order: Vec<usize>,
    pending: Vec<Option<Encoding>>,
    batch_start: usize,
    cursor: usize,
    scores: Vec<S>,
    tokens: Ghost<Seq<(Seq<u32>, Seq<u32>, Seq<u32>)>>,
}

impl<'a, S> RerankJob<'a, S> {
    /// The documents of the request.
    pub closed spec fn documents(&self) -> Seq<&'a str> {
        self.documents@
    }

    /// Whether results carry the document text.
    pub closed spec fn with_documents(&self) -> bool {
        self.with_documents
    }

    /// Whether model inputs carry token type ids.
    pub closed spec fn use_type_ids(&self) -> bool {
        self.use_type_ids
    }

    /// The padding applied to each batch.
    pub closed spec fn padding(&self) -> PaddingConfig {
        self.padding
    }

    /// Number of documents per batch (the last batch may hold fewer).
    pub closed spec fn batch_size(&self) -> usize {
        self.batch_size
    }

    /// The tokens each document's pair was encoded to, by input position.
    pub closed spec fn tokens(&self) -> Seq<(Seq<u32>, Seq<u32>, Seq<u32>)> {
        self.tokens@
    }

    /// The token length of each document's pair, by input position.
    pub open spec fn lengths(&self) -> Seq<usize> {
        Seq::new(self.tokens().len(), |i: int| self.tokens()[i].0.len() as usize)
    }

    /// The input positions sorted stably by token length.
    pub closed spec fn order(&self) -> Seq<usize> {
        self.order@
    }

    /// Where, in the order, the batch handed out last starts.
    pub closed spec fn batch_start(&self) -> nat {
        self.batch_start as nat
    }

    /// Where, in the order, the next batch starts.
    pub closed spec fn cursor(&self) -> nat {
        self.cursor as nat
    }

    /// The score of each document so far, by input position.
    pub closed spec fn scores(&self) -> Seq<S> {
        self.scores@
    }

    /// The input positions of the batch handed out last.
    pub open spec fn current_batch(&self) -> Seq<usize> {
        self.order().subrange(self.batch_start() as int, self.cursor() as int)
    }

    /// The token rows of the next batch, before padding.
    pub open spec fn next_rows(&self) -> Seq<(Seq<u32>, Seq<u32>, Seq<u32>)> {
        let end: int = if self.cursor() + self.batch_size() <= self.documents().len() {
            self.cursor() + self.batch_size()
        } else {
            self.documents().len() as int
        };
        Seq::new(
            (end - self.cursor()) as nat,
            |j: int| self.tokens()[self.order()[self.cursor() + j] as int],
        )
    }

    /// The internal consistency of a job.
    pub closed spec fn wf(&self) -> bool {
        let n = self.documents@.len();
        &&& self.tokens@.len() == n
        &&& self.scores@.len() == n
        &&& self.pending@.len() == n
        &&& is_length_order(self.lengths(), self.order@)
        &&& forall|i: int| 0 <= i < n ==> self.tokens@[i].0.len() <= usize::MAX
        &&& forall|i: int| 0 <= i < n ==> #[trigger] row_lists_agree(self.tokens@[i])
        &&& self.padding.strategy == PaddingLength::BatchLongest
        &&& self.batch_size >= 1
        &&& self.batch_start <= self.cursor <= n
        &&& forall|k: int|
            #![trigger self.order@[k]]
            self.cursor <= k < n ==> {
                &&& self.pending@[self.order@[k] as int] is Some
                &&& encoding_row(self.pending@[self.order@[k] as int]->0) == self.tokens@[self.order@[k] as int]
            }
    }
}


impl<'a, S: Copy> RerankJob<'a, S> {
    /// Starts reranking `documents` against `query`: encodes every pair and
    /// orders the documents by token length; batches are padded with the
    /// tokenizer's padding. Every score starts as `zero`. It succeeds exactly
    /// when every pair encodes.
    pub fn new(
        tk: &CrossTokenizer,
        query: &str,
        documents: &[&'a str],
        with_documents: bool,
        batch_size: Option<usize>,
        use_type_ids: bool,
        zero: S,
    ) -> (r: Result<Self, CrossEncoderError>)
        ensures
            r matches Ok(job) ==> {
                &&& job.wf()
                &&& job.documents() == documents@
                &&& job.with_documents() == with_documents
                &&& job.use_type_ids() == use_type_ids
                &&& job.padding() == tk.padding_settings()
                &&& job.padding().strategy == PaddingLength::BatchLongest
                &&& job.batch_size() == effective_batch_size(batch_size)
                &&& job.tokens().len() == documents@.len()
                &&& forall|i: int|
                    0 <= i < documents@.len() ==> #[trigger] job.tokens()[i] == pair_encoding(
                        tk.source(),
                        tk.truncation_settings(),
                        query@,
                        documents@[i]@,
                    )->0
                &&& forall|i: int| 0 <= i < documents@.len() ==> #[trigger] row_lists_agree(job.tokens()[i])
                &&& is_length_order(job.lengths(), job.order())
                &&& job.batch_start() == 0
                &&& job.cursor() == 0
                &&& job.scores() == Seq::new(documents@.len(), |i: int| zero)
            },
            r is Ok <==> tk.encodes() && all_pairs_encode(*tk, query@, documents@),
            r matches Err(e) ==> e is TokenizerError,
    {
        let encodings = match encode_batch(tk, query, documents) {
            Ok(v) => v,
            Err(e) => return Err(e),
        };
        let n = encodings.len();
        let ghost tokens = token_rows(encodings@);
        let mut lengths: Vec<usize> = Vec::new();
        for i in 0..n
            invariant
                n == encodings.len(),
                tokens == token_rows(encodings@),
                lengths@.len() == i,
                forall|j: int| 0 <= j < i ==> #[trigger] lengths@[j] == tokens[j].0.len(),
        {
            lengths.push(encoding_len(&encodings[i]));
        }
        let order = order_by_length(&lengths);
        let mut docs: Vec<&'a str> = Vec::new();
        let mut scores: Vec<S> = Vec::new();
        for i in 0..n
            invariant
                n == documents@.len(),
                docs@.len() == i,
                scores@.len() == i,
                forall|j: int| 0 <= j < i ==> #[trigger] docs@[j] == documents@[j],
                forall|j: int| 0 <= j < i ==> #[trigger] scores@[j] == zero,
        {
            docs.push(documents[i]);
            scores.push(zero);
        }
        let mut rest = encodings;
        let mut reversed: Vec<Encoding> = Vec::new();
        let ghost all = encodings@;
        while rest.len() > 0
            invariant
                n == all.len(),
                rest@ == all.take(rest@.len() as int),
                reversed@.len() + rest@.len() == n,
                forall|j: int| 0 <= j < reversed@.len() ==> #[trigger] reversed@[j] == all[n - 1 - j],
            decreases rest@.len(),
        {
            let e = rest.pop().unwrap();
            reversed.push(e);
        }
        let mut pending: Vec<Option<Encoding>> = Vec::new();
        while reversed.len() > 0
            invariant
                n == all.len(),
                reversed@.len() + pending@.len() == n,
                forall|j: int| 0 <= j < reversed@.len() ==> #[trigger] reversed@[j] == all[n - 1 - j],
                forall|j: int| 0 <= j < pending@.len() ==> #[trigger] pending@[j] == Some(all[j]),
            decreases reversed@.len(),
        {
            let e = reversed.pop().unwrap();
            pending.push(Some(e));
        }
        let job = RerankJob {
            documents: docs,
            with_documents,
            use_type_ids,
            padding: tk.padding().duplicate(),
            batch_size: batch_size_or_default(batch_size),
            order,
            pending,
            batch_start: 0,
            cursor: 0,
            scores,
            tokens: Ghost(tokens),
        };
        assert(job.lengths() =~= lengths@);
        assert forall|i: int| 0 <= i < documents@.len() implies #[trigger] job.tokens()[i] == pair_encoding(
            tk.source(),
            tk.truncation_settings(),
            query@,
            documents@[i]@,
        )->0 by {
            assert(tokens[i] == encoding_row(encodings@[i]));
        }
        assert(pending@.len() == n);
        assert forall|k: int| 0 <= k < n implies #[trigger] job.order@[k] < n by {}
        assert forall|p: int| 0 <= p < n implies job.pending@[p] is Some && encoding_row(
            job.pending@[p]->0,
        ) == job.tokens@[p] by {
            assert(job.pending@[p] == Some(all[p]));
        }
        assert(job.tokens@.len() == job.documents@.len());
        assert(job.scores@.len() == job.documents@.len());
        assert(is_length_order(job.lengths(), job.order@));
        assert forall|i: int| 0 <= i < n implies job.tokens@[i].0.len() <= usize::MAX by {
            assert(lengths@[i] == tokens[i].0.len());
        }
        assert forall|i: int| 0 <= i < n implies #[trigger] row_lists_agree(job.tokens@[i]) by {
            assert(tokens[i] == encoding_row(encodings@[i]));
        }
        assert(job.wf());
        assert(job.scores() =~= Seq::new(documents@.len(), |i: int| zero));
        assert(job.documents() =~= documents@);
        Ok(job)
    }

    /// Hands out the model inputs of the next batch: the next
    /// [`batch_size`](Self::batch_size) documents in length order (fewer for
    /// the last batch), padded together. Returns `None` once every batch has
    /// been handed out. A batch is refused only when its padding length would
    /// not fit in `usize`.
    pub fn next_batch(&mut self) -> (r: Option<Result<InferenceInputs, CrossEncoderError>>)
        requires
            old(self).wf(),
        ensures
            final(self).wf(),
            final(self).documents() == old(self).documents(),
            final(self).with_documents() == old(self).with_documents(),
            final(self).use_type_ids() == old(self).use_type_ids(),
            final(self).padding() == old(self).padding(),
            final(self).batch_size() == old(self).batch_size(),
            final(self).tokens() == old(self).tokens(),
            final(self).order() == old(self).order(),
            final(self).scores() == old(self).scores(),
            old(self).cursor() == old(self).documents().len() ==> {
                &&& r is None
                &&& final(self).batch_start() == old(self).batch_start()
                &&& final(self).cursor() == old(self).cursor()
            },
            old(self).cursor() < old(self).documents().len() ==> {
                let rows = old(self).next_rows();
                let cfg = old(self).padding();
                let target = pad_target(rows, cfg);
                let padded = rows.map_values(|row: (Seq<u32>, Seq<u32>, Seq<u32>)| pad_row(row, target, cfg));
                &&& rows.len() >= 1
                &&& rows.len() == (if old(self).cursor() + old(self).batch_size() <= old(self).documents().len() {
                    old(self).batch_size() as int
                } else {
                    old(self).documents().len() - old(self).cursor()
                })
                &&& forall|j: int| 0 <= j < rows.len() ==> #[trigger] rows[j] == old(self).tokens()[old(self).order()[old(self).cursor() + j] as int]
                &&& final(self).batch_start() == old(self).cursor()
                &&& final(self).cursor() == old(self).cursor() + rows.len()
                &&& (r matches Some(Ok(x)) <==> target <= usize::MAX)
                &&& (r matches Some(Ok(x)) ==> is_rectangular(padded) && inputs_match(
                    x,
                    padded,
                    old(self).use_type_ids(),
                ))
                &&& (r matches Some(Err(e)) ==> e is TokenizerError)
            },
    {
        let n = self.documents.len();
        if self.cursor == n {
            return None;
        }
        let ghost rows = self.next_rows();
        let start = self.cursor;
        let end = if n - start <= self.batch_size {
            n
        } else {
            start + self.batch_size
        };
        let mut batch: Vec<Encoding> = Vec::new();
        let mut k = start;
        while k < end
            invariant
                n == self.documents@.len(),
                start == old(self).cursor,
                start < end <= n,
                end - start == rows.len(),
                rows == old(self).next_rows(),
                start <= k <= end,
                self.documents == old(self).documents,
                self.with_documents == old(self).with_documents,
                self.use_type_ids == old(self).use_type_ids,
                self.padding == old(self).padding,
                self.batch_size == old(self).batch_size,
                self.tokens == old(self).tokens,
                self.order == old(self).order,
                self.scores == old(self).scores,
                self.batch_start == old(self).batch_start,
                self.cursor == old(self).cursor,
                self.pending@.len() == n,
                self.tokens@.len() == n,
                self.order@.len() == n,
                is_length_order(self.lengths(), self.order@),
                batch@.len() == k - start,
                forall|j: int| 0 <= j < batch@.len() ==> #[trigger] encoding_row(batch@[j]) == rows[j],
                forall|q: int|
                    #![trigger self.order@[q]]
                    k <= q < n ==> {
                        &&& self.pending@[self.order@[q] as int] is Some
                        &&& encoding_row(self.pending@[self.order@[q] as int]->0)
                            == self.tokens@[self.order@[q] as int]
                    },
            decreases end - k,
        {
            assert(self.order@[k as int] < n);
            let p = self.order[k];
            let ghost before = self.pending@;
            let taken = self.pending[p].take();
            proof {
                assert forall|q: int| #![trigger self.order@[q]] k + 1 <= q < n implies self.pending@[self.order@[q] as int]
                    == before[self.order@[q] as int] by {
                    assert(crate::ordering::precedes(self.lengths(), self.order@[k as int], self.order@[q]));
                }
            }
            batch.push(taken.unwrap());
            k = k + 1;
        }
        self.batch_start = start;
        self.cursor = end;
        assert(token_rows(batch@) =~= rows);
        let m = batch.len();
        let mut longest_len: usize = 0;
        for j in 0..m
            invariant
                m == batch@.len(),
                token_rows(batch@) == rows,
                longest_len == longest(rows.take(j as int)),
        {
            let l = encoding_len(&batch[j]);
            assert(rows.take(j + 1).drop_last() =~= rows.take(j as int));
            if l > longest_len {
                longest_len = l;
            }
        }
        assert(rows.take(m as int) =~= rows);
        let base = match self.padding.strategy {
            PaddingLength::Fixed(size) => size,
            PaddingLength::BatchLongest => longest_len,
        };
        let fits = match self.padding.pad_to_multiple_of {
            Some(multiple) => if multiple > 0 && base % multiple > 0 {
                base <= usize::MAX - (multiple - base % multiple)
            } else {
                true
            },
            None => true,
        };
        if !fits {
            return Some(Err(CrossEncoderError::TokenizerError(String::from_str(
                "padding length does not fit in usize",
            ))));
        }
        let ghost target = pad_target(rows, self.padding);
        pad_batch(&mut batch, &self.padding);
        let ghost padded = rows.map_values(
            |row: (Seq<u32>, Seq<u32>, Seq<u32>)| pad_row(row, target, self.padding),
        );
        assert(token_rows(batch@) =~= padded);
        proof {
            lemma_batch_longest_padding_is_rectangular(rows, self.padding);
            assert forall|j: int| 0 <= j < rows.len() implies row_lists_agree(#[trigger] rows[j]) by {
                let p = old(self).order@[start + j];
                assert(p < n);
                assert(rows[j] == old(self).tokens@[p as int]);
                assert(row_lists_agree(old(self).tokens@[p as int]));
            }
            assert forall|j: int| 0 <= j < padded.len() implies #[trigger] padded[j].0.len() == padded[0].0.len()
                && padded[j].1.len() == padded[0].0.len() && padded[j].2.len() == padded[0].0.len() by {
                assert(padded[j] == pad_row(rows[j], target, self.padding));
                assert(padded[0] == pad_row(rows[0], target, self.padding));
                assert(row_lists_agree(rows[j]));
                assert(row_lists_agree(rows[0]));
            }
        }
        Some(InferenceInputs::from_batch(&batch, self.use_type_ids))
    }

    /// Whether every batch has been handed out.
    pub fn is_done(&self) -> (r: bool)
        requires
            self.wf(),
        ensures
            r == (self.cursor() == self.documents().len()),
    {
        self.cursor == self.documents.len()
    }

    /// The results so far: for each document, in input order, its index, its
    /// score and, if asked for, its text.
    pub fn finish(self) -> (r: Vec<RerankResult<'a, S>>)
        requires
            self.wf(),
        ensures
            r@.len() == self.documents().len(),
            forall|i: int|
                0 <= i < r@.len() ==> #[trigger] r@[i] == result_for(
                    i,
                    self.scores()[i],
                    self.documents(),
                    self.with_documents(),
                ),
            forall|i: int| 0 <= i < r@.len() ==> #[trigger] r@[i].index == i,
            forall|i: int| 0 <= i < r@.len() ==> #[trigger] r@[i].score == self.scores()[i],
            forall|i: int|
                0 <= i < r@.len() ==> #[trigger] r@[i].document == (if self.with_documents() {
                    Some(self.documents()[i])
                } else {
                    None
                }),
    {
        let n = self.documents.len();
        let mut out: Vec<RerankResult<'a, S>> = Vec::new();
        for i in 0..n
            invariant
                n == self.documents@.len(),
                self.wf(),
                out@.len() == i,
                forall|j: int|
                    0 <= j < i ==> #[trigger] out@[j] == result_for(
                        j,
                        self.scores()[j],
                        self.documents(),
                        self.with_documents(),
                    ),
        {
            let document = if self.with_documents {
                Some(self.documents[i])
            } else {
                None
            };
            out.push(RerankResult { index: i, score: self.scores[i], document });
        }
        out
    }

    /// Lays the scores of the batch handed out last back at the input
    /// positions of its documents: the `j`-th score goes to the `j`-th
    /// document of the batch. Scores beyond the batch are ignored; documents
    /// left without a score keep the one they had.
    pub fn record_scores(&mut self, batch_scores: Vec<S>)
        requires
            old(self).wf(),
        ensures
            final(self).wf(),
            final(self).documents() == old(self).documents(),
            final(self).with_documents() == old(self).with_documents(),
            final(self).use_type_ids() == old(self).use_type_ids(),
            final(self).padding() == old(self).padding(),
            final(self).batch_size() == old(self).batch_size(),
            final(self).tokens() == old(self).tokens(),
            final(self).order() == old(self).order(),
            final(self).batch_start() == old(self).batch_start(),
            final(self).cursor() == old(self).cursor(),
            final(self).scores() == scatter(
                old(self).scores(),
                old(self).current_batch(),
                batch_scores@,
                if batch_scores@.len() < old(self).current_batch().len() {
                    batch_scores@.len()
                } else {
                    old(self).current_batch().len()
                },
            ),
            final(self).scores().len() == old(self).scores().len(),
            forall|j: int|
                0 <= j < old(self).current_batch().len() && j < batch_scores@.len() ==> #[trigger] final(self).scores()[old(
                    self,
                ).order()[old(self).batch_start() + j] as int] == batch_scores@[j],
            forall|i: int|
                0 <= i < old(self).scores().len() && (forall|j: int|
                    0 <= j < old(self).current_batch().len() && j < batch_scores@.len()
                        ==> #[trigger] old(self).order()[old(self).batch_start() + j] != i) ==> final(self).scores()[i]
                    == old(self).scores()[i],
    {
        let start = self.batch_start;
        let width = self.cursor - self.batch_start;
        let count = if batch_scores.len() < width {
            batch_scores.len()
        } else {
            width
        };
        let ghost positions = self.current_batch();
        let ghost before = self.scores@;
        for j in 0..count
            invariant
                self.wf(),
                start == self.batch_start,
                width == self.cursor - self.batch_start,
                count <= width,
                count <= batch_scores@.len(),
                positions == self.current_batch(),
                self.documents() == old(self).documents(),
                self.with_documents() == old(self).with_documents(),
                self.use_type_ids() == old(self).use_type_ids(),
                self.padding() == old(self).padding(),
                self.batch_size() == old(self).batch_size(),
                self.tokens() == old(self).tokens(),
                self.order() == old(self).order(),
                self.batch_start() == old(self).batch_start(),
                self.cursor() == old(self).cursor(),
                before == old(self).scores(),
                positions == old(self).current_batch(),
                self.scores@ == scatter(before, positions, batch_scores@, j as nat),
        {
            let p = self.order[start + j];
            assert(p == positions[j as int]);
            self.scores.set(p, batch_scores[j]);
        }
        proof {
            lemma_length_order_is_stable_ascending(old(self).lengths(), old(self).order());
            assert forall|j: int| 0 <= j < positions.len() implies #[trigger] positions[j] < before.len() by {
                assert(positions[j] == old(self).order()[start + j]);
            }
            assert forall|p: int, q: int| 0 <= p < q < positions.len() implies #[trigger] positions[p]
                != #[trigger] positions[q] by {
                assert(positions[p] == old(self).order()[start + p]);
                assert(positions[q] == old(self).order()[start + q]);
            }
            lemma_scatter_places(before, positions, batch_scores@, count as nat);
            assert forall|j: int|
                0 <= j < positions.len() && j < batch_scores@.len() implies #[trigger] self.scores@[old(
                    self,
                ).order()[old(self).batch_start() + j] as int] == batch_scores@[j] by {
                assert(positions[j] == old(self).order()[start + j]);
            }
            assert forall|i: int|
                0 <= i < before.len() && (forall|j: int|
                    0 <= j < positions.len() && j < batch_scores@.len()
                        ==> #[trigger] old(self).order()[old(self).batch_start() + j] != i) implies self.scores@[i]
                == before[i] by {
                assert forall|j: int| 0 <= j < count implies #[trigger] positions[j] != i by {
                    assert(positions[j] == old(self).order()[start + j]);
                    assert(old(self).order()[old(self).batch_start() + j] != i);
                }
            }
        }
    }
}

} // verus!
