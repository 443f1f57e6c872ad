//! Tokenizer loading and query/document batch encoding.

use vstd::prelude::*;

use crate::errors::CrossEncoderError;
use crate::loaded::{
    clear_padding, configured_padding, configured_truncation, encode_pairs,
    encode_special_tokens_as_text, model_samples, parse_tokenizer, set_truncation,
    special_tokens_added, LoadedTokenizer,
};
use tokenizers::{
    Encoding, PaddingDirection, PaddingParams, PaddingStrategy, Tokenizer, TruncationDirection,
    TruncationParams, TruncationStrategy,
};

verus! {

/// Truncation length used when the tokenizer file configures none and the
/// caller gives no fallback.
pub const DEFAULT_MAX_LENGTH: usize = 512;

#[verifier::external_type_specification]
#[verifier::external_body]
pub struct ExTokenizer(Tokenizer);

#[verifier::external_type_specification]
#[verifier::external_body]
pub struct ExEncoding(Encoding);

/// The token ids an encoding holds, in order.
pub uninterp spec fn encoding_ids_of(e: Encoding) -> Seq<u32>;

/// The type ids an encoding holds, in order.
pub uninterp spec fn encoding_type_ids_of(e: Encoding) -> Seq<u32>;

/// The attention mask an encoding holds, in order.
pub uninterp spec fn encoding_mask_of(e: Encoding) -> Seq<u32>;

/// Whether `tokenizer.json` content deserializes into a tokenizer.
pub uninterp spec fn tokenizer_json_accepted(json: Seq<u8>) -> bool;

/// The padding settings a `tokenizer.json` configures, if any.
pub uninterp spec fn json_padding(json: Seq<u8>) -> Option<PaddingView>;

/// The truncation settings a `tokenizer.json` configures, if any.
pub uninterp spec fn json_truncation(json: Seq<u8>) -> Option<TruncationConfig>;

/// Number of special tokens the tokenizer of a `tokenizer.json` adds to a
/// single sequence (`is_pair` false) or to a pair.
pub uninterp spec fn json_special_tokens(json: Seq<u8>, is_pair: bool) -> usize;

/// Whether the model of a `tokenizer.json` sets a sampling parameter: a BPE
/// dropout or a unigram `alpha`, whatever its value (0 included). With a
/// value above 0, encoding the same text may differ from call to call.
pub uninterp spec fn json_model_samples(json: Seq<u8>) -> bool;

/// The ids, type ids and attention mask of the pair `(query, document)`,
/// encoded with special tokens by the tokenizer of `json` with truncation
/// `truncation`, no padding, and special-token text in the inputs read as
/// ordinary text; `None` when the tokenizer refuses the pair.
pub uninterp spec fn pair_encoding(
    json: Seq<u8>,
    truncation: TruncationConfig,
    query: Seq<char>,
    document: Seq<char>,
) -> Option<(Seq<u32>, Seq<u32>, Seq<u32>)>;

/// Which side of a sequence padding or truncation acts on.
#[derive(Debug, Clone, Copy, PartialEq, Eq)]
pub enum Side {
    Left,
    Right,
}

/// The length a batch is padded to.
#[derive(Debug, Clone, Copy, PartialEq, Eq)]
pub enum PaddingLength {
    /// The longest sequence of the batch.
    BatchLongest,
    /// A fixed number of tokens.
    Fixed(usize),
}

/// Padding settings of a tokenizer, as plain values.
#[derive(Debug, Clone)]
pub struct PaddingConfig {
    pub strategy: PaddingLength,
    pub direction: Side,
    pub pad_to_multiple_of: Option<usize>,
    pub pad_id: u32,
    pub pad_type_id: u32,
    pub pad_token: String,
}

impl PaddingConfig {
    /// A copy of these settings.
    pub fn duplicate(&self) -> (r: PaddingConfig)
        ensures
            r == *self,
    {
        PaddingConfig {
            strategy: self.strategy,
            direction: self.direction,
            pad_to_multiple_of: self.pad_to_multiple_of,
            pad_id: self.pad_id,
            pad_type_id: self.pad_type_id,
            pad_token: self.pad_token.clone(),
        }
    }
}

/// Padding settings as values: strategy, direction, multiple, pad id, pad
/// type id, pad token text.
pub type PaddingView = (PaddingLength, Side, Option<usize>, u32, u32, Seq<char>);

impl View for PaddingConfig {
    type V = PaddingView;

    open spec fn view(&self) -> PaddingView {
        (
            self.strategy,
            self.direction,
            self.pad_to_multiple_of,
            self.pad_id,
            self.pad_type_id,
            self.pad_token@,
        )
    }
}

/// The views of optional padding settings.
pub open spec fn padding_views(p: Option<PaddingConfig>) -> Option<PaddingView> {
    match p {
        Some(p) => Some(p@),
        None => None,
    }
}

/// How the two sequences of a pair share the truncation budget.
#[derive(Debug, Clone, Copy, PartialEq, Eq)]
pub enum TruncationMode {
    LongestFirst,
    OnlyFirst,
    OnlySecond,
}

/// Truncation settings of a tokenizer, as plain values.
#[derive(Debug, Clone, Copy, PartialEq, Eq)]
pub struct TruncationConfig {
    pub direction: Side,
    pub max_length: usize,
    pub strategy: TruncationMode,
    pub stride: usize,
}

/// The padding a cross-encoder uses: always batch-longest, with the other
/// settings of the file's padding, or the tokenizer's defaults (right side,
/// no rounding, pad id and type id 0, token `[PAD]`) when it configures none.
pub open spec fn chosen_padding(configured: Option<PaddingView>, r: PaddingView) -> bool {
    &&& r.0 == PaddingLength::BatchLongest
    &&& match configured {
        Some(p) => r.1 == p.1 && r.2 == p.2 && r.3 == p.3 && r.4 == p.4 && r.5 == p.5,
        None => r.1 == Side::Right && r.2 is None && r.3 == 0 && r.4 == 0 && r.5 == "[PAD]"@,
    }
}

/// The truncation a cross-encoder uses: the file's own, or the tokenizer's
/// defaults at `fallback_max_length` (default [`DEFAULT_MAX_LENGTH`]).
pub open spec fn chosen_truncation(configured: Option<TruncationConfig>, fallback_max_length: Option<usize>) -> TruncationConfig {
    match configured {
        Some(t) => t,
        None => TruncationConfig {
            direction: Side::Right,
            max_length: match fallback_max_length {
                Some(n) => n,
                None => DEFAULT_MAX_LENGTH,
            },
            strategy: TruncationMode::LongestFirst,
            stride: 0,
        },
    }
}

/// A tokenizer file's own truncation is kept whatever fallback length is
/// given; the fallback only sets the length when the file configures none.
pub proof fn lemma_configured_truncation_wins(configured: Option<TruncationConfig>, fallback_max_length: Option<usize>)
    ensures
        configured matches Some(t) ==> chosen_truncation(configured, fallback_max_length) == t,
        configured is None ==> chosen_truncation(configured, fallback_max_length).max_length == (
        match fallback_max_length {
            Some(n) => n,
            None => DEFAULT_MAX_LENGTH,
        }),
        configured is None ==> chosen_truncation(configured, fallback_max_length).stride == 0,
{
}

/// The padding chosen keeps every setting of the file's padding but its
/// length, which is always the batch's longest pair: same side, same
/// rounding, same pad id, type id and token.
pub proof fn lemma_chosen_padding_keeps_configured(configured: Option<PaddingView>, r: PaddingView)
    requires
        chosen_padding(configured, r),
    ensures
        r.0 == PaddingLength::BatchLongest,
        configured matches Some(p) ==> r.1 == p.1 && r.2 == p.2 && r.3 == p.3 && r.4 == p.4 && r.5 == p.5,
        configured is None ==> r.1 == Side::Right && r.2 is None && r.3 == 0 && r.4 == 0,
{
}

/// The ids, type ids and attention mask of an encoding.
pub open spec fn encoding_row(e: Encoding) -> (Seq<u32>, Seq<u32>, Seq<u32>) {
    (encoding_ids_of(e), encoding_type_ids_of(e), encoding_mask_of(e))
}

/// The rows of a batch of encodings.
pub open spec fn token_rows(es: Seq<Encoding>) -> Seq<(Seq<u32>, Seq<u32>, Seq<u32>)> {
    es.map_values(|e: Encoding| encoding_row(e))
}

/// Number of ids of the longest row (0 for no rows).
pub open spec fn longest(rows: Seq<(Seq<u32>, Seq<u32>, Seq<u32>)>) -> nat
    decreases rows.len(),
{
    if rows.len() == 0 {
        0
    } else {
        let rest = longest(rows.drop_last());
        if rows.last().0.len() > rest {
            rows.last().0.len()
        } else {
            rest
        }
    }
}

/// The length every row of a batch is padded up to.
pub open spec fn pad_target(rows: Seq<(Seq<u32>, Seq<u32>, Seq<u32>)>, cfg: PaddingConfig) -> int {
    let base: int = match cfg.strategy {
        PaddingLength::Fixed(size) => size as int,
        PaddingLength::BatchLongest => longest(rows) as int,
    };
    match cfg.pad_to_multiple_of {
        Some(m) => if m > 0 && base % (m as int) > 0 {
            base + m - base % (m as int)
        } else {
            base
        },
        None => base,
    }
}

/// `s` with `count` copies of `value` added on `side`.
pub open spec fn pad_field(s: Seq<u32>, count: nat, value: u32, side: Side) -> Seq<u32> {
    let pad = Seq::new(count, |i: int| value);
    match side {
        Side::Left => pad + s,
        Side::Right => s + pad,
    }
}

/// A row padded to `target` ids: unchanged when it has at least that many
/// ids; otherwise each of its three lists is extended on the configured side
/// by the number of ids missing, with the pad id, the pad type id and mask 0.
pub open spec fn pad_row(
    row: (Seq<u32>, Seq<u32>, Seq<u32>),
    target: int,
    cfg: PaddingConfig,
) -> (Seq<u32>, Seq<u32>, Seq<u32>) {
    if row.0.len() >= target {
        row
    } else {
        let k = (target - row.0.len()) as nat;
        (
            pad_field(row.0, k, cfg.pad_id, cfg.direction),
            pad_field(row.1, k, cfg.pad_type_id, cfg.direction),
            pad_field(row.2, k, 0, cfg.direction),
        )
    }
}

/// Padding a row short of the target brings each of its lists to the target
/// length (when they were as long as its ids): on the right side the row's
/// own entries come first, on the left they come last, and the added entries
/// are the pad id, the pad type id and mask 0. A row already at the target
/// or beyond is left as it is.
pub proof fn lemma_pad_row_places(row: (Seq<u32>, Seq<u32>, Seq<u32>), target: int, cfg: PaddingConfig)
    requires
        row.1.len() == row.0.len(),
        row.2.len() == row.0.len(),
    ensures
        row.0.len() >= target ==> pad_row(row, target, cfg) == row,
        row.0.len() < target ==> {
            let p = pad_row(row, target, cfg);
            let n = row.0.len() as int;
            let k = target - n;
            &&& p.0.len() == target && p.1.len() == target && p.2.len() == target
            &&& cfg.direction == Side::Right ==> {
                &&& forall|i: int| 0 <= i < n ==> #[trigger] p.0[i] == row.0[i] && p.1[i] == row.1[i] && p.2[i] == row.2[i]
                &&& forall|i: int| n <= i < target ==> #[trigger] p.0[i] == cfg.pad_id && p.1[i] == cfg.pad_type_id && p.2[i] == 0
            }
            &&& cfg.direction == Side::Left ==> {
                &&& forall|i: int| 0 <= i < k ==> #[trigger] p.0[i] == cfg.pad_id && p.1[i] == cfg.pad_type_id && p.2[i] == 0
                &&& forall|i: int| k <= i < target ==> #[trigger] p.0[i] == row.0[i - k] && p.1[i] == row.1[i - k] && p.2[i]
                    == row.2[i - k]
            }
        },
{
}

/// No row has more ids than the longest one.
pub proof fn lemma_longest_bounds(rows: Seq<(Seq<u32>, Seq<u32>, Seq<u32>)>)
    ensures
        forall|i: int| 0 <= i < rows.len() ==> #[trigger] rows[i].0.len() <= longest(rows),
    decreases rows.len(),
{
    if rows.len() > 0 {
        lemma_longest_bounds(rows.drop_last());
        assert forall|i: int| 0 <= i < rows.len() implies #[trigger] rows[i].0.len() <= longest(rows) by {
            if i < rows.len() - 1 {
                assert(rows[i] == rows.drop_last()[i]);
            }
        }
    }
}

/// Batch-longest padding gives every row of a batch the same number of ids:
/// the padding target; rows whose three lists were of equal length keep them
/// so.
pub proof fn lemma_batch_longest_padding_is_rectangular(rows: Seq<(Seq<u32>, Seq<u32>, Seq<u32>)>, cfg: PaddingConfig)
    requires
        cfg.strategy == PaddingLength::BatchLongest,
    ensures
        forall|r: int|
            0 <= r < rows.len() ==> #[trigger] pad_row(rows[r], pad_target(rows, cfg), cfg).0.len()
                == pad_target(rows, cfg),
        forall|r: int|
            0 <= r < rows.len() && rows[r].1.len() == rows[r].0.len() && rows[r].2.len() == rows[r].0.len()
                ==> #[trigger] pad_row(rows[r], pad_target(rows, cfg), cfg).1.len() == pad_target(rows, cfg)
                && pad_row(rows[r], pad_target(rows, cfg), cfg).2.len() == pad_target(rows, cfg),
{
    lemma_longest_bounds(rows);
    let target = pad_target(rows, cfg);
    assert(target >= longest(rows)) by {
        match cfg.pad_to_multiple_of {
            Some(m) => {
                if m > 0 && (longest(rows) as int) % (m as int) > 0 {
                    assert((longest(rows) as int) % (m as int) < m);
                }
            },
            None => {},
        }
    }
}

/// A tokenizer ready for cross-encoding: read from a `tokenizer.json`, with
/// padding removed, special-token text read as ordinary text, the padding to
/// apply to each batch (always batch-longest), and the truncation of every
/// pair, stored in the tokenizer when it [`encodes`](Self::encodes). Only
/// [`load_tokenizer`] builds one.
pub struct CrossTokenizer {
    loaded: LoadedTokenizer,
    padding: PaddingConfig,
    truncation: TruncationConfig,
    usable: bool,
}

impl CrossTokenizer {
    #[verifier::type_invariant]
    spec fn consistent(&self) -> bool {
        let t = self.truncation;
        let json = self.loaded.source();
        &&& self.padding.strategy == PaddingLength::BatchLongest
        &&& self.loaded.padding_cleared()
        &&& self.loaded.special_text()
        &&& self.usable == (t.stride == 0 && t.max_length >= json_special_tokens(json, false)
            && t.max_length >= json_special_tokens(json, true) && !json_model_samples(json))
        &&& self.usable ==> self.loaded.ready_for(t)
    }

    /// The `tokenizer.json` content the tokenizer was read from.
    pub closed spec fn source(&self) -> Seq<u8> {
        self.loaded.source()
    }

    /// The padding applied to each batch.
    pub closed spec fn padding_settings(&self) -> PaddingConfig {
        self.padding
    }

    /// The truncation of every pair.
    pub closed spec fn truncation_settings(&self) -> TruncationConfig {
        self.truncation
    }

    /// Whether pairs can be encoded: truncation with stride 0, no shorter
    /// than the special tokens, and a model that sets no sampling parameter.
    pub closed spec fn encodes(&self) -> bool {
        self.usable
    }

    /// The padding applied to each batch, which is batch-longest.
    pub fn padding(&self) -> (r: &PaddingConfig)
        ensures
            *r == self.padding_settings(),
            r.strategy == PaddingLength::BatchLongest,
    {
        proof {
            use_type_invariant(self);
        }
        &self.padding
    }

    /// The truncation of every pair.
    pub fn truncation(&self) -> (r: TruncationConfig)
        ensures
            r == self.truncation_settings(),
    {
        self.truncation
    }

    /// Whether pairs can be encoded.
    pub fn usable(&self) -> (r: bool)
        ensures
            r == self.encodes(),
    {
        self.usable
    }
}

/// `PaddingParams::default()`: batch-longest padding on the right, no
/// rounding, pad id and pad type id 0, token "[PAD]".
#[verifier::external_body]
fn default_padding() -> (r: PaddingConfig)
    ensures
        r.strategy == PaddingLength::BatchLongest,
        r.direction == Side::Right,
        r.pad_to_multiple_of is None,
        r.pad_id == 0,
        r.pad_type_id == 0,
        r.pad_token@ == "[PAD]"@,
{
    let p = PaddingParams::default();
    PaddingConfig {
        strategy: match p.strategy { PaddingStrategy::BatchLongest => PaddingLength::BatchLongest, PaddingStrategy::Fixed(n) => PaddingLength::Fixed(n), },
        direction: match p.direction { PaddingDirection::Left => Side::Left, PaddingDirection::Right => Side::Right, },
        pad_to_multiple_of: p.pad_to_multiple_of,
        pad_id: p.pad_id,
        pad_type_id: p.pad_type_id,
        pad_token: p.pad_token,
    }
}

/// `TruncationParams::default()`: truncation on the right to 512 tokens,
/// longest sequence first, stride 0.
#[verifier::external_body]
fn default_truncation() -> (r: TruncationConfig)
    ensures
        r == (TruncationConfig {
            direction: Side::Right,
            max_length: 512,
            strategy: TruncationMode::LongestFirst,
            stride: 0,
        }),
{
    let t = TruncationParams::default();
    TruncationConfig {
        direction: match t.direction { TruncationDirection::Left => Side::Left, TruncationDirection::Right => Side::Right, },
        max_length: t.max_length,
        strategy: match t.strategy { TruncationStrategy::LongestFirst => TruncationMode::LongestFirst, TruncationStrategy::OnlyFirst => TruncationMode::OnlyFirst, TruncationStrategy::OnlySecond => TruncationMode::OnlySecond, },
        stride: t.stride,
    }
}

/// The number of special tokens a truncation length must leave room for: the
/// larger of the counts the tokenizer adds to a single sequence and to a pair.
fn special_token_count(t: &LoadedTokenizer) -> (r: usize)
    ensures
        r == json_special_tokens(t.source(), false) || r == json_special_tokens(t.source(), true),
        r >= json_special_tokens(t.source(), false),
        r >= json_special_tokens(t.source(), true),
{
    let single = special_tokens_added(t, false);
    let pair = special_tokens_added(t, true);
    if single < pair {
        pair
    } else {
        single
    }
}

/// Number of ids of an encoding. Calls `Encoding::len`.
#[verifier::external_body]
pub(crate) fn encoding_len(e: &Encoding) -> (r: usize)
    ensures
        r == encoding_ids_of(*e).len(),
{
    e.len()
}

/// The token ids of an encoding. Calls `Encoding::get_ids`.
#[verifier::external_body]
pub(crate) fn encoding_ids(e: &Encoding) -> (r: Vec<u32>)
    ensures
        r@ == encoding_ids_of(*e),
{
    e.get_ids().to_vec()
}

/// The type ids of an encoding. Calls `Encoding::get_type_ids`.
#[verifier::external_body]
pub(crate) fn encoding_type_ids(e: &Encoding) -> (r: Vec<u32>)
    ensures
        r@ == encoding_type_ids_of(*e),
{
    e.get_type_ids().to_vec()
}

/// The attention mask of an encoding. Calls `Encoding::get_attention_mask`.
#[verifier::external_body]
pub(crate) fn encoding_attention_mask(e: &Encoding) -> (r: Vec<u32>)
    ensures
        r@ == encoding_mask_of(*e),
{
    e.get_attention_mask().to_vec()
}

/// Pads a batch of encodings. Calls `tokenizers::pad_encodings`, which
/// computes one target length (the fixed size, or the most ids of an
/// encoding, rounded up to the multiple when one is set; it overflows beyond
/// `usize::MAX`) and pads every encoding with fewer ids up to it on the
/// configured side, leaving longer ones alone; it always returns `Ok`. The
/// contract speaks of ids, type ids and attention mask, not of token strings,
/// offsets or overflowing parts.
#[verifier::external_body]
pub(crate) fn pad_batch(encodings: &mut Vec<Encoding>, cfg: &PaddingConfig)
    requires
        old(encodings).len() > 0 ==> pad_target(token_rows(old(encodings)@), *cfg) <= usize::MAX,
    ensures
        final(encodings).len() == old(encodings).len(),
        forall|i: int|
            0 <= i < old(encodings).len() ==> encoding_row(#[trigger] final(encodings)@[i])
                == pad_row(
                encoding_row(old(encodings)@[i]),
                pad_target(token_rows(old(encodings)@), *cfg),
                *cfg,
            ),
{
    let params = PaddingParams {
        strategy: match cfg.strategy { PaddingLength::BatchLongest => PaddingStrategy::BatchLongest, PaddingLength::Fixed(n) => PaddingStrategy::Fixed(n), },
        direction: match cfg.direction { Side::Left => PaddingDirection::Left, Side::Right => PaddingDirection::Right, },
        pad_to_multiple_of: cfg.pad_to_multiple_of,
        pad_id: cfg.pad_id,
        pad_type_id: cfg.pad_type_id,
        pad_token: cfg.pad_token.clone(),
    };
    let _ = tokenizers::pad_encodings(encodings.as_mut_slice(), &params);
}

/// The padding a cross-encoder uses: batch-longest padding, with the other
/// settings the file configures or the tokenizer's defaults.
pub fn select_padding(configured: Option<PaddingConfig>) -> (r: PaddingConfig)
    ensures
        chosen_padding(padding_views(configured), r@),
        r.strategy == PaddingLength::BatchLongest,
        configured matches Some(p) ==> {
            &&& r.direction == p.direction
            &&& r.pad_to_multiple_of == p.pad_to_multiple_of
            &&& r.pad_id == p.pad_id
            &&& r.pad_type_id == p.pad_type_id
            &&& r.pad_token@ == p.pad_token@
        },
        configured is None ==> {
            &&& r.direction == Side::Right
            &&& r.pad_to_multiple_of is None
            &&& r.pad_id == 0
            &&& r.pad_type_id == 0
            &&& r.pad_token@ == "[PAD]"@
        },
{
    let mut p = match configured {
        Some(p) => p,
        None => default_padding(),
    };
    p.strategy = PaddingLength::BatchLongest;
    p
}

/// Truncation used when the tokenizer file configures none: the tokenizer's
/// default settings, truncating at `fallback_max_length` (default
/// [`DEFAULT_MAX_LENGTH`]).
pub fn select_truncation(configured: Option<TruncationConfig>, fallback_max_length: Option<usize>) -> (r: TruncationConfig)
    ensures
        r == chosen_truncation(configured, fallback_max_length),
        configured matches Some(t) ==> r == t,
        configured is None ==> r == (TruncationConfig {
            direction: Side::Right,
            max_length: match fallback_max_length {
                Some(n) => n,
                None => DEFAULT_MAX_LENGTH,
            },
            strategy: TruncationMode::LongestFirst,
            stride: 0,
        }),
{
    match configured {
        Some(t) => t,
        None => {
            let mut d = default_truncation();
            d.max_length = match fallback_max_length {
                Some(n) => n,
                None => DEFAULT_MAX_LENGTH,
            };
            d
        },
    }
}

/// Loads a tokenizer from the content of a `tokenizer.json` file. Padding is
/// batch-longest, with the file's other padding settings; truncation is the
/// file's own or, failing that, at `fallback_truncation_length` (default
/// 512). Padding is kept apart from the tokenizer, so that encoding leaves
/// each pair at its own length and every batch is padded on its own later.
/// The tokenizer encodes pairs only when its truncation has stride 0, leaves
/// room for the special tokens, and its model sets no sampling parameter; otherwise
/// [`encode_batch`] refuses.
pub fn load_tokenizer(json: &[u8], fallback_truncation_length: Option<usize>) -> (r: Result<CrossTokenizer, CrossEncoderError>)
    ensures
        r is Ok <==> tokenizer_json_accepted(json@),
        r matches Err(e) ==> e is TokenizerError,
        r matches Ok(tk) ==> {
            let t = chosen_truncation(json_truncation(json@), fallback_truncation_length);
            &&& tk.source() == json@
            &&& chosen_padding(json_padding(json@), tk.padding_settings()@)
            &&& tk.truncation_settings() == t
            &&& (json_truncation(json@) matches Some(c) ==> tk.truncation_settings() == c)
            &&& tk.padding_settings().strategy == PaddingLength::BatchLongest
            &&& (json_padding(json@) matches Some(p) ==> {
                &&& tk.padding_settings().direction == p.1
                &&& tk.padding_settings().pad_to_multiple_of == p.2
                &&& tk.padding_settings().pad_id == p.3
                &&& tk.padding_settings().pad_type_id == p.4
                &&& tk.padding_settings().pad_token@ == p.5
            })
            &&& tk.encodes() == (t.stride == 0 && t.max_length >= json_special_tokens(json@, false)
                && t.max_length >= json_special_tokens(json@, true) && !json_model_samples(json@))
        },
{
    let mut parsed = match parse_tokenizer(json) {
        Ok(t) => t,
        Err(msg) => return Err(CrossEncoderError::TokenizerError(msg)),
    };
    let padding = select_padding(configured_padding(&parsed));
    let truncation = select_truncation(configured_truncation(&parsed), fallback_truncation_length);
    let needed = special_token_count(&parsed);
    let samples = model_samples(&parsed);
    let usable = truncation.stride == 0 && truncation.max_length >= needed && !samples;
    clear_padding(&mut parsed);
    encode_special_tokens_as_text(&mut parsed);
    if usable {
        let _ = set_truncation(&mut parsed, &truncation);
    }
    Ok(CrossTokenizer { loaded: parsed, padding, truncation, usable })
}

/// The (query, document) pairs of a request, one per document, in order.
pub fn query_document_pairs<'a>(query: &'a str, documents: &[&'a str]) -> (pairs: Vec<(&'a str, &'a str)>)
    ensures
        pairs@.len() == documents@.len(),
        forall|i: int| 0 <= i < documents@.len() ==> #[trigger] pairs@[i] == (query, documents@[i]),
{
    let mut pairs: Vec<(&'a str, &'a str)> = Vec::new();
    let n = documents.len();
    for i in 0..n
        invariant
            n == documents@.len(),
            pairs@.len() == i,
            forall|j: int| 0 <= j < i ==> #[trigger] pairs@[j] == (query, documents@[j]),
    {
        pairs.push((query, documents[i]));
    }
    pairs
}

/// Whether every pair of `query` with a document encodes.
pub open spec fn all_pairs_encode(tk: CrossTokenizer, query: Seq<char>, documents: Seq<&str>) -> bool {
    forall|i: int|
        0 <= i < documents.len() ==> #[trigger] pair_encoding(
            tk.source(),
            tk.truncation_settings(),
            query,
            documents[i]@,
        ) is Some
}

/// Encodes each `(query, document)` pair for cross-encoder input: encoding
/// `i` is that of `(query, documents[i])`, truncated to the tokenizer's
/// truncation length and unpadded. A tokenizer that cannot encode pairs
/// safely is refused.
pub fn encode_batch(tk: &CrossTokenizer, query: &str, documents: &[&str]) -> (r: Result<Vec<Encoding>, CrossEncoderError>)
    ensures
        r is Ok <==> tk.encodes() && all_pairs_encode(*tk, query@, documents@),
        r matches Ok(v) ==> v@.len() == documents@.len() && forall|i: int|
            0 <= i < documents@.len() ==> #[trigger] encoding_row(v@[i]) == pair_encoding(
                tk.source(),
                tk.truncation_settings(),
                query@,
                documents@[i]@,
            )->0 && encoding_ids_of(v@[i]).len() <= tk.truncation_settings().max_length
                && encoding_type_ids_of(v@[i]).len() == encoding_ids_of(v@[i]).len()
                && encoding_mask_of(v@[i]).len() == encoding_ids_of(v@[i]).len(),
        r matches Err(e) ==> e is TokenizerError,
{
    proof {
        use_type_invariant(tk);
    }
    if !tk.usable() {
        return Err(CrossEncoderError::TokenizerError(String::from_str(
            "the tokenizer's truncation cannot be applied to pairs",
        )));
    }
    let pairs = query_document_pairs(query, documents);
    let ghost ps = pairs@;
    match encode_pairs(&tk.loaded, &tk.truncation, pairs) {
        Ok(v) => {
            assert forall|i: int| 0 <= i < documents@.len() implies #[trigger] encoding_row(v@[i])
                == pair_encoding(tk.source(), tk.truncation_settings(), query@, documents@[i]@)->0
                && encoding_ids_of(v@[i]).len() <= tk.truncation_settings().max_length
                && encoding_type_ids_of(v@[i]).len() == encoding_ids_of(v@[i]).len()
                && encoding_mask_of(v@[i]).len() == encoding_ids_of(v@[i]).len() by {
                assert(ps[i] == (query, documents@[i]));
            }
            assert forall|i: int| 0 <= i < documents@.len() implies #[trigger] pair_encoding(
                tk.source(),
                tk.truncation_settings(),
                query@,
                documents@[i]@,
            ) is Some by {
                assert(ps[i] == (query, documents@[i]));
                assert(pair_encoding(tk.source(), tk.truncation_settings(), ps[i].0@, ps[i].1@) is Some);
            }
            Ok(v)
        },
        Err(msg) => {
            assert(!all_pairs_encode(*tk, query@, documents@)) by {
                let i = choose|i: int| 0 <= i < ps.len() && !(#[trigger] pair_encoding(
                    tk.source(),
                    tk.truncation_settings(),
                    ps[i].0@,
                    ps[i].1@,
                ) is Some);
                assert(ps[i] == (query, documents@[i]));
            }
            Err(CrossEncoderError::TokenizerError(msg))
        },
    }
}

} // verus!
