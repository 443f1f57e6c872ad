//! A tokenizer read from a `tokenizer.json`, together with what is known of
//! its configuration. Only the functions of this module build or change one,
//! and each states the configuration it leaves.

use vstd::prelude::*;

use crate::tokenizer::{
    encoding_ids_of, encoding_mask_of, encoding_row, encoding_type_ids_of, json_model_samples,
    json_padding, json_special_tokens, json_truncation, pair_encoding, padding_views,
    tokenizer_json_accepted, PaddingConfig, PaddingLength, Side, TruncationConfig, TruncationMode,
};
use tokenizers::models::ModelWrapper;
use tokenizers::{
    Encoding, PaddingDirection, PaddingStrategy, PostProcessor, Tokenizer, TruncationDirection,
    TruncationParams, TruncationStrategy,
};

verus! {

/// A tokenizer and its configuration: the `tokenizer.json` it was read from,
/// the truncation it holds, whether its padding was removed and whether it
/// reads special-token text in its inputs as ordinary text.
pub struct LoadedTokenizer {
    tokenizer: Tokenizer,
    source: Ghost<Seq<u8>>,
    truncation: Ghost<Option<TruncationConfig>>,
    padding_cleared: Ghost<bool>,
    special_text: Ghost<bool>,
}

impl LoadedTokenizer {
    /// The `tokenizer.json` content the tokenizer was read from.
    pub closed spec fn source(&self) -> Seq<u8> {
        self.source@
    }

    /// The truncation the tokenizer holds.
    pub closed spec fn stored_truncation(&self) -> Option<TruncationConfig> {
        self.truncation@
    }

    /// Whether the tokenizer's padding was removed.
    pub closed spec fn padding_cleared(&self) -> bool {
        self.padding_cleared@
    }

    /// Whether the tokenizer reads special-token text as ordinary text.
    pub closed spec fn special_text(&self) -> bool {
        self.special_text@
    }

    /// Whether the tokenizer encodes pairs as [`pair_encoding`] says, without
    /// a panic: padding removed, special-token text read as text, and a
    /// truncation with stride 0 that holds the special tokens, for a model that
    /// sets no sampling parameter.
    pub open spec fn ready_for(&self, t: TruncationConfig) -> bool {
        &&& self.padding_cleared()
        &&& self.special_text()
        &&& self.stored_truncation() == Some(t)
        &&& t.stride == 0
        &&& t.max_length >= json_special_tokens(self.source(), false)
        &&& t.max_length >= json_special_tokens(self.source(), true)
        &&& !json_model_samples(self.source())
    }
}

/// Parses `tokenizer.json` content. Calls `tokenizers::Tokenizer::from_bytes`,
/// which succeeds exactly on the content that `tokenizer_json_accepted` marks;
/// the tokenizer holds the file's truncation and padding and reads
/// special-token text as special tokens.
#[verifier::external_body]
pub fn parse_tokenizer(json: &[u8]) -> (r: Result<LoadedTokenizer, String>)
    ensures
        r is Ok <==> tokenizer_json_accepted(json@),
        r matches Ok(t) ==> {
            &&& t.source() == json@
            &&& t.stored_truncation() == json_truncation(json@)
            &&& !t.padding_cleared()
            &&& !t.special_text()
        },
{
    Tokenizer::from_bytes(json).map(|tokenizer| LoadedTokenizer {
        tokenizer,
        source: Ghost(json@),
        truncation: Ghost(json_truncation(json@)),
        padding_cleared: Ghost(false),
        special_text: Ghost(false),
    }).map_err(|e| e.to_string())
}

/// The padding settings a tokenizer holds: those of its file until its padding
/// is removed, none after. Calls `TokenizerImpl::get_padding`.
#[verifier::external_body]
pub fn configured_padding(t: &LoadedTokenizer) -> (r: Option<PaddingConfig>)
    ensures
        !t.padding_cleared() ==> padding_views(r) == json_padding(t.source()),
        t.padding_cleared() ==> r is None,
{
    match t.tokenizer.get_padding() {
        None => None,
        Some(p) => Some(PaddingConfig {
            strategy: match p.strategy { PaddingStrategy::BatchLongest => PaddingLength::BatchLongest, PaddingStrategy::Fixed(n) => PaddingLength::Fixed(n), },
            direction: match p.direction { PaddingDirection::Left => Side::Left, PaddingDirection::Right => Side::Right, },
            pad_to_multiple_of: p.pad_to_multiple_of,
            pad_id: p.pad_id,
            pad_type_id: p.pad_type_id,
            pad_token: p.pad_token.clone(),
        }),
    }
}

/// The truncation settings a tokenizer holds. Calls
/// `TokenizerImpl::get_truncation`.
#[verifier::external_body]
pub fn configured_truncation(t: &LoadedTokenizer) -> (r: Option<TruncationConfig>)
    ensures
        r == t.stored_truncation(),
{
    match t.tokenizer.get_truncation() {
        None => None,
        Some(t) => Some(TruncationConfig {
            direction: match t.direction { TruncationDirection::Left => Side::Left, TruncationDirection::Right => Side::Right, },
            max_length: t.max_length,
            strategy: match t.strategy { TruncationStrategy::LongestFirst => TruncationMode::LongestFirst, TruncationStrategy::OnlyFirst => TruncationMode::OnlyFirst, TruncationStrategy::OnlySecond => TruncationMode::OnlySecond, },
            stride: t.stride,
        }),
    }
}

/// Number of special tokens the tokenizer adds to a single sequence or to a
/// pair: what its post-processor's `PostProcessor::added_tokens` gives, or 0
/// without post-processor (the count `TokenizerImpl` computes, privately, and
/// subtracts from the truncation length). Calls
/// `TokenizerImpl::get_post_processor` and `PostProcessor::added_tokens`.
#[verifier::external_body]
pub fn special_tokens_added(t: &LoadedTokenizer, is_pair: bool) -> (r: usize)
    ensures
        r == json_special_tokens(t.source(), is_pair),
{
    match t.tokenizer.get_post_processor() {
        Some(p) => p.added_tokens(is_pair),
        None => 0,
    }
}

/// Whether the tokenizer's model may sample its segmentation: a BPE model with
/// a dropout set or a unigram model with a sampling `alpha` set (a value of 0
/// is counted too). Calls `TokenizerImpl::get_model`.
#[verifier::external_body]
pub fn model_samples(t: &LoadedTokenizer) -> (r: bool)
    ensures
        r == json_model_samples(t.source()),
{
    match t.tokenizer.get_model() {
        ModelWrapper::BPE(b) => b.dropout.is_some(),
        ModelWrapper::Unigram(u) => u.alpha.is_some(),
        ModelWrapper::WordPiece(_) => false,
        ModelWrapper::WordLevel(_) => false,
    }
}

/// Stores truncation settings in the tokenizer. Calls
/// `TokenizerImpl::with_truncation`, which subtracts the special tokens of a
/// single sequence from `max_length` and refuses a stride that is not below
/// what is left; the `requires` leaves both out, so it succeeds.
#[verifier::external_body]
pub fn set_truncation(t: &mut LoadedTokenizer, cfg: &TruncationConfig) -> (r: Result<(), String>)
    requires
        cfg.max_length >= json_special_tokens(old(t).source(), false) + cfg.stride,
    ensures
        r is Ok,
        final(t).source() == old(t).source(),
        final(t).stored_truncation() == Some(*cfg),
        final(t).padding_cleared() == old(t).padding_cleared(),
        final(t).special_text() == old(t).special_text(),
{
    let params = TruncationParams {
        direction: match cfg.direction { Side::Left => TruncationDirection::Left, Side::Right => TruncationDirection::Right, },
        max_length: cfg.max_length,
        strategy: match cfg.strategy { TruncationMode::LongestFirst => TruncationStrategy::LongestFirst, TruncationMode::OnlyFirst => TruncationStrategy::OnlyFirst, TruncationMode::OnlySecond => TruncationStrategy::OnlySecond, },
        stride: cfg.stride,
    };
    t.truncation = Ghost(Some(*cfg));
    t.tokenizer.with_truncation(Some(params)).map(|_| ()).map_err(|e| e.to_string())
}

/// Removes the padding settings from a tokenizer, so that encoding a batch
/// leaves every sequence at its own length. Calls
/// `TokenizerImpl::with_padding(None)`.
#[verifier::external_body]
pub fn clear_padding(t: &mut LoadedTokenizer)
    ensures
        final(t).source() == old(t).source(),
        final(t).stored_truncation() == old(t).stored_truncation(),
        final(t).padding_cleared(),
        final(t).special_text() == old(t).special_text(),
{
    t.padding_cleared = Ghost(true);
    t.tokenizer.with_padding(None);
}

/// Makes the tokenizer treat special-token text inside the inputs as
/// ordinary text. Calls `TokenizerImpl::set_encode_special_tokens`.
#[verifier::external_body]
pub fn encode_special_tokens_as_text(t: &mut LoadedTokenizer)
    ensures
        final(t).source() == old(t).source(),
        final(t).stored_truncation() == old(t).stored_truncation(),
        final(t).padding_cleared() == old(t).padding_cleared(),
        final(t).special_text(),
{
    t.special_text = Ghost(true);
    t.tokenizer.set_encode_special_tokens(true);
}

/// Encodes (query, document) pairs with special tokens added. Calls
/// `TokenizerImpl::encode_batch`, which encodes each pair on its own and
/// collects the encodings in order, failing when one pair fails; the tokenizer
/// truncates each pair, special tokens included, to its truncation length, and
/// every encoding holds one type id and one mask value per id. The `requires`
/// (stride 0, a length that holds the special tokens) leaves out the inputs on
/// which truncation panics.
#[verifier::external_body]
pub fn encode_pairs(t: &LoadedTokenizer, truncation: &TruncationConfig, pairs: Vec<(&str, &str)>) -> (r: Result<Vec<Encoding>, String>)
    requires
        t.ready_for(*truncation),
    ensures
        r is Ok <==> forall|i: int|
            0 <= i < pairs@.len() ==> #[trigger] pair_encoding(
                t.source(),
                *truncation,
                pairs@[i].0@,
                pairs@[i].1@,
            ) is Some,
        r matches Ok(v) ==> v@.len() == pairs@.len() && forall|i: int|
            0 <= i < pairs@.len() ==> {
                &&& #[trigger] encoding_row(v@[i]) == pair_encoding(t.source(), *truncation, pairs@[i].0@, pairs@[i].1@)->0
                &&& encoding_ids_of(v@[i]).len() <= truncation.max_length
                &&& encoding_type_ids_of(v@[i]).len() == encoding_ids_of(v@[i]).len()
                &&& encoding_mask_of(v@[i]).len() == encoding_ids_of(v@[i]).len()
            },
{
    t.tokenizer.encode_batch(pairs, true).map_err(|e| e.to_string())
}

} // verus!
