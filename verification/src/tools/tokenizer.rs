//! Bounds text to a budget of tokens. Tokens come from a byte-pair
//! tokenizer; what is over the budget is dropped from the front.

use tiktoken_rs::CoreBPE;
use vstd::prelude::*;

verus! {

/// The most tokens that a text may have and stay as it is.
pub const TOKEN_BUDGET: usize = 2048;

/// A byte-pair encoder of `tiktoken_rs`, with its vocabulary and patterns.
#[verifier::external_type_specification]
#[verifier::external_body]
pub struct ExCoreBPE(CoreBPE);

/// The encoder that `tiktoken_rs::bpe_for_model` hands out for a model
/// name, or none where it knows no tokenizer for the name.
pub uninterp spec fn model_bpe(model: Seq<char>) -> Option<CoreBPE>;

/// The tokens that `CoreBPE::encode` finds in `text` when every special
/// token is allowed, or none where it reports an error.
pub uninterp spec fn bpe_encoding(bpe: CoreBPE, text: Seq<char>) -> Option<Seq<u32>>;

/// The text that `CoreBPE::decode` reads from `tokens`, or none where it
/// reports an error: a token outside the vocabulary, or bytes that are no
/// UTF-8.
pub uninterp spec fn bpe_decoding(bpe: CoreBPE, tokens: Seq<u32>) -> Option<Seq<char>>;

/// An encoder is stock when it is the one of some model name. The stock
/// encoders are built from the vocabularies that ship with the tokenizer
/// crate.
pub open spec fn is_stock(bpe: CoreBPE) -> bool {
    exists|model: Seq<char>| model_bpe(model) == Some(bpe)
}

/// Calls `tiktoken_rs::bpe_for_model`. It looks the model name up in a
/// fixed table and returns the shared encoder of that model's vocabulary,
/// which is compiled into the crate, or an error for a name that the table
/// does not hold. The result depends on the name alone.
#[verifier::external_body]
fn load_bpe(model: &str) -> (found: Option<&'static CoreBPE>)
    ensures
        found is Some <==> model_bpe(model@) is Some,
        found matches Some(bpe) ==> model_bpe(model@) == Some(*bpe),
{
    tiktoken_rs::bpe_for_model(model).ok()
}

/// Calls `CoreBPE::encode` with all special tokens of the encoder allowed.
/// It splits the text by the encoder's pattern and merges byte pairs by
/// rank; the tokens depend on the encoder and the text alone. It returns an
/// error where the pattern matcher gives up on the text. With a vocabulary
/// that lacks a single byte it can panic, which no stock vocabulary does.
#[verifier::external_body]
fn bpe_encode(bpe: &CoreBPE, text: &str) -> (found: Option<Vec<u32>>)
    requires
        is_stock(*bpe),
    ensures
        found is Some <==> bpe_encoding(*bpe, text@) is Some,
        found matches Some(tokens) ==> bpe_encoding(*bpe, text@) == Some(tokens@),
{
    bpe.encode(text, &bpe.special_tokens()).ok().map(|encoded| encoded.0)
}

/// Calls `CoreBPE::decode`. It joins the bytes of the tokens and reads them
/// as UTF-8; it returns an error for a token that the vocabulary does not
/// hold and for bytes that are no UTF-8.
#[verifier::external_body]
fn bpe_decode(bpe: &CoreBPE, tokens: &Vec<u32>) -> (found: Option<String>)
    ensures
        found is Some <==> bpe_decoding(*bpe, tokens@) is Some,
        found matches Some(text) ==> bpe_decoding(*bpe, tokens@) == Some(text@),
{
    bpe.decode(tokens).ok()
}

/// The line that stands before text that was cut.
pub open spec fn truncation_marker() -> Seq<char> {
    "...(truncated)\n"@
}

/// The tokens that stay when `tokens` are over the budget: the last ones,
/// one fewer than the budget.
pub open spec fn kept_tokens(tokens: Seq<u32>) -> Seq<u32> {
    tokens.skip(tokens.len() - (TOKEN_BUDGET - 1))
}

/// The tokens to decode again, where `tokens` are over the budget.
pub fn tokens_to_keep(tokens: &Vec<u32>) -> (kept: Option<Vec<u32>>)
    ensures
        tokens@.len() <= TOKEN_BUDGET ==> kept is None,
        tokens@.len() > TOKEN_BUDGET ==> (kept matches Some(tail) && tail@ == kept_tokens(
            tokens@,
        )),
{
    let n: usize = tokens.len();
    if n <= TOKEN_BUDGET {
        return None;
    }
    let start: usize = n - (TOKEN_BUDGET - 1);
    let mut tail: Vec<u32> = Vec::new();
    let mut i: usize = start;
    while i < n
        invariant
            n == tokens@.len(),
            start <= i <= n,
            tail@ == tokens@.subrange(start as int, i as int),
        decreases n - i,
    {
        tail.push(tokens[i]);
        i = i + 1;
    }
    Some(tail)
}

/// Puts the truncation marker in front of `tail`.
pub fn mark_truncated(tail: &str) -> (marked: String)
    ensures
        marked@ == truncation_marker() + tail@,
{
    let mut marked = String::new();
    marked.append("...(truncated)\n");
    marked.append(tail);
    marked
}

/// A byte-pair tokenizer over one of the stock vocabularies.
pub struct Tokenizer {
    bpe: &'static CoreBPE,
}

impl Tokenizer {
    #[verifier::type_invariant]
    spec fn stock(self) -> bool {
        is_stock(*self.bpe)
    }

    /// The encoder that this tokenizer works with.
    pub closed spec fn bpe(self) -> CoreBPE {
        *self.bpe
    }

    /// The tokens of `text`, or none where the tokenizer gives up on it.
    pub open spec fn encoding(self, text: Seq<char>) -> Option<Seq<u32>> {
        bpe_encoding(self.bpe(), text)
    }

    /// The text of `tokens`, or none where they do not spell out text.
    pub open spec fn decoding(self, tokens: Seq<u32>) -> Option<Seq<char>> {
        bpe_decoding(self.bpe(), tokens)
    }

    /// `text` bounded to the token budget. Text within the budget stays as
    /// it is. Of longer text the last tokens are decoded again and stand
    /// behind the truncation marker. There is no result where the text
    /// cannot be encoded, or the kept tokens cannot be decoded.
    pub open spec fn truncated(self, text: Seq<char>) -> Option<Seq<char>> {
        match self.encoding(text) {
            None => None,
            Some(tokens) => if tokens.len() <= TOKEN_BUDGET {
                Some(text)
            } else {
                match self.decoding(kept_tokens(tokens)) {
                    None => None,
                    Some(tail) => Some(truncation_marker() + tail),
                }
            },
        }
    }

    /// The tokenizer of a model, such as `"gpt-4o"`, or none for a model
    /// name without a known tokenizer.
    pub fn for_model(model: &str) -> (found: Option<Tokenizer>)
        ensures
            found is Some <==> model_bpe(model@) is Some,
            found matches Some(tokenizer) ==> model_bpe(model@) == Some(tokenizer.bpe()),
    {
        match load_bpe(model) {
            Some(bpe) => Some(Tokenizer { bpe }),
            None => None,
        }
    }

    /// Encodes `text` into tokens.
    pub fn encode(&self, text: &str) -> (found: Option<Vec<u32>>)
        ensures
            found is Some <==> self.encoding(text@) is Some,
            found matches Some(tokens) ==> self.encoding(text@) == Some(tokens@),
    {
        proof {
            use_type_invariant(self);
        }
        bpe_encode(self.bpe, text)
    }

    /// Decodes `tokens` into text.
    pub fn decode(&self, tokens: &Vec<u32>) -> (found: Option<String>)
        ensures
            found is Some <==> self.decoding(tokens@) is Some,
            found matches Some(text) ==> self.decoding(tokens@) == Some(text@),
    {
        bpe_decode(self.bpe, tokens)
    }

    /// Bounds `text` to the token budget, dropping from the front.
    pub fn truncate(&self, text: String) -> (bounded: Option<String>)
        ensures
            bounded is Some <==> self.truncated(text@) is Some,
            bounded matches Some(kept) ==> self.truncated(text@) == Some(kept@),
    {
        match self.encode(text.as_str()) {
            None => None,
            Some(tokens) => match tokens_to_keep(&tokens) {
                None => Some(text),
                Some(tail) => match self.decode(&tail) {
                    None => None,
                    Some(decoded) => Some(mark_truncated(decoded.as_str())),
                },
            },
        }
    }
}

/// What truncation gives for text that can be encoded. Text with no more
/// tokens than the budget comes back exactly as it is. Longer text comes
/// back, where its kept tokens can be decoded, as the truncation marker
/// followed by what these tokens decode to, and so never without the
/// marker.
pub proof fn lemma_truncated_is_whole_or_marked(
    tokenizer: Tokenizer,
    text: Seq<char>,
    tokens: Seq<u32>,
)
    requires
        tokenizer.encoding(text) == Some(tokens),
    ensures
        tokens.len() <= TOKEN_BUDGET ==> tokenizer.truncated(text) == Some(text),
        tokens.len() > TOKEN_BUDGET ==> tokenizer.truncated(text) == match tokenizer.decoding(
            kept_tokens(tokens),
        ) {
            Some(tail) => Some(truncation_marker() + tail),
            None => None,
        },
{
}

/// Truncation cuts at the front: the kept tokens are the end of the
/// encoding, so what is decoded again was encoded from the newest text.
pub proof fn lemma_kept_tokens_are_suffix(tokens: Seq<u32>)
    requires
        tokens.len() > TOKEN_BUDGET,
    ensures
        kept_tokens(tokens).len() == TOKEN_BUDGET - 1,
        tokens == tokens.take(tokens.len() - (TOKEN_BUDGET - 1)) + kept_tokens(tokens),
{
}

} // verus!
