use vstd::prelude::*;

verus! {

/// The token sequence the default analyzer produces for a text: split on
/// non-alphanumeric characters, overlong tokens removed, the rest
/// lowercased. The result depends on the text alone.
pub uninterp spec fn tokens_of(text: Seq<char>) -> Seq<Seq<char>>;

/// The lowercased form of a text, character by character, as the
/// analyzer's normalizer produces it. The result depends on the text
/// alone.
pub uninterp spec fn lower_of(text: Seq<char>) -> Seq<char>;

/// Relies on tantivy's `TextAnalyzer` built from `SimpleTokenizer`,
/// `RemoveLongFilter` and `LowerCaser`: a deterministic analysis whose
/// tokens are a function of the text alone.
#[verifier::external_body]
fn tokenize_default(text: &str) -> (r: Vec<String>)
    ensures
        r@.map_values(|t: String| t@) == tokens_of(text@),
{
    let mut analyzer = tantivy::tokenizer::TextAnalyzer::builder(
        tantivy::tokenizer::SimpleTokenizer::default(),
    ).filter(tantivy::tokenizer::RemoveLongFilter::limit(255)).filter(
        tantivy::tokenizer::LowerCaser,
    ).build();
    let mut stream = analyzer.token_stream(text);
    let mut tokens: Vec<String> = Vec::new();
    while stream.advance() {
        tokens.push(stream.token().text.clone());
    }
    tokens
}

/// Relies on `char::to_lowercase`, applied to each character in turn as
/// the analyzer's lower-casing filter does (so without the end-of-word
/// sigma rule of whole-string lowercasing): the result depends on the
/// characters alone.
#[verifier::external_body]
fn lowercase_str(text: &str) -> (r: String)
    ensures
        r@ == lower_of(text@),
{
    let mut lowered = String::with_capacity(text.len());
    for c in text.chars() {
        lowered.extend(c.to_lowercase());
    }
    lowered
}

/// The registry of text analyzers. This core carries one analyzer, the
/// default, and hands out its tokenization and its normalizer.
#[derive(Debug, Clone)]
pub struct TokenizerManager {}

impl TokenizerManager {
    /// Splits a text into the tokens the index stores for it.
    pub fn tokenize(&self, text: &str) -> (r: Vec<String>)
        ensures
            r@.map_values(|t: String| t@) == tokens_of(text@),
    {
        tokenize_default(text)
    }

    /// Normalizes a literal the way the analyzer normalizes tokens.
    pub fn normalize(&self, text: &str) -> (r: String)
        ensures
            r@ == lower_of(text@),
    {
        lowercase_str(text)
    }
}

/// The registry holding the default analyzer.
pub fn create_default_tokenizer_manager() -> TokenizerManager {
    TokenizerManager {  }
}

} // verus!
