use vstd::prelude::*;

verus! {

/// How several clauses of a full-text query combine.
#[derive(Debug, Clone, Copy, PartialEq, Eq, Structural)]
pub enum BooleanOperand {
    And,
    Or,
}

/// What a text clause that produced no tokens matches.
#[derive(Debug, Clone, Copy, PartialEq, Eq, Structural)]
pub enum MatchAllOrNone {
    MatchAll,
    MatchNone,
}

/// The match mode of a full-text clause: plain boolean combination of its
/// tokens, boolean combination with the last token read as a prefix, or a
/// positional phrase.
#[derive(Debug, Clone, Copy, PartialEq, Eq, Structural)]
pub enum FullTextMode {
    Bool { operator: BooleanOperand },
    BoolPrefix { operator: BooleanOperand, max_expansions: u32 },
    Phrase { slop: u32 },
}

/// Analysis parameters of a full-text clause. The registry of this core
/// holds a single default analyzer, so a named `tokenizer` is carried
/// for the caller but not consulted.
#[derive(Debug, Clone)]
pub struct FullTextParams {
    pub tokenizer: Option<String>,
    pub mode: FullTextMode,
    pub zero_terms_query: MatchAllOrNone,
}

/// A full-text leaf: text matched against one field under a match mode.
#[derive(Debug, Clone)]
pub struct FullTextQuery {
    pub field: String,
    pub text: String,
    pub params: FullTextParams,
}

/// A phrase-prefix leaf: a phrase whose last token is read as a prefix.
/// Leniency towards unknown fields is governed by the build's validation
/// flag; the clause's own `lenient` flag is carried for the caller but
/// not consulted.
#[derive(Debug, Clone)]
pub struct PhrasePrefixQuery {
    pub field: String,
    pub phrase: String,
    pub max_expansions: u32,
    pub params: FullTextParams,
    pub lenient: bool,
}

/// A wildcard leaf: a pattern whose wildcard characters are `*` and `?`.
/// Only one shape expands to a term range: a literal prefix followed by
/// a single final `*`; any other placement of a wildcard character is
/// rejected.
#[derive(Debug, Clone)]
pub struct WildcardQuery {
    pub field: String,
    pub pattern: String,
}

/// A single exact term on one field.
#[derive(Debug, Clone)]
pub struct TermQuery {
    pub field: String,
    pub value: String,
}

/// One end of a range leaf, as the user wrote it.
#[derive(Debug, Clone)]
pub enum ValueBound {
    Unbounded,
    Included(String),
    Excluded(String),
}

/// A range leaf: a field and the two written bounds.
#[derive(Debug, Clone)]
pub struct RangeQuery {
    pub field: String,
    pub lower_bound: ValueBound,
    pub upper_bound: ValueBound,
}

/// A set-membership leaf: for each field, the literal values a document
/// may carry there.
#[derive(Debug, Clone)]
pub struct TermSetQuery {
    pub terms_per_field: Vec<(String, Vec<String>)>,
}

/// A field-presence leaf: does the document have this field at all.
#[derive(Debug, Clone)]
pub struct FieldPresenceQuery {
    pub field: String,
}

/// The abstract query tree: combinators compose, leaves match.
#[derive(Debug)]
pub enum QueryAst {
    MatchAll,
    MatchNone,
    Bool { must: Vec<QueryAst>, must_not: Vec<QueryAst>, should: Vec<QueryAst>, filter: Vec<QueryAst> },
    Term(TermQuery),
    FullText(FullTextQuery),
    PhrasePrefix(PhrasePrefixQuery),
    Wildcard(WildcardQuery),
    Range(RangeQuery),
    TermSet(TermSetQuery),
    FieldPresence(FieldPresenceQuery),
    Boost(Box<QueryAst>),
}

} // verus!
