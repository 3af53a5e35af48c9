use vstd::prelude::*;
use crate::ast::{
    QueryAst, FullTextQuery, PhrasePrefixQuery, WildcardQuery, RangeQuery, FieldPresenceQuery,
    FullTextMode, MatchAllOrNone, BooleanOperand, ValueBound,
};
use crate::collect::opt_or;
use crate::containers::{TermWarmup, term_or_insert};
use crate::error::{QueryParserError, QueryParserErrorV};
use crate::ranges::{text_capable, resolved_token_term, wildcard_ok, token_term};
use crate::schema::{
    Schema, FieldEntryV, FieldType, ResolvedField, resolves, resolve_idx, resolved_is_dynamic,
    find_field_or_hit_dynamic,
};
use crate::term::{
    FieldId, Term, TermV, TermBound, TermBoundV, bool_term, bool_term_v, u64_term, u64_term_v,
    i64_term, i64_term_v, ip_term, ip_term_v, date_term, date_term_v,
};
use crate::numeric::{parse_u64_spec, parse_i64_spec, parse_ipv4_spec};
use crate::datetime::rfc3339_millis_of;
use crate::tokenize::{TokenizerManager, tokens_of, lower_of};

verus! {

/// An executable query: the compiled form of the abstract tree, with
/// every field resolved and every literal encoded.
#[derive(Debug)]
pub enum CompiledQuery {
    /// Matches every document.
    All,
    /// Matches nothing; also the compiled form of a clause nullified in
    /// lenient mode.
    Empty,
    /// One exact term.
    Term(Term),
    /// A positional phrase of terms.
    Phrase { terms: Vec<Term> },
    /// A phrase whose last position expands the prefix term, to at most
    /// `max_expansions` distinct terms.
    PhrasePrefix { phrase_terms: Vec<Term>, prefix: Term, max_expansions: u32 },
    /// Membership in a set of terms.
    TermSet { terms: Vec<Term> },
    /// A range over encoded terms of one field, answered from columnar
    /// storage.
    Range { field: FieldId, lower: TermBound, upper: TermBound },
    /// Presence of a field.
    Exists { field: FieldId },
    /// Boolean composition.
    Bool {
        must: Vec<CompiledQuery>,
        must_not: Vec<CompiledQuery>,
        should: Vec<CompiledQuery>,
        filter: Vec<CompiledQuery>,
    },
    /// A boosted sub-query; boosting affects scoring only.
    Boost(Box<CompiledQuery>),
}

/// The encoded term one raw value produces on a resolved field, or why it
/// cannot: text-capable fields take the value's bytes as written, boolean
/// fields take exactly `true` or `false`, integer fields a decimal
/// literal in range, IP address fields an IPv4 dotted quad, date fields
/// an RFC 3339 date-time, and floating-point fields are not encoded by
/// this core.
pub open spec fn value_term(s: Seq<FieldEntryV>, name: Seq<char>, value: Seq<char>) -> Result<
    TermV,
    QueryParserErrorV,
>
    recommends
        resolves(s, name),
{
    let ft = s[resolve_idx(s, name)].field_type;
    if text_capable(ft) {
        Ok(resolved_token_term(s, name, value))
    } else if ft == FieldType::Bool {
        if value == "true"@ {
            Ok(bool_term_v(resolve_idx(s, name) as FieldId, true))
        } else if value == "false"@ {
            Ok(bool_term_v(resolve_idx(s, name) as FieldId, false))
        } else {
            Err(QueryParserErrorV::ExpectedBoolValue { field: name })
        }
    } else if ft == FieldType::U64 {
        match parse_u64_spec(value) {
            Some(v) => Ok(u64_term_v(resolve_idx(s, name) as FieldId, v)),
            None => Err(QueryParserErrorV::ExpectedU64Value { field: name }),
        }
    } else if ft == FieldType::I64 {
        match parse_i64_spec(value) {
            Some(v) => Ok(i64_term_v(resolve_idx(s, name) as FieldId, v)),
            None => Err(QueryParserErrorV::ExpectedI64Value { field: name }),
        }
    } else if ft == FieldType::IpAddr {
        match parse_ipv4_spec(value) {
            Some(octets) => Ok(ip_term_v(resolve_idx(s, name) as FieldId, octets)),
            None => Err(QueryParserErrorV::ExpectedIpAddrValue { field: name }),
        }
    } else if ft == FieldType::Date {
        match rfc3339_millis_of(value) {
            Some(millis) => Ok(date_term_v(resolve_idx(s, name) as FieldId, millis)),
            None => Err(QueryParserErrorV::ExpectedDateValue { field: name }),
        }
    } else {
        Err(QueryParserErrorV::UnsupportedFieldType { field: name })
    }
}

/// The encoded bound one written bound produces on a resolved field, or
/// why it cannot.
pub open spec fn bound_term(s: Seq<FieldEntryV>, name: Seq<char>, b: ValueBound) -> Result<
    TermBoundV,
    QueryParserErrorV,
>
    recommends
        resolves(s, name),
{
    match b {
        ValueBound::Unbounded => Ok(TermBoundV::Unbounded),
        ValueBound::Included(v) => {
            match value_term(s, name, v@) {
                Ok(t) => Ok(TermBoundV::Included(t)),
                Err(e) => Err(e),
            }
        },
        ValueBound::Excluded(v) => {
            match value_term(s, name, v@) {
                Ok(t) => Ok(TermBoundV::Excluded(t)),
                Err(e) => Err(e),
            }
        },
    }
}

/// Why a term-shaped clause (an exact term, or a full-text clause, whose
/// value parsing coincides) fails to compile, if it does.
pub open spec fn term_like_err(
    s: Seq<FieldEntryV>,
    name: Seq<char>,
    value: Seq<char>,
    validate: bool,
) -> Option<QueryParserErrorV> {
    if resolves(s, name) {
        match value_term(s, name, value) {
            Ok(_) => None,
            Err(e) => Some(e),
        }
    } else if validate {
        Some(QueryParserErrorV::FieldDoesNotExist { full_path: name })
    } else {
        None
    }
}

/// Why a range clause fails to compile, if it does: an unresolvable field
/// in strict mode, a resolved field that is not fast, or a bound whose
/// value cannot be encoded — in that order, so a non-fast field is
/// reported before any value is looked at.
pub open spec fn range_err(q: RangeQuery, s: Seq<FieldEntryV>, validate: bool) -> Option<
    QueryParserErrorV,
> {
    if !resolves(s, q.field@) {
        if validate {
            Some(QueryParserErrorV::FieldDoesNotExist { full_path: q.field@ })
        } else {
            None
        }
    } else if !s[resolve_idx(s, q.field@)].caps.fast {
        Some(QueryParserErrorV::RangeOnNonFastField { field: q.field@ })
    } else {
        match bound_term(s, q.field@, q.lower_bound) {
            Err(e) => Some(e),
            Ok(_) => {
                match bound_term(s, q.field@, q.upper_bound) {
                    Err(e) => Some(e),
                    Ok(_) => None,
                }
            },
        }
    }
}

/// A range clause on a resolved field that is not fast is rejected with
/// an error naming that field; on a fast field whose bounds encode, the
/// clause compiles and contributes no error, in strict and lenient mode
/// alike.
pub proof fn lemma_range_fast_field_never_errors(q: RangeQuery, s: Seq<FieldEntryV>, validate: bool)
    requires
        resolves(s, q.field@),
    ensures
        !s[resolve_idx(s, q.field@)].caps.fast ==> range_err(q, s, validate) == Some(
            QueryParserErrorV::RangeOnNonFastField { field: q.field@ },
        ),
        s[resolve_idx(s, q.field@)].caps.fast && bound_term(s, q.field@, q.lower_bound) is Ok
            && bound_term(s, q.field@, q.upper_bound) is Ok ==> range_err(q, s, validate)
            is None,
{
}

/// Why a phrase-prefix clause fails to compile, if it does.
pub open spec fn phrase_prefix_compile_err(
    q: PhrasePrefixQuery,
    s: Seq<FieldEntryV>,
    validate: bool,
) -> Option<QueryParserErrorV> {
    if !resolves(s, q.field@) {
        if validate {
            Some(QueryParserErrorV::FieldDoesNotExist { full_path: q.field@ })
        } else {
            None
        }
    } else if !text_capable(s[resolve_idx(s, q.field@)].field_type) {
        Some(QueryParserErrorV::SchemaMismatch { field: q.field@ })
    } else {
        None
    }
}

/// Why a wildcard clause fails to compile, if it does.
pub open spec fn wildcard_compile_err(
    q: WildcardQuery,
    s: Seq<FieldEntryV>,
    validate: bool,
) -> Option<QueryParserErrorV> {
    if !wildcard_ok(q.pattern@) {
        Some(QueryParserErrorV::WildcardInNonFinalPosition)
    } else if !resolves(s, q.field@) {
        if validate {
            Some(QueryParserErrorV::FieldDoesNotExist { full_path: q.field@ })
        } else {
            None
        }
    } else if !text_capable(s[resolve_idx(s, q.field@)].field_type) {
        Some(QueryParserErrorV::SchemaMismatch { field: q.field@ })
    } else {
        None
    }
}

/// Why a term-set clause fails to compile, if it does, looking at the
/// pairs from position `i` on: the first field name that does not resolve
/// — in strict and lenient mode alike, since the term dictionary is
/// addressed by identifier — or the first resolved field that holds no
/// text.
pub open spec fn term_set_compile_err(
    pairs: Seq<(String, Vec<String>)>,
    i: int,
    s: Seq<FieldEntryV>,
) -> Option<QueryParserErrorV>
    decreases pairs.len() - i,
{
    if 0 <= i < pairs.len() {
        if !resolves(s, pairs[i].0@) {
            Some(QueryParserErrorV::FieldDoesNotExist { full_path: pairs[i].0@ })
        } else if !text_capable(s[resolve_idx(s, pairs[i].0@)].field_type) {
            Some(QueryParserErrorV::UnsupportedFieldType { field: pairs[i].0@ })
        } else {
            term_set_compile_err(pairs, i + 1, s)
        }
    } else {
        None
    }
}

/// The mathematical values of a list of terms.
pub open spec fn terms_view(l: Seq<Term>) -> Seq<TermV> {
    l.map_values(|t: Term| t@)
}

/// The encoded terms of one term-set pair's values from position `j` on,
/// each value taken as one raw term of the pair's field.
pub open spec fn term_set_pair_terms(
    name: Seq<char>,
    values: Seq<String>,
    j: int,
    s: Seq<FieldEntryV>,
) -> Seq<TermV>
    decreases values.len() - j,
{
    if 0 <= j < values.len() {
        seq![resolved_token_term(s, name, values[j]@)] + term_set_pair_terms(name, values, j + 1, s)
    } else {
        Seq::empty()
    }
}

/// The encoded terms of the pairs from position `i` on.
pub open spec fn term_set_terms(
    pairs: Seq<(String, Vec<String>)>,
    i: int,
    s: Seq<FieldEntryV>,
) -> Seq<TermV>
    decreases pairs.len() - i,
{
    if 0 <= i < pairs.len() {
        term_set_pair_terms(pairs[i].0@, pairs[i].1@, 0, s) + term_set_terms(pairs, i + 1, s)
    } else {
        Seq::empty()
    }
}

/// Why a field-presence clause fails to compile, if it does.
pub open spec fn presence_err(
    q: FieldPresenceQuery,
    s: Seq<FieldEntryV>,
    validate: bool,
) -> Option<QueryParserErrorV> {
    if !resolves(s, q.field@) {
        if validate {
            Some(QueryParserErrorV::FieldDoesNotExist { full_path: q.field@ })
        } else {
            None
        }
    } else {
        None
    }
}

/// The first error compiling `ast` meets, in traversal order, if any.
pub open spec fn compile_err(ast: QueryAst, s: Seq<FieldEntryV>, validate: bool) -> Option<
    QueryParserErrorV,
>
    decreases ast, 0int,
{
    match ast {
        QueryAst::MatchAll => None,
        QueryAst::MatchNone => None,
        QueryAst::Term(t) => term_like_err(s, t.field@, t.value@, validate),
        QueryAst::FullText(q) => term_like_err(s, q.field@, q.text@, validate),
        QueryAst::PhrasePrefix(q) => phrase_prefix_compile_err(q, s, validate),
        QueryAst::Wildcard(q) => wildcard_compile_err(q, s, validate),
        QueryAst::Range(q) => range_err(q, s, validate),
        QueryAst::TermSet(t) => term_set_compile_err(t.terms_per_field@, 0, s),
        QueryAst::FieldPresence(q) => presence_err(q, s, validate),
        QueryAst::Bool { must, must_not, should, filter } => {
            opt_or(
                compile_err_from(must@, 0, s, validate),
                opt_or(
                    compile_err_from(must_not@, 0, s, validate),
                    opt_or(
                        compile_err_from(should@, 0, s, validate),
                        compile_err_from(filter@, 0, s, validate),
                    ),
                ),
            )
        },
        QueryAst::Boost(inner) => compile_err(*inner, s, validate),
    }
}

/// The first compile error over `l[i..]`.
pub open spec fn compile_err_from(
    l: Seq<QueryAst>,
    i: int,
    s: Seq<FieldEntryV>,
    validate: bool,
) -> Option<QueryParserErrorV>
    decreases l, l.len() - i,
{
    if 0 <= i < l.len() {
        opt_or(compile_err(l[i], s, validate), compile_err_from(l, i + 1, s, validate))
    } else {
        None
    }
}

/// Each element of `l` is the exact-term query of the matching token.
pub open spec fn term_queries_match(
    l: Seq<CompiledQuery>,
    s: Seq<FieldEntryV>,
    name: Seq<char>,
    toks: Seq<Seq<char>>,
    count: int,
) -> bool {
    l.len() == count && forall|k: int|
        0 <= k < count ==> ((#[trigger] l[k]) matches CompiledQuery::Term(t) && t@
            == resolved_token_term(s, name, toks[k]))
}

/// Each element of `l` is the encoded term of the matching token.
pub open spec fn terms_match(
    l: Seq<Term>,
    s: Seq<FieldEntryV>,
    name: Seq<char>,
    toks: Seq<Seq<char>>,
) -> bool {
    l.len() == toks.len() && forall|k: int|
        0 <= k < toks.len() ==> (#[trigger] l[k])@ == resolved_token_term(s, name, toks[k])
}

/// What a full-text clause on a resolved text-capable field compiles to,
/// from its tokens: nothing yields the clause's zero-terms query; one
/// token yields a term query, or a prefix expansion in bool-prefix mode;
/// several yield a phrase in phrase mode and a boolean combination
/// otherwise, with the last token expanded as a prefix in bool-prefix
/// mode.
pub open spec fn full_text_compiles_to(
    q: FullTextQuery,
    s: Seq<FieldEntryV>,
    cq: CompiledQuery,
) -> bool {
    let name = q.field@;
    let toks = tokens_of(q.text@);
    if toks.len() == 0 {
        &&& (cq is All <==> q.params.zero_terms_query == MatchAllOrNone::MatchAll)
        &&& (cq is Empty <==> q.params.zero_terms_query == MatchAllOrNone::MatchNone)
    } else if toks.len() == 1 {
        match q.params.mode {
            FullTextMode::BoolPrefix { operator: _, max_expansions } => {
                cq matches CompiledQuery::PhrasePrefix { phrase_terms, prefix, max_expansions: me }
                    && phrase_terms@.len() == 0 && prefix@ == resolved_token_term(s, name, toks[0])
                    && me == max_expansions
            },
            _ => {
                cq matches CompiledQuery::Term(t) && t@ == resolved_token_term(s, name, toks[0])
            },
        }
    } else {
        match q.params.mode {
            FullTextMode::Phrase { .. } => {
                cq matches CompiledQuery::Phrase { terms } && terms_match(terms@, s, name, toks)
            },
            FullTextMode::Bool { operator } => {
                cq matches CompiledQuery::Bool { must, must_not, should, filter } && must_not@.len()
                    == 0 && filter@.len() == 0 && (if operator == BooleanOperand::And {
                    term_queries_match(must@, s, name, toks, toks.len() as int) && should@.len()
                        == 0
                } else {
                    term_queries_match(should@, s, name, toks, toks.len() as int) && must@.len()
                        == 0
                })
            },
            FullTextMode::BoolPrefix { operator, max_expansions } => {
                cq matches CompiledQuery::Bool { must, must_not, should, filter } && must_not@.len()
                    == 0 && filter@.len() == 0 && {
                    let list = if operator == BooleanOperand::And {
                        must@
                    } else {
                        should@
                    };
                    let other = if operator == BooleanOperand::And {
                        should@
                    } else {
                        must@
                    };
                    &&& other.len() == 0
                    &&& list.len() == toks.len()
                    &&& term_queries_match(list.drop_last(), s, name, toks, toks.len() - 1)
                    &&& (list.last() matches CompiledQuery::PhrasePrefix {
                        phrase_terms,
                        prefix,
                        max_expansions: me,
                    } && phrase_terms@.len() == 0 && prefix@ == resolved_token_term(
                        s,
                        name,
                        toks.last(),
                    ) && me == max_expansions)
                }
            },
        }
    }
}

/// The compiled query `cq` is a correct compilation of `ast`: this
/// relation pins the compiled shape of every node on which compilation
/// succeeds.
pub open spec fn compiles_to(
    ast: QueryAst,
    s: Seq<FieldEntryV>,
    validate: bool,
    cq: CompiledQuery,
) -> bool
    decreases ast, 0int,
{
    match ast {
        QueryAst::MatchAll => cq is All,
        QueryAst::MatchNone => cq is Empty,
        QueryAst::Term(t) => {
            if !resolves(s, t.field@) {
                !validate ==> cq is Empty
            } else {
                value_term(s, t.field@, t.value@) matches Ok(tv) ==> (cq
                    matches CompiledQuery::Term(tm) && tm@ == tv)
            }
        },
        QueryAst::FullText(q) => {
            if !resolves(s, q.field@) {
                !validate ==> cq is Empty
            } else if text_capable(s[resolve_idx(s, q.field@)].field_type) {
                full_text_compiles_to(q, s, cq)
            } else {
                value_term(s, q.field@, q.text@) matches Ok(tv) ==> (cq
                    matches CompiledQuery::Term(tm) && tm@ == tv)
            }
        },
        QueryAst::PhrasePrefix(q) => {
            if !resolves(s, q.field@) {
                !validate ==> cq is Empty
            } else if text_capable(s[resolve_idx(s, q.field@)].field_type) {
                let toks = tokens_of(q.phrase@);
                if toks.len() == 0 {
                    &&& (cq is All <==> q.params.zero_terms_query == MatchAllOrNone::MatchAll)
                    &&& (cq is Empty <==> q.params.zero_terms_query == MatchAllOrNone::MatchNone)
                } else {
                    cq matches CompiledQuery::PhrasePrefix { phrase_terms, prefix, max_expansions }
                        && terms_match(phrase_terms@, s, q.field@, toks.drop_last()) && prefix@
                        == resolved_token_term(s, q.field@, toks.last()) && max_expansions
                        == q.max_expansions
                }
            } else {
                true
            }
        },
        QueryAst::Wildcard(q) => {
            if wildcard_ok(q.pattern@) && !resolves(s, q.field@) {
                !validate ==> cq is Empty
            } else if wildcard_ok(q.pattern@) && text_capable(
                s[resolve_idx(s, q.field@)].field_type,
            ) {
                cq matches CompiledQuery::PhrasePrefix { phrase_terms, prefix, max_expansions }
                    && phrase_terms@.len() == 0 && prefix@ == resolved_token_term(
                    s,
                    q.field@,
                    lower_of(q.pattern@.drop_last()),
                ) && max_expansions == u32::MAX
            } else {
                true
            }
        },
        QueryAst::Range(q) => {
            if !resolves(s, q.field@) {
                !validate ==> cq is Empty
            } else if !s[resolve_idx(s, q.field@)].caps.fast {
                true
            } else {
                match (
                    bound_term(s, q.field@, q.lower_bound),
                    bound_term(s, q.field@, q.upper_bound),
                ) {
                    (Ok(lo), Ok(hi)) => {
                        cq matches CompiledQuery::Range { field, lower, upper } && field
                            == resolve_idx(s, q.field@) as FieldId && lower@ == lo && upper@ == hi
                    },
                    _ => true,
                }
            }
        },
        QueryAst::TermSet(t) => {
            term_set_compile_err(t.terms_per_field@, 0, s) is None ==> (cq
                matches CompiledQuery::TermSet { terms } && terms_view(terms@) == term_set_terms(
                t.terms_per_field@,
                0,
                s,
            ))
        },
        QueryAst::FieldPresence(q) => {
            if !resolves(s, q.field@) {
                !validate ==> cq is Empty
            } else {
                cq matches CompiledQuery::Exists { field } && field == resolve_idx(
                    s,
                    q.field@,
                ) as FieldId
            }
        },
        QueryAst::Bool { must, must_not, should, filter } => {
            cq matches CompiledQuery::Bool {
                must: cmust,
                must_not: cmust_not,
                should: cshould,
                filter: cfilter,
            } && compiles_list_to(must@, s, validate, cmust@) && compiles_list_to(
                must_not@,
                s,
                validate,
                cmust_not@,
            ) && compiles_list_to(should@, s, validate, cshould@) && compiles_list_to(
                filter@,
                s,
                validate,
                cfilter@,
            )
        },
        QueryAst::Boost(inner) => {
            cq matches CompiledQuery::Boost(ci) && compiles_to(*inner, s, validate, *ci)
        },
    }
}

/// Elementwise `compiles_to` over two lists of equal length.
pub open spec fn compiles_list_to(
    l: Seq<QueryAst>,
    s: Seq<FieldEntryV>,
    validate: bool,
    out: Seq<CompiledQuery>,
) -> bool
    decreases l, 0int,
{
    out.len() == l.len() && forall|k: int|
        0 <= k < l.len() ==> compiles_to(#[trigger] l[k], s, validate, out[k])
}

/// `resolved` is what the name resolves to.
pub open spec fn matches_resolution(
    resolved: ResolvedField,
    s: Seq<FieldEntryV>,
    name: Seq<char>,
) -> bool {
    &&& resolved.field as int == resolve_idx(s, name)
    &&& resolved.field_type == s[resolve_idx(s, name)].field_type
    &&& resolved.fast == s[resolve_idx(s, name)].caps.fast
    &&& resolved.is_dynamic == resolved_is_dynamic(s, name)
}

/// Encodes one raw value as a term of the resolved field.
fn make_value_term(
    name: &String,
    resolved: ResolvedField,
    value: &String,
    schema: &Schema,
) -> (r: Result<Term, QueryParserError>)
    requires
        schema.wf(),
        resolves(schema@, name@),
        matches_resolution(resolved, schema@, name@),
    ensures
        r is Ok == (value_term(schema@, name@, value@) is Ok),
        r matches Ok(t) ==> value_term(schema@, name@, value@) matches Ok(tv) && t@ == tv,
        r matches Err(e) ==> value_term(schema@, name@, value@) matches Err(ev) && e@ == ev,
{
    match resolved.field_type {
        FieldType::Text | FieldType::Json => {
            Ok(token_term(name, resolved, value.as_str(), schema))
        },
        FieldType::Bool => {
            let true_text: String = "true".to_owned();
            let false_text: String = "false".to_owned();
            if *value == true_text {
                Ok(bool_term(resolved.field, true))
            } else if *value == false_text {
                Ok(bool_term(resolved.field, false))
            } else {
                Err(QueryParserError::ExpectedBoolValue { field: name.clone() })
            }
        },
        FieldType::U64 => {
            match crate::numeric::parse_u64(value.as_str()) {
                Some(v) => Ok(u64_term(resolved.field, v)),
                None => Err(QueryParserError::ExpectedU64Value { field: name.clone() }),
            }
        },
        FieldType::I64 => {
            match crate::numeric::parse_i64(value.as_str()) {
                Some(v) => Ok(i64_term(resolved.field, v)),
                None => Err(QueryParserError::ExpectedI64Value { field: name.clone() }),
            }
        },
        FieldType::IpAddr => {
            match crate::numeric::parse_ipv4(value.as_str()) {
                Some(octets) => Ok(ip_term(resolved.field, &octets)),
                None => Err(QueryParserError::ExpectedIpAddrValue { field: name.clone() }),
            }
        },
        FieldType::Date => {
            match crate::datetime::parse_rfc3339_millis(value.as_str()) {
                Some(millis) => Ok(date_term(resolved.field, millis)),
                None => Err(QueryParserError::ExpectedDateValue { field: name.clone() }),
            }
        },
        _ => Err(QueryParserError::UnsupportedFieldType { field: name.clone() }),
    }
}

/// Encodes one written bound as a term bound of the resolved field.
fn make_bound_term(
    name: &String,
    resolved: ResolvedField,
    bound: &ValueBound,
    schema: &Schema,
) -> (r: Result<TermBound, QueryParserError>)
    requires
        schema.wf(),
        resolves(schema@, name@),
        matches_resolution(resolved, schema@, name@),
    ensures
        r is Ok == (bound_term(schema@, name@, *bound) is Ok),
        r matches Ok(b) ==> bound_term(schema@, name@, *bound) matches Ok(bv) && b@ == bv,
        r matches Err(e) ==> bound_term(schema@, name@, *bound) matches Err(ev) && e@ == ev,
{
    match bound {
        ValueBound::Unbounded => Ok(TermBound::Unbounded),
        ValueBound::Included(v) => {
            match make_value_term(name, resolved, v, schema) {
                Ok(t) => Ok(TermBound::Included(t)),
                Err(e) => Err(e),
            }
        },
        ValueBound::Excluded(v) => {
            match make_value_term(name, resolved, v, schema) {
                Ok(t) => Ok(TermBound::Excluded(t)),
                Err(e) => Err(e),
            }
        },
    }
}

/// Encodes the first `count` of the given tokens as terms of the
/// resolved field.
#[verifier::loop_isolation(false)]
fn tokens_to_terms(
    name: &String,
    resolved: ResolvedField,
    tokens: &Vec<String>,
    count: usize,
    schema: &Schema,
) -> (r: Vec<Term>)
    requires
        schema.wf(),
        resolves(schema@, name@),
        matches_resolution(resolved, schema@, name@),
        count <= tokens@.len(),
    ensures
        r@.len() == count,
        forall|k: int|
            0 <= k < count ==> (#[trigger] r@[k])@ == resolved_token_term(
                schema@,
                name@,
                tokens@[k]@,
            ),
{
    let mut terms: Vec<Term> = Vec::new();
    let mut i: usize = 0;
    while i < count
        invariant
            0 <= i <= count,
            terms@.len() == i,
            forall|k: int|
                0 <= k < i ==> (#[trigger] terms@[k])@ == resolved_token_term(
                    schema@,
                    name@,
                    tokens@[k]@,
                ),
        decreases count - i,
    {
        terms.push(token_term(name, resolved, tokens[i].as_str(), schema));
        i = i + 1;
    }
    terms
}

/// Wraps the first `count` of the given tokens as exact-term queries of
/// the resolved field.
#[verifier::loop_isolation(false)]
fn tokens_to_term_queries(
    name: &String,
    resolved: ResolvedField,
    tokens: &Vec<String>,
    count: usize,
    schema: &Schema,
) -> (r: Vec<CompiledQuery>)
    requires
        schema.wf(),
        resolves(schema@, name@),
        matches_resolution(resolved, schema@, name@),
        count <= tokens@.len(),
    ensures
        r@.len() == count,
        forall|k: int|
            0 <= k < count ==> ((#[trigger] r@[k]) matches CompiledQuery::Term(t) && t@
                == resolved_token_term(schema@, name@, tokens@[k]@)),
{
    let mut queries: Vec<CompiledQuery> = Vec::new();
    let mut i: usize = 0;
    while i < count
        invariant
            0 <= i <= count,
            queries@.len() == i,
            forall|k: int|
                0 <= k < i ==> ((#[trigger] queries@[k]) matches CompiledQuery::Term(t) && t@
                    == resolved_token_term(schema@, name@, tokens@[k]@)),
        decreases count - i,
    {
        queries.push(CompiledQuery::Term(token_term(name, resolved, tokens[i].as_str(), schema)));
        i = i + 1;
    }
    queries
}

/// Compiles a full-text clause on a resolved text-capable field.
fn compile_full_text(
    q: &FullTextQuery,
    resolved: ResolvedField,
    schema: &Schema,
    tokenizer_manager: &TokenizerManager,
) -> (r: CompiledQuery)
    requires
        schema.wf(),
        resolves(schema@, q.field@),
        matches_resolution(resolved, schema@, q.field@),
        text_capable(resolved.field_type),
    ensures
        full_text_compiles_to(*q, schema@, r),
{
    let ghost toks = tokens_of(q.text@);
    let tokens = tokenizer_manager.tokenize(q.text.as_str());
    proof {
        assert(forall|k: int|
            0 <= k < tokens@.len() ==> tokens@.map_values(|t: String| t@)[k] == (
            #[trigger] tokens@[k])@);
    }
    let n = tokens.len();
    if n == 0 {
        return match q.params.zero_terms_query {
            MatchAllOrNone::MatchAll => CompiledQuery::All,
            MatchAllOrNone::MatchNone => CompiledQuery::Empty,
        };
    }
    if n == 1 {
        let t0 = token_term(&q.field, resolved, tokens[0].as_str(), schema);
        return match q.params.mode {
            FullTextMode::BoolPrefix { operator: _, max_expansions } => {
                CompiledQuery::PhrasePrefix {
                    phrase_terms: Vec::new(),
                    prefix: t0,
                    max_expansions,
                }
            },
            _ => CompiledQuery::Term(t0),
        };
    }
    match q.params.mode {
        FullTextMode::Phrase { .. } => {
            let terms = tokens_to_terms(&q.field, resolved, &tokens, n, schema);
            CompiledQuery::Phrase { terms }
        },
        FullTextMode::Bool { operator } => {
            let list = tokens_to_term_queries(&q.field, resolved, &tokens, n, schema);
            match operator {
                BooleanOperand::And => {
                    CompiledQuery::Bool {
                        must: list,
                        must_not: Vec::new(),
                        should: Vec::new(),
                        filter: Vec::new(),
                    }
                },
                BooleanOperand::Or => {
                    CompiledQuery::Bool {
                        must: Vec::new(),
                        must_not: Vec::new(),
                        should: list,
                        filter: Vec::new(),
                    }
                },
            }
        },
        FullTextMode::BoolPrefix { operator, max_expansions } => {
            let mut list = tokens_to_term_queries(&q.field, resolved, &tokens, n - 1, schema);
            let last = token_term(&q.field, resolved, tokens[n - 1].as_str(), schema);
            list.push(
                CompiledQuery::PhrasePrefix {
                    phrase_terms: Vec::new(),
                    prefix: last,
                    max_expansions,
                },
            );
            proof {
                assert(list@.drop_last() =~= list@.subrange(0, n - 1));
                assert(forall|k: int| 0 <= k < n - 1 ==> list@.drop_last()[k] == list@[k]);
            }
            match operator {
                BooleanOperand::And => {
                    CompiledQuery::Bool {
                        must: list,
                        must_not: Vec::new(),
                        should: Vec::new(),
                        filter: Vec::new(),
                    }
                },
                BooleanOperand::Or => {
                    CompiledQuery::Bool {
                        must: Vec::new(),
                        must_not: Vec::new(),
                        should: list,
                        filter: Vec::new(),
                    }
                },
            }
        },
    }
}

/// Compiles a phrase-prefix clause on a resolved text-capable field.
fn compile_phrase_prefix(
    q: &PhrasePrefixQuery,
    resolved: ResolvedField,
    schema: &Schema,
    tokenizer_manager: &TokenizerManager,
) -> (r: CompiledQuery)
    requires
        schema.wf(),
        resolves(schema@, q.field@),
        matches_resolution(resolved, schema@, q.field@),
        text_capable(resolved.field_type),
    ensures
        compiles_to(QueryAst::PhrasePrefix(*q), schema@, true, r),
        compiles_to(QueryAst::PhrasePrefix(*q), schema@, false, r),
{
    let ghost toks = tokens_of(q.phrase@);
    let tokens = tokenizer_manager.tokenize(q.phrase.as_str());
    proof {
        assert(forall|k: int|
            0 <= k < tokens@.len() ==> tokens@.map_values(|t: String| t@)[k] == (
            #[trigger] tokens@[k])@);
    }
    let n = tokens.len();
    if n == 0 {
        return match q.params.zero_terms_query {
            MatchAllOrNone::MatchAll => CompiledQuery::All,
            MatchAllOrNone::MatchNone => CompiledQuery::Empty,
        };
    }
    let phrase_terms = tokens_to_terms(&q.field, resolved, &tokens, n - 1, schema);
    let prefix = token_term(&q.field, resolved, tokens[n - 1].as_str(), schema);
    proof {
        assert(forall|k: int| 0 <= k < n - 1 ==> toks.drop_last()[k] == toks[k]);
    }
    CompiledQuery::PhrasePrefix { phrase_terms, prefix, max_expansions: q.max_expansions }
}

/// Compiles a wildcard clause: a pure-prefix pattern becomes a prefix
/// expansion of its normalized literal prefix; any other pattern shape
/// is an error.
fn compile_wildcard(
    q: &WildcardQuery,
    schema: &Schema,
    tokenizer_manager: &TokenizerManager,
    with_validation: bool,
) -> (r: Result<CompiledQuery, QueryParserError>)
    requires
        schema.wf(),
    ensures
        r is Ok <==> wildcard_compile_err(*q, schema@, with_validation) is None,
        r matches Ok(cq) ==> compiles_to(QueryAst::Wildcard(*q), schema@, with_validation, cq),
        r matches Err(e) ==> wildcard_compile_err(*q, schema@, with_validation) matches Some(ev)
            && e@ == ev,
{
    let prefix_part = match crate::ranges::wildcard_prefix_part(&q.pattern) {
        Some(part) => part,
        None => {
            return Err(QueryParserError::WildcardInNonFinalPosition);
        },
    };
    let resolved = match find_field_or_hit_dynamic(&q.field, schema) {
        Some(resolved) => resolved,
        None => {
            if with_validation {
                return Err(QueryParserError::FieldDoesNotExist { full_path: q.field.clone() });
            } else {
                return Ok(CompiledQuery::Empty);
            }
        },
    };
    let is_text = match resolved.field_type {
        FieldType::Text | FieldType::Json => true,
        _ => false,
    };
    if !is_text {
        return Err(QueryParserError::SchemaMismatch { field: q.field.clone() });
    }
    let lowered = tokenizer_manager.normalize(prefix_part);
    let prefix = token_term(&q.field, resolved, lowered.as_str(), schema);
    Ok(
        CompiledQuery::PhrasePrefix {
            phrase_terms: Vec::new(),
            prefix,
            max_expansions: u32::MAX,
        },
    )
}

/// Compiles a range clause. Range predicates execute against columnar
/// storage alone, so a resolved field that is not fast is rejected, with
/// an error naming it, before any bound is looked at; on a fast field
/// the two bounds are encoded as term bounds.
pub fn compile_range(
    range_query: &RangeQuery,
    schema: &Schema,
    with_validation: bool,
) -> (r: Result<CompiledQuery, QueryParserError>)
    requires
        schema.wf(),
    ensures
        r is Ok <==> range_err(*range_query, schema@, with_validation) is None,
        r matches Ok(cq) ==> compiles_to(QueryAst::Range(*range_query), schema@, with_validation, cq),
        r matches Err(e) ==> range_err(*range_query, schema@, with_validation) matches Some(ev)
            && e@ == ev,
{
    let resolved = match find_field_or_hit_dynamic(&range_query.field, schema) {
        Some(resolved) => resolved,
        None => {
            if with_validation {
                return Err(
                    QueryParserError::FieldDoesNotExist { full_path: range_query.field.clone() },
                );
            } else {
                return Ok(CompiledQuery::Empty);
            }
        },
    };
    if !resolved.fast {
        return Err(QueryParserError::RangeOnNonFastField { field: range_query.field.clone() });
    }
    let lower = match make_bound_term(&range_query.field, resolved, &range_query.lower_bound, schema) {
        Ok(b) => b,
        Err(e) => {
            return Err(e);
        },
    };
    let upper = match make_bound_term(&range_query.field, resolved, &range_query.upper_bound, schema) {
        Ok(b) => b,
        Err(e) => {
            return Err(e);
        },
    };
    Ok(CompiledQuery::Range { field: resolved.field, lower, upper })
}

/// Encodes the values of one term-set pair from position `j` on,
/// appending to `out`.
fn fill_term_set_pair(
    name: &String,
    resolved: ResolvedField,
    values: &Vec<String>,
    j: usize,
    schema: &Schema,
    out: &mut Vec<Term>,
)
    requires
        schema.wf(),
        resolves(schema@, name@),
        matches_resolution(resolved, schema@, name@),
        text_capable(resolved.field_type),
        j <= values@.len(),
    ensures
        terms_view(final(out)@) == terms_view(old(out)@) + term_set_pair_terms(
            name@,
            values@,
            j as int,
            schema@,
        ),
    decreases values@.len() - j,
{
    if j == values.len() {
        proof {
            assert(terms_view(out@) =~= terms_view(out@) + term_set_pair_terms(
                name@,
                values@,
                j as int,
                schema@,
            ));
        }
        return;
    }
    let ghost pre = out@;
    out.push(token_term(name, resolved, values[j].as_str(), schema));
    proof {
        assert(terms_view(out@) =~= terms_view(pre) + seq![
            resolved_token_term(schema@, name@, values@[j as int]@),
        ]);
    }
    fill_term_set_pair(name, resolved, values, j + 1, schema, out);
    proof {
        assert(terms_view(out@) =~= terms_view(pre) + term_set_pair_terms(
            name@,
            values@,
            j as int,
            schema@,
        ));
    }
}

/// Encodes the term-set pairs from position `i` on, appending to `out`.
fn fill_term_set(
    pairs: &Vec<(String, Vec<String>)>,
    i: usize,
    schema: &Schema,
    out: &mut Vec<Term>,
) -> (r: Result<(), QueryParserError>)
    requires
        schema.wf(),
        i <= pairs@.len(),
    ensures
        r is Ok <==> term_set_compile_err(pairs@, i as int, schema@) is None,
        r is Ok ==> terms_view(final(out)@) == terms_view(old(out)@) + term_set_terms(
            pairs@,
            i as int,
            schema@,
        ),
        r matches Err(e) ==> term_set_compile_err(pairs@, i as int, schema@) matches Some(ev)
            && e@ == ev,
    decreases pairs@.len() - i,
{
    if i == pairs.len() {
        proof {
            assert(terms_view(out@) =~= terms_view(out@) + term_set_terms(
                pairs@,
                i as int,
                schema@,
            ));
        }
        return Ok(());
    }
    let resolved = match find_field_or_hit_dynamic(&pairs[i].0, schema) {
        Some(resolved) => resolved,
        None => {
            return Err(QueryParserError::FieldDoesNotExist { full_path: pairs[i].0.clone() });
        },
    };
    let is_text = match resolved.field_type {
        FieldType::Text | FieldType::Json => true,
        _ => false,
    };
    if !is_text {
        return Err(QueryParserError::UnsupportedFieldType { field: pairs[i].0.clone() });
    }
    let ghost pre = out@;
    fill_term_set_pair(&pairs[i].0, resolved, &pairs[i].1, 0, schema, out);
    let r = fill_term_set(pairs, i + 1, schema, out);
    proof {
        if r is Ok {
            assert(terms_view(out@) =~= terms_view(pre) + term_set_terms(
                pairs@,
                i as int,
                schema@,
            ));
        }
    }
    r
}

/// Compiles the abstract query tree into an executable query: every
/// field resolved against the schema (missing names fail in strict mode
/// and nullify the clause in lenient mode), every literal encoded as the
/// index orders terms, and range and term-set clauses held to the
/// storage they execute against. `search_fields` is the default-field
/// list of the build interface; every leaf of this tree names its field,
/// so it is not consulted.
pub fn compile_query(
    query_ast: &QueryAst,
    schema: &Schema,
    tokenizer_manager: &TokenizerManager,
    search_fields: &[String],
    with_validation: bool,
) -> (r: Result<CompiledQuery, QueryParserError>)
    requires
        schema.wf(),
    ensures
        r is Ok <==> compile_err(*query_ast, schema@, with_validation) is None,
        r matches Ok(cq) ==> compiles_to(*query_ast, schema@, with_validation, cq),
        r matches Err(e) ==> compile_err(*query_ast, schema@, with_validation) matches Some(ev)
            && e@ == ev,
    decreases *query_ast, 0int,
{
    match query_ast {
        QueryAst::MatchAll => Ok(CompiledQuery::All),
        QueryAst::MatchNone => Ok(CompiledQuery::Empty),
        QueryAst::Term(t) => {
            match find_field_or_hit_dynamic(&t.field, schema) {
                None => {
                    if with_validation {
                        Err(QueryParserError::FieldDoesNotExist { full_path: t.field.clone() })
                    } else {
                        Ok(CompiledQuery::Empty)
                    }
                },
                Some(resolved) => {
                    match make_value_term(&t.field, resolved, &t.value, schema) {
                        Ok(term) => Ok(CompiledQuery::Term(term)),
                        Err(e) => Err(e),
                    }
                },
            }
        },
        QueryAst::FullText(q) => {
            match find_field_or_hit_dynamic(&q.field, schema) {
                None => {
                    if with_validation {
                        Err(QueryParserError::FieldDoesNotExist { full_path: q.field.clone() })
                    } else {
                        Ok(CompiledQuery::Empty)
                    }
                },
                Some(resolved) => {
                    let is_text = match resolved.field_type {
                        FieldType::Text | FieldType::Json => true,
                        _ => false,
                    };
                    if is_text {
                        Ok(compile_full_text(q, resolved, schema, tokenizer_manager))
                    } else {
                        match make_value_term(&q.field, resolved, &q.text, schema) {
                            Ok(term) => Ok(CompiledQuery::Term(term)),
                            Err(e) => Err(e),
                        }
                    }
                },
            }
        },
        QueryAst::PhrasePrefix(q) => {
            match find_field_or_hit_dynamic(&q.field, schema) {
                None => {
                    if with_validation {
                        Err(QueryParserError::FieldDoesNotExist { full_path: q.field.clone() })
                    } else {
                        Ok(CompiledQuery::Empty)
                    }
                },
                Some(resolved) => {
                    let is_text = match resolved.field_type {
                        FieldType::Text | FieldType::Json => true,
                        _ => false,
                    };
                    if is_text {
                        Ok(compile_phrase_prefix(q, resolved, schema, tokenizer_manager))
                    } else {
                        Err(QueryParserError::SchemaMismatch { field: q.field.clone() })
                    }
                },
            }
        },
        QueryAst::Wildcard(q) => compile_wildcard(q, schema, tokenizer_manager, with_validation),
        QueryAst::Range(q) => compile_range(q, schema, with_validation),
        QueryAst::TermSet(t) => {
            let mut terms: Vec<Term> = Vec::new();
            match fill_term_set(&t.terms_per_field, 0, schema, &mut terms) {
                Ok(()) => {
                    proof {
                        assert(terms_view(Seq::<Term>::empty()) =~= Seq::<TermV>::empty());
                        assert(terms_view(terms@) =~= term_set_terms(
                            t.terms_per_field@,
                            0,
                            schema@,
                        ));
                    }
                    Ok(CompiledQuery::TermSet { terms })
                },
                Err(e) => Err(e),
            }
        },
        QueryAst::FieldPresence(q) => {
            match find_field_or_hit_dynamic(&q.field, schema) {
                None => {
                    if with_validation {
                        Err(QueryParserError::FieldDoesNotExist { full_path: q.field.clone() })
                    } else {
                        Ok(CompiledQuery::Empty)
                    }
                },
                Some(resolved) => Ok(CompiledQuery::Exists { field: resolved.field }),
            }
        },
        QueryAst::Bool { must, must_not, should, filter } => {
            let cmust = match compile_list(must, 0, schema, tokenizer_manager, search_fields, with_validation) {
                Ok(v) => v,
                Err(e) => {
                    return Err(e);
                },
            };
            let cmust_not = match compile_list(must_not, 0, schema, tokenizer_manager, search_fields, with_validation) {
                Ok(v) => v,
                Err(e) => {
                    return Err(e);
                },
            };
            let cshould = match compile_list(should, 0, schema, tokenizer_manager, search_fields, with_validation) {
                Ok(v) => v,
                Err(e) => {
                    return Err(e);
                },
            };
            let cfilter = match compile_list(filter, 0, schema, tokenizer_manager, search_fields, with_validation) {
                Ok(v) => v,
                Err(e) => {
                    return Err(e);
                },
            };
            proof {
                assert(compiles_list_to(must@, schema@, with_validation, cmust@)) by {
                    assert forall|k: int| 0 <= k < must@.len() implies compiles_to(
                        #[trigger] must@[k],
                        schema@,
                        with_validation,
                        cmust@[k],
                    ) by {
                        assert(compiles_to(must@[0 + k], schema@, with_validation, cmust@[k]));
                    }
                }
                assert(compiles_list_to(must_not@, schema@, with_validation, cmust_not@)) by {
                    assert forall|k: int| 0 <= k < must_not@.len() implies compiles_to(
                        #[trigger] must_not@[k],
                        schema@,
                        with_validation,
                        cmust_not@[k],
                    ) by {
                        assert(compiles_to(
                            must_not@[0 + k],
                            schema@,
                            with_validation,
                            cmust_not@[k],
                        ));
                    }
                }
                assert(compiles_list_to(should@, schema@, with_validation, cshould@)) by {
                    assert forall|k: int| 0 <= k < should@.len() implies compiles_to(
                        #[trigger] should@[k],
                        schema@,
                        with_validation,
                        cshould@[k],
                    ) by {
                        assert(compiles_to(should@[0 + k], schema@, with_validation, cshould@[k]));
                    }
                }
                assert(compiles_list_to(filter@, schema@, with_validation, cfilter@)) by {
                    assert forall|k: int| 0 <= k < filter@.len() implies compiles_to(
                        #[trigger] filter@[k],
                        schema@,
                        with_validation,
                        cfilter@[k],
                    ) by {
                        assert(compiles_to(filter@[0 + k], schema@, with_validation, cfilter@[k]));
                    }
                }
            }
            Ok(
                CompiledQuery::Bool {
                    must: cmust,
                    must_not: cmust_not,
                    should: cshould,
                    filter: cfilter,
                },
            )
        },
        QueryAst::Boost(inner) => {
            match compile_query(inner, schema, tokenizer_manager, search_fields, with_validation) {
                Ok(cq) => Ok(CompiledQuery::Boost(Box::new(cq))),
                Err(e) => Err(e),
            }
        },
    }
}

/// The term map after folding in the terms of `l[i..]`, each with the
/// given positions-needed flag.
pub open spec fn terms_list_fold(
    m: Map<TermV, bool>,
    l: Seq<Term>,
    i: int,
    position_needed: bool,
) -> Map<TermV, bool>
    decreases l, l.len() - i,
{
    if 0 <= i < l.len() {
        terms_list_fold(term_or_insert(m, l[i]@, position_needed), l, i + 1, position_needed)
    } else {
        m
    }
}

/// The term map after folding in every literal term embedded in the
/// compiled query `q`, in traversal order: an exact term and the members
/// of a term set need no positions; the terms of a phrase, and the
/// written terms of a prefix phrase, need them. A range clause embeds no
/// literal terms — the terms it may expand to are warmed through its
/// term range instead.
pub open spec fn query_terms_fold(m: Map<TermV, bool>, q: CompiledQuery) -> Map<TermV, bool>
    decreases q, 0int,
{
    match q {
        CompiledQuery::Term(t) => term_or_insert(m, t@, false),
        CompiledQuery::Phrase { terms } => terms_list_fold(m, terms@, 0, true),
        CompiledQuery::PhrasePrefix { phrase_terms, .. } => terms_list_fold(
            m,
            phrase_terms@,
            0,
            true,
        ),
        CompiledQuery::TermSet { terms } => terms_list_fold(m, terms@, 0, false),
        CompiledQuery::Bool { must, must_not, should, filter } => {
            query_terms_fold_from(
                query_terms_fold_from(
                    query_terms_fold_from(query_terms_fold_from(m, must@, 0), must_not@, 0),
                    should@,
                    0,
                ),
                filter@,
                0,
            )
        },
        CompiledQuery::Boost(inner) => query_terms_fold(m, *inner),
        _ => m,
    }
}

/// The term map after folding in the queries of `l[i..]`.
pub open spec fn query_terms_fold_from(
    m: Map<TermV, bool>,
    l: Seq<CompiledQuery>,
    i: int,
) -> Map<TermV, bool>
    decreases l, l.len() - i,
{
    if 0 <= i < l.len() {
        query_terms_fold_from(query_terms_fold(m, l[i]), l, i + 1)
    } else {
        m
    }
}

/// Folds the terms of `terms[i..]` into the accumulator, each with the
/// given positions-needed flag.
fn collect_terms_list(terms: &Vec<Term>, i: usize, position_needed: bool, acc: &mut TermWarmup)
    requires
        old(acc).wf(),
        i <= terms@.len(),
    ensures
        final(acc).wf(),
        final(acc)@ == terms_list_fold(old(acc)@, terms@, i as int, position_needed),
    decreases terms@, terms@.len() - i,
{
    if i == terms.len() {
        return;
    }
    acc.or_insert(terms[i].duplicate(), position_needed);
    collect_terms_list(terms, i + 1, position_needed, acc);
}

/// Folds every literal term of the compiled query into the accumulator.
fn collect_query_terms(query: &CompiledQuery, acc: &mut TermWarmup)
    requires
        old(acc).wf(),
    ensures
        final(acc).wf(),
        final(acc)@ == query_terms_fold(old(acc)@, *query),
    decreases *query, 0int,
{
    match query {
        CompiledQuery::Term(t) => {
            acc.or_insert(t.duplicate(), false);
        },
        CompiledQuery::Phrase { terms } => {
            collect_terms_list(terms, 0, true, acc);
        },
        CompiledQuery::PhrasePrefix { phrase_terms, .. } => {
            collect_terms_list(phrase_terms, 0, true, acc);
        },
        CompiledQuery::TermSet { terms } => {
            collect_terms_list(terms, 0, false, acc);
        },
        CompiledQuery::Bool { must, must_not, should, filter } => {
            collect_query_terms_list(must, 0, acc);
            collect_query_terms_list(must_not, 0, acc);
            collect_query_terms_list(should, 0, acc);
            collect_query_terms_list(filter, 0, acc);
        },
        CompiledQuery::Boost(inner) => {
            collect_query_terms(inner, acc);
        },
        _ => {},
    }
}

/// Folds the queries of `list[i..]` into the accumulator.
fn collect_query_terms_list(list: &Vec<CompiledQuery>, i: usize, acc: &mut TermWarmup)
    requires
        old(acc).wf(),
        i <= list@.len(),
    ensures
        final(acc).wf(),
        final(acc)@ == query_terms_fold_from(old(acc)@, list@, i as int),
    decreases list@, list@.len() - i,
{
    if i == list.len() {
        return;
    }
    collect_query_terms(&list[i], acc);
    collect_query_terms_list(list, i + 1, acc);
}

/// Enumerates every literal term embedded in the compiled query, each
/// mapped to whether any of its occurrences needs position data.
pub fn extract_query_terms(query: &CompiledQuery) -> (r: TermWarmup)
    ensures
        r.wf(),
        r@ == query_terms_fold(Map::<TermV, bool>::empty(), *query),
{
    let mut acc = TermWarmup::new();
    collect_query_terms(query, &mut acc);
    acc
}

/// Compiles the nodes of `list` from position `i` on.
fn compile_list(
    list: &Vec<QueryAst>,
    i: usize,
    schema: &Schema,
    tokenizer_manager: &TokenizerManager,
    search_fields: &[String],
    with_validation: bool,
) -> (r: Result<Vec<CompiledQuery>, QueryParserError>)
    requires
        schema.wf(),
        i <= list@.len(),
    ensures
        r is Ok <==> compile_err_from(list@, i as int, schema@, with_validation) is None,
        r matches Ok(v) ==> v@.len() == list@.len() - i && forall|k: int|
            0 <= k < v@.len() ==> compiles_to(
                #[trigger] list@[i + k],
                schema@,
                with_validation,
                v@[k],
            ),
        r matches Err(e) ==> compile_err_from(list@, i as int, schema@, with_validation)
            matches Some(ev) && e@ == ev,
    decreases list@, list@.len() - i,
{
    if i == list.len() {
        return Ok(Vec::new());
    }
    let head = match compile_query(&list[i], schema, tokenizer_manager, search_fields, with_validation) {
        Ok(cq) => cq,
        Err(e) => {
            return Err(e);
        },
    };
    match compile_list(list, i + 1, schema, tokenizer_manager, search_fields, with_validation) {
        Ok(mut tail) => {
            let ghost rest = tail@;
            let ghost head_g = head;
            tail.insert(0, head);
            proof {
                assert(tail@.len() == list@.len() - i);
                assert forall|k: int| 0 <= k < tail@.len() implies compiles_to(
                    #[trigger] list@[i + k],
                    schema@,
                    with_validation,
                    tail@[k],
                ) by {
                    if k == 0 {
                        assert(tail@[0] == head_g);
                        assert(list@[i + 0] == list@[i as int]);
                    } else {
                        assert(tail@[k] == rest[k - 1]);
                        assert(compiles_to(
                            list@[(i + 1) + (k - 1)],
                            schema@,
                            with_validation,
                            rest[k - 1],
                        ));
                        assert(list@[i + k] == list@[(i + 1) + (k - 1)]);
                    }
                }
            }
            Ok(tail)
        },
        Err(e) => Err(e),
    }
}

} // verus!
