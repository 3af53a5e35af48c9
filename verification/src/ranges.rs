use vstd::prelude::*;
use vstd::string::StrSliceExecFns;
use crate::ast::{QueryAst, FullTextQuery, PhrasePrefixQuery, WildcardQuery, FullTextMode};
use crate::containers::{TermRangeWarmup, range_or_insert};
use crate::error::{QueryParserError, QueryParserErrorV};
use crate::prefix::{prefix_range_v, prefix_term_to_range};
use crate::schema::{
    Schema, FieldEntryV, FieldType, ResolvedField, resolves, resolve_idx, resolved_is_dynamic,
    find_field_or_hit_dynamic,
};
use crate::term::{FieldId, Term, TermV, TermRange, TermRangeV, text_term, json_term, text_term_v, json_term_v};
use crate::tokenize::{TokenizerManager, tokens_of, lower_of};
use crate::collect::opt_or;

verus! {

/// Returns true when the field's declared type holds text that an
/// analyzer applies to.
pub open spec fn text_capable(ft: FieldType) -> bool {
    ft == FieldType::Text || ft == FieldType::Json
}

/// The term one token of a resolved text-capable field encodes to: a
/// plain text term on a text field; on a JSON field a JSON-path term,
/// whose path is the queried name when the dynamic fallback field
/// answered and empty when the JSON field was named exactly.
pub open spec fn resolved_token_term(s: Seq<FieldEntryV>, name: Seq<char>, token: Seq<char>) -> TermV
    recommends
        resolves(s, name),
{
    let idx = resolve_idx(s, name);
    if s[idx].field_type == FieldType::Json {
        json_term_v(
            idx as FieldId,
            if resolved_is_dynamic(s, name) {
                name
            } else {
                Seq::empty()
            },
            token,
        )
    } else {
        text_term_v(idx as FieldId, token)
    }
}

/// Builds the term a token of a resolved text-capable field encodes to.
pub fn token_term(name: &String, resolved: ResolvedField, token: &str, schema: &Schema) -> (t: Term)
    requires
        schema.wf(),
        resolves(schema@, name@),
        resolved.field as int == resolve_idx(schema@, name@),
        resolved.field_type == schema@[resolve_idx(schema@, name@)].field_type,
        resolved.is_dynamic == resolved_is_dynamic(schema@, name@),
    ensures
        t@ == resolved_token_term(schema@, name@, token@),
{
    match resolved.field_type {
        FieldType::Json => {
            if resolved.is_dynamic {
                json_term(resolved.field, name.as_str(), token)
            } else {
                let t = json_term(resolved.field, "", token);
                proof {
                    reveal_strlit("");
                    assert(""@ =~= Seq::<char>::empty());
                }
                t
            }
        },
        _ => text_term(resolved.field, token),
    }
}

/// What a full-text leaf contributes to the range map: a clause in
/// bool-prefix mode whose field resolves to text and whose text produces
/// tokens expands its last token to a range with no expansion cap (the
/// clause's own cap governs its fuzzy part, not the range), and never
/// needs positions.
pub open spec fn full_text_step(
    m: Map<(FieldId, TermRangeV), bool>,
    q: FullTextQuery,
    s: Seq<FieldEntryV>,
) -> Map<(FieldId, TermRangeV), bool> {
    if (q.params.mode matches FullTextMode::BoolPrefix { .. }) && resolves(s, q.field@)
        && text_capable(s[resolve_idx(s, q.field@)].field_type) && tokens_of(q.text@).len() > 0 {
        range_or_insert(
            m,
            resolve_idx(s, q.field@) as FieldId,
            prefix_range_v(
                resolved_token_term(s, q.field@, tokens_of(q.text@).last()),
                Some(u32::MAX as u64),
            ),
            false,
        )
    } else {
        m
    }
}

/// What a phrase-prefix leaf contributes to the range map: its last token
/// expands to a range capped by the clause's `max_expansions`, and
/// positions are needed exactly when the phrase has more than one token.
pub open spec fn phrase_prefix_step(
    m: Map<(FieldId, TermRangeV), bool>,
    q: PhrasePrefixQuery,
    s: Seq<FieldEntryV>,
) -> Map<(FieldId, TermRangeV), bool> {
    if resolves(s, q.field@) && text_capable(s[resolve_idx(s, q.field@)].field_type)
        && tokens_of(q.phrase@).len() > 0 {
        range_or_insert(
            m,
            resolve_idx(s, q.field@) as FieldId,
            prefix_range_v(
                resolved_token_term(s, q.field@, tokens_of(q.phrase@).last()),
                Some(q.max_expansions as u64),
            ),
            tokens_of(q.phrase@).len() > 1,
        )
    } else {
        m
    }
}

/// Two phrase-prefix clauses may be merged into the range map in either
/// order and the map comes out the same: a clause's contribution is one
/// `range_or_insert`, and those commute — when the two clauses yield the
/// same field and final-token range, one entry survives with the OR of
/// their positions-needed flags.
pub proof fn lemma_phrase_prefix_merge_order_independent(
    m: Map<(FieldId, TermRangeV), bool>,
    q1: PhrasePrefixQuery,
    q2: PhrasePrefixQuery,
    s: Seq<FieldEntryV>,
)
    ensures
        phrase_prefix_step(phrase_prefix_step(m, q1, s), q2, s) == phrase_prefix_step(
            phrase_prefix_step(m, q2, s),
            q1,
            s,
        ),
{
    let c1 = resolves(s, q1.field@) && text_capable(s[resolve_idx(s, q1.field@)].field_type)
        && tokens_of(q1.phrase@).len() > 0;
    let c2 = resolves(s, q2.field@) && text_capable(s[resolve_idx(s, q2.field@)].field_type)
        && tokens_of(q2.phrase@).len() > 0;
    if c1 && c2 {
        crate::containers::lemma_range_or_insert_commutes(
            m,
            resolve_idx(s, q1.field@) as FieldId,
            prefix_range_v(
                resolved_token_term(s, q1.field@, tokens_of(q1.phrase@).last()),
                Some(q1.max_expansions as u64),
            ),
            tokens_of(q1.phrase@).len() > 1,
            resolve_idx(s, q2.field@) as FieldId,
            prefix_range_v(
                resolved_token_term(s, q2.field@, tokens_of(q2.phrase@).last()),
                Some(q2.max_expansions as u64),
            ),
            tokens_of(q2.phrase@).len() > 1,
        );
    }
}

/// Returns true when a wildcard pattern reduces to a pure prefix: a
/// single `*` standing as the final character, with no other wildcard
/// character (`*` or `?`) anywhere in the pattern.
pub open spec fn wildcard_ok(p: Seq<char>) -> bool {
    p.len() > 0 && p[p.len() - 1] == '*' && (forall|i: int|
        0 <= i < p.len() - 1 ==> p[i] != '*' && p[i] != '?')
}

/// Why a wildcard leaf aborts the traversal, if it does: a misshapen
/// pattern is an error; a pattern on a resolved field that holds no text
/// is an error; an unresolvable field is skipped silently, since
/// compilation nullifies the clause.
pub open spec fn wildcard_err(q: WildcardQuery, s: Seq<FieldEntryV>) -> Option<QueryParserErrorV> {
    if !wildcard_ok(q.pattern@) {
        Some(QueryParserErrorV::WildcardInNonFinalPosition)
    } else if resolves(s, q.field@) && !text_capable(s[resolve_idx(s, q.field@)].field_type) {
        Some(QueryParserErrorV::SchemaMismatch { field: q.field@ })
    } else {
        None
    }
}

/// What a wildcard leaf contributes to the range map: the normalized
/// literal prefix before the `*` expands to a range with no expansion
/// cap, never needing positions.
pub open spec fn wildcard_step(
    m: Map<(FieldId, TermRangeV), bool>,
    q: WildcardQuery,
    s: Seq<FieldEntryV>,
) -> Map<(FieldId, TermRangeV), bool> {
    if wildcard_ok(q.pattern@) && resolves(s, q.field@) && text_capable(
        s[resolve_idx(s, q.field@)].field_type,
    ) {
        range_or_insert(
            m,
            resolve_idx(s, q.field@) as FieldId,
            prefix_range_v(
                resolved_token_term(s, q.field@, lower_of(q.pattern@.drop_last())),
                Some(u32::MAX as u64),
            ),
            false,
        )
    } else {
        m
    }
}

/// The first error a traversal of `ast` for prefix ranges meets, if any.
pub open spec fn prefix_err(ast: QueryAst, s: Seq<FieldEntryV>) -> Option<QueryParserErrorV>
    decreases ast, 0int,
{
    match ast {
        QueryAst::Wildcard(w) => wildcard_err(w, s),
        QueryAst::Bool { must, must_not, should, filter } => {
            opt_or(
                prefix_err_from(must@, 0, s),
                opt_or(
                    prefix_err_from(must_not@, 0, s),
                    opt_or(prefix_err_from(should@, 0, s), prefix_err_from(filter@, 0, s)),
                ),
            )
        },
        QueryAst::Boost(inner) => prefix_err(*inner, s),
        _ => None,
    }
}

/// The first error over `l[i..]`.
pub open spec fn prefix_err_from(l: Seq<QueryAst>, i: int, s: Seq<FieldEntryV>) -> Option<
    QueryParserErrorV,
>
    decreases l, l.len() - i,
{
    if 0 <= i < l.len() {
        opt_or(prefix_err(l[i], s), prefix_err_from(l, i + 1, s))
    } else {
        None
    }
}

/// The range map after folding every prefix-shaped leaf reachable from
/// `ast` into `m`, in traversal order.
pub open spec fn prefix_plan(
    m: Map<(FieldId, TermRangeV), bool>,
    ast: QueryAst,
    s: Seq<FieldEntryV>,
) -> Map<(FieldId, TermRangeV), bool>
    decreases ast, 0int,
{
    match ast {
        QueryAst::FullText(q) => full_text_step(m, q, s),
        QueryAst::PhrasePrefix(q) => phrase_prefix_step(m, q, s),
        QueryAst::Wildcard(q) => wildcard_step(m, q, s),
        QueryAst::Bool { must, must_not, should, filter } => {
            prefix_plan_from(
                prefix_plan_from(
                    prefix_plan_from(prefix_plan_from(m, must@, 0, s), must_not@, 0, s),
                    should@,
                    0,
                    s,
                ),
                filter@,
                0,
                s,
            )
        },
        QueryAst::Boost(inner) => prefix_plan(m, *inner, s),
        _ => m,
    }
}

/// The range map after folding the leaves of `l[i..]` into `m`.
pub open spec fn prefix_plan_from(
    m: Map<(FieldId, TermRangeV), bool>,
    l: Seq<QueryAst>,
    i: int,
    s: Seq<FieldEntryV>,
) -> Map<(FieldId, TermRangeV), bool>
    decreases l, l.len() - i,
{
    if 0 <= i < l.len() {
        prefix_plan_from(prefix_plan(m, l[i], s), l, i + 1, s)
    } else {
        m
    }
}

/// The literal prefix of a wildcard pattern that reduces to a pure
/// prefix — everything before its single, final `*` — or nothing when
/// the pattern has another shape.
#[verifier::loop_isolation(false)]
pub fn wildcard_prefix_part(pattern: &String) -> (r: Option<&str>)
    ensures
        r is Some <==> wildcard_ok(pattern@),
        r matches Some(part) ==> part@ == pattern@.drop_last(),
{
    let ghost p = pattern@;
    let pat = pattern.as_str();
    let n = pat.unicode_len();
    if n == 0 {
        return None;
    }
    if pat.get_char(n - 1) != '*' {
        return None;
    }
    let mut j: usize = 0;
    while j < n - 1
        invariant
            0 <= j <= n - 1,
            forall|k: int| 0 <= k < j ==> p[k] != '*' && p[k] != '?',
        decreases n - 1 - j,
    {
        let c = pat.get_char(j);
        if c == '*' || c == '?' {
            return None;
        }
        j = j + 1;
    }
    proof {
        assert(wildcard_ok(p));
    }
    let prefix_part = pat.substring_char(0, n - 1);
    proof {
        assert(prefix_part@ =~= p.drop_last());
    }
    Some(prefix_part)
}

/// Walks the query and turns every prefix-shaped clause — bool-prefix
/// full-text, phrase-prefix, and pure-prefix wildcard — into a term
/// range, merged per field and range by OR-ing the positions-needed
/// flags.
pub struct ExtractPrefixTermRanges<'a> {
    pub schema: &'a Schema,
    pub tokenizer_manager: &'a TokenizerManager,
    pub term_ranges_to_warm_up: TermRangeWarmup,
}

impl<'a> ExtractPrefixTermRanges<'a> {
    /// An empty extractor over `schema`, tokenizing through
    /// `tokenizer_manager`.
    pub fn with_schema(schema: &'a Schema, tokenizer_manager: &'a TokenizerManager) -> (r: Self)
        ensures
            r.term_ranges_to_warm_up@ == Map::<(FieldId, TermRangeV), bool>::empty(),
            r.term_ranges_to_warm_up.wf(),
            r.schema == schema,
            r.tokenizer_manager == tokenizer_manager,
    {
        ExtractPrefixTermRanges {
            schema,
            tokenizer_manager,
            term_ranges_to_warm_up: TermRangeWarmup::new(),
        }
    }

    /// Expands one prefix term to its range, capped at `max_expansions`
    /// terms, and merges it into the map under the term's field.
    pub fn add_prefix_term(&mut self, term: Term, max_expansions: u32, position_needed: bool)
        requires
            old(self).term_ranges_to_warm_up.wf(),
        ensures
            final(self).schema == old(self).schema,
            final(self).tokenizer_manager == old(self).tokenizer_manager,
            final(self).term_ranges_to_warm_up.wf(),
            final(self).term_ranges_to_warm_up@ == range_or_insert(
                old(self).term_ranges_to_warm_up@,
                term.field,
                prefix_range_v(term@, Some(max_expansions as u64)),
                position_needed,
            ),
    {
        let field = term.field;
        let ghost tv = term@;
        let (start, end) = prefix_term_to_range(term);
        let term_range = TermRange { start, end, limit: Some(max_expansions as u64) };
        proof {
            assert(term_range@ == prefix_range_v(tv, Some(max_expansions as u64)));
        }
        self.term_ranges_to_warm_up.or_insert(field, term_range, position_needed);
    }

    /// Records the prefix term of a bool-prefix full-text leaf, if the
    /// clause has one. The clause's own expansion cap governs its fuzzy
    /// matching, not the range, so the range is uncapped; a single-term
    /// prefix lookup never needs positions.
    pub fn visit_full_text(&mut self, full_text_query: &FullTextQuery) -> (r: Result<
        (),
        QueryParserError,
    >)
        requires
            old(self).schema.wf(),
            old(self).term_ranges_to_warm_up.wf(),
        ensures
            final(self).schema == old(self).schema,
            final(self).tokenizer_manager == old(self).tokenizer_manager,
            final(self).term_ranges_to_warm_up.wf(),
            r is Ok,
            final(self).term_ranges_to_warm_up@ == full_text_step(
                old(self).term_ranges_to_warm_up@,
                *full_text_query,
                old(self).schema@,
            ),
    {
        let ghost pre = self.term_ranges_to_warm_up@;
        let is_bool_prefix = match full_text_query.params.mode {
            FullTextMode::BoolPrefix { .. } => true,
            _ => false,
        };
        if !is_bool_prefix {
            return Ok(());
        }
        let resolved = match find_field_or_hit_dynamic(&full_text_query.field, self.schema) {
            Some(resolved) => resolved,
            None => {
                return Ok(());
            },
        };
        let is_text = match resolved.field_type {
            FieldType::Text | FieldType::Json => true,
            _ => false,
        };
        if !is_text {
            return Ok(());
        }
        let tokens = self.tokenizer_manager.tokenize(full_text_query.text.as_str());
        if tokens.len() == 0 {
            return Ok(());
        }
        let last = &tokens[tokens.len() - 1];
        proof {
            assert(tokens@.map_values(|t: String| t@)[tokens@.len() - 1] == last@);
        }
        let term = token_term(&full_text_query.field, resolved, last.as_str(), self.schema);
        self.add_prefix_term(term, u32::MAX, false);
        Ok(())
    }

    /// Records the prefix term of a phrase-prefix leaf: the phrase's last
    /// token, capped by the clause's `max_expansions`; positions are
    /// needed exactly when the phrase has more than one token. A clause
    /// whose field does not resolve, or resolves to a field without
    /// text, produces no executable predicate and is skipped silently.
    pub fn visit_phrase_prefix(&mut self, phrase_prefix: &PhrasePrefixQuery) -> (r: Result<
        (),
        QueryParserError,
    >)
        requires
            old(self).schema.wf(),
            old(self).term_ranges_to_warm_up.wf(),
        ensures
            final(self).schema == old(self).schema,
            final(self).tokenizer_manager == old(self).tokenizer_manager,
            final(self).term_ranges_to_warm_up.wf(),
            r is Ok,
            final(self).term_ranges_to_warm_up@ == phrase_prefix_step(
                old(self).term_ranges_to_warm_up@,
                *phrase_prefix,
                old(self).schema@,
            ),
    {
        let resolved = match find_field_or_hit_dynamic(&phrase_prefix.field, self.schema) {
            Some(resolved) => resolved,
            None => {
                return Ok(());
            },
        };
        let is_text = match resolved.field_type {
            FieldType::Text | FieldType::Json => true,
            _ => false,
        };
        if !is_text {
            return Ok(());
        }
        let tokens = self.tokenizer_manager.tokenize(phrase_prefix.phrase.as_str());
        if tokens.len() == 0 {
            return Ok(());
        }
        let last = &tokens[tokens.len() - 1];
        proof {
            assert(tokens@.map_values(|t: String| t@)[tokens@.len() - 1] == last@);
        }
        let term = token_term(&phrase_prefix.field, resolved, last.as_str(), self.schema);
        self.add_prefix_term(term, phrase_prefix.max_expansions, tokens.len() > 1);
        Ok(())
    }

    /// Records the literal prefix of a wildcard leaf whose pattern is a
    /// pure prefix, normalized as the analyzer normalizes tokens. A
    /// misshapen pattern is an error, as is a pattern on a resolved
    /// field without text; an unresolvable field is skipped silently.
    /// On an error the map is left as it was.
    pub fn visit_wildcard(&mut self, wildcard_query: &WildcardQuery) -> (r: Result<
        (),
        QueryParserError,
    >)
        requires
            old(self).schema.wf(),
            old(self).term_ranges_to_warm_up.wf(),
        ensures
            final(self).schema == old(self).schema,
            final(self).tokenizer_manager == old(self).tokenizer_manager,
            final(self).term_ranges_to_warm_up.wf(),
            r is Ok <==> wildcard_err(*wildcard_query, old(self).schema@) is None,
            r is Ok ==> final(self).term_ranges_to_warm_up@ == wildcard_step(
                old(self).term_ranges_to_warm_up@,
                *wildcard_query,
                old(self).schema@,
            ),
            r matches Err(e) ==> wildcard_err(*wildcard_query, old(self).schema@) matches Some(ev)
                && e@ == ev,
            r is Err ==> final(self).term_ranges_to_warm_up == old(self).term_ranges_to_warm_up,
    {
        let prefix_part = match wildcard_prefix_part(&wildcard_query.pattern) {
            Some(part) => part,
            None => {
                return Err(QueryParserError::WildcardInNonFinalPosition);
            },
        };
        let resolved = match find_field_or_hit_dynamic(&wildcard_query.field, self.schema) {
            Some(resolved) => resolved,
            None => {
                return Ok(());
            },
        };
        let is_text = match resolved.field_type {
            FieldType::Text | FieldType::Json => true,
            _ => false,
        };
        if !is_text {
            return Err(QueryParserError::SchemaMismatch { field: wildcard_query.field.clone() });
        }
        let lowered = self.tokenizer_manager.normalize(prefix_part);
        let term = token_term(&wildcard_query.field, resolved, lowered.as_str(), self.schema);
        self.add_prefix_term(term, u32::MAX, false);
        Ok(())
    }

    /// Visits every node reachable from `ast` once, folding each
    /// prefix-shaped leaf into the range map and aborting on the first
    /// error. After an abort the map may hold the contributions of
    /// leaves visited before the failing one; `extract_prefix_term_ranges`
    /// discards it then.
    pub fn visit(&mut self, ast: &QueryAst) -> (r: Result<(), QueryParserError>)
        requires
            old(self).schema.wf(),
            old(self).term_ranges_to_warm_up.wf(),
        ensures
            final(self).schema == old(self).schema,
            final(self).tokenizer_manager == old(self).tokenizer_manager,
            final(self).term_ranges_to_warm_up.wf(),
            r is Ok <==> prefix_err(*ast, old(self).schema@) is None,
            r is Ok ==> final(self).term_ranges_to_warm_up@ == prefix_plan(
                old(self).term_ranges_to_warm_up@,
                *ast,
                old(self).schema@,
            ),
            r matches Err(e) ==> prefix_err(*ast, old(self).schema@) matches Some(ev) && e@ == ev,
        decreases *ast, 0int,
    {
        match ast {
            QueryAst::FullText(q) => self.visit_full_text(q),
            QueryAst::PhrasePrefix(q) => self.visit_phrase_prefix(q),
            QueryAst::Wildcard(q) => self.visit_wildcard(q),
            QueryAst::Bool { must, must_not, should, filter } => {
                let r1 = self.visit_list(must, 0);
                if r1.is_err() {
                    return r1;
                }
                let r2 = self.visit_list(must_not, 0);
                if r2.is_err() {
                    return r2;
                }
                let r3 = self.visit_list(should, 0);
                if r3.is_err() {
                    return r3;
                }
                let r4 = self.visit_list(filter, 0);
                if r4.is_err() {
                    return r4;
                }
                Ok(())
            },
            QueryAst::Boost(inner) => self.visit(inner),
            _ => Ok(()),
        }
    }

    /// Visits the nodes of `list` from position `i` on.
    pub fn visit_list(&mut self, list: &Vec<QueryAst>, i: usize) -> (r: Result<
        (),
        QueryParserError,
    >)
        requires
            old(self).schema.wf(),
            old(self).term_ranges_to_warm_up.wf(),
            i <= list@.len(),
        ensures
            final(self).schema == old(self).schema,
            final(self).tokenizer_manager == old(self).tokenizer_manager,
            final(self).term_ranges_to_warm_up.wf(),
            r is Ok <==> prefix_err_from(list@, i as int, old(self).schema@) is None,
            r is Ok ==> final(self).term_ranges_to_warm_up@ == prefix_plan_from(
                old(self).term_ranges_to_warm_up@,
                list@,
                i as int,
                old(self).schema@,
            ),
            r matches Err(e) ==> prefix_err_from(list@, i as int, old(self).schema@)
                matches Some(ev) && e@ == ev,
        decreases list@, list@.len() - i,
    {
        if i == list.len() {
            return Ok(());
        }
        let r1 = self.visit(&list[i]);
        if r1.is_err() {
            return r1;
        }
        self.visit_list(list, i + 1)
    }
}

/// Walks the query and gathers, per field, the term ranges and
/// positions-needed flags its prefix-shaped clauses imply.
pub fn extract_prefix_term_ranges(
    query_ast: &QueryAst,
    schema: &Schema,
    tokenizer_manager: &TokenizerManager,
) -> (r: Result<TermRangeWarmup, QueryParserError>)
    requires
        schema.wf(),
    ensures
        r is Ok <==> prefix_err(*query_ast, schema@) is None,
        r matches Ok(ranges) ==> ranges@ == prefix_plan(
            Map::<(FieldId, TermRangeV), bool>::empty(),
            *query_ast,
            schema@,
        ) && ranges.wf(),
        r matches Err(e) ==> prefix_err(*query_ast, schema@) matches Some(ev) && e@ == ev,
{
    let mut visitor = ExtractPrefixTermRanges::with_schema(schema, tokenizer_manager);
    match visitor.visit(query_ast) {
        Ok(()) => Ok(visitor.term_ranges_to_warm_up),
        Err(e) => Err(e),
    }
}

} // verus!
