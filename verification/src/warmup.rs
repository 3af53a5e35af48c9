use vstd::prelude::*;
use crate::ast::QueryAst;
use crate::collect::{
    RangeQueryFields, ExistsQueryFields, extract_term_set_query_fields, range_fields,
    exists_fields, term_set_err, term_set_fields,
};
use crate::compile::{
    CompiledQuery, compile_query, compile_err, compiles_to, extract_query_terms, query_terms_fold,
};
use crate::containers::{NameSet, FieldIdSet, TermWarmup, TermRangeWarmup};
use crate::error::{QueryParserError, QueryParserErrorV};
use crate::ranges::{extract_prefix_term_ranges, prefix_err, prefix_plan};
use crate::schema::{Schema, FieldEntryV, is_fast_spec, is_fast_field};
use crate::term::{FieldId, TermV, TermRangeV};
use crate::tokenize::TokenizerManager;

verus! {

/// The names of `names` that resolve to fast (columnar) fields.
pub open spec fn fast_names(names: Set<Seq<char>>, s: Seq<FieldEntryV>) -> Set<Seq<char>> {
    names.filter(|n: Seq<char>| is_fast_spec(s, n))
}

/// The warm-up plan: exactly which index artifacts the query will touch,
/// so the execution layer can prefetch them in bulk before running it.
#[derive(Debug)]
pub struct WarmupInfo {
    /// Fields whose term dictionary must be preloaded, from set-membership
    /// clauses.
    pub term_dict_fields: FieldIdSet,
    /// The literal terms embedded in the compiled query, each with
    /// whether position data is needed.
    pub terms_grouped_by_field: TermWarmup,
    /// The term ranges implied by prefix-shaped clauses, grouped by field,
    /// each with whether position data is needed.
    pub term_ranges_grouped_by_field: TermRangeWarmup,
    /// Field names whose columnar storage must be preloaded: every field
    /// a range clause names, and every fast field a presence clause
    /// names.
    pub fast_field_names: NameSet,
}

impl WarmupInfo {
    /// Every component is well-formed.
    pub open spec fn wf(&self) -> bool {
        &&& self.term_dict_fields.wf()
        &&& self.terms_grouped_by_field.wf()
        &&& self.term_ranges_grouped_by_field.wf()
    }
}

/// Adds to `out` every name in `items` that resolves to a fast field.
#[verifier::loop_isolation(false)]
fn add_fast_names(out: &mut NameSet, items: &Vec<String>, schema: &Schema)
    requires
        schema.wf(),
    ensures
        final(out)@ == old(out)@ + fast_names(items@.map_values(|s: String| s@).to_set(), schema@),
{
    let ghost base = out@;
    let ghost vs = items@.map_values(|s: String| s@);
    let mut i: usize = 0;
    while i < items.len()
        invariant
            0 <= i <= items@.len(),
            out@ == base + Set::new(
                |n: Seq<char>|
                    exists|j: int| 0 <= j < i && vs[j] == n && is_fast_spec(schema@, n),
            ),
        decreases items@.len() - i,
    {
        let ghost before = out@;
        if is_fast_field(schema, &items[i]) {
            out.insert(items[i].clone());
        }
        proof {
            let stepped = Set::new(
                |n: Seq<char>|
                    exists|j: int| 0 <= j < i + 1 && vs[j] == n && is_fast_spec(schema@, n),
            );
            assert forall|n: Seq<char>| out@.contains(n) implies (base + stepped).contains(n) by {
                if !base.contains(n) && !before.contains(n) {
                    assert(n == vs[i as int]);
                } else if before.contains(n) && !base.contains(n) {
                    let j = choose|j: int|
                        0 <= j < i && vs[j] == n && is_fast_spec(schema@, n);
                    assert(0 <= j < i + 1 && vs[j] == n && is_fast_spec(schema@, n));
                }
            }
            assert forall|n: Seq<char>| (base + stepped).contains(n) implies out@.contains(n) by {
                if stepped.contains(n) {
                    let j = choose|j: int|
                        0 <= j < i + 1 && vs[j] == n && is_fast_spec(schema@, n);
                    if j < i {
                        assert(before.contains(n));
                    } else {
                        assert(n == vs[i as int]);
                    }
                }
            }
            assert(out@ =~= base + stepped);
        }
        i = i + 1;
    }
    proof {
        let all = Set::new(
            |n: Seq<char>|
                exists|j: int| 0 <= j < vs.len() && vs[j] == n && is_fast_spec(schema@, n),
        );
        assert forall|n: Seq<char>| all.contains(n) implies fast_names(
            vs.to_set(),
            schema@,
        ).contains(n) by {
            let j = choose|j: int| 0 <= j < vs.len() && vs[j] == n && is_fast_spec(schema@, n);
            assert(vs.to_set().contains(n));
        }
        assert forall|n: Seq<char>| fast_names(vs.to_set(), schema@).contains(n) implies
            all.contains(n) by {
            let j = choose|j: int| 0 <= j < vs.len() && vs[j] == n;
            assert(0 <= j < vs.len() && vs[j] == n && is_fast_spec(schema@, n));
        }
        assert(all =~= fast_names(vs.to_set(), schema@));
        assert(out@ =~= base + fast_names(vs.to_set(), schema@));
    }
}

/// Builds the executable query and its warm-up plan in one pass over the
/// abstract tree: collect the fast-field names that range and presence
/// clauses demand, compile the tree, resolve the fields of set-membership
/// clauses, expand prefix-shaped clauses to term ranges, and enumerate
/// the literal terms of the compiled query. The first error — from
/// compilation, then term-set resolution, then prefix extraction —
/// aborts the build; no partial plan is returned.
pub fn build_query(
    query_ast: &QueryAst,
    schema: Schema,
    tokenizer_manager: &TokenizerManager,
    search_fields: &[String],
    with_validation: bool,
) -> (r: Result<(CompiledQuery, WarmupInfo), QueryParserError>)
    requires
        schema.wf(),
    ensures
        r is Ok <==> {
            &&& compile_err(*query_ast, schema@, with_validation) is None
            &&& term_set_err(*query_ast, schema@) is None
            &&& prefix_err(*query_ast, schema@) is None
        },
        r matches Ok(pair) ==> {
            &&& compiles_to(*query_ast, schema@, with_validation, pair.0)
            &&& pair.1.wf()
            &&& pair.1.term_dict_fields@ == term_set_fields(*query_ast, schema@)
            &&& pair.1.terms_grouped_by_field@ == query_terms_fold(
                Map::<TermV, bool>::empty(),
                pair.0,
            )
            &&& pair.1.term_ranges_grouped_by_field@ == prefix_plan(
                Map::<(FieldId, TermRangeV), bool>::empty(),
                *query_ast,
                schema@,
            )
            &&& pair.1.fast_field_names@ == range_fields(*query_ast) + fast_names(
                exists_fields(*query_ast),
                schema@,
            )
        },
        r matches Err(e) ==> {
            &&& (compile_err(*query_ast, schema@, with_validation) matches Some(ev) ==> e@ == ev)
            &&& compile_err(*query_ast, schema@, with_validation) is None ==> (term_set_err(
                *query_ast,
                schema@,
            ) matches Some(n) ==> e@ == (QueryParserErrorV::FieldDoesNotExist { full_path: n }))
            &&& compile_err(*query_ast, schema@, with_validation) is None && term_set_err(
                *query_ast,
                schema@,
            ) is None ==> (prefix_err(*query_ast, schema@) matches Some(ev) ==> e@ == ev)
        },
{
    let mut range_query_fields = RangeQueryFields::new();
    range_query_fields.visit(query_ast);

    let mut exists_query_fields = ExistsQueryFields::new();
    exists_query_fields.visit(query_ast);

    let mut fast_field_names = range_query_fields.range_query_field_names;
    add_fast_names(&mut fast_field_names, &exists_query_fields.exists_query_field_names.items, &schema);

    let query = match compile_query(query_ast, &schema, tokenizer_manager, search_fields, with_validation) {
        Ok(query) => query,
        Err(e) => {
            return Err(e);
        },
    };

    let term_set_query_fields = match extract_term_set_query_fields(query_ast, &schema) {
        Ok(fields) => fields,
        Err(e) => {
            return Err(e);
        },
    };

    let term_ranges_grouped_by_field = match extract_prefix_term_ranges(
        query_ast,
        &schema,
        tokenizer_manager,
    ) {
        Ok(ranges) => ranges,
        Err(e) => {
            return Err(e);
        },
    };

    let terms_grouped_by_field = extract_query_terms(&query);

    let warmup_info = WarmupInfo {
        term_dict_fields: term_set_query_fields,
        terms_grouped_by_field,
        term_ranges_grouped_by_field,
        fast_field_names,
    };
    Ok((query, warmup_info))
}

} // verus!
