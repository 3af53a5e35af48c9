use vstd::prelude::*;
use crate::ast::{QueryAst, RangeQuery, FieldPresenceQuery, TermSetQuery};
use crate::containers::{NameSet, FieldIdSet};
use crate::error::{QueryParserError, QueryParserErrorV};
use crate::schema::{Schema, FieldEntryV, resolves, resolve_idx, find_field_or_hit_dynamic};
use crate::term::FieldId;

verus! {

/// The first of two options, or the second when the first is empty.
pub open spec fn opt_or<A>(a: Option<A>, b: Option<A>) -> Option<A> {
    if a is Some {
        a
    } else {
        b
    }
}

/// The field names of every range leaf reachable from `ast`.
pub open spec fn range_fields(ast: QueryAst) -> Set<Seq<char>>
    decreases ast, 0int,
{
    match ast {
        QueryAst::Range(r) => set![r.field@],
        QueryAst::Bool { must, must_not, should, filter } => {
            range_fields_from(must@, 0) + range_fields_from(must_not@, 0) + range_fields_from(
                should@,
                0,
            ) + range_fields_from(filter@, 0)
        },
        QueryAst::Boost(inner) => range_fields(*inner),
        _ => Set::empty(),
    }
}

/// The union of `range_fields` over `l[i..]`.
pub open spec fn range_fields_from(l: Seq<QueryAst>, i: int) -> Set<Seq<char>>
    decreases l, l.len() - i,
{
    if 0 <= i < l.len() {
        range_fields(l[i]) + range_fields_from(l, i + 1)
    } else {
        Set::empty()
    }
}

/// The field names of every field-presence leaf reachable from `ast`.
pub open spec fn exists_fields(ast: QueryAst) -> Set<Seq<char>>
    decreases ast, 0int,
{
    match ast {
        QueryAst::FieldPresence(p) => set![p.field@],
        QueryAst::Bool { must, must_not, should, filter } => {
            exists_fields_from(must@, 0) + exists_fields_from(must_not@, 0) + exists_fields_from(
                should@,
                0,
            ) + exists_fields_from(filter@, 0)
        },
        QueryAst::Boost(inner) => exists_fields(*inner),
        _ => Set::empty(),
    }
}

/// The union of `exists_fields` over `l[i..]`.
pub open spec fn exists_fields_from(l: Seq<QueryAst>, i: int) -> Set<Seq<char>>
    decreases l, l.len() - i,
{
    if 0 <= i < l.len() {
        exists_fields(l[i]) + exists_fields_from(l, i + 1)
    } else {
        Set::empty()
    }
}

/// Collects the field name of every range leaf. Range predicates execute
/// against columnar storage, so each of these names must have its columns
/// preloaded. This traversal cannot fail.
pub struct RangeQueryFields {
    pub range_query_field_names: NameSet,
}

impl RangeQueryFields {
    /// An empty collector.
    pub fn new() -> (r: RangeQueryFields)
        ensures
            r.range_query_field_names@ == Set::<Seq<char>>::empty(),
    {
        RangeQueryFields { range_query_field_names: NameSet::new() }
    }

    /// Records one range leaf.
    pub fn visit_range(&mut self, range_query: &RangeQuery)
        ensures
            final(self).range_query_field_names@ == old(self).range_query_field_names@.insert(
                range_query.field@,
            ),
    {
        self.range_query_field_names.insert(range_query.field.clone());
    }

    /// Visits every node reachable from `ast` once, recording the range
    /// leaves.
    pub fn visit(&mut self, ast: &QueryAst)
        ensures
            final(self).range_query_field_names@ == old(self).range_query_field_names@
                + range_fields(*ast),
        decreases *ast, 0int,
    {
        let ghost pre = self.range_query_field_names@;
        match ast {
            QueryAst::Range(r) => {
                self.visit_range(r);
                proof {
                    assert(self.range_query_field_names@ =~= pre + set![r.field@]);
                }
            },
            QueryAst::Bool { must, must_not, should, filter } => {
                self.visit_list(must, 0);
                self.visit_list(must_not, 0);
                self.visit_list(should, 0);
                self.visit_list(filter, 0);
                proof {
                    assert(self.range_query_field_names@ =~= pre + range_fields(*ast));
                }
            },
            QueryAst::Boost(inner) => {
                self.visit(inner);
            },
            _ => {
                proof {
                    assert(self.range_query_field_names@ =~= pre + range_fields(*ast));
                }
            },
        }
    }

    /// Visits the nodes of `list` from position `i` on.
    pub fn visit_list(&mut self, list: &Vec<QueryAst>, i: usize)
        requires
            i <= list@.len(),
        ensures
            final(self).range_query_field_names@ == old(self).range_query_field_names@
                + range_fields_from(list@, i as int),
        decreases list@, list@.len() - i,
    {
        let ghost pre = self.range_query_field_names@;
        if i < list.len() {
            self.visit(&list[i]);
            self.visit_list(list, i + 1);
            proof {
                assert(self.range_query_field_names@ =~= pre + range_fields_from(
                    list@,
                    i as int,
                ));
            }
        } else {
            proof {
                assert(self.range_query_field_names@ =~= pre + range_fields_from(
                    list@,
                    i as int,
                ));
            }
        }
    }
}

/// Collects the field name of every field-presence leaf. Presence on a
/// fast field is answered from the column's bitmap, so the assembler
/// later keeps only the fast ones of these names. This traversal cannot
/// fail.
pub struct ExistsQueryFields {
    pub exists_query_field_names: NameSet,
}

impl ExistsQueryFields {
    /// An empty collector.
    pub fn new() -> (r: ExistsQueryFields)
        ensures
            r.exists_query_field_names@ == Set::<Seq<char>>::empty(),
    {
        ExistsQueryFields { exists_query_field_names: NameSet::new() }
    }

    /// Records one field-presence leaf.
    pub fn visit_exists(&mut self, exists_query: &FieldPresenceQuery)
        ensures
            final(self).exists_query_field_names@ == old(self).exists_query_field_names@.insert(
                exists_query.field@,
            ),
    {
        self.exists_query_field_names.insert(exists_query.field.clone());
    }

    /// Visits every node reachable from `ast` once, recording the
    /// field-presence leaves.
    pub fn visit(&mut self, ast: &QueryAst)
        ensures
            final(self).exists_query_field_names@ == old(self).exists_query_field_names@
                + exists_fields(*ast),
        decreases *ast, 0int,
    {
        let ghost pre = self.exists_query_field_names@;
        match ast {
            QueryAst::FieldPresence(p) => {
                self.visit_exists(p);
                proof {
                    assert(self.exists_query_field_names@ =~= pre + set![p.field@]);
                }
            },
            QueryAst::Bool { must, must_not, should, filter } => {
                self.visit_list(must, 0);
                self.visit_list(must_not, 0);
                self.visit_list(should, 0);
                self.visit_list(filter, 0);
                proof {
                    assert(self.exists_query_field_names@ =~= pre + exists_fields(*ast));
                }
            },
            QueryAst::Boost(inner) => {
                self.visit(inner);
            },
            _ => {
                proof {
                    assert(self.exists_query_field_names@ =~= pre + exists_fields(*ast));
                }
            },
        }
    }

    /// Visits the nodes of `list` from position `i` on.
    pub fn visit_list(&mut self, list: &Vec<QueryAst>, i: usize)
        requires
            i <= list@.len(),
        ensures
            final(self).exists_query_field_names@ == old(self).exists_query_field_names@
                + exists_fields_from(list@, i as int),
        decreases list@, list@.len() - i,
    {
        let ghost pre = self.exists_query_field_names@;
        if i < list.len() {
            self.visit(&list[i]);
            self.visit_list(list, i + 1);
            proof {
                assert(self.exists_query_field_names@ =~= pre + exists_fields_from(
                    list@,
                    i as int,
                ));
            }
        } else {
            proof {
                assert(self.exists_query_field_names@ =~= pre + exists_fields_from(
                    list@,
                    i as int,
                ));
            }
        }
    }
}

/// The first field name of the pairs `pairs[i..]` that does not resolve
/// against the schema, if any.
pub open spec fn term_set_leaf_err(
    pairs: Seq<(String, Vec<String>)>,
    i: int,
    s: Seq<FieldEntryV>,
) -> Option<Seq<char>>
    decreases pairs.len() - i,
{
    if 0 <= i < pairs.len() {
        if !resolves(s, pairs[i].0@) {
            Some(pairs[i].0@)
        } else {
            term_set_leaf_err(pairs, i + 1, s)
        }
    } else {
        None
    }
}

/// The identifiers the resolvable field names of `pairs[i..]` resolve to.
pub open spec fn term_set_leaf_fields(
    pairs: Seq<(String, Vec<String>)>,
    i: int,
    s: Seq<FieldEntryV>,
) -> Set<FieldId>
    decreases pairs.len() - i,
{
    if 0 <= i < pairs.len() {
        if resolves(s, pairs[i].0@) {
            term_set_leaf_fields(pairs, i + 1, s).insert(resolve_idx(s, pairs[i].0@) as FieldId)
        } else {
            term_set_leaf_fields(pairs, i + 1, s)
        }
    } else {
        Set::empty()
    }
}

/// The first unresolvable field name of a term-set leaf reachable from
/// `ast`, in traversal order, if any.
pub open spec fn term_set_err(ast: QueryAst, s: Seq<FieldEntryV>) -> Option<Seq<char>>
    decreases ast, 0int,
{
    match ast {
        QueryAst::TermSet(t) => term_set_leaf_err(t.terms_per_field@, 0, s),
        QueryAst::Bool { must, must_not, should, filter } => {
            opt_or(
                term_set_err_from(must@, 0, s),
                opt_or(
                    term_set_err_from(must_not@, 0, s),
                    opt_or(term_set_err_from(should@, 0, s), term_set_err_from(filter@, 0, s)),
                ),
            )
        },
        QueryAst::Boost(inner) => term_set_err(*inner, s),
        _ => None,
    }
}

/// The first unresolvable term-set field name over `l[i..]`.
pub open spec fn term_set_err_from(l: Seq<QueryAst>, i: int, s: Seq<FieldEntryV>) -> Option<
    Seq<char>,
>
    decreases l, l.len() - i,
{
    if 0 <= i < l.len() {
        opt_or(term_set_err(l[i], s), term_set_err_from(l, i + 1, s))
    } else {
        None
    }
}

/// The identifiers every term-set leaf reachable from `ast` resolves to.
pub open spec fn term_set_fields(ast: QueryAst, s: Seq<FieldEntryV>) -> Set<FieldId>
    decreases ast, 0int,
{
    match ast {
        QueryAst::TermSet(t) => term_set_leaf_fields(t.terms_per_field@, 0, s),
        QueryAst::Bool { must, must_not, should, filter } => {
            term_set_fields_from(must@, 0, s) + term_set_fields_from(must_not@, 0, s)
                + term_set_fields_from(should@, 0, s) + term_set_fields_from(filter@, 0, s)
        },
        QueryAst::Boost(inner) => term_set_fields(*inner, s),
        _ => Set::empty(),
    }
}

/// The union of `term_set_fields` over `l[i..]`.
pub open spec fn term_set_fields_from(l: Seq<QueryAst>, i: int, s: Seq<FieldEntryV>) -> Set<
    FieldId,
>
    decreases l, l.len() - i,
{
    if 0 <= i < l.len() {
        term_set_fields(l[i], s) + term_set_fields_from(l, i + 1, s)
    } else {
        Set::empty()
    }
}

/// Collects the field identifier of every field a term-set leaf names.
/// The term dictionary is addressed by identifier, not name, so an
/// unresolvable name aborts the traversal with an error.
pub struct ExtractTermSetFields<'a> {
    pub term_dict_fields_to_warm_up: FieldIdSet,
    pub schema: &'a Schema,
}

impl<'a> ExtractTermSetFields<'a> {
    /// An empty collector over `schema`.
    pub fn new(schema: &'a Schema) -> (r: Self)
        ensures
            r.term_dict_fields_to_warm_up@ == Set::<FieldId>::empty(),
            r.term_dict_fields_to_warm_up.wf(),
            r.schema == schema,
    {
        ExtractTermSetFields { term_dict_fields_to_warm_up: FieldIdSet::new(), schema }
    }

    /// Resolves and records every field of one term-set leaf; the first
    /// name that does not resolve is the whole traversal's error. One
    /// field yields one entry no matter how many terms its set holds.
    /// After an error the set may hold the fields of pairs resolved
    /// before the failing one; `extract_term_set_query_fields` discards
    /// it then.
    pub fn visit_term_set(&mut self, term_set_query: &TermSetQuery) -> (r: Result<
        (),
        QueryParserError,
    >)
        requires
            old(self).schema.wf(),
            old(self).term_dict_fields_to_warm_up.wf(),
        ensures
            final(self).schema == old(self).schema,
            final(self).term_dict_fields_to_warm_up.wf(),
            r is Ok <==> term_set_leaf_err(term_set_query.terms_per_field@, 0, old(self).schema@)
                is None,
            r is Ok ==> final(self).term_dict_fields_to_warm_up@ == old(
                self,
            ).term_dict_fields_to_warm_up@ + term_set_leaf_fields(
                term_set_query.terms_per_field@,
                0,
                old(self).schema@,
            ),
            r matches Err(e) ==> term_set_leaf_err(
                term_set_query.terms_per_field@,
                0,
                old(self).schema@,
            ) matches Some(n) && e@ == (QueryParserErrorV::FieldDoesNotExist { full_path: n }),
    {
        self.visit_term_set_pairs(&term_set_query.terms_per_field, 0)
    }

    /// Resolves and records the fields of `pairs[i..]`.
    fn visit_term_set_pairs(&mut self, pairs: &Vec<(String, Vec<String>)>, i: usize) -> (r: Result<
        (),
        QueryParserError,
    >)
        requires
            old(self).schema.wf(),
            old(self).term_dict_fields_to_warm_up.wf(),
            i <= pairs@.len(),
        ensures
            final(self).schema == old(self).schema,
            final(self).term_dict_fields_to_warm_up.wf(),
            r is Ok <==> term_set_leaf_err(pairs@, i as int, old(self).schema@) is None,
            r is Ok ==> final(self).term_dict_fields_to_warm_up@ == old(
                self,
            ).term_dict_fields_to_warm_up@ + term_set_leaf_fields(
                pairs@,
                i as int,
                old(self).schema@,
            ),
            r matches Err(e) ==> term_set_leaf_err(pairs@, i as int, old(self).schema@)
                matches Some(n) && e@ == (QueryParserErrorV::FieldDoesNotExist { full_path: n }),
        decreases pairs@.len() - i,
    {
        let ghost pre = self.term_dict_fields_to_warm_up@;
        if i == pairs.len() {
            proof {
                assert(pre =~= pre + term_set_leaf_fields(pairs@, i as int, self.schema@));
            }
            return Ok(());
        }
        match find_field_or_hit_dynamic(&pairs[i].0, self.schema) {
            Some(resolved) => {
                self.term_dict_fields_to_warm_up.insert(resolved.field);
                let r = self.visit_term_set_pairs(pairs, i + 1);
                proof {
                    if r is Ok {
                        assert(resolved.field == resolve_idx(
                            self.schema@,
                            pairs@[i as int].0@,
                        ) as FieldId);
                        assert(self.term_dict_fields_to_warm_up@ =~= pre + term_set_leaf_fields(
                            pairs@,
                            i as int,
                            self.schema@,
                        ));
                    }
                }
                r
            },
            None => {
                Err(QueryParserError::FieldDoesNotExist { full_path: pairs[i].0.clone() })
            },
        }
    }

    /// Visits every node reachable from `ast` once, recording term-set
    /// fields and aborting on the first unresolvable one.
    pub fn visit(&mut self, ast: &QueryAst) -> (r: Result<(), QueryParserError>)
        requires
            old(self).schema.wf(),
            old(self).term_dict_fields_to_warm_up.wf(),
        ensures
            final(self).schema == old(self).schema,
            final(self).term_dict_fields_to_warm_up.wf(),
            r is Ok <==> term_set_err(*ast, old(self).schema@) is None,
            r is Ok ==> final(self).term_dict_fields_to_warm_up@ == old(
                self,
            ).term_dict_fields_to_warm_up@ + term_set_fields(*ast, old(self).schema@),
            r matches Err(e) ==> term_set_err(*ast, old(self).schema@) matches Some(n) && e@ == (
            QueryParserErrorV::FieldDoesNotExist { full_path: n }),
        decreases *ast, 0int,
    {
        let ghost pre = self.term_dict_fields_to_warm_up@;
        match ast {
            QueryAst::TermSet(t) => self.visit_term_set(t),
            QueryAst::Bool { must, must_not, should, filter } => {
                let r1 = self.visit_list(must, 0);
                if r1.is_err() {
                    return r1;
                }
                let r2 = self.visit_list(must_not, 0);
                if r2.is_err() {
                    return r2;
                }
                let r3 = self.visit_list(should, 0);
                if r3.is_err() {
                    return r3;
                }
                let r4 = self.visit_list(filter, 0);
                if r4.is_err() {
                    return r4;
                }
                proof {
                    assert(self.term_dict_fields_to_warm_up@ =~= pre + term_set_fields(
                        *ast,
                        self.schema@,
                    ));
                }
                Ok(())
            },
            QueryAst::Boost(inner) => self.visit(inner),
            _ => {
                proof {
                    assert(pre =~= pre + term_set_fields(*ast, self.schema@));
                }
                Ok(())
            },
        }
    }

    /// Visits the nodes of `list` from position `i` on.
    pub fn visit_list(&mut self, list: &Vec<QueryAst>, i: usize) -> (r: Result<
        (),
        QueryParserError,
    >)
        requires
            old(self).schema.wf(),
            old(self).term_dict_fields_to_warm_up.wf(),
            i <= list@.len(),
        ensures
            final(self).schema == old(self).schema,
            final(self).term_dict_fields_to_warm_up.wf(),
            r is Ok <==> term_set_err_from(list@, i as int, old(self).schema@) is None,
            r is Ok ==> final(self).term_dict_fields_to_warm_up@ == old(
                self,
            ).term_dict_fields_to_warm_up@ + term_set_fields_from(
                list@,
                i as int,
                old(self).schema@,
            ),
            r matches Err(e) ==> term_set_err_from(list@, i as int, old(self).schema@)
                matches Some(n) && e@ == (QueryParserErrorV::FieldDoesNotExist { full_path: n }),
        decreases list@, list@.len() - i,
    {
        let ghost pre = self.term_dict_fields_to_warm_up@;
        if i == list.len() {
            proof {
                assert(pre =~= pre + term_set_fields_from(list@, i as int, self.schema@));
            }
            return Ok(());
        }
        let r1 = self.visit(&list[i]);
        if r1.is_err() {
            return r1;
        }
        let r2 = self.visit_list(list, i + 1);
        proof {
            if r2 is Ok {
                assert(self.term_dict_fields_to_warm_up@ =~= pre + term_set_fields_from(
                    list@,
                    i as int,
                    self.schema@,
                ));
            }
        }
        r2
    }
}

/// Walks the query and resolves every field a term-set leaf names,
/// returning the set of their identifiers, or the first resolution
/// failure.
pub fn extract_term_set_query_fields(query_ast: &QueryAst, schema: &Schema) -> (r: Result<
    FieldIdSet,
    QueryParserError,
>)
    requires
        schema.wf(),
    ensures
        r is Ok <==> term_set_err(*query_ast, schema@) is None,
        r matches Ok(fields) ==> fields@ == term_set_fields(*query_ast, schema@) && fields.wf(),
        r matches Err(e) ==> term_set_err(*query_ast, schema@) matches Some(n) && e@ == (
        QueryParserErrorV::FieldDoesNotExist { full_path: n }),
{
    let mut visitor = ExtractTermSetFields::new(schema);
    match visitor.visit(query_ast) {
        Ok(()) => {
            proof {
                assert(visitor.term_dict_fields_to_warm_up@ =~= term_set_fields(
                    *query_ast,
                    schema@,
                ));
            }
            Ok(visitor.term_dict_fields_to_warm_up)
        },
        Err(e) => Err(e),
    }
}

} // verus!
