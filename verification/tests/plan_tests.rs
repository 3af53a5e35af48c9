use query_warmup::ast::{
    BooleanOperand, FullTextMode, FullTextParams, FullTextQuery, MatchAllOrNone,
    PhrasePrefixQuery, QueryAst, RangeQuery, TermQuery, TermSetQuery, ValueBound, WildcardQuery,
};
use query_warmup::compile::{compile_range, CompiledQuery};
use query_warmup::containers::TermRangeWarmup;
use query_warmup::error::QueryParserError;
use query_warmup::prefix::prefix_term_to_range;
use query_warmup::ranges::ExtractPrefixTermRanges;
use query_warmup::schema::{FieldCaps, FieldType, Schema, SchemaBuilder};
use query_warmup::term::{i64_term, json_term, text_term, u64_term, Term, TermBound, TermRange};
use query_warmup::tokenize::create_default_tokenizer_manager;
use query_warmup::warmup::build_query;

fn caps(indexed: bool, stored: bool, fast: bool) -> FieldCaps {
    FieldCaps { indexed, stored, fast }
}

/// A small schema: `title` is text, `tag` is text and fast, `count` is
/// an integer, `when` is a date, `_dynamic` is the JSON fallback, and
/// `ratio` is a floating-point field.
fn tag_schema() -> Schema {
    let mut builder = SchemaBuilder::new();
    builder.add_field("title", FieldType::Text, caps(true, false, false));
    builder.add_field("tag", FieldType::Text, caps(true, false, true));
    builder.add_field("count", FieldType::U64, caps(true, true, true));
    builder.add_field("when", FieldType::Date, caps(true, true, true));
    builder.add_field("_dynamic", FieldType::Json, caps(true, false, false));
    builder.add_field("ratio", FieldType::F64, caps(true, true, true));
    builder.build()
}

fn default_params() -> FullTextParams {
    FullTextParams {
        tokenizer: None,
        mode: FullTextMode::Bool { operator: BooleanOperand::And },
        zero_terms_query: MatchAllOrNone::MatchAll,
    }
}

#[test]
fn prefix_range_increments_last_byte() {
    let term = text_term(0, "hello");
    let (start, end) = prefix_term_to_range(term);
    assert_eq!(start, TermBound::Included(text_term(0, "hello")));
    assert_eq!(end, TermBound::Excluded(text_term(0, "hellp")));
}

#[test]
fn prefix_range_skips_trailing_max_bytes() {
    let term = Term { field: 3, bytes: vec![0x61, 0xff, 0xff] };
    let (start, end) = prefix_term_to_range(term);
    assert_eq!(start, TermBound::Included(Term { field: 3, bytes: vec![0x61, 0xff, 0xff] }));
    assert_eq!(end, TermBound::Excluded(Term { field: 3, bytes: vec![0x62] }));
}

#[test]
fn prefix_range_all_max_bytes_is_unbounded() {
    let term = Term { field: 1, bytes: vec![0xff, 0xff] };
    let (start, end) = prefix_term_to_range(term);
    assert_eq!(start, TermBound::Included(Term { field: 1, bytes: vec![0xff, 0xff] }));
    assert_eq!(end, TermBound::Unbounded);
}

#[test]
fn prefix_range_empty_bytes_is_unbounded() {
    let term = Term { field: 1, bytes: vec![] };
    let (_, end) = prefix_term_to_range(term);
    assert_eq!(end, TermBound::Unbounded);
}

#[test]
fn merge_is_order_independent_across_fields() {
    let r1 = TermRange {
        start: TermBound::Included(text_term(0, "a")),
        end: TermBound::Excluded(text_term(0, "b")),
        limit: Some(10),
    };
    let r2 = TermRange {
        start: TermBound::Included(text_term(1, "c")),
        end: TermBound::Unbounded,
        limit: None,
    };
    let mut one = TermRangeWarmup::new();
    one.or_insert(0, r1.clone(), false);
    one.or_insert(1, r2.clone(), true);
    let mut two = TermRangeWarmup::new();
    two.or_insert(1, r2.clone(), true);
    two.or_insert(0, r1.clone(), false);
    assert_eq!(one.len(), 2);
    assert_eq!(two.len(), 2);
    assert_eq!(one.lookup(0, &r1), two.lookup(0, &r1));
    assert_eq!(one.lookup(1, &r2), two.lookup(1, &r2));
    assert_eq!(one.lookup(0, &r1), Some(false));
    assert_eq!(one.lookup(1, &r2), Some(true));
}

#[test]
fn merge_ors_flags_for_equal_ranges() {
    let r = TermRange {
        start: TermBound::Included(text_term(0, "a")),
        end: TermBound::Excluded(text_term(0, "b")),
        limit: Some(10),
    };
    let mut m = TermRangeWarmup::new();
    m.or_insert(0, r.clone(), false);
    m.or_insert(0, r.clone(), true);
    assert_eq!(m.len(), 1);
    assert_eq!(m.lookup(0, &r), Some(true));
}

#[test]
fn term_set_with_unknown_field_fails_among_valid_clauses() {
    let query = QueryAst::Bool {
        must: vec![
            QueryAst::FullText(FullTextQuery {
                field: "title".to_string(),
                text: "hello".to_string(),
                params: default_params(),
            }),
            QueryAst::TermSet(TermSetQuery {
                terms_per_field: vec![("doesnotexist".to_string(), vec!["x".to_string()])],
            }),
        ],
        must_not: vec![],
        should: vec![],
        filter: vec![],
    };
    let schema_no_dynamic = {
        let mut builder = SchemaBuilder::new();
        builder.add_field("title", FieldType::Text, caps(true, false, false));
        builder.build()
    };
    let tokenizer_manager = create_default_tokenizer_manager();
    let err =
        build_query(&query, schema_no_dynamic, &tokenizer_manager, &[], true).unwrap_err();
    assert_eq!(err, QueryParserError::FieldDoesNotExist { full_path: "doesnotexist".to_string() });
}

#[test]
fn range_on_fast_field_compiles() {
    let query = RangeQuery {
        field: "tag".to_string(),
        lower_bound: ValueBound::Included("a".to_string()),
        upper_bound: ValueBound::Excluded("b".to_string()),
    };
    let compiled = compile_range(&query, &tag_schema(), true).unwrap();
    match compiled {
        CompiledQuery::Range { field, lower, upper } => {
            assert_eq!(field, 1);
            assert_eq!(lower, TermBound::Included(text_term(1, "a")));
            assert_eq!(upper, TermBound::Excluded(text_term(1, "b")));
        },
        other => panic!("expected a range query, got {:?}", other),
    }
}

#[test]
fn range_on_non_fast_field_names_the_field() {
    let query = RangeQuery {
        field: "title".to_string(),
        lower_bound: ValueBound::Included("a".to_string()),
        upper_bound: ValueBound::Included("b".to_string()),
    };
    let err = compile_range(&query, &tag_schema(), true).unwrap_err();
    assert_eq!(err, QueryParserError::RangeOnNonFastField { field: "title".to_string() });
}

#[test]
fn wildcard_plan_has_one_uncapped_range() {
    let query = QueryAst::Wildcard(WildcardQuery {
        field: "title".to_string(),
        pattern: "hello*".to_string(),
    });
    let tokenizer_manager = create_default_tokenizer_manager();
    let (compiled, info) =
        build_query(&query, tag_schema(), &tokenizer_manager, &[], true).unwrap();
    assert!(matches!(compiled, CompiledQuery::PhrasePrefix { .. }));
    assert_eq!(info.term_ranges_grouped_by_field.len(), 1);
    let expected = TermRange {
        start: TermBound::Included(text_term(0, "hello")),
        end: TermBound::Excluded(text_term(0, "hellp")),
        limit: Some(u32::MAX as u64),
    };
    assert_eq!(info.term_ranges_grouped_by_field.lookup(0, &expected), Some(false));
}

#[test]
fn wildcard_prefix_is_normalized() {
    let query = QueryAst::Wildcard(WildcardQuery {
        field: "title".to_string(),
        pattern: "HeLLo*".to_string(),
    });
    let tokenizer_manager = create_default_tokenizer_manager();
    let (_, info) = build_query(&query, tag_schema(), &tokenizer_manager, &[], true).unwrap();
    let expected = TermRange {
        start: TermBound::Included(text_term(0, "hello")),
        end: TermBound::Excluded(text_term(0, "hellp")),
        limit: Some(u32::MAX as u64),
    };
    assert_eq!(info.term_ranges_grouped_by_field.lookup(0, &expected), Some(false));
}

#[test]
fn phrase_tokens_are_split_and_lowercased() {
    let schema = tag_schema();
    let tokenizer_manager = create_default_tokenizer_manager();
    let phrase = PhrasePrefixQuery {
        field: "title".to_string(),
        phrase: "Not So SHORT".to_string(),
        max_expansions: 50,
        params: FullTextParams {
            tokenizer: None,
            mode: FullTextMode::Phrase { slop: 0 },
            zero_terms_query: MatchAllOrNone::MatchNone,
        },
        lenient: false,
    };
    let mut extractor = ExtractPrefixTermRanges::with_schema(&schema, &tokenizer_manager);
    extractor.visit_phrase_prefix(&phrase).unwrap();
    let expected = TermRange {
        start: TermBound::Included(text_term(0, "short")),
        end: TermBound::Excluded(text_term(0, "shoru")),
        limit: Some(50),
    };
    assert_eq!(extractor.term_ranges_to_warm_up.lookup(0, &expected), Some(true));
    assert_eq!(extractor.term_ranges_to_warm_up.len(), 1);
}

#[test]
fn empty_phrase_adds_no_range() {
    let schema = tag_schema();
    let tokenizer_manager = create_default_tokenizer_manager();
    let phrase = PhrasePrefixQuery {
        field: "title".to_string(),
        phrase: "".to_string(),
        max_expansions: 50,
        params: FullTextParams {
            tokenizer: None,
            mode: FullTextMode::Phrase { slop: 0 },
            zero_terms_query: MatchAllOrNone::MatchNone,
        },
        lenient: false,
    };
    let mut extractor = ExtractPrefixTermRanges::with_schema(&schema, &tokenizer_manager);
    extractor.visit_phrase_prefix(&phrase).unwrap();
    assert_eq!(extractor.term_ranges_to_warm_up.len(), 0);
}

#[test]
fn phrase_prefix_on_unknown_or_numeric_field_is_skipped() {
    let schema_no_dynamic = {
        let mut builder = SchemaBuilder::new();
        builder.add_field("title", FieldType::Text, caps(true, false, false));
        builder.add_field("count", FieldType::U64, caps(true, true, true));
        builder.build()
    };
    let tokenizer_manager = create_default_tokenizer_manager();
    for field in ["missing", "count"] {
        let phrase = PhrasePrefixQuery {
            field: field.to_string(),
            phrase: "abc".to_string(),
            max_expansions: 10,
            params: FullTextParams {
                tokenizer: None,
                mode: FullTextMode::Phrase { slop: 0 },
                zero_terms_query: MatchAllOrNone::MatchNone,
            },
            lenient: false,
        };
        let mut extractor =
            ExtractPrefixTermRanges::with_schema(&schema_no_dynamic, &tokenizer_manager);
        extractor.visit_phrase_prefix(&phrase).unwrap();
        assert_eq!(extractor.term_ranges_to_warm_up.len(), 0);
    }
}

#[test]
fn term_on_integer_field_encodes_the_value() {
    let query = QueryAst::Term(TermQuery {
        field: "count".to_string(),
        value: "7".to_string(),
    });
    let tokenizer_manager = create_default_tokenizer_manager();
    let (compiled, _) = build_query(&query, tag_schema(), &tokenizer_manager, &[], true).unwrap();
    match compiled {
        CompiledQuery::Term(term) => assert_eq!(term, u64_term(2, 7)),
        other => panic!("expected a term query, got {:?}", other),
    }
}

#[test]
fn bad_integer_values_are_rejected_with_the_field() {
    let tokenizer_manager = create_default_tokenizer_manager();
    let bad_u64 = QueryAst::Term(TermQuery {
        field: "count".to_string(),
        value: "notanumber".to_string(),
    });
    let err = build_query(&bad_u64, tag_schema(), &tokenizer_manager, &[], true).unwrap_err();
    assert_eq!(err, QueryParserError::ExpectedU64Value { field: "count".to_string() });

    let mut builder = SchemaBuilder::new();
    builder.add_field("delta", FieldType::I64, caps(true, true, true));
    let schema = builder.build();
    let bad_i64 = QueryAst::Term(TermQuery {
        field: "delta".to_string(),
        value: "--1".to_string(),
    });
    let err = build_query(&bad_i64, schema, &tokenizer_manager, &[], true).unwrap_err();
    assert_eq!(err, QueryParserError::ExpectedI64Value { field: "delta".to_string() });
}

#[test]
fn bare_date_without_time_is_rejected_with_the_field() {
    let query = QueryAst::Term(TermQuery {
        field: "when".to_string(),
        value: "2023-01-10".to_string(),
    });
    let tokenizer_manager = create_default_tokenizer_manager();
    let err = build_query(&query, tag_schema(), &tokenizer_manager, &[], true).unwrap_err();
    assert_eq!(err, QueryParserError::ExpectedDateValue { field: "when".to_string() });
}

#[test]
fn term_on_float_field_is_unsupported() {
    let query = QueryAst::Term(TermQuery {
        field: "ratio".to_string(),
        value: "7.7".to_string(),
    });
    let tokenizer_manager = create_default_tokenizer_manager();
    let err = build_query(&query, tag_schema(), &tokenizer_manager, &[], true).unwrap_err();
    assert_eq!(err, QueryParserError::UnsupportedFieldType { field: "ratio".to_string() });
}

#[test]
fn term_set_terms_are_enumerated_without_positions() {
    let query = QueryAst::TermSet(TermSetQuery {
        terms_per_field: vec![("title".to_string(), vec!["hello".to_string()])],
    });
    let tokenizer_manager = create_default_tokenizer_manager();
    let (_, info) = build_query(&query, tag_schema(), &tokenizer_manager, &[], true).unwrap();
    assert_eq!(info.terms_grouped_by_field.lookup(&text_term(0, "hello")), Some(false));
    assert_eq!(info.terms_grouped_by_field.len(), 1);
    assert!(info.term_dict_fields.contains(0));
}

#[test]
fn question_mark_is_a_wildcard_character() {
    let query = QueryAst::Wildcard(WildcardQuery {
        field: "title".to_string(),
        pattern: "he?lo*".to_string(),
    });
    let tokenizer_manager = create_default_tokenizer_manager();
    let err = build_query(&query, tag_schema(), &tokenizer_manager, &[], true).unwrap_err();
    assert_eq!(err, QueryParserError::WildcardInNonFinalPosition);
}

#[test]
fn wildcard_on_numeric_field_is_a_schema_mismatch() {
    let query = QueryAst::Wildcard(WildcardQuery {
        field: "count".to_string(),
        pattern: "7*".to_string(),
    });
    let tokenizer_manager = create_default_tokenizer_manager();
    let err = build_query(&query, tag_schema(), &tokenizer_manager, &[], true).unwrap_err();
    assert_eq!(err, QueryParserError::SchemaMismatch { field: "count".to_string() });
}

#[test]
fn unknown_field_resolves_through_dynamic_fallback() {
    let query = QueryAst::Term(TermQuery {
        field: "foo".to_string(),
        value: "bar".to_string(),
    });
    let tokenizer_manager = create_default_tokenizer_manager();
    let (compiled, _) = build_query(&query, tag_schema(), &tokenizer_manager, &[], true).unwrap();
    match compiled {
        CompiledQuery::Term(term) => {
            assert_eq!(term, json_term(4, "foo", "bar"));
        },
        other => panic!("expected a term query, got {:?}", other),
    }
}

#[test]
fn unknown_field_without_fallback_fails_or_nullifies() {
    let schema_no_dynamic = {
        let mut builder = SchemaBuilder::new();
        builder.add_field("title", FieldType::Text, caps(true, false, false));
        builder.build()
    };
    let query = QueryAst::Term(TermQuery {
        field: "foo".to_string(),
        value: "bar".to_string(),
    });
    let tokenizer_manager = create_default_tokenizer_manager();
    let err = build_query(&query, schema_no_dynamic.clone(), &tokenizer_manager, &[], true)
        .unwrap_err();
    assert_eq!(err, QueryParserError::FieldDoesNotExist { full_path: "foo".to_string() });

    let (compiled, _) =
        build_query(&query, schema_no_dynamic, &tokenizer_manager, &[], false).unwrap();
    assert!(matches!(compiled, CompiledQuery::Empty));
}

#[test]
fn zero_token_text_follows_the_zero_terms_query() {
    let tokenizer_manager = create_default_tokenizer_manager();
    for (zero, want_all) in [(MatchAllOrNone::MatchAll, true), (MatchAllOrNone::MatchNone, false)] {
        let query = QueryAst::FullText(FullTextQuery {
            field: "title".to_string(),
            text: "!!!".to_string(),
            params: FullTextParams {
                tokenizer: None,
                mode: FullTextMode::Bool { operator: BooleanOperand::And },
                zero_terms_query: zero,
            },
        });
        let (compiled, _) =
            build_query(&query, tag_schema(), &tokenizer_manager, &[], true).unwrap();
        if want_all {
            assert!(matches!(compiled, CompiledQuery::All));
        } else {
            assert!(matches!(compiled, CompiledQuery::Empty));
        }
    }
}

#[test]
fn multi_token_text_compiles_to_term_conjunction() {
    let query = QueryAst::FullText(FullTextQuery {
        field: "title".to_string(),
        text: "hello world".to_string(),
        params: default_params(),
    });
    let tokenizer_manager = create_default_tokenizer_manager();
    let (compiled, info) =
        build_query(&query, tag_schema(), &tokenizer_manager, &[], true).unwrap();
    match compiled {
        CompiledQuery::Bool { must, must_not, should, filter } => {
            assert_eq!(must.len(), 2);
            assert!(must_not.is_empty() && should.is_empty() && filter.is_empty());
            assert!(matches!(&must[0], CompiledQuery::Term(t) if *t == text_term(0, "hello")));
            assert!(matches!(&must[1], CompiledQuery::Term(t) if *t == text_term(0, "world")));
        },
        other => panic!("expected a boolean query, got {:?}", other),
    }
    assert_eq!(info.terms_grouped_by_field.lookup(&text_term(0, "hello")), Some(false));
    assert_eq!(info.terms_grouped_by_field.lookup(&text_term(0, "world")), Some(false));
}

#[test]
fn range_and_presence_clauses_fill_fast_field_names() {
    let query = QueryAst::Bool {
        must: vec![
            QueryAst::Range(RangeQuery {
                field: "tag".to_string(),
                lower_bound: ValueBound::Included("a".to_string()),
                upper_bound: ValueBound::Unbounded,
            }),
            QueryAst::FieldPresence(query_warmup::ast::FieldPresenceQuery {
                field: "count".to_string(),
            }),
            QueryAst::FieldPresence(query_warmup::ast::FieldPresenceQuery {
                field: "title".to_string(),
            }),
        ],
        must_not: vec![],
        should: vec![],
        filter: vec![],
    };
    let tokenizer_manager = create_default_tokenizer_manager();
    let (_, info) = build_query(&query, tag_schema(), &tokenizer_manager, &[], true).unwrap();
    assert!(info.fast_field_names.contains_name(&"tag".to_string()));
    assert!(info.fast_field_names.contains_name(&"count".to_string()));
    assert!(!info.fast_field_names.contains_name(&"title".to_string()));
}

#[test]
fn term_set_field_contributes_one_entry_regardless_of_values() {
    let query = QueryAst::TermSet(TermSetQuery {
        terms_per_field: vec![(
            "title".to_string(),
            vec!["a".to_string(), "b".to_string(), "c".to_string()],
        )],
    });
    let tokenizer_manager = create_default_tokenizer_manager();
    let (_, info) = build_query(&query, tag_schema(), &tokenizer_manager, &[], true).unwrap();
    assert_eq!(info.term_dict_fields.len(), 1);
    assert!(info.term_dict_fields.contains(0));
}
