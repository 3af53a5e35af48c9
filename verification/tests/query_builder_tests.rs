use query_warmup::ast::{
    BooleanOperand, FullTextMode, FullTextParams, FullTextQuery, MatchAllOrNone,
    PhrasePrefixQuery, QueryAst, RangeQuery, TermSetQuery, ValueBound, WildcardQuery,
};
use query_warmup::compile::CompiledQuery;
use query_warmup::containers::TermRangeWarmup;
use query_warmup::error::QueryParserError;
use query_warmup::ranges::ExtractPrefixTermRanges;
use query_warmup::schema::{
    dynamic_field_name_str, source_field_name_str, FieldCaps, FieldType, Schema, SchemaBuilder,
};
use query_warmup::term::{i64_term, ip_term, text_term, u64_term, TermBound, TermRange};
use query_warmup::tokenize::create_default_tokenizer_manager;
use query_warmup::warmup::build_query;

fn caps(indexed: bool, stored: bool, fast: bool) -> FieldCaps {
    FieldCaps { indexed, stored, fast }
}

fn make_schema(dynamic_mode: bool) -> Schema {
    let mut builder = SchemaBuilder::new();
    builder.add_field("title", FieldType::Text, caps(true, false, false));
    builder.add_field("desc", FieldType::Text, caps(true, true, false));
    builder.add_field("server.name", FieldType::Text, caps(true, true, false));
    builder.add_field("server.mem", FieldType::Text, caps(true, false, false));
    builder.add_field("server.running", FieldType::Bool, caps(true, true, true));
    builder.add_field(source_field_name_str(), FieldType::Text, caps(true, false, false));
    builder.add_field("ip", FieldType::IpAddr, caps(false, true, true));
    builder.add_field("ips", FieldType::IpAddr, caps(false, false, true));
    builder.add_field("ip_notff", FieldType::IpAddr, caps(false, true, false));
    builder.add_field("dt", FieldType::Date, caps(false, false, true));
    builder.add_field("u64_fast", FieldType::U64, caps(false, true, true));
    builder.add_field("i64_fast", FieldType::I64, caps(false, true, true));
    builder.add_field("f64_fast", FieldType::F64, caps(false, true, true));
    if dynamic_mode {
        builder.add_field(dynamic_field_name_str(), FieldType::Json, caps(true, false, false));
    }
    builder.build()
}

fn default_params() -> FullTextParams {
    FullTextParams {
        tokenizer: None,
        mode: FullTextMode::Bool { operator: BooleanOperand::And },
        zero_terms_query: MatchAllOrNone::MatchAll,
    }
}

#[test]
fn test_build_query_warmup_info() {
    let query_with_set = QueryAst::TermSet(TermSetQuery {
        terms_per_field: vec![("desc".to_string(), vec!["hello".to_string()])],
    });
    let query_without_set = QueryAst::FullText(FullTextQuery {
        field: "desc".to_string(),
        text: "hello".to_string(),
        params: default_params(),
    });

    let (_, warmup_info) = build_query(
        &query_with_set,
        make_schema(true),
        &create_default_tokenizer_manager(),
        &[],
        true,
    )
    .unwrap();
    assert_eq!(warmup_info.term_dict_fields.len(), 1);
    assert!(warmup_info.term_dict_fields.contains(1));

    let (_, warmup_info) = build_query(
        &query_without_set,
        make_schema(true),
        &create_default_tokenizer_manager(),
        &[],
        true,
    )
    .unwrap();
    assert!(warmup_info.term_dict_fields.is_empty());
}

#[test]
fn test_extract_phrase_prefix_position_required() {
    let schema = make_schema(false);
    let tokenizer_manager = create_default_tokenizer_manager();

    let params = FullTextParams {
        tokenizer: None,
        mode: FullTextMode::Phrase { slop: 0 },
        zero_terms_query: MatchAllOrNone::MatchNone,
    };
    let short = PhrasePrefixQuery {
        field: "title".to_string(),
        phrase: "short".to_string(),
        max_expansions: 50,
        params: params.clone(),
        lenient: false,
    };
    let long = PhrasePrefixQuery {
        field: "title".to_string(),
        phrase: "not so short".to_string(),
        max_expansions: 50,
        params: params.clone(),
        lenient: false,
    };
    let mut extractor1 = ExtractPrefixTermRanges::with_schema(&schema, &tokenizer_manager);
    extractor1.visit_phrase_prefix(&short).unwrap();
    extractor1.visit_phrase_prefix(&long).unwrap();

    let mut extractor2 = ExtractPrefixTermRanges::with_schema(&schema, &tokenizer_manager);
    extractor2.visit_phrase_prefix(&long).unwrap();
    extractor2.visit_phrase_prefix(&short).unwrap();

    assert_eq!(extractor1.term_ranges_to_warm_up, extractor2.term_ranges_to_warm_up);

    let field = 0u32;
    let mut expected = TermRangeWarmup::new();
    expected.or_insert(
        field,
        TermRange {
            start: TermBound::Included(text_term(field, "short")),
            end: TermBound::Excluded(text_term(field, "shoru")),
            limit: Some(50),
        },
        true,
    );
    assert_eq!(extractor1.term_ranges_to_warm_up, expected);
}

#[test]
fn test_wildcard_query() {
    let tokenizer_manager = create_default_tokenizer_manager();

    let ok_query = QueryAst::Wildcard(WildcardQuery {
        field: "title".to_string(),
        pattern: "hello*".to_string(),
    });
    let (query, _) =
        build_query(&ok_query, make_schema(false), &tokenizer_manager, &[], true).unwrap();
    assert!(matches!(query, CompiledQuery::PhrasePrefix { .. }));

    let missing_field = QueryAst::Wildcard(WildcardQuery {
        field: "foo".to_string(),
        pattern: "bar*".to_string(),
    });
    let err = build_query(&missing_field, make_schema(false), &tokenizer_manager, &[], true)
        .unwrap_err();
    assert_eq!(err, QueryParserError::FieldDoesNotExist { full_path: "foo".to_string() });

    let inner_star = QueryAst::Wildcard(WildcardQuery {
        field: "title".to_string(),
        pattern: "hello*yo".to_string(),
    });
    let err = build_query(&inner_star, make_schema(false), &tokenizer_manager, &[], true)
        .unwrap_err();
    assert_eq!(err, QueryParserError::WildcardInNonFinalPosition);
}

#[test]
fn test_range_query_no_fast_field() {
    let query = QueryAst::Range(RangeQuery {
        field: "ip_notff".to_string(),
        lower_bound: ValueBound::Included("127.0.0.1".to_string()),
        upper_bound: ValueBound::Included("127.1.1.1".to_string()),
    });
    let err = build_query(
        &query,
        make_schema(false),
        &create_default_tokenizer_manager(),
        &[],
        true,
    )
    .unwrap_err();
    assert_eq!(err, QueryParserError::RangeOnNonFastField { field: "ip_notff".to_string() });
}

#[test]
fn test_build_query_not_bool_should_fail() {
    let tokenizer_manager = create_default_tokenizer_manager();

    let bad = QueryAst::FullText(FullTextQuery {
        field: "server.running".to_string(),
        text: "notabool".to_string(),
        params: default_params(),
    });
    let err = build_query(&bad, make_schema(false), &tokenizer_manager, &[], true).unwrap_err();
    assert_eq!(err, QueryParserError::ExpectedBoolValue { field: "server.running".to_string() });

    let good = QueryAst::FullText(FullTextQuery {
        field: "server.running".to_string(),
        text: "true".to_string(),
        params: default_params(),
    });
    let (query, _) = build_query(&good, make_schema(false), &tokenizer_manager, &[], true).unwrap();
    assert!(matches!(query, CompiledQuery::Term(_)));
}

#[test]
fn build_query_resolves_static_and_dynamic_fields() {
    let tokenizer_manager = create_default_tokenizer_manager();

    let all = QueryAst::MatchAll;
    let (query, _) = build_query(&all, make_schema(true), &tokenizer_manager, &[], true).unwrap();
    assert!(matches!(query, CompiledQuery::All));

    let static_term = QueryAst::FullText(FullTextQuery {
        field: "title".to_string(),
        text: "bar".to_string(),
        params: default_params(),
    });
    let (query, _) =
        build_query(&static_term, make_schema(true), &tokenizer_manager, &[], true).unwrap();
    match query {
        CompiledQuery::Term(term) => assert_eq!(term, query_warmup::term::text_term(0, "bar")),
        other => panic!("expected a term query, got {:?}", other),
    }

    let dynamic_term = QueryAst::Term(query_warmup::ast::TermQuery {
        field: "foo".to_string(),
        value: "bar".to_string(),
    });
    let (query, _) =
        build_query(&dynamic_term, make_schema(true), &tokenizer_manager, &[], true).unwrap();
    match query {
        CompiledQuery::Term(term) => {
            assert_eq!(term, query_warmup::term::json_term(13, "foo", "bar"))
        },
        other => panic!("expected a term query, got {:?}", other),
    }

    let range_on_text = QueryAst::Range(RangeQuery {
        field: "title".to_string(),
        lower_bound: ValueBound::Included("a".to_string()),
        upper_bound: ValueBound::Included("b".to_string()),
    });
    let err = build_query(&range_on_text, make_schema(true), &tokenizer_manager, &[], true)
        .unwrap_err();
    assert_eq!(err, QueryParserError::RangeOnNonFastField { field: "title".to_string() });
}

#[test]
fn test_u64_range_query() {
    let tokenizer_manager = create_default_tokenizer_manager();

    let bounded = QueryAst::Range(RangeQuery {
        field: "u64_fast".to_string(),
        lower_bound: ValueBound::Included("7".to_string()),
        upper_bound: ValueBound::Included("77".to_string()),
    });
    let (query, _) =
        build_query(&bounded, make_schema(false), &tokenizer_manager, &[], true).unwrap();
    match query {
        CompiledQuery::Range { field, lower, upper } => {
            assert_eq!(field, 10);
            assert_eq!(lower, TermBound::Included(u64_term(10, 7)));
            assert_eq!(upper, TermBound::Included(u64_term(10, 77)));
        },
        other => panic!("expected a range query, got {:?}", other),
    }

    let above = QueryAst::Range(RangeQuery {
        field: "u64_fast".to_string(),
        lower_bound: ValueBound::Excluded("7".to_string()),
        upper_bound: ValueBound::Unbounded,
    });
    let (query, _) =
        build_query(&above, make_schema(false), &tokenizer_manager, &[], true).unwrap();
    match query {
        CompiledQuery::Range { field, lower, upper } => {
            assert_eq!(field, 10);
            assert_eq!(lower, TermBound::Excluded(u64_term(10, 7)));
            assert_eq!(upper, TermBound::Unbounded);
        },
        other => panic!("expected a range query, got {:?}", other),
    }
}

#[test]
fn test_i64_range_query() {
    let tokenizer_manager = create_default_tokenizer_manager();

    let bounded = QueryAst::Range(RangeQuery {
        field: "i64_fast".to_string(),
        lower_bound: ValueBound::Included("-7".to_string()),
        upper_bound: ValueBound::Included("77".to_string()),
    });
    let (query, _) =
        build_query(&bounded, make_schema(false), &tokenizer_manager, &[], true).unwrap();
    match query {
        CompiledQuery::Range { field, lower, upper } => {
            assert_eq!(field, 11);
            assert_eq!(lower, TermBound::Included(i64_term(11, -7)));
            assert_eq!(upper, TermBound::Included(i64_term(11, 77)));
        },
        other => panic!("expected a range query, got {:?}", other),
    }

    let above = QueryAst::Range(RangeQuery {
        field: "i64_fast".to_string(),
        lower_bound: ValueBound::Excluded("7".to_string()),
        upper_bound: ValueBound::Unbounded,
    });
    let (query, _) =
        build_query(&above, make_schema(false), &tokenizer_manager, &[], true).unwrap();
    match query {
        CompiledQuery::Range { field, lower, .. } => {
            assert_eq!(field, 11);
            assert_eq!(lower, TermBound::Excluded(i64_term(11, 7)));
        },
        other => panic!("expected a range query, got {:?}", other),
    }
}

#[test]
fn test_ip_range_query() {
    let tokenizer_manager = create_default_tokenizer_manager();

    let bounded = QueryAst::Range(RangeQuery {
        field: "ip".to_string(),
        lower_bound: ValueBound::Included("127.0.0.1".to_string()),
        upper_bound: ValueBound::Included("127.1.1.1".to_string()),
    });
    let (query, _) =
        build_query(&bounded, make_schema(false), &tokenizer_manager, &[], true).unwrap();
    match query {
        CompiledQuery::Range { field, lower, upper } => {
            assert_eq!(field, 6);
            assert_eq!(lower, TermBound::Included(ip_term(6, &vec![127, 0, 0, 1])));
            assert_eq!(upper, TermBound::Included(ip_term(6, &vec![127, 1, 1, 1])));
        },
        other => panic!("expected a range query, got {:?}", other),
    }

    let above = QueryAst::Range(RangeQuery {
        field: "ip".to_string(),
        lower_bound: ValueBound::Excluded("127.0.0.1".to_string()),
        upper_bound: ValueBound::Unbounded,
    });
    let (query, _) =
        build_query(&above, make_schema(false), &tokenizer_manager, &[], true).unwrap();
    match query {
        CompiledQuery::Range { field, lower, upper } => {
            assert_eq!(field, 6);
            assert_eq!(lower, TermBound::Excluded(ip_term(6, &vec![127, 0, 0, 1])));
            assert_eq!(upper, TermBound::Unbounded);
        },
        other => panic!("expected a range query, got {:?}", other),
    }
}

#[test]
fn test_range_query_ip_fields_multivalued() {
    let query = QueryAst::Range(RangeQuery {
        field: "ips".to_string(),
        lower_bound: ValueBound::Included("127.0.0.1".to_string()),
        upper_bound: ValueBound::Included("127.1.1.1".to_string()),
    });
    let (query, _) = build_query(
        &query,
        make_schema(false),
        &create_default_tokenizer_manager(),
        &[],
        true,
    )
    .unwrap();
    match query {
        CompiledQuery::Range { field, lower, upper } => {
            assert_eq!(field, 7);
            assert_eq!(lower, TermBound::Included(ip_term(7, &vec![127, 0, 0, 1])));
            assert_eq!(upper, TermBound::Included(ip_term(7, &vec![127, 1, 1, 1])));
        },
        other => panic!("expected a range query, got {:?}", other),
    }
}

#[test]
fn malformed_ip_values_are_rejected_with_the_field() {
    let tokenizer_manager = create_default_tokenizer_manager();
    for bad in ["127.0.0", "127.0.0.256", "127.0.0.01", "127.0.0.1.2", "localhost", ""] {
        let query = QueryAst::Range(RangeQuery {
            field: "ip".to_string(),
            lower_bound: ValueBound::Included(bad.to_string()),
            upper_bound: ValueBound::Unbounded,
        });
        let err = build_query(&query, make_schema(false), &tokenizer_manager, &[], true)
            .unwrap_err();
        assert_eq!(err, QueryParserError::ExpectedIpAddrValue { field: "ip".to_string() });
    }
}

#[test]
fn test_datetime_range_query() {
    let tokenizer_manager = create_default_tokenizer_manager();

    let bounded = QueryAst::Range(RangeQuery {
        field: "dt".to_string(),
        lower_bound: ValueBound::Included("2023-01-10T08:38:51.150Z".to_string()),
        upper_bound: ValueBound::Included("2023-01-10T08:38:51.160Z".to_string()),
    });
    let (query, _) =
        build_query(&bounded, make_schema(false), &tokenizer_manager, &[], true).unwrap();
    match query {
        CompiledQuery::Range { field, lower, upper } => {
            assert_eq!(field, 9);
            match (lower, upper) {
                (TermBound::Included(lo), TermBound::Included(hi)) => {
                    assert!(lo.bytes < hi.bytes, "bounds must keep the time order");
                },
                other => panic!("expected two included bounds, got {:?}", other),
            }
        },
        other => panic!("expected a range query, got {:?}", other),
    }

    let below = QueryAst::Range(RangeQuery {
        field: "dt".to_string(),
        lower_bound: ValueBound::Unbounded,
        upper_bound: ValueBound::Excluded("2023-01-10T08:38:51.160Z".to_string()),
    });
    let (query, _) =
        build_query(&below, make_schema(false), &tokenizer_manager, &[], true).unwrap();
    match query {
        CompiledQuery::Range { field, lower, upper } => {
            assert_eq!(field, 9);
            assert!(matches!(lower, TermBound::Unbounded));
            assert!(matches!(upper, TermBound::Excluded(_)));
        },
        other => panic!("expected a range query, got {:?}", other),
    }

    // Microseconds below the millisecond are truncated away: these two
    // instants produce one and the same encoded bound.
    let micro = |instant: &str| {
        let query = QueryAst::Range(RangeQuery {
            field: "dt".to_string(),
            lower_bound: ValueBound::Included(instant.to_string()),
            upper_bound: ValueBound::Unbounded,
        });
        let (query, _) =
            build_query(&query, make_schema(false), &tokenizer_manager, &[], true).unwrap();
        match query {
            CompiledQuery::Range { lower: TermBound::Included(lo), .. } => lo,
            other => panic!("expected a range query, got {:?}", other),
        }
    };
    assert_eq!(micro("2023-01-10T08:38:51.000150Z"), micro("2023-01-10T08:38:51.000151Z"));
}

#[test]
fn malformed_date_values_are_rejected_with_the_field() {
    let query = QueryAst::Range(RangeQuery {
        field: "dt".to_string(),
        lower_bound: ValueBound::Included("notadate".to_string()),
        upper_bound: ValueBound::Unbounded,
    });
    let err = build_query(
        &query,
        make_schema(false),
        &create_default_tokenizer_manager(),
        &[],
        true,
    )
    .unwrap_err();
    assert_eq!(err, QueryParserError::ExpectedDateValue { field: "dt".to_string() });
}
