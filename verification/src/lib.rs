//! Query compilation and warm-up planning for a distributed full-text
//! search engine.
//!
//! Given an abstract query tree and a schema, [`warmup::build_query`]
//! produces an executable query together with a warm-up plan: the exact
//! set of index artifacts — term-dictionary entries, posting lists and
//! their positions, term ranges, columnar fields — that must be fetched
//! into memory before the query can run without unplanned random I/O.
//!
//! The pieces: [`ast`] holds the query tree, [`schema`] the field catalog
//! and name resolution with its dynamic JSON fallback, [`term`] the
//! byte-encoded terms and ranges, [`prefix`] the prefix-to-range
//! expansion and its ordering proofs, [`collect`] and [`ranges`] the
//! traversals that gather fast-field names, term-set fields and prefix
//! term ranges, [`compile`] the schema-aware compiler, and [`warmup`]
//! the assembler that merges everything into one plan.

pub mod ast;
pub mod collect;
pub mod compile;
pub mod containers;
pub mod datetime;
pub mod error;
pub mod numeric;
pub mod prefix;
pub mod ranges;
pub mod schema;
pub mod term;
pub mod tokenize;
pub mod warmup;
