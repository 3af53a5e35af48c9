use vstd::prelude::*;

verus! {

/// Why a query cannot be compiled or planned.
#[derive(Debug, Clone, PartialEq, Eq)]
pub enum QueryParserError {
    /// The named field is absent from the catalog and no dynamic fallback
    /// field applies.
    FieldDoesNotExist { full_path: String },
    /// A range clause targets a field that is not stored fast (columnar);
    /// range predicates are only executable against fast fields.
    RangeOnNonFastField { field: String },
    /// A value on a boolean field is neither `true` nor `false`.
    ExpectedBoolValue { field: String },
    /// A value on an unsigned integer field is not a decimal integer in
    /// range.
    ExpectedU64Value { field: String },
    /// A value on a signed integer field is not a decimal integer in
    /// range.
    ExpectedI64Value { field: String },
    /// A value on an IP address field is not an IPv4 literal in
    /// dotted-quad form.
    ExpectedIpAddrValue { field: String },
    /// A value on a date field is not an RFC 3339 date-time literal.
    ExpectedDateValue { field: String },
    /// The field's declared value type is one this compiler does not
    /// encode terms for.
    UnsupportedFieldType { field: String },
    /// A text-shaped clause targets a field that holds no text.
    SchemaMismatch { field: String },
    /// A wildcard pattern is not a literal prefix followed by a single
    /// final `*`: some wildcard character stands in a non-final position.
    WildcardInNonFinalPosition,
}

/// The mathematical value of a `QueryParserError`.
pub enum QueryParserErrorV {
    FieldDoesNotExist { full_path: Seq<char> },
    RangeOnNonFastField { field: Seq<char> },
    ExpectedBoolValue { field: Seq<char> },
    ExpectedU64Value { field: Seq<char> },
    ExpectedI64Value { field: Seq<char> },
    ExpectedIpAddrValue { field: Seq<char> },
    ExpectedDateValue { field: Seq<char> },
    UnsupportedFieldType { field: Seq<char> },
    SchemaMismatch { field: Seq<char> },
    WildcardInNonFinalPosition,
}

impl View for QueryParserError {
    type V = QueryParserErrorV;

    open spec fn view(&self) -> QueryParserErrorV {
        match self {
            QueryParserError::FieldDoesNotExist { full_path } => {
                QueryParserErrorV::FieldDoesNotExist { full_path: full_path@ }
            },
            QueryParserError::RangeOnNonFastField { field } => {
                QueryParserErrorV::RangeOnNonFastField { field: field@ }
            },
            QueryParserError::ExpectedBoolValue { field } => {
                QueryParserErrorV::ExpectedBoolValue { field: field@ }
            },
            QueryParserError::ExpectedU64Value { field } => {
                QueryParserErrorV::ExpectedU64Value { field: field@ }
            },
            QueryParserError::ExpectedI64Value { field } => {
                QueryParserErrorV::ExpectedI64Value { field: field@ }
            },
            QueryParserError::ExpectedIpAddrValue { field } => {
                QueryParserErrorV::ExpectedIpAddrValue { field: field@ }
            },
            QueryParserError::ExpectedDateValue { field } => {
                QueryParserErrorV::ExpectedDateValue { field: field@ }
            },
            QueryParserError::UnsupportedFieldType { field } => {
                QueryParserErrorV::UnsupportedFieldType { field: field@ }
            },
            QueryParserError::SchemaMismatch { field } => {
                QueryParserErrorV::SchemaMismatch { field: field@ }
            },
            QueryParserError::WildcardInNonFinalPosition => {
                QueryParserErrorV::WildcardInNonFinalPosition
            },
        }
    }
}

} // verus!
