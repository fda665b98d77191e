use greptime_sql::log_query::{Error, StatusCode};

#[test]
fn status_codes() {
    assert_eq!(Error::Catalog { source_status: StatusCode::TableNotFound }.status_code(), StatusCode::TableNotFound);
    assert_eq!(Error::DataFusionPlanning { error: "x".to_string() }.status_code(), StatusCode::External);
    assert_eq!(Error::UnknownTable.status_code(), StatusCode::Internal);
    assert_eq!(Error::TimeIndexNotFound.status_code(), StatusCode::Internal);
    assert_eq!(Error::Unimplemented { feature: "f".to_string() }.status_code(), StatusCode::Unsupported);
    assert_eq!(Error::UnknownAggregateFunction { name: "a".to_string() }.status_code(), StatusCode::InvalidArguments);
    assert_eq!(Error::UnknownScalarFunction { name: "a".to_string() }.status_code(), StatusCode::InvalidArguments);
    assert_eq!(
        Error::UnexpectedLogExpr { expr: "e".to_string(), expected: "x".to_string() }.status_code(),
        StatusCode::InvalidArguments
    );
}

#[test]
fn messages() {
    assert_eq!(Error::Catalog { source_status: StatusCode::Internal }.message(), "General catalog error");
    assert_eq!(Error::UnknownTable.message(), "Unknown table type, downcast failed");
    assert_eq!(Error::Unimplemented { feature: "limit".to_string() }.message(), "Unimplemented feature: limit");
    assert_eq!(Error::UnknownAggregateFunction { name: "avg".to_string() }.message(), "Unknown aggregate function: avg");
    assert_eq!(
        Error::UnexpectedLogExpr { expr: "Column(\"x\")".to_string(), expected: "a literal".to_string() }.message(),
        "Unexpected log expression: Column(\"x\"), expected a literal"
    );
}
