use ftool::engine;
use ftool::query::{build_where_clause, is_safe_identifier, FilterCondition};

fn cond(column: &str, operator: &str, value: &str) -> FilterCondition {
    FilterCondition {
        column: column.to_owned(),
        operator: operator.to_owned(),
        value: value.to_owned(),
    }
}

#[test]
fn empty_filter_list_gives_empty_predicate() {
    let filters: Vec<FilterCondition> = Vec::new();
    assert_eq!(build_where_clause(&filters), "");
}

#[test]
fn single_comparison_predicate() {
    let filters = vec![cond("age", ">", "30")];
    assert_eq!(build_where_clause(&filters), "WHERE \"age\" > '30'");
}

#[test]
fn unary_operator_ignores_value() {
    let filters = vec![cond("name", "IS NULL", "junk")];
    assert_eq!(build_where_clause(&filters), "WHERE \"name\" IS NULL");
}

#[test]
fn is_not_null_fragment() {
    let filters = vec![cond("name", "IS NOT NULL", "")];
    assert_eq!(build_where_clause(&filters), "WHERE \"name\" IS NOT NULL");
}

#[test]
fn like_fragment_wraps_value_in_wildcards() {
    let filters = vec![cond("city", "LIKE", "york")];
    assert_eq!(build_where_clause(&filters), "WHERE \"city\"::text LIKE '%york%'");
}

#[test]
fn conditions_join_with_and_in_order() {
    let filters = vec![cond("a", "=", "1"), cond("b", "!=", "2")];
    assert_eq!(build_where_clause(&filters), "WHERE \"a\" = '1' AND \"b\" != '2'");
}

#[test]
fn single_quotes_in_values_are_doubled() {
    let filters = vec![cond("name", "=", "O'Brien")];
    assert_eq!(build_where_clause(&filters), "WHERE \"name\" = 'O''Brien'");
}

#[test]
fn double_quotes_in_columns_are_doubled() {
    let filters = vec![cond("we\"ird", "=", "x")];
    assert_eq!(build_where_clause(&filters), "WHERE \"we\"\"ird\" = 'x'");
}

#[test]
fn bare_identifier_check_accepts_alphanumerics() {
    assert!(is_safe_identifier("column_1"));
    assert!(is_safe_identifier("Total9"));
}

#[test]
fn bare_identifier_check_rejects_quotes_and_spaces() {
    assert!(!is_safe_identifier("a\"b"));
    assert!(!is_safe_identifier("a'b"));
    assert!(!is_safe_identifier("a b"));
    assert!(!is_safe_identifier("a-b"));
    assert!(!is_safe_identifier("a;drop"));
}

#[test]
fn schema_query_routes_by_extension() {
    assert_eq!(
        engine::schema_query("data.parquet").unwrap(),
        "DESCRIBE SELECT * FROM read_parquet('data.parquet')"
    );
    assert_eq!(
        engine::schema_query("data.csv").unwrap(),
        "DESCRIBE SELECT * FROM read_csv_auto('data.csv')"
    );
}

#[test]
fn schema_query_refuses_other_extensions() {
    let e = engine::schema_query("notes.txt").unwrap_err();
    assert_eq!(e.message(), "Invalid file format: Unsupported file format: txt");
}

#[test]
fn count_query_appends_predicate() {
    assert_eq!(
        engine::count_query("d.csv", "WHERE \"a\" = '1'"),
        "SELECT COUNT(*) FROM read_csv_auto('d.csv') WHERE \"a\" = '1'"
    );
    assert_eq!(engine::count_query("d.parquet", ""), "SELECT COUNT(*) FROM read_parquet('d.parquet') ");
}

#[test]
fn count_query_escapes_path_quotes() {
    assert_eq!(
        engine::count_query("it's.csv", ""),
        "SELECT COUNT(*) FROM read_csv_auto('it''s.csv') "
    );
}

#[test]
fn null_count_query_takes_safe_columns_only() {
    assert_eq!(
        engine::null_count_query("d.csv", "age").unwrap(),
        "SELECT COUNT(*) FROM read_csv_auto('d.csv') WHERE age IS NULL"
    );
    let e = engine::null_count_query("d.csv", "age; DROP").unwrap_err();
    assert_eq!(e.message(), "Invalid column name: Column name contains invalid characters: age; DROP");
}

#[test]
fn aggregate_queries_cast_to_text() {
    assert_eq!(
        engine::min_query("d.parquet", "age").unwrap(),
        "SELECT CAST(MIN(age) AS VARCHAR) FROM read_parquet('d.parquet')"
    );
    assert_eq!(
        engine::max_query("d.parquet", "age").unwrap(),
        "SELECT CAST(MAX(age) AS VARCHAR) FROM read_parquet('d.parquet')"
    );
    assert_eq!(
        engine::mean_query("d.parquet", "age").unwrap(),
        "SELECT CAST(ROUND(AVG(age), 2) AS VARCHAR) FROM read_parquet('d.parquet')"
    );
}

#[test]
fn preview_query_lists_columns_with_null_fallback() {
    let headers = vec!["a".to_owned(), "b\"c".to_owned()];
    assert_eq!(
        engine::preview_query("d.csv", &headers, 50, 100, "WHERE \"a\" > '1'"),
        "SELECT COALESCE(CAST(\"a\" AS VARCHAR), 'NULL'), \
         COALESCE(CAST(\"b\"\"c\" AS VARCHAR), 'NULL') \
         FROM read_csv_auto('d.csv') WHERE \"a\" > '1' LIMIT 50 OFFSET 100"
    );
}

#[test]
fn convert_plan_refuses_unknown_targets() {
    let e = engine::convert_plan("d.csv", "xlsx").unwrap_err();
    assert_eq!(e.message(), "Invalid file format: Target format not supported");
}

#[test]
fn convert_plan_skips_files_already_in_target_format() {
    match engine::convert_plan("d.csv", "csv").unwrap() {
        engine::ConvertAction::AlreadyTarget(p) => assert_eq!(p, "d.csv"),
        _ => panic!("expected the no-op plan"),
    }
}

#[test]
fn convert_plan_builds_copy_query() {
    match engine::convert_plan("dir/data.csv", "parquet").unwrap() {
        engine::ConvertAction::Run { query, output } => {
            assert_eq!(output, "dir/data.parquet");
            assert_eq!(
                query,
                "COPY (SELECT * FROM 'dir/data.csv') TO 'dir/data.parquet' (FORMAT PARQUET)"
            );
        },
        _ => panic!("expected a copy plan"),
    }
}

#[test]
fn engine_error_messages() {
    assert_eq!(
        engine::DuckDbError::FileNotFound("x.csv".to_owned()).message(),
        "File not found: x.csv"
    );
    assert_eq!(
        engine::DuckDbError::ConnectionError("boom".to_owned()).message(),
        "Database connection error: boom"
    );
    assert_eq!(
        engine::DuckDbError::QueryError("bad".to_owned()).message(),
        "Query execution error: bad"
    );
    assert_eq!(
        engine::DuckDbError::DatabaseError("oops".to_owned()).message(),
        "Database error: oops"
    );
}
