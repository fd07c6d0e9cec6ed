use rsquid::connection::SessionError;
use rsquid::grid::{
    affected_row_text, affected_statement, aggregate_outcomes, normalize_rows, GridBuilder,
    StatementOutcome,
};
use rsquid::value::{Backend, CellValue};

fn strings(items: &[&str]) -> Vec<String> {
    items.iter().map(|s| s.to_string()).collect()
}

#[test]
fn affected_text_is_exact() {
    assert_eq!(affected_row_text(0), "0 row(s) affected");
    assert_eq!(affected_row_text(3), "3 row(s) affected");
    let (headers, rows) = affected_statement(3);
    assert_eq!(headers, strings(&["Result"]));
    assert_eq!(rows, vec![strings(&["3 row(s) affected"])]);
}

#[test]
fn single_select_yields_its_grid() {
    // one statement: SELECT 1 AS test_col
    let rows = normalize_rows(
        Backend::Postgres,
        &strings(&["INT4"]),
        &vec![vec![CellValue::Int(1)]],
    );
    let outcome = StatementOutcome::Output { headers: strings(&["test_col"]), rows };
    let grid = aggregate_outcomes(&vec![outcome]).unwrap();
    assert_eq!(grid.headers, strings(&["test_col"]));
    assert_eq!(grid.rows, vec![strings(&["1"])]);
}

#[test]
fn write_then_select_keeps_first_headers_and_separates() {
    // UPDATE affecting 3 rows, then SELECT 1
    let (h1, r1) = affected_statement(3);
    let r2 = normalize_rows(
        Backend::Postgres,
        &strings(&["INT4"]),
        &vec![vec![CellValue::Int(1)]],
    );
    let outs = vec![
        StatementOutcome::Output { headers: h1, rows: r1 },
        StatementOutcome::Output { headers: strings(&["?column?"]), rows: r2 },
    ];
    let grid = aggregate_outcomes(&outs).unwrap();
    assert_eq!(grid.headers, strings(&["Result"]));
    assert_eq!(
        grid.rows,
        vec![strings(&["3 row(s) affected"]), strings(&["---"]), strings(&["1"])]
    );
}

#[test]
fn failing_statement_discards_the_grid() {
    let (h1, r1) = affected_statement(3);
    let outs = vec![
        StatementOutcome::Output { headers: h1, rows: r1 },
        StatementOutcome::Failure("relation \"t\" does not exist".to_string()),
    ];
    match aggregate_outcomes(&outs) {
        Err(SessionError::QueryError(m)) => {
            assert_eq!(m, "relation \"t\" does not exist");
        },
        other => panic!("expected a query error, got {:?}", other.is_ok()),
    }
}

#[test]
fn first_failure_wins() {
    let outs = vec![
        StatementOutcome::Failure("first".to_string()),
        StatementOutcome::Failure("second".to_string()),
    ];
    match aggregate_outcomes(&outs) {
        Err(SessionError::QueryError(m)) => assert_eq!(m, "first"),
        _ => panic!("expected a query error"),
    }
}

#[test]
fn no_statements_yield_the_empty_grid() {
    let grid = aggregate_outcomes(&vec![]).unwrap();
    assert!(grid.headers.is_empty());
    assert!(grid.rows.is_empty());
}

#[test]
fn empty_first_result_adopts_later_headers() {
    let outs = vec![
        StatementOutcome::Output { headers: vec![], rows: vec![] },
        StatementOutcome::Output {
            headers: strings(&["a", "b"]),
            rows: vec![strings(&["1", "2"])],
        },
    ];
    let grid = aggregate_outcomes(&outs).unwrap();
    assert_eq!(grid.headers, strings(&["a", "b"]));
    // no separator: no rows had been gathered before the second statement
    assert_eq!(grid.rows, vec![strings(&["1", "2"])]);
}

#[test]
fn later_rows_are_fitted_to_the_adopted_width() {
    let outs = vec![
        StatementOutcome::Output {
            headers: strings(&["a", "b"]),
            rows: vec![strings(&["1", "2"])],
        },
        StatementOutcome::Output {
            headers: strings(&["x", "y", "z"]),
            rows: vec![strings(&["7", "8", "9"])],
        },
    ];
    let grid = aggregate_outcomes(&outs).unwrap();
    assert_eq!(grid.headers, strings(&["a", "b"]));
    assert_eq!(
        grid.rows,
        vec![strings(&["1", "2"]), strings(&["---", "---"]), strings(&["7", "8"])]
    );
    // the grid invariant holds: every row is as wide as the headers
    for row in &grid.rows {
        assert_eq!(row.len(), grid.headers.len());
    }
}

#[test]
fn builder_separates_only_after_rows_exist() {
    let mut b = GridBuilder::new();
    b.append_statement(strings(&["h"]), vec![]);
    b.append_statement(strings(&["k"]), vec![strings(&["v"])]);
    let grid = b.finish();
    assert_eq!(grid.headers, strings(&["h"]));
    assert_eq!(grid.rows, vec![strings(&["v"])]);
}

#[test]
fn normalize_rows_uses_column_types() {
    let rows = normalize_rows(
        Backend::MySql,
        &strings(&["BIGINT", "VARCHAR"]),
        &vec![
            vec![CellValue::Int(10), CellValue::Text("x".to_string())],
            vec![CellValue::Null, CellValue::Bytes(vec![0xff, 0xfe])],
        ],
    );
    assert_eq!(rows, vec![strings(&["10", "x"]), strings(&["NULL", "fffe"])]);
}
