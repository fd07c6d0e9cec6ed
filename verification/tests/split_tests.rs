use rsquid::connection::SessionError;
use rsquid::split::{classify, prepare_submission, split, StatementKind};

#[test]
fn split_separates_and_trims() {
    let parts = split("SELECT 1;  UPDATE t SET x=1 ;; ");
    assert_eq!(parts, vec!["SELECT 1".to_string(), "UPDATE t SET x=1".to_string()]);
}

#[test]
fn split_of_blank_text_is_empty() {
    assert!(split("").is_empty());
    assert!(split("   ").is_empty());
    assert!(split(";;;").is_empty());
    assert!(split(" ; \t;\n ; ").is_empty());
}

#[test]
fn split_keeps_order() {
    let parts = split("a;b;c");
    assert_eq!(parts, vec!["a".to_string(), "b".to_string(), "c".to_string()]);
}

#[test]
fn split_is_purely_lexical() {
    // a separator inside a string literal still ends the statement early
    let parts = split("SELECT 'a;b'");
    assert_eq!(parts, vec!["SELECT 'a".to_string(), "b'".to_string()]);
}

#[test]
fn classify_read_keywords() {
    assert_eq!(classify("SELECT * FROM t"), StatementKind::Read);
    assert_eq!(classify("  sHoW tables"), StatementKind::Read);
    assert_eq!(classify("describe t"), StatementKind::Read);
    assert_eq!(classify("EXPLAIN SELECT 1"), StatementKind::Read);
    assert_eq!(classify("WITH cte AS (SELECT 1) SELECT * FROM cte"), StatementKind::Read);
    assert_eq!(classify("VALUES (1), (2)"), StatementKind::Read);
}

#[test]
fn classify_write_statements() {
    assert_eq!(classify("INSERT INTO t VALUES (1)"), StatementKind::Write);
    assert_eq!(classify("UPDATE t SET x = 1"), StatementKind::Write);
    assert_eq!(classify("DELETE FROM t"), StatementKind::Write);
    assert_eq!(classify("CREATE TABLE t (x INT)"), StatementKind::Write);
    assert_eq!(classify(""), StatementKind::Write);
}

#[test]
fn blank_submissions_are_rejected_before_execution() {
    assert_eq!(prepare_submission("  \t "), Err(SessionError::EmptyQuery));
    // separators alone are not blank: they make a zero-statement submission
    assert_eq!(prepare_submission(";;"), Ok(vec![]));
    assert_eq!(
        prepare_submission("SELECT 1; UPDATE t SET x=1"),
        Ok(vec!["SELECT 1".to_string(), "UPDATE t SET x=1".to_string()])
    );
}
