//! Rows, schemas, cycles and the built-in helpers.

use pgferry::intercept::builtin::{Audit, DenyList, Rewrite};
use pgferry::intercept::{
    CycleError, CycleKind, CycleReport, DataRowMut, QueryCycle, RowError, RowSchema,
};
use pgferry::session::cycle::adjust_tag;
use pgferry::wire::{BackendMessage, DataRow, FieldDescription};

fn row(bytes: &[u8], field_count: i16) -> DataRow {
    DataRow { data: bytes.to_vec(), field_count }
}

fn parsed(bytes: &[u8], field_count: i16) -> DataRowMut {
    match DataRowMut::parse(row(bytes, field_count)) {
        Ok(p) => p,
        Err(_) => panic!("row does not parse"),
    }
}

#[test]
fn rows_are_read_and_edited() {
    let bytes = [0, 0, 0, 2, b'h', b'i', 255, 255, 255, 255, 0, 0, 0, 1, 0xff];
    let mut p = parsed(&bytes, 3);
    assert_eq!(p.len(), 3);
    assert!(!p.is_empty());
    assert_eq!(p.text(0), Ok(Some("hi")));
    assert_eq!(p.text(1), Ok(None));
    assert_eq!(p.text(2), Err(RowError::BinaryColumn(2)));
    assert_eq!(p.text(3), Err(RowError::OutOfRange(3, 3)));
    assert_eq!(p.is_null(1), Ok(true));
    assert_eq!(p.is_null(0), Ok(false));
    assert_eq!(p.is_null(9), Err(RowError::OutOfRange(9, 3)));
    assert!(!p.is_modified());
    assert_eq!(p.set_text(1, "new"), Ok(()));
    assert_eq!(p.set_null(0), Ok(()));
    assert_eq!(p.set_text(7, "x"), Err(RowError::OutOfRange(7, 3)));
    assert!(p.is_modified());
    let out = p.apply();
    assert_eq!(out.field_count, 3);
    assert_eq!(
        out.data,
        vec![255, 255, 255, 255, 0, 0, 0, 3, b'n', b'e', b'w', 0, 0, 0, 1, 0xff]
    );
    let again = parsed(&out.data, 3);
    assert_eq!(again.text(1), Ok(Some("new")));
    assert_eq!(again.is_null(0), Ok(true));
}

#[test]
fn unedited_rows_come_back_as_they_were() {
    let bytes = [0, 0, 0, 1, b'x', 0xff, 0xff, 0xff, 0xfe];
    assert_eq!(parsed(&bytes, 2).apply().data, bytes.to_vec());
    let none: [u8; 0] = [];
    let empty = parsed(&none, 0);
    assert!(empty.is_empty());
    assert_eq!(empty.apply().data, none.to_vec());
}

#[test]
fn rows_with_bytes_left_over_are_refused() {
    match DataRowMut::parse(row(&[0, 0, 0, 1, b'a', b'x'], 1)) {
        Err((back, e)) => {
            assert_eq!(back.data, vec![0, 0, 0, 1, b'a', b'x']);
            assert_eq!(back.field_count, 1);
            assert_eq!(e, RowError::OutOfRange(usize::MAX, 1));
        }
        Ok(_) => panic!("parsed"),
    }
    assert!(DataRowMut::parse(row(&[0, 0, 0, 1, b'a'], 0)).is_err());
    assert!(DataRowMut::parse(row(&[0, 0, 0, 1, b'a', 0, 0, 0, 1, b'b'], 1)).is_err());
}

#[test]
fn short_rows_are_refused() {
    match DataRowMut::parse(row(&[0, 0, 0, 9, 1], 1)) {
        Err((back, e)) => {
            assert_eq!(back.data, vec![0, 0, 0, 9, 1]);
            assert_eq!(e, RowError::OutOfRange(usize::MAX, 1));
        }
        Ok(_) => panic!("parsed"),
    }
    assert!(DataRowMut::parse(row(&[0, 0], 1)).is_err());
}

#[test]
fn row_errors_read_well() {
    assert_eq!(
        RowError::OutOfRange(3, 2).message(),
        "column index 3 out of range (schema has 2 columns)"
    );
    assert_eq!(
        RowError::BinaryColumn(1).message(),
        "column 1 is in binary format; text mutation is not supported"
    );
    assert_eq!(RowError::Null(0).message(), "column 0 is null");
}

#[test]
fn schemas_find_their_columns() {
    let field = |name: &str, format_code: i16| FieldDescription {
        name: name.to_owned(),
        table_id: 1,
        column_id: 2,
        type_id: 23,
        type_size: 4,
        type_modifier: -1,
        format_code,
    };
    let schema = RowSchema::from_row_description(&vec![field("a", 0), field("b", 1), field("a", 0)]);
    assert_eq!(schema.len(), 3);
    assert!(!schema.is_empty());
    assert_eq!(schema.column_index("a"), Some(0));
    assert_eq!(schema.column_index("b"), Some(1));
    assert_eq!(schema.column_index("c"), None);
    assert!(schema.columns[0].is_text());
    assert!(!schema.columns[1].is_text());
    assert_eq!(schema.columns[1].type_oid, 23);
    assert!(RowSchema::default().is_empty());
}

#[test]
fn cycles_are_rewritten_once() {
    let mut cycle = QueryCycle::new("a".to_owned(), CycleKind::Simple);
    assert_eq!(cycle.take_rewritten(), None);
    cycle.set_sql("b".to_owned());
    assert_eq!(cycle.sql(), "b");
    assert_eq!(cycle.take_rewritten(), Some("b".to_owned()));
    assert_eq!(cycle.take_rewritten(), None);
    assert!(matches!(cycle.kind(), CycleKind::Simple));
}

#[test]
fn cycle_errors_go_back_and_forth() {
    let e = CycleError { code: "42501".to_owned(), message: "no".to_owned() };
    match e.to_error_response() {
        BackendMessage::ErrorResponse { error } => {
            assert_eq!(
                error.fields,
                vec![
                    (b'S', "ERROR".to_owned()),
                    (b'C', "42501".to_owned()),
                    (b'M', "no".to_owned())
                ]
            );
            let back = CycleError::from_info(&error);
            assert_eq!(back.code, "42501");
            assert_eq!(back.message, "no");
        }
        _ => panic!("no error"),
    }
}

#[test]
fn tags_lose_dropped_rows() {
    assert_eq!(adjust_tag("SELECT 5", 2), "SELECT 3");
    assert_eq!(adjust_tag("SELECT 5", 9), "SELECT 0");
    assert_eq!(adjust_tag("INSERT 0 10", 1), "INSERT 0 9");
    assert_eq!(adjust_tag("BEGIN", 1), "BEGIN");
    assert_eq!(adjust_tag("CREATE TABLE", 1), "CREATE TABLE");
    assert_eq!(adjust_tag("SELECT ", 1), "SELECT ");
    assert_eq!(adjust_tag("SELECT 99999999999999999999", 1), "SELECT 0");
}

#[test]
fn deny_list_matches_at_the_start_in_any_case() {
    let deny = match DenyList::try_new(vec!["drop table".to_owned(), "truncate".to_owned()]) {
        Some(d) => d,
        None => panic!("patterns do not compile"),
    };
    let e = deny.check("DROP TABLE t").unwrap();
    assert_eq!(e.code(), "42501");
    assert_eq!(e.message(), "insufficient privilege (pgferry deny-list)");
    assert!(deny.clone().check("DROP TABLE t").is_some());
    assert!(deny.check("select 'drop table'").is_none());
    assert!(deny.check("Truncate t").is_some());
    let deny = deny.with_message("XX000", "never");
    let e = deny.check("truncate t").unwrap();
    assert_eq!((e.code(), e.message()), ("XX000".to_owned(), "never".to_owned()));
    assert!(deny.verdict(false).is_none());
    assert!(deny.verdict(true).is_some());
    assert!(DenyList::try_new(vec!["(".to_owned()]).is_none());
    let dotted = DenyList::new(vec!["a.b".to_owned()]);
    assert!(dotted.check("a\nb").is_some());
}

#[test]
fn rewrite_replaces_every_match() {
    let w = Rewrite::try_new("t([0-9])", "u$1").unwrap();
    assert_eq!(w.rewrite("select t1, t2"), Some("select u1, u2".to_owned()));
    assert_eq!(w.rewrite("select 1"), None);
    assert!(Rewrite::try_new("[", "x").is_none());
    assert_eq!(Rewrite::new("a", "b").rewrite("aa"), Some("bb".to_owned()));
    assert_eq!(Rewrite::new("a", "b").clone().rewrite("a"), Some("b".to_owned()));
}

fn report(rows: u64, failed: bool) -> CycleReport {
    CycleReport {
        sql: Some(format!("select {rows}")),
        kind: CycleKind::Simple,
        tag: None,
        rows,
        rows_dropped: 0,
        error: if failed {
            Some(CycleError { code: "X".to_owned(), message: String::new() })
        } else {
            None
        },
        latency: 2_500,
    }
}

#[test]
fn audit_counts_and_keeps_the_last_reports() {
    let mut audit = Audit::new();
    for i in 0..130 {
        audit.record(&report(i, i % 2 == 0));
    }
    assert_eq!(audit.cycles(), 130);
    assert_eq!(audit.errors(), 65);
    assert_eq!(audit.rows(), (0..130).sum::<u64>());
    let recent = audit.snapshot_recent();
    assert_eq!(recent.len(), 128);
    assert_eq!(recent[0].rows, 2);
    assert_eq!(recent[127].rows, 129);
    assert_eq!(recent[127].sql.as_deref(), Some("select 129"));
    assert_eq!(Audit::default().cycles(), 0);
    // totals are kept in 64 bits
    let mut audit = Audit::new();
    audit.record(&report(u64::MAX, false));
    audit.record(&report(3, true));
    assert_eq!((audit.cycles(), audit.errors(), audit.rows()), (2, 1, 2));
}
