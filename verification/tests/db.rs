use sqlquiz::db::{
    column_kind, format_cell, result_table, screen_sql, CellValue, ColumnKind, QueryRows,
};

fn table(rows: &[&[&str]]) -> Vec<Vec<String>> {
    rows.iter().map(|r| r.iter().map(|s| s.to_string()).collect()).collect()
}

#[test]
fn refuses_catalogue_access() {
    assert_eq!(screen_sql("select * from pg_tables").unwrap(), Some(table(&[&["Do not use pg_"]])));
}

#[test]
fn refuses_statement_timeout() {
    assert_eq!(
        screen_sql("set statement_timeout = 0").unwrap(),
        Some(table(&[&["Do not use statement_timeout"]]))
    );
}

#[test]
fn refuses_version() {
    assert_eq!(screen_sql("select version()").unwrap(), Some(table(&[&["Do not use version"]])));
}

#[test]
fn first_refusal_wins() {
    assert_eq!(
        screen_sql("select version(), * from pg_user").unwrap(),
        Some(table(&[&["Do not use pg_"]]))
    );
}

#[test]
fn lets_ordinary_sql_run() {
    assert_eq!(screen_sql("select name from cats").unwrap(), None);
    // The patterns need a non-word character before the word.
    assert_eq!(screen_sql("pg_tables").unwrap(), None);
    assert_eq!(screen_sql("select my_pg_x, subversion from cats").unwrap(), None);
    assert_eq!(screen_sql("select version").unwrap(), None);
}

#[test]
fn column_kinds() {
    assert_eq!(column_kind("int8"), ColumnKind::Int8);
    assert_eq!(column_kind("int4"), ColumnKind::Int4);
    assert_eq!(column_kind("float8"), ColumnKind::Float8);
    assert_eq!(column_kind("varchar"), ColumnKind::Text);
    assert_eq!(column_kind("text"), ColumnKind::Text);
    assert_eq!(column_kind("_varchar"), ColumnKind::TextArray);
    assert_eq!(column_kind("numeric"), ColumnKind::Other);
}

#[test]
fn cells() {
    assert_eq!(format_cell(&CellValue::Int8(Some(-42))), "-42");
    assert_eq!(format_cell(&CellValue::Int8(None)), "Null");
    assert_eq!(format_cell(&CellValue::Int4(Some(7))), "7");
    assert_eq!(format_cell(&CellValue::Int4(None)), "Null");
    assert_eq!(format_cell(&CellValue::Text(Some("Tom".into()))), "Tom");
    assert_eq!(format_cell(&CellValue::Text(None)), "Null");
    assert_eq!(
        format_cell(&CellValue::TextArray(Some(vec!["Ashes".into(), "Molly".into()]))),
        "Ashes,Molly"
    );
    assert_eq!(format_cell(&CellValue::TextArray(None)), "Null");
    assert_eq!(format_cell(&CellValue::Unsupported("numeric".into())), "Add conversion for \"numeric\"");
    assert_eq!(format_cell(&CellValue::Unsupported("a\"b".into())), "Add conversion for \"a\\\"b\"");
}

#[test]
fn tables() {
    let answer = QueryRows {
        columns: vec!["name".into(), "age".into()],
        rows: vec![
            vec![CellValue::Text(Some("Ashes".into())), CellValue::Int4(Some(1))],
            vec![CellValue::Text(Some("Tom".into())), CellValue::Int4(None)],
        ],
    };
    assert_eq!(
        result_table(Ok(answer)),
        table(&[&["name", "age"], &["Ashes", "1"], &["Tom", "Null"]])
    );
    let empty = QueryRows { columns: vec!["name".into()], rows: vec![] };
    assert_eq!(result_table(Ok(empty)), Vec::<Vec<String>>::new());
    assert_eq!(result_table(Err("syntax error".into())), table(&[&["syntax error"]]));
}
