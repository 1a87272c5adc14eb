use memdb::pragma;
use memdb::pragma::DatabaseName;
use memdb::pragma::Sql;
use memdb::pragma::SqlError;
use memdb::pragma::Value;

#[test]
fn is_identifier() {
    assert!(pragma::is_identifier("full"));
    assert!(pragma::is_identifier("r2d2"));
    assert!(!pragma::is_identifier("sp ce"));
    assert!(!pragma::is_identifier("semi;colon"));
}

#[test]
fn double_quote() {
    let mut sql = Sql::new();
    sql.push_schema_name(&DatabaseName::Attached(String::from(r#"schema";--"#)));
    assert_eq!(r#""schema"";--""#, sql.as_str());
}

#[test]
fn wrap_and_escape() {
    let mut sql = Sql::new();
    sql.push_string_literal("value'; --");
    assert_eq!("'value''; --'", sql.as_str());
}

#[test]
fn identifier_edges() {
    assert!(pragma::is_identifier(""));
    assert!(pragma::is_identifier("_underscore"));
    assert!(pragma::is_identifier("caf\u{e9}"));
    assert!(pragma::is_identifier("a$1"));
    assert!(!pragma::is_identifier("$starts_with_dollar"));
    assert!(!pragma::is_identifier("1digit_first"));
    assert!(pragma::is_identifier_start('A'));
    assert!(pragma::is_identifier_start('_'));
    assert!(!pragma::is_identifier_start('$'));
    assert!(!pragma::is_identifier_start('7'));
    assert!(pragma::is_identifier_continue('$'));
    assert!(pragma::is_identifier_continue('7'));
    assert!(!pragma::is_identifier_continue(';'));
}

#[test]
fn push_pragma_with_schema() {
    let mut sql = Sql::new();
    sql.push_pragma(Some(&DatabaseName::Main), "user_version").unwrap();
    assert_eq!("PRAGMA main.user_version", sql.as_str());
}

#[test]
fn push_pragma_no_schema() {
    let mut sql = Sql::new();
    sql.push_pragma(None, "page_count").unwrap();
    assert_eq!("PRAGMA page_count", sql.as_str());
}

#[test]
fn push_pragma_temp_and_attached() {
    let mut sql = Sql::new();
    sql.push_pragma(Some(&DatabaseName::Temp), "page_size").unwrap();
    assert_eq!("PRAGMA temp.page_size", sql.as_str());

    let mut sql = Sql::new();
    sql.push_pragma(Some(&DatabaseName::Attached(String::from("aux db"))), "page_size").unwrap();
    assert_eq!("PRAGMA \"aux db\".page_size", sql.as_str());
}

#[test]
fn push_keyword_rejects() {
    let mut sql = Sql::new();
    match sql.push_keyword("two words") {
        Err(SqlError::InvalidKeyword(k)) => assert_eq!("two words", k),
        other => panic!("expected invalid keyword, got {:?}", other),
    }
    assert_eq!("", sql.as_str());
    match sql.push_keyword("") {
        Err(SqlError::InvalidKeyword(k)) => assert_eq!("", k),
        other => panic!("expected invalid keyword, got {:?}", other),
    }
}

#[test]
fn push_int_exact() {
    let mut sql = Sql::new();
    sql.push_int(0);
    sql.push_space();
    sql.push_int(42);
    sql.push_space();
    sql.push_int(-7);
    sql.push_space();
    sql.push_int(i64::MIN);
    sql.push_space();
    sql.push_int(i64::MAX);
    assert_eq!(
        "0 42 -7 -9223372036854775808 9223372036854775807",
        sql.as_str()
    );
}

#[test]
fn push_value_kinds() {
    let mut sql = Sql::new();
    sql.push_value(&Value::Integer(15)).unwrap();
    sql.push_value(&Value::Text(String::from("it's"))).unwrap();
    assert_eq!("15'it''s'", sql.as_str());
    assert_eq!(Err(SqlError::UnsupportedValue), sql.push_value(&Value::Null));
    assert_eq!(
        Err(SqlError::UnsupportedValue),
        sql.push_value(&Value::Blob(vec![1, 2]))
    );
    assert_eq!("15'it''s'", sql.as_str());
}

#[test]
fn punctuation() {
    let mut sql = Sql::new();
    sql.push_space();
    sql.push_dot();
    sql.push_equal_sign();
    sql.open_brace();
    sql.close_brace();
    assert_eq!(" .=()", sql.as_str());
}

#[test]
fn pragma_query_sql_exact() {
    let s = pragma::pragma_query_sql(Some(&DatabaseName::Main), "user_version").unwrap();
    assert_eq!("PRAGMA main.user_version", s);
    let s = pragma::pragma_query_sql(None, "user_version").unwrap();
    assert_eq!("PRAGMA user_version", s);
    match pragma::pragma_query_sql(None, "bad name") {
        Err(SqlError::InvalidKeyword(k)) => assert_eq!("bad name", k),
        other => panic!("expected invalid keyword, got {:?}", other),
    }
}

#[test]
fn pragma_with_value_sql_exact() {
    let s = pragma::pragma_with_value_sql(
        None,
        "table_info",
        &Value::Text(String::from("sqlite_master")),
    )
    .unwrap();
    assert_eq!("PRAGMA table_info('sqlite_master')", s);
    assert_eq!(
        Err(SqlError::UnsupportedValue),
        pragma::pragma_with_value_sql(None, "table_info", &Value::Null)
    );
}

#[test]
fn pragma_update_sql_exact() {
    let s = pragma::pragma_update_sql(None, "user_version", &Value::Integer(1)).unwrap();
    assert_eq!("PRAGMA user_version=1", s);
    let s = pragma::pragma_update_sql(None, "journal_mode", &Value::Text(String::from("OFF")))
        .unwrap();
    assert_eq!("PRAGMA journal_mode='OFF'", s);
    match pragma::pragma_update_sql(Some(&DatabaseName::Main), "no good", &Value::Integer(1)) {
        Err(SqlError::InvalidKeyword(k)) => assert_eq!("no good", k),
        other => panic!("expected invalid keyword, got {:?}", other),
    }
}

#[test]
fn database_name_text() {
    assert_eq!("main", DatabaseName::Main.name());
    assert_eq!("temp", DatabaseName::Temp.name());
    assert_eq!("x", DatabaseName::Attached(String::from("x")).name());
}
