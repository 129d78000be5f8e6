use csvql::sqlgen::{create_table_sql, dec_string, insert_sql, load_message, table_name};

#[test]
fn dec_string_zero() {
    assert_eq!(dec_string(0), "0");
}

#[test]
fn dec_string_multi_digit() {
    assert_eq!(dec_string(1234), "1234");
    assert_eq!(dec_string(10), "10");
    assert_eq!(dec_string(7), "7");
}

#[test]
fn single_file_table_is_t() {
    assert_eq!(table_name(0, 1), "t");
}

#[test]
fn two_files_are_t1_t2_never_t() {
    assert_eq!(table_name(0, 2), "t1");
    assert_eq!(table_name(1, 2), "t2");
    assert_ne!(table_name(0, 2), "t");
    assert_ne!(table_name(1, 2), "t");
}

#[test]
fn table_names_keep_argument_order() {
    assert_eq!(table_name(9, 12), "t10");
    assert_eq!(table_name(11, 12), "t12");
}

#[test]
fn create_table_text() {
    let cols = vec!["name".to_string(), "age_".to_string()];
    assert_eq!(
        create_table_sql("t", &cols),
        "CREATE TABLE t (name varchar, age_ varchar)"
    );
}

#[test]
fn create_table_single_column() {
    let cols = vec!["v".to_string()];
    assert_eq!(create_table_sql("t1", &cols), "CREATE TABLE t1 (v varchar)");
}

#[test]
fn insert_text_uses_numbered_placeholders() {
    assert_eq!(insert_sql("t", 2), "INSERT INTO t VALUES ($1, $2)");
    assert_eq!(insert_sql("t3", 1), "INSERT INTO t3 VALUES ($1)");
}

#[test]
fn insert_text_empty_row() {
    assert_eq!(insert_sql("t", 0), "INSERT INTO t VALUES ()");
}

#[test]
fn load_message_text() {
    let cols = vec!["name".to_string(), "age_".to_string()];
    assert_eq!(
        load_message(2, "t", &cols),
        "Loaded 2 rows into t(name, age_)"
    );
}

#[test]
fn load_message_no_columns() {
    let cols: Vec<String> = Vec::new();
    assert_eq!(load_message(0, "t", &cols), "Loaded 0 rows into t()");
}
