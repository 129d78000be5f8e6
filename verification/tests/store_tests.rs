use csvql::store::{display_value, load_table, query_rows, run_query, QueryOutput};

fn strings(row: &[&str]) -> Vec<String> {
    row.iter().map(|s| s.to_string()).collect()
}

fn open_memory_store() -> Result<sqlite3::Connection, String> {
    sqlite3::open(":memory:").map_err(|e| e.message.unwrap_or_default())
}

#[test]
fn load_creates_normalized_schema_and_inserts_rows() {
    let conn = open_memory_store().unwrap();
    let header = strings(&["Name", "Age (Years)"]);
    let rows = vec![strings(&["Al", "30"]), strings(&["Bo", "40"])];
    let rep = load_table(&conn, "t", &header, &rows).unwrap();
    assert_eq!(rep.columns, strings(&["name", "age_"]));
    assert_eq!(rep.rows_inserted, 2);
    assert_eq!(rep.message, "Loaded 2 rows into t(name, age_)");

    let got = query_rows(&conn, "select name, age_ from t").unwrap();
    assert_eq!(got, vec![strings(&["Al", "30"]), strings(&["Bo", "40"])]);
}

#[test]
fn field_order_matches_insertion_order() {
    let conn = open_memory_store().unwrap();
    let header = strings(&["b", "a"]);
    let rows = vec![strings(&["1", "2"])];
    load_table(&conn, "t", &header, &rows).unwrap();
    let got = query_rows(&conn, "select * from t").unwrap();
    assert_eq!(got, vec![strings(&["1", "2"])]);
}

#[test]
fn quotes_in_values_are_bound_not_spliced() {
    let conn = open_memory_store().unwrap();
    let header = strings(&["v"]);
    let rows = vec![strings(&["O'Brien\"; drop table t; --"])];
    load_table(&conn, "t", &header, &rows).unwrap();
    let got = query_rows(&conn, "select v from t").unwrap();
    assert_eq!(got, vec![strings(&["O'Brien\"; drop table t; --"])]);
}

#[test]
fn end_to_end_count_of_three_rows() {
    let conn = open_memory_store().unwrap();
    let header = strings(&["v"]);
    let rows = vec![strings(&["10"]), strings(&["20"]), strings(&["30"])];
    let rep = load_table(&conn, "t", &header, &rows).unwrap();
    assert_eq!(rep.rows_inserted, 3);

    let got = query_rows(&conn, "select count(*) from t").unwrap();
    assert_eq!(got, vec![strings(&["3"])]);

    match run_query(&conn, "select count(*) from t") {
        QueryOutput::Table(rows, text) => {
            assert_eq!(rows, vec![strings(&["3"])]);
            assert!(text.contains('3'));
            assert!(text.contains('|'));
        },
        QueryOutput::Failure(e) => panic!("query failed: {}", e),
    }
}

#[test]
fn malformed_query_yields_a_diagnostic_not_an_error() {
    let conn = open_memory_store().unwrap();
    match run_query(&conn, "definitely not a query !!!") {
        QueryOutput::Failure(_) => {},
        QueryOutput::Table(_, _) => panic!("nonsense text must not produce a table"),
    }
}

#[test]
fn unknown_table_yields_a_diagnostic() {
    let conn = open_memory_store().unwrap();
    match run_query(&conn, "select * from missing") {
        QueryOutput::Failure(_) => {},
        QueryOutput::Table(_, _) => panic!("an unknown table must be a diagnostic"),
    }
}

#[test]
fn zero_row_result_is_still_a_table() {
    let conn = open_memory_store().unwrap();
    load_table(&conn, "t", &strings(&["v"]), &Vec::new()).unwrap();
    let got = query_rows(&conn, "select v from t").unwrap();
    assert!(got.is_empty());
    match run_query(&conn, "select v from t") {
        QueryOutput::Table(rows, _) => assert!(rows.is_empty()),
        QueryOutput::Failure(e) => panic!("query failed: {}", e),
    }
}

#[test]
fn null_values_render_as_empty_strings() {
    let conn = open_memory_store().unwrap();
    load_table(&conn, "t", &strings(&["v"]), &vec![strings(&["x"])]).unwrap();
    let got = query_rows(&conn, "select v, null from t").unwrap();
    assert_eq!(got, vec![strings(&["x", ""])]);
}

#[test]
fn display_value_renders_missing_as_empty() {
    assert_eq!(display_value(None), Ok(String::new()));
    assert_eq!(display_value(Some(Ok("x".to_string()))), Ok("x".to_string()));
    assert_eq!(
        display_value(Some(Err("read failed".to_string()))),
        Err("read failed".to_string())
    );
}

#[test]
fn insert_outcome_maps_the_step() {
    assert_eq!(csvql::store::insert_outcome(Ok(false)), Ok(()));
    assert_eq!(
        csvql::store::insert_outcome(Ok(true)),
        Err("insert unexpectedly produced a row".to_string())
    );
    assert_eq!(
        csvql::store::insert_outcome(Err("engine failure".to_string())),
        Err("engine failure".to_string())
    );
}

#[test]
fn duplicate_normalized_columns_fail_the_load() {
    let conn = open_memory_store().unwrap();
    let header = strings(&["A", "a"]);
    let rows = vec![strings(&["1", "2"])];
    assert!(load_table(&conn, "t", &header, &rows).is_err());
}

#[test]
fn rendered_table_lays_out_both_rows() {
    let conn = open_memory_store().unwrap();
    let header = strings(&["v"]);
    let rows = vec![strings(&["alpha"]), strings(&["beta"])];
    load_table(&conn, "t", &header, &rows).unwrap();
    match run_query(&conn, "select v from t order by v") {
        QueryOutput::Table(rows, text) => {
            assert_eq!(rows, vec![strings(&["alpha"]), strings(&["beta"])]);
            assert!(text.contains("alpha"));
            assert!(text.contains("beta"));
        },
        QueryOutput::Failure(e) => panic!("query failed: {}", e),
    }
}

#[test]
fn multi_file_loading_uses_t1_and_t2() {
    let conn = open_memory_store().unwrap();
    let names = [
        csvql::sqlgen::table_name(0, 2),
        csvql::sqlgen::table_name(1, 2),
    ];
    assert_eq!(names, ["t1".to_string(), "t2".to_string()]);
    for name in names.iter() {
        load_table(&conn, name, &strings(&["v"]), &vec![strings(&["1"])]).unwrap();
    }
    assert!(query_rows(&conn, "select * from t1").is_ok());
    assert!(query_rows(&conn, "select * from t2").is_ok());
    assert!(query_rows(&conn, "select * from t").is_err());
}
