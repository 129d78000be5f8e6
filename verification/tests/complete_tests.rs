use csvql::complete::SimpleWordCompleter;
use csvql::vocab::{build_vocabulary, keywords};

fn vocab(words: &[&str]) -> SimpleWordCompleter {
    SimpleWordCompleter::new(words.iter().map(|w| w.to_string()).collect())
}

fn chars(s: &str) -> Vec<char> {
    s.chars().collect()
}

#[test]
fn partial_word_matches_exactly() {
    let c = vocab(&["select", "from", "name"]);
    let line = chars("na");
    let (start, found) = c.complete(&line, 2);
    assert_eq!(start, 0);
    assert_eq!(found, vec!["name".to_string()]);
}

#[test]
fn empty_word_returns_full_vocabulary() {
    let c = vocab(&["select", "from", "name"]);
    let line = chars("");
    let (start, found) = c.complete(&line, 0);
    assert_eq!(start, 0);
    assert_eq!(
        found,
        vec!["select".to_string(), "from".to_string(), "name".to_string()]
    );
}

#[test]
fn word_starts_after_space() {
    let c = vocab(&["select", "from", "name"]);
    let line = chars("select na");
    let (start, found) = c.complete(&line, 9);
    assert_eq!(start, 7);
    assert_eq!(found, vec!["name".to_string()]);
}

#[test]
fn word_starts_after_paren_and_comma() {
    let c = vocab(&["count", "name", "nick"]);
    let line = chars("count(na");
    let (start, found) = c.complete(&line, 8);
    assert_eq!(start, 6);
    assert_eq!(found, vec!["name".to_string()]);

    let line2 = chars("select name,ni");
    let (start2, found2) = c.complete(&line2, 14);
    assert_eq!(start2, 12);
    assert_eq!(found2, vec!["nick".to_string()]);
}

#[test]
fn cursor_in_middle_completes_left_part() {
    let c = vocab(&["select", "from", "name"]);
    let line = chars("se from");
    let (start, found) = c.complete(&line, 2);
    assert_eq!(start, 0);
    assert_eq!(found, vec!["select".to_string()]);
}

#[test]
fn no_match_is_empty() {
    let c = vocab(&["select", "from"]);
    let line = chars("zzz");
    let (start, found) = c.complete(&line, 3);
    assert_eq!(start, 0);
    assert!(found.is_empty());
}

#[test]
fn duplicates_are_kept_in_order() {
    let c = vocab(&["name", "no", "name"]);
    let line = chars("n");
    let (_, found) = c.complete(&line, 1);
    assert_eq!(
        found,
        vec!["name".to_string(), "no".to_string(), "name".to_string()]
    );
}

#[test]
fn keyword_list_is_fixed() {
    assert_eq!(
        keywords(),
        vec![
            "distinct".to_string(),
            "select".to_string(),
            "from".to_string(),
            "group".to_string(),
            "by".to_string(),
            "order".to_string(),
            "where".to_string(),
            "count".to_string(),
        ]
    );
}

#[test]
fn vocabulary_appends_file_columns_in_order() {
    let files = vec![
        vec!["name".to_string(), "age_".to_string()],
        vec!["city".to_string()],
    ];
    let v = build_vocabulary(keywords(), &files);
    let mut expected: Vec<String> = keywords();
    expected.push("name".to_string());
    expected.push("age_".to_string());
    expected.push("city".to_string());
    assert_eq!(v, expected);
}

#[test]
fn vocabulary_with_no_files_is_the_keywords() {
    let files: Vec<Vec<String>> = Vec::new();
    assert_eq!(build_vocabulary(keywords(), &files), keywords());
}
