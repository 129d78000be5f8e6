use csvql::normalize::normalize_col;

#[test]
fn normalize_strips_parenthesized_span() {
    assert_eq!(normalize_col("Revenue (USD)"), "revenue_");
}

#[test]
fn normalize_replaces_spaces() {
    assert_eq!(normalize_col("First Name"), "first_name");
}

#[test]
fn normalize_drops_question_mark() {
    assert_eq!(normalize_col("Valid?"), "valid");
}

#[test]
fn normalize_drops_dots() {
    assert_eq!(normalize_col("a.b.c"), "abc");
}

#[test]
fn normalize_lower_cases() {
    assert_eq!(normalize_col("NAME"), "name");
}

#[test]
fn normalize_empty_input() {
    assert_eq!(normalize_col(""), "");
}

#[test]
fn normalize_all_stripped_is_empty() {
    assert_eq!(normalize_col("(everything)"), "");
}

#[test]
fn normalize_unmatched_open_paren_is_kept() {
    assert_eq!(normalize_col("a(b"), "a(b");
}

#[test]
fn normalize_two_spans_removed() {
    assert_eq!(normalize_col("A (x) B (y)"), "a__b_");
}

#[test]
fn normalize_trims_tabs_and_newlines() {
    assert_eq!(normalize_col("\tName\t"), "name");
}

#[test]
fn normalize_trims_unicode_whitespace() {
    assert_eq!(normalize_col("\u{a0}Name\u{2003}"), "name");
    assert_eq!(normalize_col("\u{3000}Id\u{85}"), "id");
}

#[test]
fn normalize_idempotent_on_samples() {
    let samples = [
        "Revenue (USD)",
        "First Name",
        "Valid?",
        "  A (b) C?.D  ",
        "a(b",
        ")(",
        "",
        "x.y z(Q)w",
    ];
    for s in samples.iter() {
        let once = normalize_col(s);
        let twice = normalize_col(&once);
        assert_eq!(twice, once);
    }
}

#[test]
fn normalize_output_chars_are_safe() {
    let samples = ["Revenue (USD)", "  A (b) C?.D  ", "Weird Header (X) ?.Q"];
    for s in samples.iter() {
        let out = normalize_col(s);
        for c in out.chars() {
            assert!(c != ' ' && c != '.' && c != '?');
            assert!(!c.is_ascii_uppercase());
        }
    }
}
