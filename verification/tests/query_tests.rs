use russee::query::{line_matches, parse_content};

fn matches(query: &str, line: &str) -> bool {
    line_matches(&parse_content(query, None), line)
}

#[test]
fn empty_query_matches_everything() {
    assert!(matches("", "anything"));
    assert!(matches("   ", "anything"));
}

#[test]
fn single_substring_and_smart_case() {
    assert!(matches("checked_add", "let x = a.checked_add(b);"));
    assert!(!matches("checked_add", "let x = a + b;"));
    assert!(matches("checked", "CHECKED"));
    assert!(!matches("Checked", "checked"));
    assert!(matches("Checked", "Checked"));
}

#[test]
fn and_requires_all_terms() {
    assert!(matches("checked add", "a.checked_add(b)"));
    assert!(!matches("checked mul", "a.checked_add(b)"));
}

#[test]
fn negation_excludes() {
    assert!(matches("checked !mut", "let x = checked(y)"));
    assert!(!matches("checked !mut", "let mut x = checked(y)"));
}

#[test]
fn anchors_start_and_end() {
    assert!(matches("^fn", "fn main() {"));
    assert!(!matches("^fn", "  fn main() {"));
    assert!(matches("{$", "fn main() {"));
    assert!(!matches("{$", "fn main() { }"));
    assert!(matches("^}$", "}"));
    assert!(!matches("^}$", "} "));
}

#[test]
fn or_group_with_pipe() {
    let q = "checked | unchecked";
    assert!(matches(q, "a.checked_add(b)"));
    assert!(matches(q, "a.unchecked_add(b)"));
    assert!(!matches(q, "a.wrapping_add(b)"));
}

#[test]
fn and_of_or_groups() {
    let q = "add | sub checked";
    assert!(matches(q, "checked_add"));
    assert!(matches(q, "checked_sub"));
    assert!(!matches(q, "checked_mul"));
    assert!(!matches(q, "wrapping_add"));
}

#[test]
fn explicit_case_override_beats_smart_case() {
    let q = parse_content("Checked", Some(false));
    assert!(line_matches(&q, "checked"));
    let q = parse_content("checked", Some(true));
    assert!(!line_matches(&q, "CHECKED"));
}
