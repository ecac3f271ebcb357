use russee::types::{sanitize_line, Item};

#[test]
fn file_item_selection_and_open_target() {
    let item = Item::File {
        path: "src/parser.rs".to_string(),
    };
    assert_eq!(item.selection_string(), "src/parser.rs");
    assert_eq!(item.open_target(), ("src/parser.rs".to_string(), None));
    assert_eq!(item.list_label(), "src/parser.rs");
}

#[test]
fn content_item_selection_open_and_label() {
    let item = Item::Content {
        path: "src/math.rs".to_string(),
        line: 14,
        text: "let t = a.checked_add(b);".to_string(),
    };
    assert_eq!(item.selection_string(), "src/math.rs:14");
    assert_eq!(item.open_target(), ("src/math.rs".to_string(), Some(14)));
    assert_eq!(
        item.list_label(),
        "src/math.rs:14: let t = a.checked_add(b);"
    );
}

#[test]
fn content_label_expands_tabs_and_drops_controls() {
    // go.mod require lines are tab-indented; the raw tab must not survive
    // into the list label (it desyncs the pane width and leaves residue).
    let item = Item::Content {
        path: "go.mod".to_string(),
        line: 8,
        text: "\tgithub.com/x/y v1.2.3".to_string(),
    };
    let label = item.list_label();
    assert!(!label.contains('\t'), "tab leaked: {label:?}");
    assert!(!label.chars().any(|c| c.is_control()));
    // Tab sits at column 10 (after "go.mod:8: "), so it fills to the next
    // stop with 2 spaces.
    assert_eq!(label, "go.mod:8:   github.com/x/y v1.2.3");
}

#[test]
fn sanitize_expands_tabs_to_tab_stops() {
    assert_eq!(sanitize_line("\tx"), "    x"); // tab at col 0 -> 4 spaces
    assert_eq!(sanitize_line("a\tb"), "a   b"); // tab at col 1 -> 3 spaces
    assert_eq!(sanitize_line("ab\tc"), "ab  c"); // tab at col 2 -> 2 spaces
}

#[test]
fn sanitize_drops_control_chars() {
    assert_eq!(sanitize_line("a\u{07}b\u{1b}c"), "abc"); // bell + ESC removed
    assert_eq!(sanitize_line("a\rb"), "ab"); // stray carriage return removed
    assert_eq!(sanitize_line("café — déjà"), "café — déjà"); // printable multibyte kept
}
