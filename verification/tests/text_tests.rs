use russee::config::{config_file_from, join_path, themes_dir};
use russee::text::{
    chars_of, contains_chars, eq_ignore_ascii_case, replace_chars, split_whitespace,
    usize_to_string,
};

fn v(s: &str) -> Vec<char> {
    s.chars().collect()
}

#[test]
fn decimal_rendering() {
    assert_eq!(usize_to_string(0), "0");
    assert_eq!(usize_to_string(7), "7");
    assert_eq!(usize_to_string(42), "42");
    assert_eq!(usize_to_string(1000), "1000");
    assert_eq!(usize_to_string(usize::MAX), usize::MAX.to_string());
}

#[test]
fn whitespace_splitting_matches_std() {
    for s in ["", "   ", "a b", "  add |  sub\tchecked\n", "x\u{3000}y\u{a0}z"] {
        let ours: Vec<String> = split_whitespace(&v(s))
            .into_iter()
            .map(|t| t.into_iter().collect())
            .collect();
        let std: Vec<String> = s.split_whitespace().map(String::from).collect();
        assert_eq!(ours, std, "splitting {s:?}");
    }
}

#[test]
fn substring_and_replace() {
    assert!(contains_chars(&v("a.checked_add(b)"), &v("checked")));
    assert!(!contains_chars(&v("check"), &v("checked")));
    assert!(contains_chars(&v("x"), &v("")));
    let r: String = replace_chars(&v("{file}:{line} {file}"), &v("{file}"), &v("a b.rs"))
        .into_iter()
        .collect();
    assert_eq!(r, "a b.rs:{line} a b.rs");
    let r: String = replace_chars(&v("aaa"), &v("aa"), &v("b")).into_iter().collect();
    assert_eq!(r, "aaa".replace("aa", "b"));
}

#[test]
fn ascii_case_folding() {
    assert!(eq_ignore_ascii_case(&v("Solarized (dark)"), &v("solarized (DARK)")));
    assert!(!eq_ignore_ascii_case(&v("Nord"), &v("Nordic")));
    assert!(!eq_ignore_ascii_case(&v("É"), &v("é")));
    assert_eq!(chars_of("áb"), vec!['á', 'b']);
}

#[test]
fn config_paths() {
    assert_eq!(join_path("/x/", "russee"), "/x/russee");
    assert_eq!(join_path("", "russee"), "russee");
    assert_eq!(
        themes_dir(None, Some("/home/u".to_string())),
        Some("/home/u/.config/russee/themes".to_string())
    );
    assert_eq!(
        config_file_from(Some("/x".to_string()), None),
        Some("/x/russee/config.toml".to_string())
    );
    assert_eq!(themes_dir(None, None), None);
}
