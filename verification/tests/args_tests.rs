use russee::args::{parse, CliArgs};

fn parse_vec(args: &[&str]) -> CliArgs {
    parse(args.iter().map(|s| s.to_string()).collect())
}

#[test]
fn defaults_to_current_dir_no_filters() {
    let a = parse_vec(&[]);
    assert_eq!(a.root, ".");
    assert!(a.filters.types.is_empty());
    assert!(a.filters.globs.is_empty());
    assert!(a.cli_query.is_none());
}

#[test]
fn positional_root_is_captured() {
    let a = parse_vec(&["src"]);
    assert_eq!(a.root, "src");
}

#[test]
fn type_and_glob_flags_accumulate() {
    let a = parse_vec(&[
        "-t", "rust", "--type", "toml", "-g", "!*.lock", "-g", "src/**",
    ]);
    assert_eq!(
        a.filters.types,
        vec!["rust".to_string(), "toml".to_string()]
    );
    assert_eq!(
        a.filters.globs,
        vec!["!*.lock".to_string(), "src/**".to_string()]
    );
    assert_eq!(a.root, ".");
}

#[test]
fn cli_flag_captures_query() {
    let a = parse_vec(&["--cli", "checked_add"]);
    assert_eq!(a.cli_query.as_deref(), Some("checked_add"));
    assert_eq!(a.root, ".");
}

#[test]
fn ignore_case_flag() {
    let a = parse_vec(&["--cli", "Foo", "-i"]);
    assert_eq!(a.case_sensitive, Some(false));
}

#[test]
fn no_cli_means_none() {
    let a = parse_vec(&["src"]);
    assert!(a.cli_query.is_none());
}
