use russee::config::config_dir_from;

#[test]
fn config_dir_prefers_xdg() {
    assert_eq!(
        config_dir_from(Some("/x/cfg".to_string()), Some("/home/u".to_string())),
        Some("/x/cfg/russee".to_string())
    );
}

#[test]
fn config_dir_falls_back_to_home() {
    assert_eq!(
        config_dir_from(Some(String::new()), Some("/home/u".to_string())),
        Some("/home/u/.config/russee".to_string())
    );
    assert_eq!(config_dir_from(None, None), None);
}
