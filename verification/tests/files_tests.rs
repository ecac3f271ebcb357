use russee::engine::files::{files_display_path, FileEngine};

#[test]
fn files_display_path_strips_leading_dot() {
    assert_eq!(files_display_path("./src/main.rs"), "src/main.rs");
    assert_eq!(files_display_path("src/parser.rs"), "src/parser.rs");
    assert_eq!(files_display_path("/abs/x.rs"), "/abs/x.rs");
}

/// Drives the engine until the match counts settle, then collects the paths.
fn matched_paths(engine: &mut FileEngine) -> Vec<String> {
    let mut last = (usize::MAX, usize::MAX);
    let mut stable = 0;
    for _ in 0..500 {
        engine.tick();
        let (_items, matched, total) = engine.snapshot(0, 0);
        if (matched, total) == last {
            stable += 1;
            if stable >= 10 {
                break;
            }
        } else {
            stable = 0;
            last = (matched, total);
        }
    }
    let (items, matched, _total) = engine.snapshot(0, 10_000);
    assert_eq!(items.len(), matched.min(10_000));
    items.iter().map(|i| i.selection_string()).collect()
}

fn feed(engine: &FileEngine, paths: &[&str]) {
    let injector = engine.injector();
    for p in paths {
        injector.push(p.to_string(), |s, columns| {
            columns[0] = s.as_str().into();
        });
    }
}

#[test]
fn fresh_engine_has_no_paths() {
    let engine = FileEngine::new();
    let (items, matched, total) = engine.snapshot(0, 10);
    assert!(items.is_empty());
    assert_eq!(matched, 0);
    assert_eq!(total, 0);
}

#[test]
fn fuzzy_query_keeps_matching_paths_only() {
    let mut engine = FileEngine::new();
    feed(&engine, &["src/parser.rs", "src/lexer.rs", "README.md"]);
    engine.set_query("parser", None);
    let paths = matched_paths(&mut engine);
    assert_eq!(paths, vec!["src/parser.rs".to_string()]);
    let (_items, _matched, total) = engine.snapshot(0, 0);
    assert_eq!(total, 3);
}

#[test]
fn empty_query_matches_every_path_and_pages() {
    let mut engine = FileEngine::new();
    feed(&engine, &["a.rs", "b.rs", "c.rs"]);
    engine.set_query("", None);
    let paths = matched_paths(&mut engine);
    assert_eq!(paths.len(), 3);
    let (page, matched, _total) = engine.snapshot(1, 5);
    assert_eq!(matched, 3);
    assert_eq!(page.len(), 2);
    let (past_end, _, _) = engine.snapshot(3, 5);
    assert!(past_end.is_empty());
}

#[test]
fn respect_case_excludes_other_case() {
    let mut engine = FileEngine::new();
    feed(&engine, &["Main.rs", "main.rs"]);
    engine.set_query("Main", Some(true));
    let paths = matched_paths(&mut engine);
    assert_eq!(paths, vec!["Main.rs".to_string()]);
}
