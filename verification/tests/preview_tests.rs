use russee::preview::{
    centered_scroll, has_wide, no_preview_window, preview_key, preview_refresh, preview_content,
    PreviewCache, PreviewContent, PreviewEngine, Window, WindowReader, CACHE_CAP, PREVIEW_CONTEXT,
    PREVIEW_MAX_LINE,
};
use russee::types::Item;

/// Feeds `content` line by line, as the file reader does, until the reader stops.
fn read_window(content: &[u8], center: usize, context: usize, max_line_len: usize) -> Window {
    let mut reader = WindowReader::new(center, context, max_line_len);
    let mut rest = content;
    while !rest.is_empty() {
        let end = rest.iter().position(|&b| b == b'\n').map_or(rest.len(), |i| i + 1);
        let (line, tail) = rest.split_at(end);
        rest = tail;
        let (next, more) = reader.feed(line);
        reader = next;
        if !more {
            break;
        }
    }
    reader.finish()
}

fn numbered_lines(n: usize) -> Vec<u8> {
    let mut out = String::new();
    for i in 1..=n {
        out.push_str(&format!("line {i}\n"));
    }
    out.into_bytes()
}

#[test]
fn window_around_center() {
    let w = read_window(&numbered_lines(100), 50, 10, 1000);
    assert_eq!(w.start_line, 40);
    assert_eq!(w.lines.len(), 21); // 40..=60
    assert_eq!(w.match_index, Some(10)); // 50 - 40
    assert_eq!(w.lines[10], "line 50");
    assert!(w.message.is_none());
}

#[test]
fn head_window_when_center_zero() {
    let w = read_window(&numbered_lines(100), 0, 10, 1000);
    assert_eq!(w.start_line, 1);
    assert_eq!(w.lines.first().map(String::as_str), Some("line 1"));
    assert!(w.match_index.is_none());
}

#[test]
fn binary_file_reports_message() {
    let w = read_window(b"abc\0def", 0, 10, 1000);
    assert_eq!(w.message.as_deref(), Some("binary file"));
    assert!(w.lines.is_empty());
}

#[test]
fn missing_file_reports_message() {
    let w = no_preview_window();
    assert_eq!(w.message.as_deref(), Some("no preview"));
}

#[test]
fn long_lines_are_truncated() {
    let w = read_window("x".repeat(5000).as_bytes(), 0, 10, 100);
    assert_eq!(w.lines[0].chars().count(), 100);
}

#[test]
fn read_window_lines_have_no_tabs_or_controls() {
    let w = read_window(b"func main() {\n\tprintln(\"hi\")\n}\n", 0, 10, 1000);
    for line in &w.lines {
        assert!(!line.contains('\t'), "tab leaked: {line:?}");
        assert!(
            !line.chars().any(|c| c.is_control()),
            "control char leaked: {line:?}"
        );
    }
    // The tab-indented body line is expanded, not dropped.
    assert!(w.lines.iter().any(|l| l.contains("    println")));
}

#[test]
fn centered_scroll_centers_the_match() {
    assert_eq!(centered_scroll(Some(40), 20), 30); // 40 - 20/2
    assert_eq!(centered_scroll(Some(5), 20), 0); // saturates at the top
    assert_eq!(centered_scroll(None, 20), 0); // file head
}

#[test]
fn window_near_the_top_starts_at_line_one() {
    let w = read_window(&numbered_lines(30), 3, 10, 1000);
    assert_eq!(w.start_line, 1);
    assert_eq!(w.lines.len(), 13); // 1..=13
    assert_eq!(w.match_index, Some(2));
    assert_eq!(w.lines[2], "line 3");
}

#[test]
fn binary_line_past_the_window_is_not_read() {
    let mut content = numbered_lines(30);
    content.extend_from_slice(b"\0binary tail\n");
    let w = read_window(&content, 5, 2, 1000);
    assert!(w.message.is_none());
    assert_eq!(w.lines, vec!["line 3", "line 4", "line 5", "line 6", "line 7"]);
}

#[test]
fn has_wide_flags_non_ascii_lines() {
    assert!(!has_wide(&vec!["plain ascii line".to_string()]));
    assert!(has_wide(&vec![
        "plain".to_string(),
        "arrow \u{2192} and box \u{25b6} glyphs".to_string()
    ]));
}

#[test]
fn preview_key_uses_line_for_content() {
    let f = Item::File {
        path: "a.rs".to_string(),
    };
    let c = Item::Content {
        path: "a.rs".to_string(),
        line: 10,
        text: "x".to_string(),
    };
    assert_eq!(preview_key(&f), ("a.rs".to_string(), 0));
    assert_eq!(preview_key(&c), ("a.rs".to_string(), 10));
}

#[test]
fn second_lookup_is_cached() {
    let mut cache: PreviewCache<u32> = PreviewCache::new();
    assert_eq!(cache.get("a.rs", 0), None);
    cache = cache.insert("a.rs", 0, 7);
    assert_eq!(cache.get("a.rs", 0), Some(&7));
    assert_eq!(cache.get("a.rs", 1), None);
    cache = cache.insert("a.rs", 0, 8);
    assert_eq!(cache.get("a.rs", 0), Some(&8));
    assert_eq!(cache.len(), 1);
}

#[test]
fn cache_drops_the_oldest_entry_when_full() {
    let mut cache: PreviewCache<usize> = PreviewCache::new();
    for i in 0..CACHE_CAP {
        cache = cache.insert("f", i, i);
    }
    assert_eq!(cache.len(), CACHE_CAP);
    assert_eq!(cache.get("f", 0), Some(&0));
    cache = cache.insert("g", 0, 99);
    assert_eq!(cache.len(), CACHE_CAP);
    assert_eq!(cache.get("f", 0), None);
    assert_eq!(cache.get("f", 1), Some(&1));
    assert_eq!(cache.get("g", 0), Some(&99));
}

#[test]
fn preview_is_refreshed_only_when_the_key_changes() {
    let a = Some(("src/a.rs".to_string(), 4));
    let b = Some(("src/a.rs".to_string(), 5));
    assert_eq!(preview_refresh(&a, &a.clone(), true), (false, false));
    assert_eq!(preview_refresh(&a, &b, false), (true, false));
    assert_eq!(preview_refresh(&a, &b, true), (true, true));
    assert_eq!(preview_refresh(&None, &a, false), (true, false));
    assert_eq!(preview_refresh(&None, &None, true), (false, false));
}

/// Renders `item` whose file holds `content`, reading the window as the program does.
fn render(engine: &mut PreviewEngine, item: &Item, content: &[u8]) -> PreviewContent {
    engine.render(item, |_path: String, center: usize| {
        read_window(content, center, PREVIEW_CONTEXT, PREVIEW_MAX_LINE)
    })
}

fn line_text(spans: &[(Option<(u8, u8, u8)>, String)]) -> String {
    spans.iter().map(|(_, t)| t.as_str()).collect()
}

#[test]
fn renders_nonempty_for_a_real_file() {
    let mut engine = PreviewEngine::new();
    let item = Item::File { path: "a.rs".to_string() };
    let content = render(&mut engine, &item, b"fn main() {}\nlet x = 1;\n");
    assert!(content.message.is_none());
    assert!(!content.lines.is_empty());
    assert_eq!(line_text(&content.lines[0]), "fn main() {}");
    assert_eq!(line_text(&content.lines[1]), "let x = 1;");
    assert!(content.lines[0].iter().all(|(colour, _)| colour.is_some()));
}

#[test]
fn content_item_marks_match_line() {
    let mut engine = PreviewEngine::new();
    let item = Item::Content {
        path: "a.rs".to_string(),
        line: 10,
        text: "line 10".to_string(),
    };
    let content = render(&mut engine, &item, &numbered_lines(20));
    assert_eq!(content.match_index, Some(9));
    assert_eq!(content.lines.len(), 20);
    assert_eq!(line_text(&content.lines[9]), "line 10");
}

#[test]
fn has_wide_flags_non_ascii_previews() {
    let mut engine = PreviewEngine::new();
    let ascii = Item::File { path: "ascii.txt".to_string() };
    let wide = Item::File { path: "wide.txt".to_string() };
    assert!(!render(&mut engine, &ascii, b"plain ascii line\n").has_wide);
    assert!(render(&mut engine, &wide, "arrow \u{2192} and box \u{25b6} glyphs\n".as_bytes()).has_wide);
}

#[test]
fn binary_file_yields_message() {
    let mut engine = PreviewEngine::new();
    let item = Item::File { path: "bin.dat".to_string() };
    let content = render(&mut engine, &item, b"abc\0def");
    assert_eq!(content.message.as_deref(), Some("binary file"));
    assert!(content.lines.is_empty());
    assert!(!content.has_wide);
}

#[test]
fn second_render_is_cached() {
    let mut engine = PreviewEngine::new();
    let item = Item::File { path: "a.rs".to_string() };
    let a = render(&mut engine, &item, b"fn main() {}\n");
    // A cached preview is returned without reading the file again.
    let b = engine.render(&item, |_path: String, _center: usize| -> Window {
        panic!("the cached preview must not be read again")
    });
    assert_eq!(a.lines, b.lines);
    let other = Item::Content { path: "a.rs".to_string(), line: 1, text: String::new() };
    let c = render(&mut engine, &other, b"changed\n");
    assert_eq!(line_text(&c.lines[0]), "changed");
}

#[test]
fn reader_gets_the_item_path_and_line() {
    let mut engine = PreviewEngine::new();
    let item = Item::Content { path: "src/x.rs".to_string(), line: 7, text: String::new() };
    let mut seen = None;
    engine.render(&item, |path: String, center: usize| {
        seen = Some((path, center));
        no_preview_window()
    });
    assert_eq!(seen, Some(("src/x.rs".to_string(), 7)));
}

#[test]
fn preview_content_keeps_message_or_lines() {
    let w = no_preview_window();
    let c = preview_content(&w, vec![vec![(None, "x".to_string())]]);
    assert_eq!(c.message.as_deref(), Some("no preview"));
    assert!(c.lines.is_empty());
    let w = read_window(b"a\n\xe2\x86\x92\n", 0, 10, 100);
    let c = preview_content(&w, vec![vec![(None, "a".to_string())]]);
    assert!(c.message.is_none());
    assert!(c.has_wide);
    assert_eq!(c.lines.len(), 1);
}
