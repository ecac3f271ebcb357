//! What the screen shows: titles, status and help text, which result and preview
//! rows are visible, and how the query line is split around the cursor.
//! Laying the panes out and painting them is the terminal front end's part.
use vstd::prelude::*;

use crate::app::{App, Mode};
use crate::text::{append_chars, chars_of, contains_chars, decimal, has_substring, push_decimal, string_of};
use crate::types::{raw_label, sanitize};

verus! {

/// Narrowest body (in columns) that still gets a preview pane.
pub const PREVIEW_MIN_WIDTH: usize = 80;

/// The mode shown in the search box title.
pub open spec fn mode_label_spec(mode: Mode, regex: bool) -> Seq<char> {
    match mode {
        Mode::File => "Files"@,
        Mode::Content => if regex {
            "Content [regex]"@
        } else {
            "Content"@
        },
    }
}

pub fn mode_label(mode: Mode, regex: bool) -> (r: &'static str)
    ensures
        r@ == mode_label_spec(mode, regex),
{
    match mode {
        Mode::File => "Files",
        Mode::Content => if regex {
            "Content [regex]"
        } else {
            "Content"
        },
    }
}

/// The search box title: `Search · <mode>`.
pub fn search_title(mode: Mode, regex: bool) -> (r: String)
    ensures
        r@ == "Search \u{b7} "@ + mode_label_spec(mode, regex),
{
    let mut v = chars_of("Search \u{b7} ");
    let m = chars_of(mode_label(mode, regex));
    append_chars(&mut v, &m);
    string_of(&v)
}

/// Whether the preview pane is drawn beside the list.
pub fn show_preview_pane(show_preview: bool, body_width: usize) -> (r: bool)
    ensures
        r == (show_preview && body_width >= PREVIEW_MIN_WIDTH),
{
    show_preview && body_width >= PREVIEW_MIN_WIDTH
}

/// Rows inside a bordered pane of the given height.
pub fn inner_height(height: usize) -> (r: usize)
    ensures
        r == if height >= 2 {
            (height - 2) as usize
        } else {
            0
        },
{
    height.saturating_sub(2)
}

/// The results pane title: `Results (<count>)`.
pub fn results_title(count: usize) -> (r: String)
    ensures
        r@ == "Results ("@ + decimal(count as nat) + ")"@,
{
    let mut v = chars_of("Results (");
    push_decimal(&mut v, count);
    let close = chars_of(")");
    append_chars(&mut v, &close);
    string_of(&v)
}

/// Number of rows visible from `scroll` in a list of `len` with `rows` rows of room.
pub open spec fn visible_count(len: int, scroll: int, rows: int) -> int {
    if scroll >= len {
        0
    } else if len - scroll < rows {
        len - scroll
    } else {
        rows
    }
}

/// The result rows on screen, top to bottom: each item's list label and whether it
/// is the selected one.
pub fn list_rows(app: &App, rows: usize) -> (r: Vec<(String, bool)>)
    ensures
        r@.len() == visible_count(app@.results.len() as int, app.scroll as int, rows as int),
        forall|j: int|
            0 <= j < r@.len() ==> (#[trigger] r@[j]).0@ == sanitize(
                raw_label(app@.results[app.scroll + j]),
            ) && r@[j].1 == (app.scroll + j == app.selected),
{
    let len = app.results.len();
    let mut out: Vec<(String, bool)> = Vec::new();
    if app.scroll >= len {
        return out;
    }
    let count = if len - app.scroll < rows {
        len - app.scroll
    } else {
        rows
    };
    let mut j: usize = 0;
    while j < count
        invariant
            j <= count,
            count == visible_count(len as int, app.scroll as int, rows as int),
            app.scroll + count <= len == app.results@.len(),
            out@.len() == j,
            forall|k: int|
                0 <= k < j ==> (#[trigger] out@[k]).0@ == sanitize(
                    raw_label(app@.results[app.scroll + k]),
                ) && out@[k].1 == (app.scroll + k == app.selected),
        decreases count - j,
    {
        let i = app.scroll + j;
        let label = app.results[i].list_label();
        out.push((label, i == app.selected));
        j += 1;
    }
    out
}

/// The case setting shown in the status line.
pub open spec fn case_label_spec(case_sensitive: Option<bool>) -> Seq<char> {
    match case_sensitive {
        None => "smart-case"@,
        Some(true) => "case-sensitive"@,
        Some(false) => "ignore-case"@,
    }
}

pub fn case_label(case_sensitive: Option<bool>) -> (r: &'static str)
    ensures
        r@ == case_label_spec(case_sensitive),
{
    match case_sensitive {
        None => "smart-case",
        Some(true) => "case-sensitive",
        Some(false) => "ignore-case",
    }
}

/// The status line: the engine status and the case setting.
pub fn status_line(status: &str, case_sensitive: Option<bool>) -> (r: String)
    ensures
        r@ == status@ + "  \u{b7}  "@ + case_label_spec(case_sensitive),
{
    let mut v = chars_of(status);
    let sep = chars_of("  \u{b7}  ");
    append_chars(&mut v, &sep);
    let c = chars_of(case_label(case_sensitive));
    append_chars(&mut v, &c);
    string_of(&v)
}

/// A status mentioning "error" is shown as an error.
pub fn status_is_error(status: &str) -> (r: bool)
    ensures
        r == has_substring(status@, "error"@),
{
    let s = chars_of(status);
    let e = chars_of("error");
    contains_chars(&s, &e)
}

/// The key help line.
pub fn help_line() -> (r: &'static str)
    ensures
        r@ == "\u{2191}/\u{2193} move  \u{b7}  Enter print  \u{b7}  Ctrl+O editor  \u{b7}  Alt+C case  \u{b7}  Esc quit"@,
{
    "\u{2191}/\u{2193} move  \u{b7}  Enter print  \u{b7}  Ctrl+O editor  \u{b7}  Alt+C case  \u{b7}  Esc quit"
}

/// The query line split around the cursor: the text before it, the character under
/// it (a space at the end of the line), and the text after it.
pub open spec fn input_parts_spec(query: Seq<char>, cursor: usize) -> (Seq<char>, Seq<char>, Seq<char>) {
    let c = if cursor < query.len() {
        cursor as int
    } else {
        query.len() as int
    };
    (
        query.take(c),
        if c < query.len() {
            seq![query[c]]
        } else {
            seq![' ']
        },
        if c + 1 <= query.len() {
            query.skip(c + 1)
        } else {
            seq![]
        },
    )
}

pub fn input_parts(query: &str, cursor: usize) -> (r: (String, String, String))
    ensures
        (r.0@, r.1@, r.2@) == input_parts_spec(query@, cursor),
{
    let chars = chars_of(query);
    let c = if cursor < chars.len() {
        cursor
    } else {
        chars.len()
    };
    let before = crate::text::slice_chars(&chars, 0, c);
    let at: Vec<char> = if c < chars.len() {
        vec![chars[c]]
    } else {
        vec![' ']
    };
    let after: Vec<char> = if c < chars.len() {
        crate::text::slice_chars(&chars, c + 1, chars.len())
    } else {
        Vec::new()
    };
    assert(before@ =~= chars@.take(c as int));
    assert(c < chars.len() ==> after@ =~= chars@.skip(c + 1));
    assert(c >= chars.len() ==> after@ =~= seq![]);
    proof {
        if c < chars.len() {
            assert(at@ =~= seq![chars@[c as int]]);
        } else {
            assert(at@ =~= seq![' ']);
        }
    }
    (string_of(&before), string_of(&at), string_of(&after))
}

/// The preview rows on screen: the line indices shown, from `scroll`, and whether
/// each is the matched line (which gets a marker).
pub fn preview_rows(line_count: usize, match_index: Option<usize>, scroll: usize, rows: usize) -> (r: Vec<(usize, bool)>)
    ensures
        r@.len() == visible_count(line_count as int, scroll as int, rows as int),
        forall|j: int|
            0 <= j < r@.len() ==> (#[trigger] r@[j]).0 == scroll + j && r@[j].1 == (match_index
                == Some((scroll + j) as usize)),
{
    let mut out: Vec<(usize, bool)> = Vec::new();
    if scroll >= line_count {
        return out;
    }
    let count = if line_count - scroll < rows {
        line_count - scroll
    } else {
        rows
    };
    let mut j: usize = 0;
    while j < count
        invariant
            j <= count,
            scroll + count <= line_count,
            count == visible_count(line_count as int, scroll as int, rows as int),
            out@.len() == j,
            forall|k: int|
                0 <= k < j ==> (#[trigger] out@[k]).0 == scroll + k && out@[k].1 == (match_index
                    == Some((scroll + k) as usize)),
        decreases count - j,
    {
        let i = scroll + j;
        let marked = match match_index {
            Some(m) => m == i,
            None => false,
        };
        out.push((i, marked));
        j += 1;
    }
    out
}

} // verus!
