//! Result items and the text shown for them.
use vstd::prelude::*;

use crate::text::{
    append_chars, chars_of, char_is_control, decimal, is_control_char, push_decimal, string_of,
};

verus! {

/// Columns between tab stops when a tab is expanded for display.
pub const TAB_STOP: usize = 4;

/// The display form of `s`: each tab becomes spaces up to the next multiple of
/// `TAB_STOP` output columns, other control characters are dropped, and every other
/// character is kept.
pub open spec fn sanitize(s: Seq<char>) -> Seq<char>
    decreases s.len(),
{
    if s.len() == 0 {
        seq![]
    } else {
        let out = sanitize(s.drop_last());
        let c = s.last();
        if c == '\t' {
            out + Seq::new((TAB_STOP - out.len() % (TAB_STOP as nat)) as nat, |_i: int| ' ')
        } else if is_control_char(c) {
            out
        } else {
            out.push(c)
        }
    }
}

/// Makes text safe to render in a fixed-width pane: tabs become spaces and other
/// control characters are dropped. Terminals expand `\t` to a tab stop and act on
/// control bytes, while the renderer counts them as ~0 columns; sanitizing keeps the
/// two widths in step.
pub fn sanitize_line(text: &str) -> (r: String)
    ensures
        r@ == sanitize(text@),
{
    let chars = chars_of(text);
    let mut out: Vec<char> = Vec::new();
    let mut i: usize = 0;
    while i < chars.len()
        invariant
            i <= chars.len(),
            chars@ == text@,
            out@ == sanitize(chars@.take(i as int)),
        decreases chars.len() - i,
    {
        let c = chars[i];
        assert(chars@.take(i + 1).drop_last() == chars@.take(i as int));
        let ghost before = out@;
        if c == '\t' {
            let spaces = TAB_STOP - out.len() % TAB_STOP;
            let mut k: usize = 0;
            while k < spaces
                invariant
                    k <= spaces,
                    out@ == before + Seq::new(k as nat, |_i: int| ' '),
                decreases spaces - k,
            {
                out.push(' ');
                assert(before + Seq::new((k + 1) as nat, |_i: int| ' ') =~= (before + Seq::new(
                    k as nat,
                    |_i: int| ' ',
                )).push(' '));
                k += 1;
            }
        } else if char_is_control(c) {
        } else {
            out.push(c);
        }
        i += 1;
    }
    assert(chars@.take(chars.len() as int) == chars@);
    string_of(&out)
}

/// A search result: a whole file (file mode) or one matching line (content mode).
#[derive(Debug, Clone, PartialEq, Eq)]
pub enum Item {
    File { path: String },
    Content { path: String, line: usize, text: String },
}

/// The value of an `Item`, with its strings as character sequences.
pub enum ItemView {
    File { path: Seq<char> },
    Content { path: Seq<char>, line: usize, text: Seq<char> },
}

impl View for Item {
    type V = ItemView;

    open spec fn view(&self) -> ItemView {
        match self {
            Item::File { path } => ItemView::File { path: path@ },
            Item::Content { path, line, text } => ItemView::Content {
                path: path@,
                line: *line,
                text: text@,
            },
        }
    }
}

/// The path an item refers to.
pub open spec fn item_path(v: ItemView) -> Seq<char> {
    match v {
        ItemView::File { path } => path,
        ItemView::Content { path, .. } => path,
    }
}

/// The text `Enter` prints: `path`, or `path:line` for a content match.
pub open spec fn selection_text(v: ItemView) -> Seq<char> {
    match v {
        ItemView::File { path } => path,
        ItemView::Content { path, line, .. } => path + seq![':'] + decimal(line as nat),
    }
}

/// The target handed to the editor: the path, and the 1-based line for a content match.
pub open spec fn open_target_of(v: ItemView) -> (Seq<char>, Option<usize>) {
    match v {
        ItemView::File { path } => (path, None),
        ItemView::Content { path, line, .. } => (path, Some(line)),
    }
}

/// The unsanitized results-list label: `path`, or `path:line: text`.
pub open spec fn raw_label(v: ItemView) -> Seq<char> {
    match v {
        ItemView::File { path } => path,
        ItemView::Content { path, line, text } => path + seq![':'] + decimal(line as nat) + seq![
            ':',
            ' ',
        ] + text,
    }
}

impl Item {
    /// The text `Enter` prints to stdout.
    pub fn selection_string(&self) -> (r: String)
        ensures
            r@ == selection_text(self@),
    {
        match self {
            Item::File { path } => path.clone(),
            Item::Content { path, line, .. } => {
                let mut v = chars_of(path.as_str());
                v.push(':');
                push_decimal(&mut v, *line);
                string_of(&v)
            },
        }
    }

    /// (path, optional 1-based line) for opening in the editor.
    pub fn open_target(&self) -> (r: (String, Option<usize>))
        ensures
            (r.0@, r.1) == open_target_of(self@),
    {
        match self {
            Item::File { path } => (path.clone(), None),
            Item::Content { path, line, .. } => (path.clone(), Some(*line)),
        }
    }

    /// The label shown in the results list, sanitized so tabs and control characters
    /// in matched lines can't desync the list pane's width.
    pub fn list_label(&self) -> (r: String)
        ensures
            r@ == sanitize(raw_label(self@)),
    {
        match self {
            Item::File { path } => sanitize_line(path.as_str()),
            Item::Content { path, line, text } => {
                let mut v = chars_of(path.as_str());
                v.push(':');
                push_decimal(&mut v, *line);
                v.push(':');
                v.push(' ');
                let t = chars_of(text.as_str());
                append_chars(&mut v, &t);
                assert(v@ == raw_label(self@));
                let s = string_of(&v);
                sanitize_line(s.as_str())
            },
        }
    }
}

// ---------------------------------------------------------------------------
// Laws of the display sanitizer
// ---------------------------------------------------------------------------

/// Sanitized text holds no tab and no control character.
pub proof fn lemma_sanitize_clean(s: Seq<char>)
    ensures
        forall|i: int|
            0 <= i < sanitize(s).len() ==> #[trigger] sanitize(s)[i] != '\t' && !is_control_char(
                sanitize(s)[i],
            ),
    decreases s.len(),
{
    if s.len() > 0 {
        lemma_sanitize_clean(s.drop_last());
        let out = sanitize(s.drop_last());
        let c = s.last();
        if c == '\t' {
            let n = (TAB_STOP - out.len() % (TAB_STOP as nat)) as nat;
            let pad = Seq::new(n, |_i: int| ' ');
            assert forall|i: int| 0 <= i < sanitize(s).len() implies #[trigger] sanitize(s)[i]
                != '\t' && !is_control_char(sanitize(s)[i]) by {
                if i < out.len() {
                    assert(sanitize(s)[i] == out[i]);
                } else {
                    assert(sanitize(s)[i] == pad[i - out.len()]);
                }
            }
        } else if !is_control_char(c) {
            assert forall|i: int| 0 <= i < sanitize(s).len() implies #[trigger] sanitize(s)[i]
                != '\t' && !is_control_char(sanitize(s)[i]) by {
                if i < out.len() {
                    assert(sanitize(s)[i] == out[i]);
                }
            }
        }
    }
}

/// Text without tabs or control characters is left unchanged by sanitizing.
pub proof fn lemma_sanitize_identity(s: Seq<char>)
    requires
        forall|i: int| 0 <= i < s.len() ==> !is_control_char(#[trigger] s[i]),
    ensures
        sanitize(s) == s,
    decreases s.len(),
{
    if s.len() > 0 {
        lemma_sanitize_identity(s.drop_last());
        assert(!is_control_char(s.last()));
        assert(s.drop_last().push(s.last()) =~= s);
    }
}

/// A tab expands so that the text after it starts on a tab stop.
pub proof fn lemma_sanitize_tab_stop(s: Seq<char>)
    requires
        s.len() > 0,
        s.last() == '\t',
    ensures
        sanitize(s).len() % (TAB_STOP as nat) == 0,
        sanitize(s).len() > sanitize(s.drop_last()).len(),
{
    let out = sanitize(s.drop_last());
    let n = (TAB_STOP - out.len() % (TAB_STOP as nat)) as nat;
    assert(sanitize(s).len() == out.len() + n);
    assert((out.len() + (4 - out.len() % 4)) % 4 == 0) by (nonlinear_arith);
}

} // verus!
