//! The preview pane: which part of a file to show, how it is highlighted, and a small
//! cache of rendered previews.
//!
//! Only a window of lines around the match is read: the caller feeds the file's
//! lines to a `WindowReader` until it says stop.
use vstd::prelude::*;

use crate::engine::content::{
    ascii_bytes, ascii_chars, contains_nul, has_nul, line_text, line_text_of, trim_line_end,
};
use crate::text::{chars_eq, chars_of, string_of};
use crate::types::{sanitize, sanitize_line, Item};

verus! {

/// Lines of context shown above and below a content match.
pub const PREVIEW_CONTEXT: usize = 40;

/// Longest preview line, in characters; longer lines are cut.
pub const PREVIEW_MAX_LINE: usize = 1000;

/// How many rendered previews are kept.
pub const CACHE_CAP: usize = 128;

/// The lines of a file chosen for the preview pane.
#[derive(Debug, Clone, PartialEq, Eq)]
pub struct Window {
    pub lines: Vec<String>,
    /// 1-based number of the first line in `lines` (0 when there are none to show).
    pub start_line: usize,
    /// Index in `lines` of the matched line, for a content match.
    pub match_index: Option<usize>,
    /// Shown instead of the lines when the file cannot be previewed.
    pub message: Option<String>,
}

/// The value of a `Window`.
pub struct WindowView {
    pub lines: Seq<Seq<char>>,
    pub start_line: usize,
    pub match_index: Option<usize>,
    pub message: Option<Seq<char>>,
}

impl View for Window {
    type V = WindowView;

    open spec fn view(&self) -> WindowView {
        WindowView {
            lines: self.lines@.map_values(|s: String| s@),
            start_line: self.start_line,
            match_index: self.match_index,
            message: match self.message {
                Some(m) => Some(m@),
                None => None,
            },
        }
    }
}

/// First line of the window (1-based): the file head when there is no match
/// (`center == 0`), else `context` lines above the match, but not before line 1.
pub open spec fn window_start(center: usize, context: usize) -> int {
    if center == 0 {
        1
    } else if center > context + 1 {
        center - context
    } else {
        1
    }
}

/// Last line of the window (inclusive).
pub open spec fn window_end(center: usize, context: usize) -> int {
    if center == 0 {
        1 + 2 * context
    } else {
        center + context
    }
}

/// A file line as shown: decoded, terminator stripped, sanitized, and cut to
/// `max_len` characters.
pub open spec fn display_line(raw: Seq<u8>, max_len: usize) -> Seq<char> {
    let s = sanitize(line_text_of(raw));
    if s.len() <= max_len {
        s
    } else {
        s.take(max_len as int)
    }
}

/// An ASCII raw line decodes to its bytes as characters.
pub open spec fn ascii_line_decoded(raw: Seq<u8>) -> bool {
    ascii_bytes(raw) ==> line_text_of(raw) == trim_line_end(ascii_chars(raw))
}

/// Some line holds a NUL byte.
pub open spec fn any_nul(fed: Seq<Seq<u8>>) -> bool {
    exists|k: int| 0 <= k < fed.len() && has_nul(#[trigger] fed[k])
}

/// The window made from the lines read so far (`fed`, in file order).
/// A line with a NUL byte makes the whole file "binary file".
pub open spec fn window_spec(center: usize, context: usize, max_len: usize, fed: Seq<Seq<u8>>) -> WindowView {
    if any_nul(fed) {
        WindowView { lines: seq![], start_line: 0, match_index: None, message: Some("binary file"@) }
    } else {
        let start = window_start(center, context);
        let stop = if fed.len() < window_end(center, context) {
            fed.len() as int
        } else {
            window_end(center, context)
        };
        let count = if stop >= start {
            stop - start + 1
        } else {
            0
        };
        WindowView {
            lines: Seq::new(count as nat, |j: int| display_line(fed[start - 1 + j], max_len)),
            start_line: start as usize,
            match_index: if center == 0 {
                None
            } else {
                Some((center - start) as usize)
            },
            message: None,
        }
    }
}

/// A window never holds more than `2 * context + 1` lines.
pub proof fn law_window_size(center: usize, context: usize, max_len: usize, fed: Seq<Seq<u8>>)
    ensures
        window_spec(center, context, max_len, fed).lines.len() <= 2 * context + 1,
{
}

/// For a content match inside a readable text file, the marked line of the window is
/// the matched line, shown as display text.
pub proof fn law_window_marks_match(center: usize, context: usize, max_len: usize, fed: Seq<Seq<u8>>)
    requires
        center > 0,
        fed.len() >= center,
        !any_nul(fed),
    ensures
        window_spec(center, context, max_len, fed).match_index matches Some(mi) && mi < window_spec(
            center,
            context,
            max_len,
            fed,
        ).lines.len() && window_spec(center, context, max_len, fed).lines[mi as int]
            == display_line(fed[center - 1], max_len),
{
    let w = window_spec(center, context, max_len, fed);
    let start = window_start(center, context);
    let mi = center - start;
    assert(w.lines[mi] == display_line(fed[start - 1 + mi], max_len));
}

/// The window shown for a file that cannot be opened.
pub fn no_preview_window() -> (w: Window)
    ensures
        w@.lines.len() == 0,
        w@.start_line == 0,
        w@.match_index is None,
        w@.message == Some("no preview"@),
{
    let w = Window {
        lines: Vec::new(),
        start_line: 0,
        match_index: None,
        message: Some(string_of(&chars_of("no preview"))),
    };
    assert(w@.lines =~= seq![]);
    w
}

/// Reads the window around `center` (1-based; 0 = no match, show the head) from the
/// lines the caller feeds in file order.
pub struct WindowReader {
    center: usize,
    context: usize,
    max_line_len: usize,
    start: usize,
    end: usize,
    line_no: usize,
    lines: Vec<String>,
    binary: bool,
    done: bool,
    fed: Ghost<Seq<Seq<u8>>>,
}

impl WindowReader {
    /// The lines fed so far.
    pub closed spec fn fed(&self) -> Seq<Seq<u8>> {
        self.fed@
    }

    /// Whether the reader needs no more lines.
    pub closed spec fn is_done(&self) -> bool {
        self.done
    }

    pub closed spec fn params(&self) -> (usize, usize, usize) {
        (self.center, self.context, self.max_line_len)
    }

    #[verifier::type_invariant]
    spec fn wf(&self) -> bool {
        &&& self.start == window_start(self.center, self.context)
        &&& self.end == window_end(self.center, self.context)
        &&& self.end < usize::MAX
        &&& 1 <= self.start
        &&& self.line_no == self.fed@.len()
        &&& self.binary == any_nul(self.fed@)
        &&& !self.binary ==> {
            let stop = if self.line_no < self.end { self.line_no as int } else { self.end as int };
            &&& self.lines@.len() == (if stop >= self.start { stop - self.start + 1 } else { 0 })
            &&& forall|j: int| 0 <= j < self.lines@.len() ==> (#[trigger] self.lines@[j])@
                == display_line(self.fed@[self.start - 1 + j], self.max_line_len)
            &&& forall|k: int| self.start - 1 <= k < self.start - 1 + self.lines@.len()
                ==> ascii_line_decoded(#[trigger] self.fed@[k])
        }
        &&& self.binary ==> self.done
        &&& self.line_no > self.end ==> self.done
        &&& !self.done ==> self.line_no <= self.end
    }

    /// A reader for the window around `center` with `context` lines each side,
    /// cutting lines to `max_line_len` characters.
    pub fn new(center: usize, context: usize, max_line_len: usize) -> (r: Self)
        requires
            center == 0 ==> 2 * context + 2 < usize::MAX,
            center > 0 ==> center + context < usize::MAX,
        ensures
            r.fed().len() == 0,
            !r.is_done(),
            r.params() == (center, context, max_line_len),
    {
        let (start, end) = if center == 0 {
            (1, 1 + 2 * context)
        } else {
            (if center > context + 1 { center - context } else { 1 }, center + context)
        };
        WindowReader {
            center,
            context,
            max_line_len,
            start,
            end,
            line_no: 0,
            lines: Vec::new(),
            binary: false,
            done: false,
            fed: Ghost(Seq::empty()),
        }
    }

    /// Whether the reader needs no more lines.
    pub fn done(&self) -> (r: bool)
        ensures
            r == self.is_done(),
    {
        self.done
    }

    /// Takes the next raw line of the file (terminator included). Returns whether more
    /// lines are wanted: reading stops at a binary line or past the window. Once the
    /// reader is done it ignores further lines.
    pub fn feed(self, raw: &[u8]) -> (r: (Self, bool))
        ensures
            r.0.params() == self.params(),
            self.is_done() ==> !r.1 && r.0.fed() == self.fed() && r.0.is_done(),
            !self.is_done() ==> r.0.fed() == self.fed().push(raw@) && r.1 == !r.0.is_done(),
    {
        proof {
            use_type_invariant(&self);
        }
        if self.done {
            return (self, false);
        }
        let ghost old_fed = self.fed@;
        let ghost new_fed = old_fed.push(raw@);
        let WindowReader {
            center,
            context,
            max_line_len,
            start,
            end,
            line_no: old_line_no,
            lines: old_lines,
            binary: _,
            done: _,
            fed: _,
        } = self;
        let mut lines = old_lines;
        let line_no = old_line_no + 1;
        let mut binary = false;
        let mut done = false;
        if contains_nul(raw) {
            binary = true;
            done = true;
            assert(has_nul(new_fed[old_fed.len() as int]));
        } else {
            assert forall|k: int| 0 <= k < new_fed.len() implies !has_nul(#[trigger] new_fed[k]) by {
                if k < old_fed.len() {
                    assert(new_fed[k] == old_fed[k]);
                }
            }
            if line_no < start {
            } else if line_no > end {
                done = true;
            } else {
                let text = line_text(raw);
                let clean = sanitize_line(text.as_str());
                let chars = chars_of(clean.as_str());
                let cut = if chars.len() <= max_line_len {
                    chars
                } else {
                    crate::text::slice_chars(&chars, 0, max_line_len)
                };
                assert(cut@ == display_line(raw@, max_line_len)) by {
                    if chars@.len() > max_line_len {
                        assert(chars@.subrange(0, max_line_len as int) =~= chars@.take(
                            max_line_len as int,
                        ));
                    }
                }
                let ghost before = lines@;
                lines.push(string_of(&cut));
                assert forall|j: int| 0 <= j < lines@.len() implies (#[trigger] lines@[j])@
                    == display_line(new_fed[start - 1 + j], max_line_len) by {
                    if j < before.len() {
                        assert(lines@[j] == before[j]);
                    }
                }
            }
        }
        let next = WindowReader {
            center,
            context,
            max_line_len,
            start,
            end,
            line_no,
            lines,
            binary,
            done,
            fed: Ghost(new_fed),
        };
        (next, !done)
    }

    /// The window for the lines read.
    pub fn finish(self) -> (w: Window)
        ensures
            w@ == window_spec(self.params().0, self.params().1, self.params().2, self.fed()),
            w.message is None ==> forall|k: int|
                window_start(self.params().0, self.params().1) - 1 <= k < window_start(
                    self.params().0,
                    self.params().1,
                ) - 1 + w.lines@.len() ==> ascii_line_decoded(#[trigger] self.fed()[k]),
    {
        proof {
            use_type_invariant(&self);
        }
        if self.binary {
            let w = Window {
                lines: Vec::new(),
                start_line: 0,
                match_index: None,
                message: Some(string_of(&chars_of("binary file"))),
            };
            assert(w@.lines =~= seq![]);
            return w;
        }
        let match_index = if self.center == 0 {
            None
        } else {
            Some(self.center - self.start)
        };
        let ghost spec = window_spec(self.center, self.context, self.max_line_len, self.fed@);
        let ghost lines_before = self.lines@;
        let w = Window { lines: self.lines, start_line: self.start, match_index, message: None };
        assert(w@.lines =~= spec.lines);
        w
    }
}

/// The preview scroll offset that vertically centers the matched line in a pane
/// `viewport` rows tall; 0 when there is no match (show the file head).
pub fn centered_scroll(match_index: Option<usize>, viewport: usize) -> (r: usize)
    ensures
        r == match match_index {
            Some(mi) => if mi >= viewport / 2 {
                (mi - viewport / 2) as usize
            } else {
                0
            },
            None => 0,
        },
{
    match match_index {
        Some(mi) => mi.saturating_sub(viewport / 2),
        None => 0,
    }
}

/// What a preview is cached under: the item's path and, for a content match, its
/// line (0 for a whole file).
pub fn preview_key(item: &Item) -> (k: (String, usize))
    ensures
        k.0@ == crate::types::item_path(item@),
        k.1 == match item@ {
            crate::types::ItemView::File { .. } => 0,
            crate::types::ItemView::Content { line, .. } => line,
        },
{
    match item {
        Item::File { path } => (path.clone(), 0),
        Item::Content { path, line, .. } => (path.clone(), *line),
    }
}

/// The value of an optional preview key.
pub open spec fn key_view(k: Option<(String, usize)>) -> Option<(Seq<char>, usize)> {
    match k {
        Some(p) => Some((p.0@, p.1)),
        None => None,
    }
}

/// What a frame does about the preview, given the selected item's key, the key of the
/// preview on screen and whether that preview holds wide glyphs: render a new preview
/// exactly when the key changed, and then repaint the whole screen first when the
/// preview being left held wide glyphs (they can bleed past the pane's border).
pub fn preview_refresh(
    key: &Option<(String, usize)>,
    shown: &Option<(String, usize)>,
    shown_has_wide: bool,
) -> (r: (bool, bool))
    ensures
        r.0 == (key_view(*key) != key_view(*shown)),
        r.1 == (r.0 && shown_has_wide),
{
    let changed = match (key, shown) {
        (Some(a), Some(b)) => {
            let ac = chars_of(a.0.as_str());
            let bc = chars_of(b.0.as_str());
            !(a.1 == b.1 && chars_eq(&ac, &bc))
        },
        (None, None) => false,
        _ => true,
    };
    (changed, changed && shown_has_wide)
}

/// Whether the text holds a non-ASCII character.
pub open spec fn has_non_ascii(s: Seq<char>) -> bool {
    exists|i: int| 0 <= i < s.len() && (#[trigger] s[i] as u32) >= 128
}

/// Whether any line holds a non-ASCII character (which can render wider than one
/// column and needs a full repaint when it goes away).
pub fn has_wide(lines: &Vec<String>) -> (r: bool)
    ensures
        r == exists|k: int| 0 <= k < lines@.len() && has_non_ascii(#[trigger] lines@[k]@),
{
    let mut k: usize = 0;
    while k < lines.len()
        invariant
            k <= lines.len(),
            forall|kk: int| 0 <= kk < k ==> !has_non_ascii(#[trigger] lines@[kk]@),
        decreases lines.len() - k,
    {
        let chars = chars_of(lines[k].as_str());
        let mut i: usize = 0;
        while i < chars.len()
            invariant
                i <= chars.len(),
                k < lines@.len(),
                chars@ == lines@[k as int]@,
                forall|ii: int| 0 <= ii < i ==> (#[trigger] chars@[ii] as u32) < 128,
            decreases chars.len() - i,
        {
            if (chars[i] as u32) >= 128 {
                assert(has_non_ascii(lines@[k as int]@));
                return true;
            }
            i += 1;
        }
        k += 1;
    }
    false
}

/// Picks a built-in theme by name: the first of `names` equal to `name` ignoring
/// ASCII case.
pub fn theme_index(names: &Vec<String>, name: &str) -> (r: Option<usize>)
    ensures
        match r {
            Some(k) => k < names@.len() && crate::text::eq_ascii_nocase(names@[k as int]@, name@)
                && forall|j: int| 0 <= j < k ==> !crate::text::eq_ascii_nocase(
                    (#[trigger] names@[j])@,
                    name@,
                ),
            None => forall|j: int| 0 <= j < names@.len() ==> !crate::text::eq_ascii_nocase(
                (#[trigger] names@[j])@,
                name@,
            ),
        },
{
    let wanted = chars_of(name);
    let mut k: usize = 0;
    while k < names.len()
        invariant
            k <= names.len(),
            wanted@ == name@,
            forall|j: int| 0 <= j < k ==> !crate::text::eq_ascii_nocase(
                (#[trigger] names@[j])@,
                name@,
            ),
        decreases names.len() - k,
    {
        let candidate = chars_of(names[k].as_str());
        if crate::text::eq_ignore_ascii_case(&candidate, &wanted) {
            return Some(k);
        }
        k += 1;
    }
    None
}

// ---------------------------------------------------------------------------
// The preview cache
// ---------------------------------------------------------------------------

/// Rendered previews keyed by (path, line), at most `CACHE_CAP` of them; when full,
/// the entry inserted first is dropped.
pub struct PreviewCache<V> {
    entries: Vec<(Vec<char>, usize, V)>,
}

pub open spec fn entry_key<V>(e: (Vec<char>, usize, V)) -> (Seq<char>, usize) {
    (e.0@, e.1)
}

impl<V> PreviewCache<V> {
    /// The entries, oldest first, as (key, value).
    pub closed spec fn entries(&self) -> Seq<((Seq<char>, usize), V)> {
        self.entries@.map_values(|e: (Vec<char>, usize, V)| (entry_key(e), e.2))
    }

    /// At most `CACHE_CAP` entries, no key twice.
    pub open spec fn bounded_distinct(entries: Seq<((Seq<char>, usize), V)>) -> bool {
        &&& entries.len() <= CACHE_CAP
        &&& forall|i: int, j: int|
            0 <= i < j < entries.len() ==> #[trigger] entries[i].0 != #[trigger] entries[j].0
    }

    #[verifier::type_invariant]
    spec fn wf(&self) -> bool {
        Self::bounded_distinct(self.entries())
    }

    /// The value stored under `key`, if any.
    pub open spec fn lookup(&self, key: (Seq<char>, usize)) -> Option<V> {
        if exists|i: int| 0 <= i < self.entries().len() && #[trigger] self.entries()[i].0 == key {
            let i = choose|i: int| 0 <= i < self.entries().len() && #[trigger] self.entries()[i].0
                == key;
            Some(self.entries()[i].1)
        } else {
            None
        }
    }

    pub fn new() -> (c: Self)
        ensures
            c.entries().len() == 0,
    {
        let c = PreviewCache { entries: Vec::new() };
        assert(c.entries() =~= seq![]);
        c
    }

    /// Number of cached previews; never more than `CACHE_CAP`.
    pub fn len(&self) -> (n: usize)
        ensures
            n == self.entries().len(),
            n <= CACHE_CAP,
    {
        proof {
            use_type_invariant(self);
        }
        self.entries.len()
    }

    fn find(&self, path: &[char], line: usize) -> (r: Option<usize>)
        ensures
            match r {
                Some(i) => i < self.entries().len() && self.entries()[i as int].0 == (path@, line),
                None => forall|i: int|
                    0 <= i < self.entries().len() ==> #[trigger] self.entries()[i].0 != (path@, line),
            },
    {
        let mut i: usize = 0;
        while i < self.entries.len()
            invariant
                i <= self.entries.len(),
                forall|k: int| 0 <= k < i ==> #[trigger] self.entries()[k].0 != (path@, line),
            decreases self.entries.len() - i,
        {
            if self.entries[i].1 == line && chars_eq(&self.entries[i].0, path) {
                return Some(i);
            }
            assert(self.entries()[i as int].0 == (self.entries@[i as int].0@, self.entries@[i as int].1));
            i += 1;
        }
        None
    }

    /// The cached preview for (path, line).
    pub fn get(&self, path: &str, line: usize) -> (r: Option<&V>)
        ensures
            match r {
                Some(v) => self.lookup((path@, line)) == Some(*v),
                None => self.lookup((path@, line)) is None,
            },
    {
        proof {
            use_type_invariant(self);
        }
        let p = chars_of(path);
        match self.find(&p, line) {
            Some(i) => {
                assert(self.entries()[i as int].0 == (path@, line));
                proof {
                    let j = choose|j: int| 0 <= j < self.entries().len() && #[trigger] self.entries()[j].0 == (path@, line);
                    assert(j == i as int);
                }
                Some(&self.entries[i].2)
            },
            None => None,
        }
    }

    /// Stores a preview. A key already present gets the new value in place; a new key
    /// goes last, and when that makes more than `CACHE_CAP` entries the oldest is
    /// dropped.
    pub fn insert(self, path: &str, line: usize, value: V) -> (c: Self)
        ensures
            c.entries() == insert_spec(self.entries(), (path@, line), value),
    {
        proof {
            use_type_invariant(&self);
        }
        let p = chars_of(path);
        let ghost before = self.entries();
        let found = self.find(&p, line);
        let PreviewCache { entries } = self;
        let mut entries = entries;
        let ghost view = |es: Seq<(Vec<char>, usize, V)>| es.map_values(|e: (Vec<char>, usize, V)| (entry_key(e), e.2));
        assert(view(entries@) == before);
        match found {
            Some(i) => {
                proof {
                    let j = choose|j: int| 0 <= j < before.len() && #[trigger] before[j].0 == (path@, line);
                    assert(j == i as int);
                }
                let old_entry = entries.remove(i);
                entries.insert(i, (old_entry.0, line, value));
                assert(view(entries@) =~= before.update(i as int, ((path@, line), value)));
            },
            None => {
                if entries.len() >= CACHE_CAP {
                    entries.remove(0);
                    assert(view(entries@) =~= before.drop_first());
                }
                let ghost mid = view(entries@);
                entries.push((p, line, value));
                assert(view(entries@) =~= mid.push(((path@, line), value)));
                assert(before.len() >= CACHE_CAP ==> before.push(((path@, line), value)).drop_first()
                    =~= before.drop_first().push(((path@, line), value)));
            },
        }
        PreviewCache { entries }
    }
}

/// The entries after storing `value` under `key`.
pub open spec fn insert_spec<V>(entries: Seq<((Seq<char>, usize), V)>, key: (Seq<char>, usize), value: V) -> Seq<((Seq<char>, usize), V)> {
    if exists|i: int| 0 <= i < entries.len() && #[trigger] entries[i].0 == key {
        let i = choose|i: int| 0 <= i < entries.len() && #[trigger] entries[i].0 == key;
        entries.update(i, (key, value))
    } else if entries.len() < CACHE_CAP {
        entries.push((key, value))
    } else {
        entries.push((key, value)).drop_first()
    }
}

/// A preview stored in the cache is found under its key right away.
pub proof fn law_cache_read_after_write<V>(c: PreviewCache<V>, key: (Seq<char>, usize), value: V, after: Seq<((Seq<char>, usize), V)>)
    requires
        PreviewCache::<V>::bounded_distinct(c.entries()),
        after == insert_spec(c.entries(), key, value),
    ensures
        after.len() <= CACHE_CAP,
        exists|i: int| 0 <= i < after.len() && after[i] == (key, value),
{
    let e = c.entries();
    if exists|i: int| 0 <= i < e.len() && #[trigger] e[i].0 == key {
        let i = choose|i: int| 0 <= i < e.len() && #[trigger] e[i].0 == key;
        assert(after[i] == (key, value));
    } else if e.len() < CACHE_CAP {
        assert(after[e.len() as int] == (key, value));
    } else {
        assert(after[e.len() - 1] == (key, value));
    }
}

// ---------------------------------------------------------------------------
// Highlighting (syntect, with two-face's syntaxes and themes)
// ---------------------------------------------------------------------------

#[verifier::external_type_specification]
#[verifier::external_body]
pub struct ExSyntaxSet(syntect::parsing::SyntaxSet);

#[verifier::external_type_specification]
#[verifier::external_body]
pub struct ExSyntaxReference(syntect::parsing::SyntaxReference);

#[verifier::external_type_specification]
#[verifier::external_body]
pub struct ExTheme(syntect::highlighting::Theme);

#[verifier::external_type_specification]
#[verifier::external_body]
pub struct ExHighlightLines<'a>(syntect::easy::HighlightLines<'a>);

/// `two_face::syntax::extra_newlines`: the bundled syntax definitions, for lines
/// given with their newline.
#[verifier::external_body]
fn load_syntaxes() -> syntect::parsing::SyntaxSet {
    two_face::syntax::extra_newlines()
}

/// The bundled Nord theme (`two_face::theme::extra().get(EmbeddedThemeName::Nord)`).
#[verifier::external_body]
fn nord_theme() -> syntect::highlighting::Theme {
    two_face::theme::extra().get(two_face::theme::EmbeddedThemeName::Nord).clone()
}

/// The extension `std::path::Path::extension` finds in `path` (as text).
pub uninterp spec fn extension_of(path: Seq<char>) -> Option<Seq<char>>;

/// `Path::extension` of `path` (a `&str` is valid UTF-8, so `to_str` always succeeds);
/// the contract names the result. As documented, an extension is the part of the file
/// name after its final `.`, so it holds no `.` or `/`, and a path without a `.` has
/// none.
#[verifier::external_body]
fn path_extension(path: &str) -> (r: Option<String>)
    ensures
        match r {
            Some(e) => extension_of(path@) == Some(e@) && !e@.contains('.') && !e@.contains('/')
                && path@.contains('.'),
            None => extension_of(path@) is None,
        },
{
    std::path::Path::new(path).extension().and_then(|e| e.to_str()).map(|e| e.to_string())
}

/// `SyntaxSet::find_syntax_by_extension`: the syntax registered for `ext`, if any.
#[verifier::external_body]
fn syntax_by_extension<'a>(set: &'a syntect::parsing::SyntaxSet, ext: &str) -> Option<
    &'a syntect::parsing::SyntaxReference,
> {
    set.find_syntax_by_extension(ext)
}

/// `SyntaxSet::find_syntax_plain_text`. It panics only for a set without a "Plain
/// Text" syntax, and the bundled set has one.
#[verifier::external_body]
fn plain_text_syntax<'a>(set: &'a syntect::parsing::SyntaxSet) -> &'a syntect::parsing::SyntaxReference {
    set.find_syntax_plain_text()
}

/// `HighlightLines::new`: a highlighter for `syntax` in `theme`, at the start of a file.
#[verifier::external_body]
fn new_highlighter<'a>(
    syntax: &syntect::parsing::SyntaxReference,
    theme: &'a syntect::highlighting::Theme,
) -> syntect::easy::HighlightLines<'a> {
    syntect::easy::HighlightLines::new(syntax, theme)
}

/// The concatenated texts of a sequence of (style, text) pieces.
pub open spec fn texts_of<C>(pieces: Seq<(C, Seq<char>)>) -> Seq<char>
    decreases pieces.len(),
{
    if pieces.len() == 0 {
        seq![]
    } else {
        texts_of(pieces.drop_last()) + pieces.last().1
    }
}

/// The view of highlight tokens.
pub open spec fn tokens_view(ts: Seq<((u8, u8, u8), String)>) -> Seq<((u8, u8, u8), Seq<char>)> {
    ts.map_values(|t: ((u8, u8, u8), String)| (t.0, t.1@))
}

/// `HighlightLines::highlight_line` on one line (newline included), continuing from
/// the lines before: each token's foreground colour (red, green, blue) and text, or
/// `None` when syntect reports an error. Its tokens are never empty and follow the
/// line from its start; the iterator behind them stops early only when the scope
/// stack rejects an operation, so together they are a prefix of the line. The colours
/// depend on the syntax and theme, which are not plain values, and are not stated.
#[verifier::external_body]
fn highlight_tokens(
    hl: &mut syntect::easy::HighlightLines,
    text: &str,
    set: &syntect::parsing::SyntaxSet,
) -> (r: Option<Vec<((u8, u8, u8), String)>>)
    ensures
        match r {
            Some(ts) => {
                &&& texts_of(tokens_view(ts@)).is_prefix_of(text@)
                &&& forall|k: int| 0 <= k < ts@.len() ==> (#[trigger] ts@[k]).1@.len() > 0
            },
            None => true,
        },
{
    match hl.highlight_line(text, set) {
        Ok(ranges) => Some(
            ranges.iter().map(
                |(style, t)| ((style.foreground.r, style.foreground.g, style.foreground.b), t.to_string()),
            ).collect(),
        ),
        Err(_) => None,
    }
}

/// `s` without its trailing newlines.
pub open spec fn trim_newlines(s: Seq<char>) -> Seq<char>
    decreases s.len(),
{
    if s.len() > 0 && s.last() == '\n' {
        trim_newlines(s.drop_last())
    } else {
        s
    }
}

/// The spans shown for highlight tokens: each token's colour, and its text without
/// trailing newlines.
pub open spec fn spans_of(tokens: Seq<((u8, u8, u8), Seq<char>)>) -> Seq<(Option<(u8, u8, u8)>, Seq<char>)> {
    tokens.map_values(|t: ((u8, u8, u8), Seq<char>)| (Some(t.0), trim_newlines(t.1)))
}

/// How a window line is shown: the spans of syntect's tokens for the line (with its
/// newline), or, when syntect fails on it, the whole line unstyled.
pub open spec fn highlighted_line(line: Seq<char>, spans: Seq<(Option<(u8, u8, u8)>, Seq<char>)>) -> bool {
    ||| spans == seq![(None::<(u8, u8, u8)>, line)]
    ||| exists|ts: Seq<((u8, u8, u8), Seq<char>)>|
        #![trigger spans_of(ts)]
        texts_of(ts).is_prefix_of(line.push('\n')) && spans == spans_of(ts)
}

/// The text kept from highlight tokens: while the tokens cover no more than the line
/// itself it is theirs unchanged, and once they cover the line and its newline it is
/// the line.
proof fn lemma_spans_text(ts: Seq<((u8, u8, u8), Seq<char>)>, line: Seq<char>)
    requires
        texts_of(ts).is_prefix_of(line.push('\n')),
        forall|k: int| 0 <= k < line.len() ==> line[k] != '\n',
    ensures
        texts_of(ts).len() <= line.len() ==> texts_of(spans_of(ts)) == texts_of(ts),
        texts_of(ts).len() > line.len() ==> texts_of(spans_of(ts)) == line,
    decreases ts.len(),
{
    let full = line.push('\n');
    if ts.len() == 0 {
        assert(spans_of(ts) =~= seq![]);
    } else {
        let init = ts.drop_last();
        let x = ts.last();
        let s = texts_of(ts);
        let s0 = texts_of(init);
        assert(s == s0 + x.1);
        assert(s0.is_prefix_of(full)) by {
            assert(s0 =~= s.subrange(0, s0.len() as int));
            assert(s0 =~= full.subrange(0, s0.len() as int));
        }
        lemma_spans_text(init, line);
        let sp = spans_of(ts);
        assert(sp.drop_last() =~= spans_of(init));
        assert(sp.last() == (Some(x.0), trim_newlines(x.1)));
        assert(texts_of(sp) == texts_of(spans_of(init)) + trim_newlines(x.1));
        if s.len() <= line.len() {
            if x.1.len() > 0 {
                assert(x.1.last() == s[s.len() - 1]);
                assert(s[s.len() - 1] == full[s.len() - 1]);
                assert(full[s.len() - 1] == line[s.len() - 1]);
            }
            assert(trim_newlines(x.1) == x.1);
        } else if x.1.len() == 0 {
            assert(x.1 =~= seq![]);
            assert(s0 =~= s);
            assert(trim_newlines(x.1) == x.1);
            assert(s0 + seq![] =~= s0);
        } else {
            let u = x.1.drop_last();
            assert(s.len() == line.len() + 1);
            assert(x.1.last() == s[s.len() - 1]);
            assert(s[s.len() - 1] == full[line.len() as int]);
            assert(trim_newlines(x.1) == trim_newlines(u));
            if u.len() > 0 {
                assert(u.last() == s[s.len() - 2]);
                assert(s[s.len() - 2] == line[line.len() - 1]);
            }
            assert(trim_newlines(u) == u);
            assert(s0.len() <= line.len());
            assert(s0 + u =~= line) by {
                assert(full.subrange(0, full.len() as int) =~= full);
                assert(s =~= full);
                assert(x.1 =~= u.push('\n'));
                assert(s0 + u.push('\n') =~= (s0 + u).push('\n'));
                assert((s0 + u).push('\n').drop_last() =~= s0 + u);
                assert(full.drop_last() =~= line);
            }
        }
    }
}

/// Highlighting shows a line's text unchanged, or a leading part of it when syntect
/// stops early: joined, the spans of a line (without newlines) are a prefix of it.
pub proof fn law_highlight_keeps_text(line: Seq<char>, spans: Seq<(Option<(u8, u8, u8)>, Seq<char>)>)
    requires
        highlighted_line(line, spans),
        forall|k: int| 0 <= k < line.len() ==> line[k] != '\n',
    ensures
        texts_of(spans).is_prefix_of(line),
{
    if spans == seq![(None::<(u8, u8, u8)>, line)] {
        assert(spans.drop_last() =~= seq![]);
        assert(texts_of(spans.drop_last()) =~= seq![]);
        assert(texts_of(spans) =~= line);
    } else {
        let ts = choose|ts: Seq<((u8, u8, u8), Seq<char>)>|
            #![trigger spans_of(ts)]
            texts_of(ts).is_prefix_of(line.push('\n')) && spans == spans_of(ts);
        lemma_spans_text(ts, line);
        if texts_of(ts).len() <= line.len() {
            assert(texts_of(ts) =~= line.push('\n').subrange(0, texts_of(ts).len() as int));
            assert(texts_of(ts) =~= line.subrange(0, texts_of(ts).len() as int));
        } else {
            assert(line =~= line.subrange(0, line.len() as int));
        }
    }
}

/// The view of one span.
pub open spec fn span_view(s: (Option<(u8, u8, u8)>, String)) -> (Option<(u8, u8, u8)>, Seq<char>) {
    (s.0, s.1@)
}

/// The view of one styled line.
pub open spec fn line_view(l: Seq<(Option<(u8, u8, u8)>, String)>) -> Seq<(Option<(u8, u8, u8)>, Seq<char>)> {
    l.map_values(|s: (Option<(u8, u8, u8)>, String)| span_view(s))
}

/// The view of styled lines.
pub open spec fn styled_view(lines: Seq<Vec<(Option<(u8, u8, u8)>, String)>>) -> Seq<
    Seq<(Option<(u8, u8, u8)>, Seq<char>)>,
> {
    lines.map_values(|l: Vec<(Option<(u8, u8, u8)>, String)>| line_view(l@))
}

/// A rendered preview: highlighted lines (spans of foreground colour and text; no
/// colour means unstyled), the index of the matched line, a message shown instead of
/// the lines, and whether any line holds a non-ASCII glyph. Such glyphs can render
/// wider than the width model, so the run loop repaints from scratch when leaving one.
#[derive(Debug, Clone)]
pub struct PreviewContent {
    pub lines: Vec<Vec<(Option<(u8, u8, u8)>, String)>>,
    pub match_index: Option<usize>,
    pub message: Option<String>,
    pub has_wide: bool,
}

/// The value of a `PreviewContent`.
pub struct PreviewContentView {
    pub lines: Seq<Seq<(Option<(u8, u8, u8)>, Seq<char>)>>,
    pub match_index: Option<usize>,
    pub message: Option<Seq<char>>,
    pub has_wide: bool,
}

impl View for PreviewContent {
    type V = PreviewContentView;

    open spec fn view(&self) -> PreviewContentView {
        PreviewContentView {
            lines: styled_view(self.lines@),
            match_index: self.match_index,
            message: match self.message {
                Some(m) => Some(m@),
                None => None,
            },
            has_wide: self.has_wide,
        }
    }
}

/// The preview of a window whose lines were shown as `lines`: the message alone when
/// the window has one, else the lines with the matched line and the wide-glyph flag.
pub open spec fn content_of(w: WindowView, lines: Seq<Seq<(Option<(u8, u8, u8)>, Seq<char>)>>) -> PreviewContentView {
    match w.message {
        Some(m) => PreviewContentView { lines: seq![], match_index: None, message: Some(m), has_wide: false },
        None => PreviewContentView {
            lines,
            match_index: w.match_index,
            message: None,
            has_wide: exists|k: int| 0 <= k < w.lines.len() && has_non_ascii(#[trigger] w.lines[k]),
        },
    }
}

impl PreviewContent {
    /// No lines, no match, no message.
    pub fn empty() -> (c: Self)
        ensures
            c@.lines.len() == 0,
            c@.match_index is None,
            c@.message is None,
            !c@.has_wide,
    {
        let c = PreviewContent { lines: Vec::new(), match_index: None, message: None, has_wide: false };
        assert(c@.lines =~= seq![]);
        c
    }
}

impl Default for PreviewContent {
    fn default() -> (c: Self)
        ensures
            c@.lines.len() == 0,
            c@.match_index is None,
            c@.message is None,
            !c@.has_wide,
    {
        PreviewContent::empty()
    }
}

/// A copy of a string.
fn copy_string(s: &String) -> (r: String)
    ensures
        r@ == s@,
{
    s.clone()
}

/// A copy of a preview.
fn copy_content(c: &PreviewContent) -> (r: PreviewContent)
    ensures
        r@ == c@,
{
    let mut lines: Vec<Vec<(Option<(u8, u8, u8)>, String)>> = Vec::new();
    let mut j: usize = 0;
    while j < c.lines.len()
        invariant
            j <= c.lines.len(),
            styled_view(lines@) == styled_view(c.lines@).take(j as int),
        decreases c.lines.len() - j,
    {
        let src = &c.lines[j];
        let mut line: Vec<(Option<(u8, u8, u8)>, String)> = Vec::new();
        let mut k: usize = 0;
        while k < src.len()
            invariant
                k <= src.len(),
                line@.len() == k,
                forall|i: int| 0 <= i < k ==> span_view(#[trigger] line@[i]) == span_view(src@[i]),
            decreases src.len() - k,
        {
            let piece = (src[k].0, copy_string(&src[k].1));
            line.push(piece);
            k += 1;
        }
        assert(line_view(line@) =~= line_view(src@));
        let ghost before = lines@;
        lines.push(line);
        assert(styled_view(lines@) =~= styled_view(c.lines@).take(j + 1)) by {
            assert(lines@ =~= before.push(lines@.last()));
            assert(styled_view(lines@) =~= styled_view(before).push(line_view(lines@.last()@)));
        }
        j += 1;
    }
    assert(styled_view(c.lines@).take(c.lines.len() as int) =~= styled_view(c.lines@));
    let message = match &c.message {
        Some(m) => Some(copy_string(m)),
        None => None,
    };
    PreviewContent { lines, match_index: c.match_index, message, has_wide: c.has_wide }
}

/// The preview of `w` with its lines shown as `lines`.
pub fn preview_content(w: &Window, lines: Vec<Vec<(Option<(u8, u8, u8)>, String)>>) -> (c: PreviewContent)
    ensures
        c@ == content_of(w@, styled_view(lines@)),
{
    match &w.message {
        Some(m) => {
            let c = PreviewContent {
                lines: Vec::new(),
                match_index: None,
                message: Some(copy_string(m)),
                has_wide: false,
            };
            assert(c@.lines =~= seq![]);
            c
        },
        None => {
            let wide = has_wide(&w.lines);
            assert(wide == exists|k: int| 0 <= k < w@.lines.len() && has_non_ascii(#[trigger] w@.lines[k])) by {
                if wide {
                    let k = choose|k: int| 0 <= k < w.lines@.len() && has_non_ascii(#[trigger] w.lines@[k]@);
                    assert(w@.lines[k] == w.lines@[k]@);
                }
                if exists|k: int| 0 <= k < w@.lines.len() && has_non_ascii(#[trigger] w@.lines[k]) {
                    let k = choose|k: int| 0 <= k < w@.lines.len() && has_non_ascii(#[trigger] w@.lines[k]);
                    assert(w@.lines[k] == w.lines@[k]@);
                }
            }
            PreviewContent { lines, match_index: w.match_index, message: None, has_wide: wide }
        },
    }
}

/// The cached previews as values, oldest first.
pub open spec fn cache_view(entries: Seq<((Seq<char>, usize), PreviewContent)>) -> Seq<
    ((Seq<char>, usize), PreviewContentView),
> {
    entries.map_values(|e: ((Seq<char>, usize), PreviewContent)| (e.0, e.1@))
}

/// A preview made from what `read` gives for `key`: some window `read` may return for
/// the key's path and line, with each of its lines highlighted.
pub open spec fn rendered_from<F: FnOnce(String, usize) -> Window>(
    read: F,
    key: (Seq<char>, usize),
    c: PreviewContentView,
) -> bool {
    exists|p: String, w: Window, lines: Seq<Seq<(Option<(u8, u8, u8)>, Seq<char>)>>|
        #![trigger call_ensures(read, (p, key.1), w), content_of(w@, lines)]
        p@ == key.0 && call_ensures(read, (p, key.1), w) && lines.len() == w@.lines.len() && (forall|j: int|
            0 <= j < lines.len() ==> highlighted_line(w@.lines[j], #[trigger] lines[j])) && c
            == content_of(w@, lines)
}

/// Syntax-highlighted previews of results, with the most recent ones cached.
pub struct PreviewEngine {
    syntaxes: syntect::parsing::SyntaxSet,
    theme: syntect::highlighting::Theme,
    cache: PreviewCache<PreviewContent>,
}

impl PreviewEngine {
    /// The cached previews, oldest first, as (key, preview).
    pub closed spec fn cached(&self) -> Seq<((Seq<char>, usize), PreviewContentView)> {
        cache_view(self.cache.entries())
    }

    /// An engine with the default theme (Nord) and an empty cache.
    pub fn new() -> (e: Self)
        ensures
            e.cached().len() == 0,
    {
        Self::with_theme(nord_theme())
    }

    /// An engine with the given theme and an empty cache.
    pub fn with_theme(theme: syntect::highlighting::Theme) -> (e: Self)
        ensures
            e.cached().len() == 0,
    {
        PreviewEngine { syntaxes: load_syntaxes(), theme, cache: PreviewCache::new() }
    }

    /// Highlights a window's lines as one file (so multi-line constructs carry over),
    /// with the syntax for the path's extension, else plain text.
    fn highlight_window(&self, path: &str, window: &Window) -> (r: Vec<Vec<(Option<(u8, u8, u8)>, String)>>)
        ensures
            styled_view(r@).len() == window@.lines.len(),
            forall|j: int| 0 <= j < window@.lines.len() ==> highlighted_line(
                window@.lines[j],
                #[trigger] styled_view(r@)[j],
            ),
    {
        let syntax = match path_extension(path) {
            Some(ext) => match syntax_by_extension(&self.syntaxes, ext.as_str()) {
                Some(s) => s,
                None => plain_text_syntax(&self.syntaxes),
            },
            None => plain_text_syntax(&self.syntaxes),
        };
        let mut hl = new_highlighter(syntax, &self.theme);
        let mut out: Vec<Vec<(Option<(u8, u8, u8)>, String)>> = Vec::new();
        let mut j: usize = 0;
        while j < window.lines.len()
            invariant
                j <= window.lines.len(),
                styled_view(out@).len() == j,
                forall|i: int| 0 <= i < j ==> highlighted_line(
                    window@.lines[i],
                    #[trigger] styled_view(out@)[i],
                ),
            decreases window.lines.len() - j,
        {
            let line = &window.lines[j];
            let mut with_nl = chars_of(line.as_str());
            with_nl.push('\n');
            let text = string_of(&with_nl);
            let spans: Vec<(Option<(u8, u8, u8)>, String)> = match highlight_tokens(&mut hl, text.as_str(), &self.syntaxes) {
                Some(tokens) => {
                    let ghost tv = tokens_view(tokens@);
                    let mut sp: Vec<(Option<(u8, u8, u8)>, String)> = Vec::new();
                    let mut k: usize = 0;
                    while k < tokens.len()
                        invariant
                            k <= tokens.len(),
                            tv == tokens_view(tokens@),
                            sp@.len() == k,
                            forall|i: int| 0 <= i < k ==> span_view(#[trigger] sp@[i]) == spans_of(tv)[i],
                        decreases tokens.len() - k,
                    {
                        let piece = chars_of(tokens[k].1.as_str());
                        let mut n = piece.len();
                        assert(piece@.take(n as int) =~= piece@);
                        while n > 0 && piece[n - 1] == '\n'
                            invariant
                                n <= piece.len(),
                                trim_newlines(piece@) == trim_newlines(piece@.take(n as int)),
                            decreases n,
                        {
                            assert(piece@.take(n as int).drop_last() =~= piece@.take(n - 1));
                            n -= 1;
                        }
                        let kept = crate::text::slice_chars(&piece, 0, n);
                        assert(kept@ =~= piece@.take(n as int));
                        sp.push((Some(tokens[k].0), string_of(&kept)));
                        k += 1;
                    }
                    assert(line_view(sp@) =~= spans_of(tv));
                    assert(text@ == window@.lines[j as int].push('\n'));
                    assert(highlighted_line(window@.lines[j as int], line_view(sp@)));
                    sp
                },
                None => {
                    let mut sp: Vec<(Option<(u8, u8, u8)>, String)> = Vec::new();
                    sp.push((None, copy_string(line)));
                    assert(line_view(sp@) =~= seq![(None::<(u8, u8, u8)>, window@.lines[j as int])]);
                    sp
                },
            };
            let ghost before = out@;
            out.push(spans);
            assert(styled_view(out@) =~= styled_view(before).push(styled_view(out@).last())) by {
                assert(out@ =~= before.push(out@.last()));
            }
            j += 1;
        }
        out
    }

    /// The preview of `item`. A cached one is returned as it is; otherwise `read`
    /// (given the item's path and line, 0 for a whole file) supplies the window, whose
    /// lines are highlighted, and the new preview is cached.
    #[verifier::spinoff_prover]
    pub fn render<F: FnOnce(String, usize) -> Window>(&mut self, item: &Item, read: F) -> (c: PreviewContent)
        requires
            forall|p: String, l: usize| #[trigger] call_requires(read, (p, l)),
        ensures
            ({
                let key = (crate::types::item_path(item@), match item@ {
                    crate::types::ItemView::File { .. } => 0usize,
                    crate::types::ItemView::Content { line, .. } => line,
                });
                if exists|i: int| 0 <= i < old(self).cached().len() && #[trigger] old(self).cached()[i].0 == key {
                    &&& final(self).cached() == old(self).cached()
                    &&& forall|i: int| 0 <= i < old(self).cached().len() && #[trigger] old(self).cached()[i].0
                        == key ==> c@ == old(self).cached()[i].1
                } else {
                    &&& rendered_from(read, key, c@)
                    &&& final(self).cached() == stored_after(old(self).cached(), key, c@)
                }
            }),
    {
        proof {
            use_type_invariant(&self.cache);
        }
        let (path, center) = preview_key(item);
        let ghost key = (path@, center);
        let ghost old_entries = self.cache.entries();
        assert(cache_view(old_entries).len() == old_entries.len());
        assert(forall|i: int| 0 <= i < old_entries.len() ==> #[trigger] cache_view(old_entries)[i].0 == old_entries[i].0);
        match self.cache.get(path.as_str(), center) {
            Some(hit) => {
                let c = copy_content(hit);
                proof {
                    let j = choose|j: int| 0 <= j < old_entries.len() && #[trigger] old_entries[j].0 == key;
                    assert(old_entries[j].0 == key);
                    assert(cache_view(old_entries)[j].0 == key);
                    assert forall|i: int| 0 <= i < self.cached().len() && #[trigger] self.cached()[i].0 == key implies c@ == self.cached()[i].1 by {
                        assert(old_entries[i].0 == key);
                        if i != j {
                            assert(old_entries[i].0 != old_entries[j].0);
                        }
                    }
                }
                c
            },
            None => {
                assert(!exists|i: int| 0 <= i < self.cached().len() && #[trigger] self.cached()[i].0 == key) by {
                    if exists|i: int| 0 <= i < self.cached().len() && #[trigger] self.cached()[i].0 == key {
                        let i = choose|i: int| 0 <= i < self.cached().len() && #[trigger] self.cached()[i].0 == key;
                        assert(old_entries[i].0 == key);
                    }
                }
                let p = copy_string(&path);
                let ghost pv = p;
                let window = read(p, center);
                assert(call_ensures(read, (pv, center), window));
                let lines = self.highlight_window(path.as_str(), &window);
                let c = preview_content(&window, lines);
                let stored = copy_content(&c);
                let mut cache: PreviewCache<PreviewContent> = PreviewCache::new();
                core::mem::swap(&mut cache, &mut self.cache);
                let ghost before = cache.entries();
                let cache = cache.insert(path.as_str(), center, stored);
                proof {
                    assert(!exists|i: int| 0 <= i < before.len() && #[trigger] before[i].0 == key);
                    let after = cache.entries();
                    if before.len() < CACHE_CAP {
                        assert(after == before.push((key, stored)));
                        assert(cache_view(after) =~= cache_view(before).push((key, c@)));
                    } else {
                        assert(after == before.push((key, stored)).drop_first());
                        assert(cache_view(after) =~= cache_view(before).push((key, c@)).drop_first());
                    }
                }
                self.cache = cache;
                let ghost item_key = (crate::types::item_path(item@), match item@ {
                    crate::types::ItemView::File { .. } => 0usize,
                    crate::types::ItemView::Content { line, .. } => line,
                });
                assert(item_key == key);
                assert(rendered_from(read, item_key, c@)) by {
                    assert(call_ensures(read, (pv, item_key.1), window) && content_of(
                        window@,
                        styled_view(lines@),
                    ) == c@);
                }
                c
            },
        }
    }
}

impl Default for PreviewEngine {
    fn default() -> (e: Self)
        ensures
            e.cached().len() == 0,
    {
        PreviewEngine::new()
    }
}

/// The cache after a new preview is stored under `key`: appended, and the oldest
/// entry dropped when that makes more than `CACHE_CAP`.
pub open spec fn stored_after(
    before: Seq<((Seq<char>, usize), PreviewContentView)>,
    key: (Seq<char>, usize),
    c: PreviewContentView,
) -> Seq<((Seq<char>, usize), PreviewContentView)> {
    if before.len() < CACHE_CAP {
        before.push((key, c))
    } else {
        before.push((key, c)).drop_first()
    }
}

/// Rendering an item a second time gives the preview the first rendering made: a
/// first rendering of an uncached key stores its preview, and a rendering of a cached
/// key returns what is stored under it.
pub proof fn law_second_render_is_cached(
    before: Seq<((Seq<char>, usize), PreviewContentView)>,
    key: (Seq<char>, usize),
    first: PreviewContentView,
    second: PreviewContentView,
)
    requires
        forall|i: int| 0 <= i < before.len() ==> (#[trigger] before[i]).0 != key,
        forall|i: int|
            0 <= i < stored_after(before, key, first).len() && (#[trigger] stored_after(
                before,
                key,
                first,
            )[i]).0 == key ==> second == stored_after(before, key, first)[i].1,
    ensures
        second == first,
{
    let after = stored_after(before, key, first);
    assert(after.len() >= 1);
    assert(after[after.len() - 1] == (key, first));
}

} // verus!
