//! The finder's interactive state: the query line, the results list with its
//! selection and scroll window, and the flags the key bindings toggle.
use vstd::prelude::*;

use crate::input::{action_for, Action, KeyCode, KeyEvent};
use crate::text::{char_is_whitespace, chars_of, is_white_space, string_of};
use crate::types::{open_target_of, selection_text, Item, ItemView};

verus! {

/// Which search the finder runs.
#[derive(Debug, Clone, Copy, PartialEq, Eq, Structural)]
pub enum Mode {
    File,
    Content,
}

pub struct App {
    pub query: String,
    /// Cursor position in the query, counted in characters.
    pub cursor: usize,
    pub results: Vec<Item>,
    pub selected: usize,
    /// Index of the first result shown.
    pub scroll: usize,
    /// Number of result rows the list pane shows.
    pub viewport: usize,
    pub status: String,
    pub should_quit: bool,
    pub case_sensitive: Option<bool>,
    /// The text to print on exit, once the user accepted a result.
    pub accept: Option<String>,
    /// A (path, line) the run loop should open in the editor.
    pub pending_open: Option<(String, Option<usize>)>,
    pub query_dirty: bool,
    pub mode: Mode,
    pub regex: bool,
    pub show_preview: bool,
    pub preview_scroll: usize,
}

/// The value of an `App`.
#[verifier::ext_equal]
pub struct AppView {
    pub query: Seq<char>,
    pub cursor: usize,
    pub results: Seq<ItemView>,
    pub selected: usize,
    pub scroll: usize,
    pub viewport: usize,
    pub status: Seq<char>,
    pub should_quit: bool,
    pub case_sensitive: Option<bool>,
    pub accept: Option<Seq<char>>,
    pub pending_open: Option<(Seq<char>, Option<usize>)>,
    pub query_dirty: bool,
    pub mode: Mode,
    pub regex: bool,
    pub show_preview: bool,
    pub preview_scroll: usize,
}

pub open spec fn items_view(items: Seq<Item>) -> Seq<ItemView> {
    items.map_values(|i: Item| i@)
}

impl View for App {
    type V = AppView;

    open spec fn view(&self) -> AppView {
        AppView {
            query: self.query@,
            cursor: self.cursor,
            results: items_view(self.results@),
            selected: self.selected,
            scroll: self.scroll,
            viewport: self.viewport,
            status: self.status@,
            should_quit: self.should_quit,
            case_sensitive: self.case_sensitive,
            accept: match self.accept {
                Some(s) => Some(s@),
                None => None,
            },
            pending_open: match self.pending_open {
                Some(p) => Some((p.0@, p.1)),
                None => None,
            },
            query_dirty: self.query_dirty,
            mode: self.mode,
            regex: self.regex,
            show_preview: self.show_preview,
            preview_scroll: self.preview_scroll,
        }
    }
}

// ---------------------------------------------------------------------------
// The state transitions, over the model
// ---------------------------------------------------------------------------

pub open spec fn min_int(a: int, b: int) -> int {
    if a <= b {
        a
    } else {
        b
    }
}

/// The scroll offset that keeps `selected` inside a window of `viewport` rows:
/// unchanged when already visible, otherwise moved the least distance.
/// With no rows at all the offset is 0.
pub open spec fn scroll_for(selected: usize, scroll: usize, viewport: usize) -> usize {
    if viewport == 0 {
        0
    } else if selected < scroll {
        selected
    } else if selected >= scroll + viewport {
        (selected + 1 - viewport) as usize
    } else {
        scroll
    }
}

/// The selected row lies in the scroll window (or there is no window and no scroll).
pub open spec fn selection_visible(v: AppView) -> bool {
    if v.viewport == 0 {
        v.scroll == 0
    } else {
        v.scroll <= v.selected < v.scroll + v.viewport
    }
}

pub open spec fn keep_visible(v: AppView) -> AppView {
    AppView { scroll: scroll_for(v.selected, v.scroll, v.viewport), ..v }
}

pub open spec fn insert_model(v: AppView, c: char) -> AppView {
    let idx = min_int(v.cursor as int, v.query.len() as int);
    AppView {
        query: v.query.take(idx) + seq![c] + v.query.skip(idx),
        cursor: (idx + 1) as usize,
        ..v
    }
}

pub open spec fn backspace_model(v: AppView) -> AppView {
    if v.cursor == 0 {
        v
    } else {
        AppView {
            query: v.query.take(v.cursor - 1) + v.query.skip(v.cursor as int),
            cursor: (v.cursor - 1) as usize,
            ..v
        }
    }
}

pub open spec fn delete_model(v: AppView) -> AppView {
    if v.cursor < v.query.len() {
        AppView { query: v.query.take(v.cursor as int) + v.query.skip(v.cursor + 1), ..v }
    } else {
        v
    }
}

/// Moving left from `k` over whitespace.
pub open spec fn skip_space_back(q: Seq<char>, k: int) -> int
    decreases k,
{
    if k > 0 && is_white_space(q[k - 1]) {
        skip_space_back(q, k - 1)
    } else {
        k
    }
}

/// Moving left from `k` over non-whitespace.
pub open spec fn skip_word_back(q: Seq<char>, k: int) -> int
    decreases k,
{
    if k > 0 && !is_white_space(q[k - 1]) {
        skip_word_back(q, k - 1)
    } else {
        k
    }
}

/// Where `Ctrl+W` deletes back to: over the whitespace before the cursor, then
/// over the word before that.
pub open spec fn word_start(q: Seq<char>, cursor: int) -> int {
    skip_word_back(q, skip_space_back(q, min_int(cursor, q.len() as int)))
}

pub open spec fn delete_word_model(v: AppView) -> AppView {
    let end = min_int(v.cursor as int, v.query.len() as int);
    let start = word_start(v.query, v.cursor as int);
    AppView { query: v.query.take(start) + v.query.skip(end), cursor: start as usize, ..v }
}

pub open spec fn clear_model(v: AppView) -> AppView {
    AppView { query: seq![], cursor: 0, ..v }
}

pub open spec fn move_left_model(v: AppView) -> AppView {
    AppView { cursor: if v.cursor > 0 { (v.cursor - 1) as usize } else { 0 }, ..v }
}

pub open spec fn move_right_model(v: AppView) -> AppView {
    if v.cursor < v.query.len() {
        AppView { cursor: (v.cursor + 1) as usize, ..v }
    } else {
        v
    }
}

pub open spec fn select_next_model(v: AppView) -> AppView {
    if v.results.len() == 0 {
        v
    } else if v.selected + 1 < v.results.len() {
        keep_visible(AppView { selected: (v.selected + 1) as usize, ..v })
    } else {
        keep_visible(v)
    }
}

pub open spec fn select_prev_model(v: AppView) -> AppView {
    keep_visible(
        AppView { selected: if v.selected > 0 { (v.selected - 1) as usize } else { 0 }, ..v },
    )
}

/// A page is the viewport height, but at least one row.
pub open spec fn page_step(v: AppView) -> int {
    if v.viewport > 0 {
        v.viewport as int
    } else {
        1
    }
}

pub open spec fn page_down_model(v: AppView) -> AppView {
    if v.results.len() == 0 {
        v
    } else {
        keep_visible(
            AppView {
                selected: min_int(v.selected + page_step(v), v.results.len() - 1) as usize,
                ..v
            },
        )
    }
}

pub open spec fn page_up_model(v: AppView) -> AppView {
    keep_visible(
        AppView {
            selected: if v.selected >= page_step(v) {
                (v.selected - page_step(v)) as usize
            } else {
                0
            },
            ..v
        },
    )
}

pub open spec fn results_changed_model(v: AppView, new_results: Seq<ItemView>) -> AppView {
    if new_results.len() == 0 {
        AppView { results: new_results, selected: 0, scroll: 0, ..v }
    } else {
        keep_visible(
            AppView {
                results: new_results,
                selected: if v.selected >= new_results.len() {
                    (new_results.len() - 1) as usize
                } else {
                    v.selected
                },
                ..v
            },
        )
    }
}

/// An edit of the query marks it for re-search and returns the selection to the top.
pub open spec fn query_changed(v: AppView) -> AppView {
    AppView { query_dirty: true, selected: 0, scroll: 0, ..v }
}

/// `None` -> case-sensitive -> ignore case -> `None` (smart case).
pub open spec fn next_case(c: Option<bool>) -> Option<bool> {
    match c {
        None => Some(true),
        Some(true) => Some(false),
        Some(false) => None,
    }
}

pub open spec fn other_mode(m: Mode) -> Mode {
    match m {
        Mode::File => Mode::Content,
        Mode::Content => Mode::File,
    }
}

/// The whole effect of one action on the finder's state.
pub open spec fn apply_model(v: AppView, action: Action) -> AppView {
    match action {
        Action::Insert(c) => query_changed(insert_model(v, c)),
        Action::Backspace => query_changed(backspace_model(v)),
        Action::Delete => query_changed(delete_model(v)),
        Action::DeleteWord => query_changed(delete_word_model(v)),
        Action::ClearLine => query_changed(clear_model(v)),
        Action::MoveLeft => move_left_model(v),
        Action::MoveRight => move_right_model(v),
        Action::MoveHome => AppView { cursor: 0, ..v },
        Action::MoveEnd => AppView { cursor: v.query.len() as usize, ..v },
        Action::SelectNext => select_next_model(v),
        Action::SelectPrev => select_prev_model(v),
        Action::PageDown => page_down_model(v),
        Action::PageUp => page_up_model(v),
        Action::ToggleCase => AppView {
            case_sensitive: next_case(v.case_sensitive),
            query_dirty: true,
            ..v
        },
        Action::Accept => if v.selected < v.results.len() {
            AppView {
                accept: Some(selection_text(v.results[v.selected as int])),
                should_quit: true,
                ..v
            }
        } else {
            v
        },
        Action::OpenInEditor => if v.selected < v.results.len() {
            AppView { pending_open: Some(open_target_of(v.results[v.selected as int])), ..v }
        } else {
            v
        },
        Action::Quit => AppView { should_quit: true, ..v },
        Action::SwitchMode => AppView {
            mode: other_mode(v.mode),
            query_dirty: true,
            selected: 0,
            scroll: 0,
            ..v
        },
        Action::ToggleRegex => AppView { regex: !v.regex, query_dirty: true, ..v },
        Action::TogglePreview => AppView { show_preview: !v.show_preview, ..v },
        Action::PreviewUp => AppView {
            preview_scroll: if v.preview_scroll > 0 {
                (v.preview_scroll - 1) as usize
            } else {
                0
            },
            ..v
        },
        Action::PreviewDown => AppView {
            preview_scroll: if v.preview_scroll < usize::MAX {
                (v.preview_scroll + 1) as usize
            } else {
                usize::MAX
            },
            ..v
        },
        Action::NoOp => v,
    }
}

/// A fresh finder: empty query and results, file mode, smart case, preview shown.
pub open spec fn initial_view() -> AppView {
    AppView {
        query: seq![],
        cursor: 0,
        results: seq![],
        selected: 0,
        scroll: 0,
        viewport: 0,
        status: seq![],
        should_quit: false,
        case_sensitive: None,
        accept: None,
        pending_open: None,
        query_dirty: false,
        mode: Mode::File,
        regex: false,
        show_preview: true,
        preview_scroll: 0,
    }
}

/// The precondition of an action: `Backspace` needs the cursor inside the query.
pub open spec fn action_allowed(v: AppView, action: Action) -> bool {
    action == Action::Backspace ==> v.cursor <= v.query.len()
}

// ---------------------------------------------------------------------------
// The executable state machine
// ---------------------------------------------------------------------------

impl App {
    pub fn new() -> (a: Self)
        ensures
            a@ == initial_view(),
    {
        let a = App {
            query: String::new(),
            cursor: 0,
            results: Vec::new(),
            selected: 0,
            scroll: 0,
            viewport: 0,
            status: String::new(),
            should_quit: false,
            case_sensitive: None,
            accept: None,
            pending_open: None,
            query_dirty: false,
            mode: Mode::File,
            regex: false,
            show_preview: true,
            preview_scroll: 0,
        };
        assert(items_view(a.results@) =~= seq![]);
        a
    }

    /// Inserts `c` at the cursor (clamped to the end of the query) and moves the
    /// cursor past it.
    pub fn insert_char(&mut self, c: char)
        ensures
            final(self)@ == insert_model(old(self)@, c),
    {
        let mut chars = chars_of(self.query.as_str());
        let idx = if self.cursor < chars.len() {
            self.cursor
        } else {
            chars.len()
        };
        chars.insert(idx, c);
        let n = chars.len();
        assert(idx < n);
        self.cursor = idx + 1;
        self.query = string_of(&chars);
        assert(self.query@ =~= old(self).query@.take(idx as int) + seq![c] + old(self).query@.skip(
            idx as int,
        ));
    }

    pub fn backspace(&mut self)
        requires
            old(self).cursor <= old(self).query@.len(),
        ensures
            final(self)@ == backspace_model(old(self)@),
    {
        if self.cursor == 0 {
            return;
        }
        let mut chars = chars_of(self.query.as_str());
        chars.remove(self.cursor - 1);
        self.cursor -= 1;
        self.query = string_of(&chars);
        assert(self.query@ =~= old(self).query@.take(old(self).cursor - 1) + old(
            self,
        ).query@.skip(old(self).cursor as int));
    }

    pub fn delete(&mut self)
        ensures
            final(self)@ == delete_model(old(self)@),
    {
        let mut chars = chars_of(self.query.as_str());
        if self.cursor < chars.len() {
            chars.remove(self.cursor);
            self.query = string_of(&chars);
            assert(self.query@ =~= old(self).query@.take(self.cursor as int) + old(
                self,
            ).query@.skip(self.cursor + 1));
        }
    }

    pub fn delete_word(&mut self)
        ensures
            final(self)@ == delete_word_model(old(self)@),
    {
        let chars = chars_of(self.query.as_str());
        let ghost q = chars@;
        let end = if self.cursor < chars.len() {
            self.cursor
        } else {
            chars.len()
        };
        let mut start = end;
        while start > 0
            invariant
                start <= end <= chars.len(),
                chars@ == q,
                skip_space_back(q, start as int) == skip_space_back(q, end as int),
            ensures
                start <= end,
                skip_space_back(q, end as int) == start as int,
            decreases start,
        {
            if !char_is_whitespace(chars[start - 1]) {
                break;
            }
            start -= 1;
        }
        let mid = start;
        assert(skip_space_back(q, end as int) == mid as int);
        while start > 0
            invariant
                start <= mid <= chars.len(),
                chars@ == q,
                skip_word_back(q, start as int) == skip_word_back(q, mid as int),
            ensures
                start <= mid,
                skip_word_back(q, mid as int) == start as int,
            decreases start,
        {
            if char_is_whitespace(chars[start - 1]) {
                break;
            }
            start -= 1;
        }
        assert(skip_word_back(q, mid as int) == start as int);
        let mut next: Vec<char> = Vec::new();
        let mut i: usize = 0;
        while i < start
            invariant
                i <= start <= chars.len(),
                chars@ == q,
                next@ == q.take(i as int),
            decreases start - i,
        {
            next.push(chars[i]);
            assert(q.take(i + 1) == q.take(i as int).push(q[i as int]));
            i += 1;
        }
        let mut j = end;
        while j < chars.len()
            invariant
                start <= end <= j <= chars.len(),
                chars@ == q,
                next@ == q.take(start as int) + q.subrange(end as int, j as int),
            decreases chars.len() - j,
        {
            next.push(chars[j]);
            assert(q.subrange(end as int, j + 1) == q.subrange(end as int, j as int).push(
                q[j as int],
            ));
            j += 1;
        }
        assert(q.subrange(end as int, chars.len() as int) == q.skip(end as int));
        self.cursor = start;
        self.query = string_of(&next);
    }

    pub fn clear_line(&mut self)
        ensures
            final(self)@ == clear_model(old(self)@),
    {
        self.query = String::new();
        self.cursor = 0;
    }

    pub fn move_left(&mut self)
        ensures
            final(self)@ == move_left_model(old(self)@),
    {
        self.cursor = self.cursor.saturating_sub(1);
    }

    pub fn move_right(&mut self)
        ensures
            final(self)@ == move_right_model(old(self)@),
    {
        let len = chars_of(self.query.as_str()).len();
        if self.cursor < len {
            self.cursor += 1;
        }
    }

    pub fn move_home(&mut self)
        ensures
            final(self)@ == (AppView { cursor: 0, ..old(self)@ }),
    {
        self.cursor = 0;
    }

    pub fn move_end(&mut self)
        ensures
            final(self)@ == (AppView { cursor: old(self)@.query.len() as usize, ..old(self)@ }),
    {
        self.cursor = chars_of(self.query.as_str()).len();
    }

    pub fn set_viewport(&mut self, height: usize)
        ensures
            final(self)@ == keep_visible(AppView { viewport: height, ..old(self)@ }),
    {
        self.viewport = height;
        self.ensure_visible();
    }

    pub fn reset_selection(&mut self)
        ensures
            final(self)@ == (AppView { selected: 0, scroll: 0, ..old(self)@ }),
    {
        self.selected = 0;
        self.scroll = 0;
    }

    pub fn select_next(&mut self)
        ensures
            final(self)@ == select_next_model(old(self)@),
    {
        if self.results.len() == 0 {
            return;
        }
        if self.selected < self.results.len() - 1 {
            self.selected += 1;
        }
        self.ensure_visible();
    }

    pub fn select_prev(&mut self)
        ensures
            final(self)@ == select_prev_model(old(self)@),
    {
        self.selected = self.selected.saturating_sub(1);
        self.ensure_visible();
    }

    pub fn page_down(&mut self)
        ensures
            final(self)@ == page_down_model(old(self)@),
    {
        if self.results.len() == 0 {
            return;
        }
        let step = if self.viewport > 0 {
            self.viewport
        } else {
            1
        };
        let last = self.results.len() - 1;
        self.selected = if self.selected > last || step > last - self.selected {
            last
        } else {
            self.selected + step
        };
        self.ensure_visible();
    }

    pub fn page_up(&mut self)
        ensures
            final(self)@ == page_up_model(old(self)@),
    {
        let step = if self.viewport > 0 {
            self.viewport
        } else {
            1
        };
        self.selected = self.selected.saturating_sub(step);
        self.ensure_visible();
    }

    pub fn on_results_changed(&mut self, new_results: Vec<Item>)
        ensures
            final(self)@ == results_changed_model(old(self)@, items_view(new_results@)),
    {
        self.results = new_results;
        if self.results.len() == 0 {
            self.selected = 0;
            self.scroll = 0;
            return;
        }
        if self.selected >= self.results.len() {
            self.selected = self.results.len() - 1;
        }
        self.ensure_visible();
    }

    /// Single source of truth for keeping `selected` inside the scroll window.
    fn ensure_visible(&mut self)
        ensures
            final(self)@ == keep_visible(old(self)@),
    {
        if self.viewport == 0 {
            self.scroll = 0;
            return;
        }
        if self.selected < self.scroll {
            self.scroll = self.selected;
        } else if self.selected - self.scroll >= self.viewport {
            self.scroll = self.selected - self.viewport + 1;
        }
    }

    fn mark_query_changed(&mut self)
        ensures
            final(self)@ == query_changed(old(self)@),
    {
        self.query_dirty = true;
        self.reset_selection();
    }

    /// Applies one user action.
    pub fn apply(&mut self, action: Action)
        requires
            action_allowed(old(self)@, action),
        ensures
            final(self)@ == apply_model(old(self)@, action),
    {
        match action {
            Action::Insert(c) => {
                self.insert_char(c);
                self.mark_query_changed();
            },
            Action::Backspace => {
                self.backspace();
                self.mark_query_changed();
            },
            Action::Delete => {
                self.delete();
                self.mark_query_changed();
            },
            Action::DeleteWord => {
                self.delete_word();
                self.mark_query_changed();
            },
            Action::ClearLine => {
                self.clear_line();
                self.mark_query_changed();
            },
            Action::MoveLeft => self.move_left(),
            Action::MoveRight => self.move_right(),
            Action::MoveHome => self.move_home(),
            Action::MoveEnd => self.move_end(),
            Action::SelectNext => self.select_next(),
            Action::SelectPrev => self.select_prev(),
            Action::PageDown => self.page_down(),
            Action::PageUp => self.page_up(),
            Action::ToggleCase => {
                self.case_sensitive = match self.case_sensitive {
                    None => Some(true),
                    Some(true) => Some(false),
                    Some(false) => None,
                };
                self.query_dirty = true;
            },
            Action::Accept => {
                if self.selected < self.results.len() {
                    let s = self.results[self.selected].selection_string();
                    self.accept = Some(s);
                    self.should_quit = true;
                }
            },
            Action::OpenInEditor => {
                if self.selected < self.results.len() {
                    let t = self.results[self.selected].open_target();
                    self.pending_open = Some(t);
                }
            },
            Action::Quit => self.should_quit = true,
            Action::SwitchMode => {
                self.mode = match self.mode {
                    Mode::File => Mode::Content,
                    Mode::Content => Mode::File,
                };
                self.query_dirty = true;
                self.reset_selection();
            },
            Action::ToggleRegex => {
                self.regex = !self.regex;
                self.query_dirty = true;
            },
            Action::TogglePreview => self.show_preview = !self.show_preview,
            Action::PreviewUp => self.preview_scroll = self.preview_scroll.saturating_sub(1),
            Action::PreviewDown => self.preview_scroll = self.preview_scroll.saturating_add(1),
            Action::NoOp => {},
        }
    }
}

impl Default for App {
    fn default() -> (a: Self)
        ensures
            a@ == initial_view(),
    {
        App::new()
    }
}

// ---------------------------------------------------------------------------
// Laws of the state machine
// ---------------------------------------------------------------------------

proof fn lemma_skips_bounded(q: Seq<char>, k: int)
    requires
        0 <= k,
    ensures
        0 <= skip_space_back(q, k) <= k,
        0 <= skip_word_back(q, k) <= k,
    decreases k,
{
    if k > 0 {
        lemma_skips_bounded(q, k - 1);
    }
}

/// After `keep_visible` the selected row is in the scroll window.
pub proof fn lemma_keep_visible(v: AppView)
    ensures
        selection_visible(keep_visible(v)),
        keep_visible(v).selected == v.selected,
{
}

/// Every action keeps the cursor within the query (a position between characters).
pub proof fn law_cursor_within_query(v: AppView, action: Action)
    requires
        action_allowed(v, action),
        v.cursor <= v.query.len(),
        v.query.len() < usize::MAX,
    ensures
        apply_model(v, action).cursor <= apply_model(v, action).query.len(),
{
    if action == Action::DeleteWord {
        let end = min_int(v.cursor as int, v.query.len() as int);
        lemma_skips_bounded(v.query, end);
        lemma_skips_bounded(v.query, skip_space_back(v.query, end));
    }
}

/// Moving the selection (next, previous, page down, page up) keeps it on an existing
/// result and inside the scroll window.
pub proof fn law_navigation_keeps_selection_visible(v: AppView, action: Action)
    requires
        v.selected < v.results.len(),
        action == Action::SelectNext || action == Action::SelectPrev || action == Action::PageDown
            || action == Action::PageUp,
    ensures
        apply_model(v, action).selected < apply_model(v, action).results.len(),
        selection_visible(apply_model(v, action)),
{
}

/// A new result list keeps the selection on an existing row and visible, or, when the
/// list is empty, returns selection and scroll to the top.
pub proof fn law_results_change_clamps_selection(v: AppView, new_results: Seq<ItemView>)
    ensures
        new_results.len() == 0 ==> results_changed_model(v, new_results).selected == 0
            && results_changed_model(v, new_results).scroll == 0,
        new_results.len() > 0 ==> results_changed_model(v, new_results).selected
            < new_results.len() && selection_visible(results_changed_model(v, new_results)),
        results_changed_model(v, new_results).results == new_results,
{
}

/// Resizing the list pane keeps the selected row visible.
pub proof fn law_resize_keeps_selection_visible(v: AppView, height: usize)
    ensures
        selection_visible(keep_visible(AppView { viewport: height, ..v })),
{
}

/// Typing a character and deleting it again with Backspace restores the query and
/// the cursor.
pub proof fn law_insert_then_backspace(v: AppView, c: char)
    requires
        v.cursor <= v.query.len(),
        v.query.len() < usize::MAX,
    ensures
        apply_model(apply_model(v, Action::Insert(c)), Action::Backspace).query == v.query,
        apply_model(apply_model(v, Action::Insert(c)), Action::Backspace).cursor == v.cursor,
{
    let w = apply_model(v, Action::Insert(c));
    let k = v.cursor as int;
    assert(w.cursor == k + 1);
    assert(w.query.take(k) + w.query.skip(k + 1) =~= v.query);
}

/// Edits of the query mark it for re-search and return the selection to the top.
pub proof fn law_edits_mark_dirty(v: AppView, action: Action)
    requires
        action is Insert || action == Action::Backspace || action == Action::Delete || action
            == Action::DeleteWord || action == Action::ClearLine,
    ensures
        apply_model(v, action).query_dirty,
        apply_model(v, action).selected == 0,
        apply_model(v, action).scroll == 0,
{
}

/// Cursor motion, selection motion and preview controls leave the query, its
/// re-search flag and the search settings alone.
pub proof fn law_navigation_leaves_query(v: AppView, action: Action)
    requires
        action == Action::MoveLeft || action == Action::MoveRight || action == Action::MoveHome
            || action == Action::MoveEnd || action == Action::SelectNext || action
            == Action::SelectPrev || action == Action::PageDown || action == Action::PageUp
            || action == Action::TogglePreview || action == Action::PreviewUp || action
            == Action::PreviewDown,
    ensures
        apply_model(v, action).query == v.query,
        apply_model(v, action).query_dirty == v.query_dirty,
        apply_model(v, action).mode == v.mode,
        apply_model(v, action).regex == v.regex,
        apply_model(v, action).case_sensitive == v.case_sensitive,
        apply_model(v, action).results == v.results,
{
}

/// The case toggle cycles smart -> sensitive -> insensitive -> smart.
pub proof fn law_case_toggle_cycles(v: AppView)
    ensures
        apply_model(apply_model(apply_model(v, Action::ToggleCase), Action::ToggleCase),
            Action::ToggleCase).case_sensitive == v.case_sensitive,
        apply_model(v, Action::ToggleCase).case_sensitive != v.case_sensitive,
{
}

/// Switching mode, toggling regex and toggling the preview are each undone by a
/// second press.
pub proof fn law_toggles_are_involutions(v: AppView)
    ensures
        apply_model(apply_model(v, Action::SwitchMode), Action::SwitchMode).mode == v.mode,
        apply_model(v, Action::SwitchMode).mode != v.mode,
        apply_model(apply_model(v, Action::ToggleRegex), Action::ToggleRegex).regex == v.regex,
        apply_model(apply_model(v, Action::TogglePreview), Action::TogglePreview).show_preview
            == v.show_preview,
{
}

/// Accepting prints the selected result and quits; with no result selected nothing
/// happens. Opening in the editor never quits.
pub proof fn law_accept_and_open(v: AppView)
    ensures
        v.selected < v.results.len() ==> apply_model(v, Action::Accept).accept == Some(
            selection_text(v.results[v.selected as int]),
        ) && apply_model(v, Action::Accept).should_quit,
        v.selected >= v.results.len() ==> apply_model(v, Action::Accept) == v,
        apply_model(v, Action::OpenInEditor).should_quit == v.should_quit,
        apply_model(v, Action::Quit).should_quit,
        apply_model(v, Action::Quit).accept == v.accept,
{
}

/// The finder's state invariant: the cursor lies within the query, the selection is
/// on an existing result (or 0 when there are none) and inside the scroll window.
pub open spec fn app_invariant(v: AppView) -> bool {
    &&& v.cursor <= v.query.len()
    &&& if v.results.len() == 0 {
        v.selected == 0
    } else {
        v.selected < v.results.len()
    }
    &&& selection_visible(v)
}

/// Every action keeps the state invariant.
pub proof fn law_apply_keeps_invariant(v: AppView, action: Action)
    requires
        app_invariant(v),
        v.query.len() < usize::MAX,
    ensures
        app_invariant(apply_model(v, action)),
{
    law_cursor_within_query(v, action);
    match action {
        Action::SelectNext | Action::SelectPrev | Action::PageDown | Action::PageUp => {
            if v.results.len() > 0 {
                law_navigation_keeps_selection_visible(v, action);
            }
        },
        Action::Insert(c) => {},
        Action::Backspace => {},
        Action::Delete => {},
        Action::DeleteWord => {},
        Action::ClearLine => {},
        Action::MoveLeft => {},
        Action::MoveRight => {},
        Action::MoveHome => {},
        Action::MoveEnd => {},
        Action::SwitchMode => {},
        Action::ToggleRegex => {},
        Action::ToggleCase => {},
        Action::Accept => {},
        Action::OpenInEditor => {},
        Action::TogglePreview => {},
        Action::PreviewUp => {},
        Action::PreviewDown => {},
        Action::Quit => {},
        Action::NoOp => {},
    }
}

/// A fresh finder meets the invariant, and every step of the run loop keeps it: any
/// action, a new result list, and a resize of the list pane.
pub proof fn law_state_invariant(v: AppView, action: Action, new_results: Seq<ItemView>, height: usize)
    requires
        app_invariant(v),
        v.query.len() < usize::MAX,
    ensures
        app_invariant(initial_view()),
        app_invariant(apply_model(v, action)),
        app_invariant(results_changed_model(v, new_results)),
        app_invariant(keep_visible(AppView { viewport: height, ..v })),
{
    law_apply_keeps_invariant(v, action);
    law_results_change_clamps_selection(v, new_results);
    law_resize_keeps_selection_visible(v, height);
}

/// Paging moves the selection by one screenful of rows (the viewport height, at
/// least one row): Page Up stops at the first result, Page Down at the last, Up and
/// Down move one row; away from the ends Page Down then Page Up comes back to the same
/// row. The scroll window follows the selection.
pub proof fn law_paging_moves_by_viewport(v: AppView)
    requires
        v.results.len() <= usize::MAX,
    ensures
        ({
            let step: int = if v.viewport > 0 {
                v.viewport as int
            } else {
                1
            };
            &&& apply_model(v, Action::PageUp).selected == (if v.selected >= step {
                v.selected - step
            } else {
                0
            })
            &&& v.results.len() > 0 ==> apply_model(v, Action::PageDown).selected == (if v.selected
                + step < v.results.len() {
                v.selected + step
            } else {
                v.results.len() - 1
            })
            &&& v.selected + step < v.results.len() ==> apply_model(
                apply_model(v, Action::PageDown),
                Action::PageUp,
            ).selected == v.selected
            &&& apply_model(v, Action::SelectPrev).selected == (if v.selected > 0 {
                v.selected - 1
            } else {
                0
            })
            &&& v.selected + 1 < v.results.len() ==> apply_model(v, Action::SelectNext).selected
                == v.selected + 1
            &&& selection_visible(apply_model(v, Action::PageUp))
        }),
{
}

/// A key pressed without modifiers.
pub open spec fn plain(code: KeyCode) -> KeyEvent {
    KeyEvent { code, ctrl: false, alt: false }
}

/// A key pressed with Control.
pub open spec fn ctrl(c: char) -> KeyEvent {
    KeyEvent { code: KeyCode::Char(c), ctrl: true, alt: false }
}

/// The keys move the way the Controls table says. `←`/`→` move the query cursor one
/// character left/right, `Home`/`End` (and `Ctrl+A`/`Ctrl+E`) to the ends, none of them
/// touching the query; `↑`/`↓` (and `Ctrl+P`/`Ctrl+K`, `Ctrl+N`/`Ctrl+J`) move the
/// selection one row up/down; `PgUp`/`PgDn` move it by the viewport height; `Alt+↑`/
/// `Alt+↓` scroll the preview; `Esc`, `Ctrl+C` and `Ctrl+Q` quit without a selection.
pub proof fn law_keys_move_their_way(v: AppView)
    requires
        v.results.len() <= usize::MAX,
        v.query.len() <= usize::MAX,
    ensures
        0 < v.cursor <= v.query.len() ==> apply_model(v, action_for(plain(KeyCode::Left))).cursor
            == v.cursor - 1,
        v.cursor < v.query.len() ==> apply_model(v, action_for(plain(KeyCode::Right))).cursor
            == v.cursor + 1,
        apply_model(v, action_for(plain(KeyCode::Left))).query == v.query,
        apply_model(v, action_for(plain(KeyCode::Right))).query == v.query,
        apply_model(v, action_for(plain(KeyCode::Home))).cursor == 0,
        apply_model(v, action_for(ctrl('a'))).cursor == 0,
        apply_model(v, action_for(plain(KeyCode::End))).cursor == v.query.len(),
        apply_model(v, action_for(ctrl('e'))).cursor == v.query.len(),
        v.selected > 0 ==> apply_model(v, action_for(plain(KeyCode::Up))).selected == v.selected
            - 1,
        v.selected > 0 ==> apply_model(v, action_for(ctrl('p'))).selected == v.selected - 1,
        v.selected > 0 ==> apply_model(v, action_for(ctrl('k'))).selected == v.selected - 1,
        v.selected + 1 < v.results.len() ==> apply_model(v, action_for(plain(KeyCode::Down))).selected
            == v.selected + 1,
        v.selected + 1 < v.results.len() ==> apply_model(v, action_for(ctrl('n'))).selected
            == v.selected + 1,
        v.selected + 1 < v.results.len() ==> apply_model(v, action_for(ctrl('j'))).selected
            == v.selected + 1,
        v.viewport > 0 && v.selected >= v.viewport ==> apply_model(
            v,
            action_for(plain(KeyCode::PageUp)),
        ).selected == v.selected - v.viewport,
        v.viewport > 0 && v.selected + v.viewport < v.results.len() ==> apply_model(
            v,
            action_for(plain(KeyCode::PageDown)),
        ).selected == v.selected + v.viewport,
        v.preview_scroll > 0 ==> apply_model(
            v,
            action_for(KeyEvent { code: KeyCode::Up, ctrl: false, alt: true }),
        ).preview_scroll == v.preview_scroll - 1,
        v.preview_scroll < usize::MAX ==> apply_model(
            v,
            action_for(KeyEvent { code: KeyCode::Down, ctrl: false, alt: true }),
        ).preview_scroll == v.preview_scroll + 1,
        apply_model(v, action_for(plain(KeyCode::Esc))).should_quit,
        apply_model(v, action_for(plain(KeyCode::Esc))).accept == v.accept,
        apply_model(v, action_for(ctrl('c'))).should_quit,
        apply_model(v, action_for(ctrl('q'))).should_quit,
{
}

} // verus!
