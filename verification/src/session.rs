//! Decisions of the interactive run loop: what the status line says, where an edited
//! query is sent and when, how a frame ends, and which slice of the file matches to show.
use vstd::prelude::*;

use crate::app::{App, AppView, Mode};
use crate::text::{append_chars, chars_of, decimal, push_decimal, string_of};

verus! {

/// How long a content query must stay unchanged before it is searched.
pub const DEBOUNCE_MS: u64 = 120;

/// Most file matches taken from the fuzzy matcher per frame.
pub const FILE_RESULT_LIMIT: usize = 50_000;

/// File mode status: `<matched>/<total>`.
pub fn file_status(matched: usize, total: usize) -> (r: String)
    ensures
        r@ == decimal(matched as nat) + seq!['/'] + decimal(total as nat),
{
    let mut v: Vec<char> = Vec::new();
    push_decimal(&mut v, matched);
    v.push('/');
    push_decimal(&mut v, total);
    string_of(&v)
}

/// Content mode status: the regex error when there is one, else the number of
/// matches, flagged when the result cap cut the search short.
pub open spec fn content_status_spec(error: Option<Seq<char>>, n: usize, capped: bool) -> Seq<char> {
    match error {
        Some(e) => "regex error: "@ + e,
        None => if capped {
            decimal(n as nat) + "+ (capped \u{2014} refine query)"@
        } else {
            decimal(n as nat) + " matches"@
        },
    }
}

pub fn content_status(error: Option<&str>, n: usize, capped: bool) -> (r: String)
    ensures
        r@ == content_status_spec(
            match error {
                Some(e) => Some(e@),
                None => None,
            },
            n,
            capped,
        ),
{
    match error {
        Some(e) => {
            let mut v = chars_of("regex error: ");
            let ec = chars_of(e);
            append_chars(&mut v, &ec);
            string_of(&v)
        },
        None => {
            let mut v: Vec<char> = Vec::new();
            push_decimal(&mut v, n);
            let tail = if capped {
                chars_of("+ (capped \u{2014} refine query)")
            } else {
                chars_of(" matches")
            };
            append_chars(&mut v, &tail);
            string_of(&v)
        },
    }
}

/// A content query waiting out the debounce delay: the text, the regex flag and
/// when (in milliseconds) it was last edited.
pub struct Debouncer {
    pending: Option<(String, bool, u64)>,
}

impl Debouncer {
    pub closed spec fn pending_view(&self) -> Option<(Seq<char>, bool, u64)> {
        match self.pending {
            Some(p) => Some((p.0@, p.1, p.2)),
            None => None,
        }
    }

    pub fn new() -> (d: Self)
        ensures
            d.pending_view() is None,
    {
        Debouncer { pending: None }
    }

    /// Records an edit at time `now_ms`; it replaces whatever was waiting.
    pub fn request(&mut self, query: String, regex: bool, now_ms: u64)
        ensures
            final(self).pending_view() == Some((query@, regex, now_ms)),
    {
        self.pending = Some((query, regex, now_ms));
    }

    /// Drops whatever was waiting.
    pub fn clear(&mut self)
        ensures
            final(self).pending_view() is None,
    {
        self.pending = None;
    }

    /// The waiting query, once it has been left alone for `DEBOUNCE_MS`; it is then
    /// no longer waiting.
    pub fn take_due(&mut self, now_ms: u64) -> (r: Option<(String, bool)>)
        ensures
            match old(self).pending_view() {
                Some((q, regex, since)) => if now_ms >= since && now_ms - since >= DEBOUNCE_MS {
                    &&& final(self).pending_view() is None
                    &&& r matches Some((rq, rr)) && rq@ == q && rr == regex
                } else {
                    r is None && final(self).pending_view() == old(self).pending_view()
                },
                None => r is None && final(self).pending_view() is None,
            },
    {
        let due = match &self.pending {
            Some(p) => now_ms >= p.2 && now_ms - p.2 >= DEBOUNCE_MS,
            None => false,
        };
        if due {
            match self.pending.take() {
                Some((q, regex, _)) => Some((q, regex)),
                None => None,
            }
        } else {
            None
        }
    }
}

/// How the fuzzy file matcher treats case.
#[derive(Debug, Clone, Copy, PartialEq, Eq, Structural)]
pub enum CaseMode {
    /// Case-insensitive unless the pattern holds an uppercase letter.
    Smart,
    Respect,
    Ignore,
}

/// The file matcher's case mode for the user's case setting.
pub fn case_mode(case_sensitive: Option<bool>) -> (m: CaseMode)
    ensures
        m == match case_sensitive {
            None => CaseMode::Smart,
            Some(true) => CaseMode::Respect,
            Some(false) => CaseMode::Ignore,
        },
{
    match case_sensitive {
        None => CaseMode::Smart,
        Some(true) => CaseMode::Respect,
        Some(false) => CaseMode::Ignore,
    }
}

/// The matched items to take for `[offset, offset + limit)` out of `matched`:
/// the range clipped to the matches, or nothing when it is empty.
pub fn match_range(offset: usize, limit: usize, matched: usize) -> (r: Option<(usize, usize)>)
    ensures
        ({
            let end = if offset + limit < matched {
                offset + limit
            } else {
                matched as int
            };
            if offset >= end {
                r is None
            } else {
                r == Some((offset, end as usize))
            }
        }),
{
    let end = offset.saturating_add(limit);
    let end = if end < matched {
        end
    } else {
        matched
    };
    if offset >= end {
        None
    } else {
        Some((offset, end))
    }
}

/// The query a frame sends to an engine, if any.
pub enum QueryRoute {
    /// Nothing to send this frame.
    Idle,
    /// Set the file matcher's query, with the case setting.
    FileQuery(String, Option<bool>),
    /// Start a content search: query, regex flag, case setting.
    ContentQuery(String, bool, Option<bool>),
}

/// The app as it is after its query edit has been taken up.
pub open spec fn taken_up(v: AppView) -> AppView {
    AppView { query_dirty: false, ..v }
}

/// A frame's handling of the query line. In file mode an edited query goes to the
/// fuzzy matcher at once and any waiting content query is dropped. In content mode an
/// edited query waits in the debouncer (replacing what was waiting), and the waiting
/// query is sent once it has been left alone for `DEBOUNCE_MS`, with the case setting
/// current at that moment. Either way the edit is marked as taken up.
pub fn route_query(app: &mut App, debounce: &mut Debouncer, now_ms: u64) -> (r: QueryRoute)
    ensures
        final(app)@ == taken_up(old(app)@),
        old(app).mode == Mode::File ==> if old(app).query_dirty {
            &&& r matches QueryRoute::FileQuery(q, cs) && q@ == old(app)@.query && cs
                == old(app).case_sensitive
            &&& final(debounce).pending_view() is None
        } else {
            r is Idle && final(debounce).pending_view() == old(debounce).pending_view()
        },
        old(app).mode == Mode::Content ==> {
            let waiting = if old(app).query_dirty {
                Some((old(app)@.query, old(app).regex, now_ms))
            } else {
                old(debounce).pending_view()
            };
            match waiting {
                Some((q, regex, since)) => if now_ms >= since && now_ms - since >= DEBOUNCE_MS {
                    &&& final(debounce).pending_view() is None
                    &&& r matches QueryRoute::ContentQuery(rq, rr, cs) && rq@ == q && rr == regex
                        && cs == old(app).case_sensitive
                } else {
                    r is Idle && final(debounce).pending_view() == waiting
                },
                None => r is Idle && final(debounce).pending_view() is None,
            }
        },
{
    match app.mode {
        Mode::File => {
            if app.query_dirty {
                app.query_dirty = false;
                debounce.clear();
                QueryRoute::FileQuery(app.query.clone(), app.case_sensitive)
            } else {
                QueryRoute::Idle
            }
        },
        Mode::Content => {
            if app.query_dirty {
                debounce.request(app.query.clone(), app.regex, now_ms);
                app.query_dirty = false;
            }
            match debounce.take_due(now_ms) {
                Some((q, regex)) => QueryRoute::ContentQuery(q, regex, app.case_sensitive),
                None => QueryRoute::Idle,
            }
        },
    }
}

/// How a frame ends: the (path, line) to open in the editor, if one was asked for,
/// and, when the user quit, the text to print (none when nothing was accepted).
pub fn end_frame(app: &mut App) -> (r: (Option<(String, Option<usize>)>, Option<Option<String>>))
    ensures
        match (r.0, old(app).pending_open) {
            (Some(o), Some(p)) => o.0@ == p.0@ && o.1 == p.1,
            (None, None) => true,
            _ => false,
        },
        match r.1 {
            Some(Some(a)) => old(app).should_quit && old(app)@.accept == Some(a@),
            Some(None) => old(app).should_quit && old(app).accept is None,
            None => !old(app).should_quit,
        },
        final(app)@ == (AppView {
            pending_open: None,
            accept: if old(app).should_quit {
                None
            } else {
                old(app)@.accept
            },
            ..old(app)@
        }),
{
    let open = app.pending_open.take();
    let exit = if app.should_quit {
        Some(app.accept.take())
    } else {
        None
    };
    (open, exit)
}

} // verus!
