//! Content (grep-style) search: the line matcher, the per-file scan, and the
//! engine state that collects results from a running search.
//!
//! Walking the tree, reading files and the worker threads are the caller's part;
//! every decision about a line, a batch or the engine's state is made here.
use vstd::prelude::*;

use crate::engine::{build_filters, filters_outcome, strings_of, Filters};
use crate::query::{
    effective_case, line_matches, parse_content, parse_spec, query_matches, ParsedQuery,
};
use crate::text::{chars_of, is_blank, all_white_space, string_of};
use crate::types::{Item, ItemView};

verus! {

// ---------------------------------------------------------------------------
// Regular expressions (the `regex` crate)
// ---------------------------------------------------------------------------

#[verifier::external_type_specification]
#[verifier::external_body]
pub struct ExRegex(regex::Regex);

/// The error text `RegexBuilder::build` reports for `pattern` with the given case
/// setting, or `None` when the pattern compiles.
pub uninterp spec fn regex_compile_error(pattern: Seq<char>, case_insensitive: bool) -> Option<
    Seq<char>,
>;

/// Whether the regex compiled from `pattern` (case-insensitively when asked) finds a
/// match anywhere in `hay`.
pub uninterp spec fn regex_finds(pattern: Seq<char>, case_insensitive: bool, hay: Seq<char>) -> bool;

/// A compiled regex together with the pattern and case setting it was built from.
#[derive(Debug)]
pub struct CompiledRegex {
    pattern: String,
    case_insensitive: bool,
    re: regex::Regex,
}

impl CompiledRegex {
    pub closed spec fn pattern(&self) -> Seq<char> {
        self.pattern@
    }

    pub closed spec fn case_insensitive(&self) -> bool {
        self.case_insensitive
    }
}

/// Compiles `pattern` with `regex::RegexBuilder` (`new`, `case_insensitive`, `build`).
/// The contract names the outcome: success exactly when the regex crate accepts the
/// pattern, and otherwise its error message (`Error::to_string`), which is never
/// empty: every `Display` arm of `regex::Error` (and of the syntax and build errors
/// it wraps) writes a fixed non-empty prefix.
#[verifier::external_body]
fn compile_regex(pattern: &str, case_insensitive: bool) -> (r: Result<CompiledRegex, String>)
    ensures
        match r {
            Ok(c) => regex_compile_error(pattern@, case_insensitive) is None && c.pattern()
                == pattern@ && c.case_insensitive() == case_insensitive,
            Err(e) => regex_compile_error(pattern@, case_insensitive) == Some(e@) && e@.len() > 0,
        },
{
    match regex::RegexBuilder::new(pattern).case_insensitive(case_insensitive).build() {
        Ok(re) => Ok(CompiledRegex { pattern: pattern.to_string(), case_insensitive, re }),
        Err(e) => Err(e.to_string()),
    }
}

/// `regex::Regex::is_match`: whether the regex matches anywhere in `hay`. The contract
/// names the answer as a function of the pattern, the case setting and `hay`.
#[verifier::external_body]
fn regex_is_match(c: &CompiledRegex, hay: &str) -> (r: bool)
    ensures
        r == regex_finds(c.pattern(), c.case_insensitive(), hay@),
{
    c.re.is_match(hay)
}

// ---------------------------------------------------------------------------
// Matchers
// ---------------------------------------------------------------------------

/// A compiled content query.
#[derive(Debug)]
pub enum ContentMatcher {
    Extended(ParsedQuery),
    Regex(CompiledRegex),
}

/// Whether `line` is a hit for the matcher.
pub open spec fn matcher_accepts(m: &ContentMatcher, line: Seq<char>) -> bool {
    match m {
        ContentMatcher::Extended(q) => query_matches(q@, line),
        ContentMatcher::Regex(c) => regex_finds(c.pattern(), c.case_insensitive(), line),
    }
}

impl ContentMatcher {
    pub fn matches(&self, line: &str) -> (r: bool)
        ensures
            r == matcher_accepts(self, line@),
    {
        match self {
            ContentMatcher::Extended(q) => line_matches(q, line),
            ContentMatcher::Regex(re) => regex_is_match(re, line),
        }
    }
}

/// What `build_matcher` produces: the extended query, or a regex over the whole
/// query (case-insensitive unless the effective case says otherwise), or the regex
/// error text.
pub open spec fn build_matcher_ok(
    query: Seq<char>,
    regex: bool,
    case_sensitive: Option<bool>,
    m: &ContentMatcher,
) -> bool {
    if !regex {
        m matches ContentMatcher::Extended(q) && q@ == parse_spec(query, case_sensitive)
    } else {
        &&& regex_compile_error(query, !effective_case(query, case_sensitive)) is None
        &&& m matches ContentMatcher::Regex(c) && c.pattern() == query && c.case_insensitive()
            == !effective_case(query, case_sensitive)
    }
}

/// Builds a matcher. `regex == false` gives the extended literal atoms; `regex == true`
/// gives one regex over the whole query, smart-case unless `case_sensitive` overrides.
/// Fails, with the regex crate's (non-empty) message, exactly when the regex does not
/// compile.
pub fn build_matcher(query: &str, regex: bool, case_sensitive: Option<bool>) -> (r: Result<
    ContentMatcher,
    String,
>)
    ensures
        match r {
            Ok(m) => build_matcher_ok(query@, regex, case_sensitive, &m),
            Err(e) => regex && regex_compile_error(
                query@,
                !effective_case(query@, case_sensitive),
            ) == Some(e@) && e@.len() > 0,
        },
{
    if !regex {
        return Ok(ContentMatcher::Extended(parse_content(query, case_sensitive)));
    }
    let cs = match case_sensitive {
        Some(b) => b,
        None => parse_content(query, None).case_sensitive,
    };
    match compile_regex(query, !cs) {
        Ok(c) => Ok(ContentMatcher::Regex(c)),
        Err(e) => Err(e),
    }
}

// ---------------------------------------------------------------------------
// Scanning one file
// ---------------------------------------------------------------------------

/// Most content matches a search collects; the scan stops past it.
pub const CONTENT_RESULT_CAP: usize = 50_000;

/// Matches are handed over in batches of this many.
pub const BATCH: usize = 256;

/// Whether a running search gives up before its next file: a newer query has moved
/// the generation on, or the search has already counted `CONTENT_RESULT_CAP` matches.
pub fn search_should_stop(current_generation: u64, search_generation: u64, counted: usize) -> (r:
    bool)
    ensures
        r == (current_generation != search_generation || counted >= CONTENT_RESULT_CAP),
{
    current_generation != search_generation || counted >= CONTENT_RESULT_CAP
}

/// The characters `String::from_utf8_lossy` decodes from `bytes` (invalid sequences
/// become U+FFFD).
pub uninterp spec fn utf8_lossy(bytes: Seq<u8>) -> Seq<char>;

/// Every byte is ASCII.
pub open spec fn ascii_bytes(bytes: Seq<u8>) -> bool {
    forall|i: int| 0 <= i < bytes.len() ==> #[trigger] bytes[i] < 128
}

/// ASCII bytes read as the characters they encode.
pub open spec fn ascii_chars(bytes: Seq<u8>) -> Seq<char> {
    bytes.map_values(|b: u8| b as char)
}

/// `String::from_utf8_lossy`; the contract names the decoded characters. Valid UTF-8
/// comes back as the text it encodes (the documented behaviour), so ASCII bytes come
/// back as the same characters.
#[verifier::external_body]
fn decode_lossy(bytes: &[u8]) -> (s: String)
    ensures
        s@ == utf8_lossy(bytes@),
        ascii_bytes(bytes@) ==> s@ == ascii_chars(bytes@),
{
    String::from_utf8_lossy(bytes).into_owned()
}

/// `s` without its trailing run of `\n` and `\r` characters.
pub open spec fn trim_line_end(s: Seq<char>) -> Seq<char>
    decreases s.len(),
{
    if s.len() > 0 && (s.last() == '\n' || s.last() == '\r') {
        trim_line_end(s.drop_last())
    } else {
        s
    }
}

/// The text of a raw line read with its terminator.
pub open spec fn line_text_of(raw: Seq<u8>) -> Seq<char> {
    trim_line_end(utf8_lossy(raw))
}

/// A line holding a NUL byte marks a binary file.
pub open spec fn has_nul(raw: Seq<u8>) -> bool {
    exists|i: int| 0 <= i < raw.len() && raw[i] == 0
}

pub fn contains_nul(raw: &[u8]) -> (r: bool)
    ensures
        r == has_nul(raw@),
{
    let mut i: usize = 0;
    while i < raw.len()
        invariant
            i <= raw.len(),
            forall|k: int| 0 <= k < i ==> raw@[k] != 0,
        decreases raw.len() - i,
    {
        if raw[i] == 0 {
            return true;
        }
        i += 1;
    }
    false
}

/// Decodes a raw line and strips its terminator; an ASCII line is its bytes as
/// characters.
pub fn line_text(raw: &[u8]) -> (s: String)
    ensures
        s@ == line_text_of(raw@),
        ascii_bytes(raw@) ==> line_text_of(raw@) == trim_line_end(ascii_chars(raw@)),
{
    let decoded = decode_lossy(raw);
    let chars = chars_of(decoded.as_str());
    let mut n = chars.len();
    assert(chars@.take(n as int) =~= chars@);
    while n > 0 && (chars[n - 1] == '\n' || chars[n - 1] == '\r')
        invariant
            n <= chars.len(),
            trim_line_end(chars@) == trim_line_end(chars@.take(n as int)),
        decreases n,
    {
        assert(chars@.take(n as int).drop_last() =~= chars@.take(n - 1));
        n -= 1;
    }
    assert(chars@.take(n as int) =~= chars@.subrange(0, n as int));
    assert(trim_line_end(chars@.take(n as int)) == chars@.take(n as int));
    assert(chars@.take(chars@.len() as int) =~= chars@);
    let t = crate::text::slice_chars(&chars, 0, n);
    string_of(&t)
}

/// What a scanned line turned out to be.
#[derive(Debug, PartialEq, Eq)]
pub enum LineOutcome {
    /// The file is binary (this line, or an earlier one, holds a NUL byte): the scan
    /// stops and the file yields nothing.
    Binary,
    /// The line does not match.
    NoMatch,
    /// The line matches, with this text; the caller counts it (`record_match`) before
    /// it is kept.
    Match(String),
}

/// What happened to a counted match.
pub enum RecordOutcome {
    /// The search had already collected `CONTENT_RESULT_CAP` matches: stop this file.
    CapReached,
    /// Kept until the file ends.
    Kept,
    /// The file turned out to be binary: nothing is kept.
    Skipped,
}

/// The view of batches of items.
pub open spec fn batches_view(batches: Seq<Vec<Item>>) -> Seq<Seq<ItemView>> {
    batches.map_values(|b: Vec<Item>| b@.map_values(|i: Item| i@))
}

/// The scan of one file, fed line by line. Its matches are held until the file ends,
/// so that a file found to be binary part-way contributes nothing.
pub struct FileScan {
    path: String,
    line_no: usize,
    matches: Vec<Item>,
    binary: bool,
}

impl FileScan {
    #[verifier::type_invariant]
    spec fn binary_holds_nothing(self) -> bool {
        self.binary ==> self.matches@.len() == 0
    }

    pub closed spec fn path(&self) -> Seq<char> {
        self.path@
    }

    /// 1-based number of the last line read.
    pub closed spec fn line_no(&self) -> usize {
        self.line_no
    }

    /// The matches collected so far.
    pub closed spec fn held(&self) -> Seq<ItemView> {
        self.matches@.map_values(|i: Item| i@)
    }

    /// Whether a line with a NUL byte has been read.
    pub closed spec fn is_binary(&self) -> bool {
        self.binary
    }

    pub fn new(path: String) -> (s: Self)
        ensures
            s.path() == path@,
            s.line_no() == 0,
            s.held().len() == 0,
            !s.is_binary(),
    {
        let s = FileScan { path, line_no: 0, matches: Vec::new(), binary: false };
        assert(s.held() =~= seq![]);
        s
    }

    /// Number of the last line read (0 before the first).
    pub fn line_number(&self) -> (n: usize)
        ensures
            n == self.line_no(),
    {
        self.line_no
    }

    /// Reads one raw line (terminator included). A line with a NUL byte marks the file
    /// binary and drops every match held; once binary, every line is reported so. Any
    /// other line advances the line number, and a matching one is handed back with its
    /// text.
    pub fn read_line(&mut self, raw: &[u8], matcher: &ContentMatcher) -> (r: LineOutcome)
        requires
            old(self).line_no() < usize::MAX,
        ensures
            final(self).path() == old(self).path(),
            old(self).is_binary() || has_nul(raw@) ==> {
                &&& r == LineOutcome::Binary
                &&& final(self).is_binary()
                &&& final(self).held().len() == 0
                &&& final(self).line_no() == old(self).line_no()
            },
            !(old(self).is_binary() || has_nul(raw@)) ==> {
                &&& ascii_bytes(raw@) ==> line_text_of(raw@) == trim_line_end(ascii_chars(raw@))
                &&& !final(self).is_binary()
                &&& final(self).held() == old(self).held()
                &&& final(self).line_no() == old(self).line_no() + 1
                &&& if matcher_accepts(matcher, line_text_of(raw@)) {
                    r matches LineOutcome::Match(t) && t@ == line_text_of(raw@)
                } else {
                    r == LineOutcome::NoMatch
                }
            },
    {
        if self.binary || contains_nul(raw) {
            self.matches = Vec::new();
            self.binary = true;
            assert(self.held() =~= seq![]);
            return LineOutcome::Binary;
        }
        self.line_no = self.line_no + 1;
        let text = line_text(raw);
        if matcher.matches(text.as_str()) {
            LineOutcome::Match(text)
        } else {
            LineOutcome::NoMatch
        }
    }

    /// Counts a matching line's `text` (from `read_line`). `counted_before` is how many
    /// matches the whole search had counted before this one. Below the cap the match
    /// is held as a `path:line` item until the file ends.
    pub fn record_match(&mut self, text: String, counted_before: usize) -> (r: RecordOutcome)
        ensures
            final(self).path() == old(self).path(),
            final(self).line_no() == old(self).line_no(),
            final(self).is_binary() == old(self).is_binary(),
            old(self).is_binary() ==> r is Skipped && final(self).held() == old(self).held(),
            !old(self).is_binary() && counted_before >= CONTENT_RESULT_CAP ==> r is CapReached
                && final(self).held() == old(self).held(),
            !old(self).is_binary() && counted_before < CONTENT_RESULT_CAP ==> r is Kept
                && final(self).held() == old(self).held().push(
                (ItemView::Content { path: old(self).path(), line: old(self).line_no(), text: text@ }),
            ),
    {
        if self.binary {
            return RecordOutcome::Skipped;
        }
        if counted_before >= CONTENT_RESULT_CAP {
            return RecordOutcome::CapReached;
        }
        let ghost before = self.matches@;
        let item = Item::Content { path: self.path.clone(), line: self.line_no, text };
        let mut held: Vec<Item> = Vec::new();
        core::mem::swap(&mut held, &mut self.matches);
        held.push(item);
        self.matches = held;
        assert(self.matches@.map_values(|i: Item| i@) =~= before.map_values(|i: Item| i@).push(
            self.matches@.last()@,
        ));
        RecordOutcome::Kept
    }

    /// The matches held when the file ends, in batches of at most `BATCH` items, none
    /// empty. A binary file yields none.
    pub fn finish(self) -> (batches: Vec<Vec<Item>>)
        ensures
            batches_view(batches@).flatten() == self.held(),
            forall|j: int| 0 <= j < batches@.len() ==> 0 < (#[trigger] batches@[j])@.len() <= BATCH,
            self.is_binary() ==> batches@.len() == 0,
    {
        proof {
            use_type_invariant(&self);
        }
        let ghost all = self.held();
        let FileScan { path: _, line_no: _, matches, binary: _ } = self;
        let mut rest = matches;
        let mut out: Vec<Vec<Item>> = Vec::new();
        assert(batches_view(out@) =~= seq![]);
        while rest.len() > BATCH
            invariant
                batches_view(out@).flatten() + rest@.map_values(|i: Item| i@) == all,
                forall|j: int| 0 <= j < out@.len() ==> 0 < (#[trigger] out@[j])@.len() <= BATCH,
            decreases rest.len(),
        {
            let ghost rv = rest@;
            let tail = rest.split_off(BATCH);
            assert(rv.map_values(|i: Item| i@) =~= rest@.map_values(|i: Item| i@) + tail@.map_values(
                |i: Item| i@,
            ));
            let ghost ov = batches_view(out@);
            out.push(rest);
            assert(batches_view(out@) =~= ov.push(out@.last()@.map_values(|i: Item| i@)));
            proof {
                ov.lemma_flatten_push(out@.last()@.map_values(|i: Item| i@));
            }
            rest = tail;
        }
        if rest.len() > 0 {
            let ghost ov = batches_view(out@);
            out.push(rest);
            assert(batches_view(out@) =~= ov.push(out@.last()@.map_values(|i: Item| i@)));
            proof {
                ov.lemma_flatten_push(out@.last()@.map_values(|i: Item| i@));
            }
        } else {
            assert(rest@.map_values(|i: Item| i@) =~= seq![]);
            assert(batches_view(out@).flatten() + seq![] =~= batches_view(out@).flatten());
        }
        out
    }
}

// ---------------------------------------------------------------------------
// The engine
// ---------------------------------------------------------------------------

/// The state of content search: the current query's generation, the matches received
/// so far, the error that stopped it, and whether a search is still running.
pub struct ContentEngine {
    root: String,
    filters: Filters,
    generation: u64,
    results: Vec<Item>,
    error: Option<String>,
    counted: usize,
    running: bool,
}

/// How `set_query` left the engine.
pub enum SearchStart {
    /// No search: the query is blank, or the matcher or the walk's filters could not
    /// be built.
    Idle,
    /// Run a search with this matcher, tagged with this generation, walking with these
    /// type and glob filters.
    Run(u64, ContentMatcher, ignore::types::Types, ignore::overrides::Override),
}

impl ContentEngine {
    pub closed spec fn root_view(&self) -> Seq<char> {
        self.root@
    }

    /// The walk filters, as (types, globs).
    pub closed spec fn filters_view(&self) -> (Seq<Seq<char>>, Seq<Seq<char>>) {
        (
            self.filters.types@.map_values(|s: String| s@),
            self.filters.globs@.map_values(|s: String| s@),
        )
    }

    pub closed spec fn generation_view(&self) -> u64 {
        self.generation
    }

    pub closed spec fn results_view(&self) -> Seq<ItemView> {
        self.results@.map_values(|i: Item| i@)
    }

    pub closed spec fn error_view(&self) -> Option<Seq<char>> {
        match self.error {
            Some(e) => Some(e@),
            None => None,
        }
    }

    pub closed spec fn counted_view(&self) -> usize {
        self.counted
    }

    pub closed spec fn running_view(&self) -> bool {
        self.running
    }

    pub fn new(root: String, filters: Filters) -> (e: Self)
        ensures
            e.root_view() == root@,
            e.filters_view() == (
                filters.types@.map_values(|s: String| s@),
                filters.globs@.map_values(|s: String| s@),
            ),
            e.generation_view() == 0,
            e.results_view().len() == 0,
            e.error_view() is None,
            e.counted_view() == 0,
            !e.running_view(),
    {
        let e = ContentEngine {
            root,
            filters,
            generation: 0,
            results: Vec::new(),
            error: None,
            counted: 0,
            running: false,
        };
        assert(e.results_view() =~= seq![]);
        e
    }

    pub fn root(&self) -> (r: &String)
        ensures
            r@ == self.root_view(),
    {
        &self.root
    }

    /// The current query's generation; a search tagged with another one is stale.
    pub fn generation(&self) -> (g: u64)
        ensures
            g == self.generation_view(),
    {
        self.generation
    }

    pub fn filters(&self) -> (f: &Filters)
        ensures
            (f.types@.map_values(|s: String| s@), f.globs@.map_values(|s: String| s@))
                == self.filters_view(),
    {
        &self.filters
    }

    pub fn results(&self) -> (r: &[Item])
        ensures
            r@.map_values(|i: Item| i@) == self.results_view(),
    {
        self.results.as_slice()
    }

    pub fn error(&self) -> (r: Option<&str>)
        ensures
            match r {
                Some(s) => self.error_view() == Some(s@),
                None => self.error_view() is None,
            },
    {
        match &self.error {
            Some(e) => Some(e.as_str()),
            None => None,
        }
    }

    /// Whether the search hit the result cap.
    pub fn capped(&self) -> (r: bool)
        ensures
            r == (self.counted_view() >= CONTENT_RESULT_CAP),
    {
        self.counted >= CONTENT_RESULT_CAP
    }

    /// Starts over for a new query. The generation moves on (so an older search
    /// abandons itself), results, error and count are cleared, and a search is started
    /// unless the query is blank, the matcher fails to build, or the engine's type and
    /// glob filters fail to build (`build_filters`); the error is kept.
    pub fn set_query(&mut self, query: &str, regex: bool, case_sensitive: Option<bool>) -> (r:
        SearchStart)
        ensures
            final(self).root_view() == old(self).root_view(),
            final(self).filters_view() == old(self).filters_view(),
            final(self).generation_view() == (if old(self).generation_view() == u64::MAX {
                0
            } else {
                (old(self).generation_view() + 1) as u64
            }),
            final(self).generation_view() != old(self).generation_view(),
            final(self).results_view().len() == 0,
            final(self).counted_view() == 0,
            all_white_space(query@) ==> r is Idle && final(self).error_view() is None
                && !final(self).running_view(),
            !all_white_space(query@) && regex && regex_compile_error(
                query@,
                !effective_case(query@, case_sensitive),
            ) is Some ==> r is Idle && final(self).error_view() == regex_compile_error(
                query@,
                !effective_case(query@, case_sensitive),
            ) && (final(self).error_view() matches Some(e) && e.len() > 0)
                && !final(self).running_view(),
            !all_white_space(query@) && !(regex && regex_compile_error(
                query@,
                !effective_case(query@, case_sensitive),
            ) is Some) ==> exists|fe: Option<Seq<char>>|
                #![trigger filters_outcome(old(self).filters_view().0, old(self).filters_view().1, fe)]
                filters_outcome(old(self).filters_view().0, old(self).filters_view().1, fe) && match fe {
                    Some(e) => r is Idle && final(self).error_view() == Some(e)
                        && !final(self).running_view(),
                    None => final(self).error_view() is None && final(self).running_view() && (
                    match r {
                        SearchStart::Run(g, m, _, _) => g == final(self).generation_view()
                            && build_matcher_ok(query@, regex, case_sensitive, &m),
                        SearchStart::Idle => false,
                    }),
                },
    {
        self.generation = self.generation.wrapping_add(1);
        self.results = Vec::new();
        self.error = None;
        self.counted = 0;
        self.running = false;
        assert(self.results_view() =~= seq![]);
        let chars = chars_of(query);
        if is_blank(&chars) {
            return SearchStart::Idle;
        }
        let matcher = match build_matcher(query, regex, case_sensitive) {
            Ok(m) => m,
            Err(e) => {
                self.error = Some(e);
                return SearchStart::Idle;
            },
        };
        let built = build_filters(self.root.as_str(), &self.filters);
        let ghost fe = match &built {
            Ok(_) => None,
            Err(e) => Some(e@),
        };
        assert(strings_of(self.filters.types@) == self.filters_view().0);
        assert(strings_of(self.filters.globs@) == self.filters_view().1);
        assert(self.filters_view() == old(self).filters_view());
        assert(filters_outcome(old(self).filters_view().0, old(self).filters_view().1, fe));
        match built {
            Err(e) => {
                self.error = Some(e);
                SearchStart::Idle
            },
            Ok((types, overrides)) => {
                self.running = true;
                SearchStart::Run(self.generation, matcher, types, overrides)
            },
        }
    }

    /// Takes in what a running search delivered since the last poll: the batches in
    /// order, how many matches it has counted, and whether it has finished. Returns
    /// whether it is still running. With no search running nothing changes.
    pub fn poll(&mut self, batches: Vec<Vec<Item>>, counted: usize, finished: bool) -> (r: bool)
        ensures
            final(self).root_view() == old(self).root_view(),
            final(self).filters_view() == old(self).filters_view(),
            final(self).generation_view() == old(self).generation_view(),
            final(self).error_view() == old(self).error_view(),
            !old(self).running_view() ==> !r && final(self).results_view() == old(
                self,
            ).results_view() && final(self).counted_view() == old(self).counted_view()
                && !final(self).running_view(),
            old(self).running_view() ==> r == !finished && final(self).running_view() == r
                && final(self).counted_view() == counted && final(self).results_view() == old(
                self,
            ).results_view() + batches@.map_values(
                |b: Vec<Item>| b@.map_values(|i: Item| i@),
            ).flatten(),
    {
        if !self.running {
            return false;
        }
        let ghost start = self.results_view();
        let ghost bv = batches@.map_values(|b: Vec<Item>| b@.map_values(|i: Item| i@));
        let mut k: usize = 0;
        let n = batches.len();
        let mut batches = batches;
        while k < n
            invariant
                k <= n,
                batches@.len() == n - k,
                bv.len() == n,
                forall|j: int| 0 <= j < n - k ==> (#[trigger] batches@[j])@.map_values(|i: Item| i@)
                    == bv[k + j],
                self.results_view() == start + bv.take(k as int).flatten(),
                self.running,
                self.root_view() == old(self).root_view(),
                self.filters_view() == old(self).filters_view(),
                self.generation_view() == old(self).generation_view(),
                self.error_view() == old(self).error_view(),
            decreases n - k,
        {
            let mut batch = batches.remove(0);
            let ghost bview = batch@.map_values(|i: Item| i@);
            assert(bview == bv[k as int]);
            let ghost before = self.results@;
            self.results.append(&mut batch);
            assert(self.results_view() =~= before.map_values(|i: Item| i@) + bview);
            assert(bv.take(k + 1) =~= bv.take(k as int).push(bv[k as int]));
            proof {
                bv.take(k as int).lemma_flatten_push(bv[k as int]);
            }
            k += 1;
        }
        assert(bv.take(n as int) =~= bv);
        self.counted = counted;
        self.running = !finished;
        self.running
    }
}

} // verus!
