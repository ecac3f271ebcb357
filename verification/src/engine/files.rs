//! File (fuzzy) search: walked paths are matched by nucleo, the fuzzy matcher;
//! the caller walks the tree and feeds the paths through the engine's injector.
use vstd::prelude::*;

use crate::session::{case_mode, match_range, CaseMode};
use crate::types::{Item, ItemView};

verus! {

/// The path `Path::strip_prefix(".")` leaves of `path` (the path itself when it
/// does not start with a `.` component), as text.
pub uninterp spec fn without_cur_dir(path: Seq<char>) -> Seq<char>;

/// Strips a leading `./` component so paths display cleanly and `^`-anchored
/// queries work, while staying relative to the current directory.
/// Calls `std::path::Path::strip_prefix`; the contract names the result. A path that
/// does not start with `.` cannot start with the `.` component (`.` is normalized away
/// everywhere but at the start), so `strip_prefix` fails and the path comes back as it
/// is.
#[verifier::external_body]
pub fn files_display_path(path: &str) -> (r: String)
    ensures
        r@ == without_cur_dir(path@),
        path@.len() == 0 || path@[0] != '.' ==> r@ == path@,
{
    let p = std::path::Path::new(path);
    p.strip_prefix(".").unwrap_or(p).to_string_lossy().into_owned()
}

// ---------------------------------------------------------------------------
// The nucleo matcher
// ---------------------------------------------------------------------------

#[verifier::external_type_specification]
#[verifier::external_body]
#[verifier::reject_recursive_types(T)]
pub struct ExNucleo<T: Sync + Send + 'static>(nucleo::Nucleo<T>);

#[verifier::external_type_specification]
#[verifier::external_body]
#[verifier::reject_recursive_types(T)]
pub struct ExInjector<T>(nucleo::Injector<T>);

/// The matched paths of the matcher's current snapshot, in rank order.
pub uninterp spec fn snapshot_matches(n: nucleo::Nucleo<String>) -> Seq<Seq<char>>;

/// How many paths the matcher's current snapshot holds, matched or not.
pub uninterp spec fn snapshot_total(n: nucleo::Nucleo<String>) -> nat;

/// The atoms of the matcher's (single column) pattern, in order, each as
/// (negated, kind, needle, ignore case, normalize), the kind numbered 0 fuzzy,
/// 1 substring, 2 prefix, 3 postfix, 4 exact.
pub uninterp spec fn matcher_pattern(n: nucleo::Nucleo<String>) -> Seq<
    (bool, nat, Seq<char>, bool, bool),
>;

/// The atoms, in the same form, that `Pattern::parse` makes of `query` with the given
/// case matching and smart Unicode normalization.
pub uninterp spec fn parsed_pattern(query: Seq<char>, case: CaseMode) -> Seq<
    (bool, nat, Seq<char>, bool, bool),
>;

/// `Nucleo::new` with the default configuration, a no-op notifier, one thread per
/// core and one column. A new matcher's snapshot is empty (its `Snapshot` starts with
/// no matches and an item count of 0).
#[verifier::external_body]
fn new_matcher() -> (n: nucleo::Nucleo<String>)
    ensures
        snapshot_matches(n).len() == 0,
        snapshot_total(n) == 0,
{
    let notify: std::sync::Arc<dyn Fn() + Send + Sync> = std::sync::Arc::new(|| {});
    nucleo::Nucleo::new(nucleo::Config::DEFAULT, notify, None, 1)
}

/// `Nucleo::injector`: a handle the walk pushes paths through.
#[verifier::external_body]
fn matcher_injector(n: &nucleo::Nucleo<String>) -> nucleo::Injector<String> {
    n.injector()
}

/// `MultiPattern::reparse` on the one column, with smart Unicode normalization and
/// no append: `Pattern::reparse` clears the column's atoms and refills them as
/// `Pattern::parse` would from `query` with `case`. Only the pattern changes; the
/// snapshot is refreshed by a later `tick`.
#[verifier::external_body]
fn reparse_pattern(n: &mut nucleo::Nucleo<String>, query: &str, case: CaseMode)
    ensures
        matcher_pattern(*final(n)) == parsed_pattern(query@, case),
        snapshot_matches(*final(n)) == snapshot_matches(*old(n)),
        snapshot_total(*final(n)) == snapshot_total(*old(n)),
{
    let case = match case {
        CaseMode::Smart => nucleo::pattern::CaseMatching::Smart,
        CaseMode::Respect => nucleo::pattern::CaseMatching::Respect,
        CaseMode::Ignore => nucleo::pattern::CaseMatching::Ignore,
    };
    n.pattern.reparse(0, query, case, nucleo::pattern::Normalization::Smart, false);
}

/// `Nucleo::tick` with a 10 ms wait: advances the matcher and reports whether its
/// worker threads are still running. It hands the pattern to the workers and leaves
/// it as it was. What the snapshot then holds, and the answer, depend on the threads'
/// progress, so nothing is stated about them.
#[verifier::external_body]
fn tick_matcher(n: &mut nucleo::Nucleo<String>) -> (running: bool)
    ensures
        matcher_pattern(*final(n)) == matcher_pattern(*old(n)),
{
    n.tick(10).running
}

/// `Snapshot::matched_item_count` and `Snapshot::item_count` of the current snapshot.
#[verifier::external_body]
fn snapshot_counts(n: &nucleo::Nucleo<String>) -> (r: (u32, u32))
    ensures
        r.0 == snapshot_matches(*n).len(),
        r.1 == snapshot_total(*n),
{
    let s = n.snapshot();
    (s.matched_item_count(), s.item_count())
}

/// `Snapshot::matched_items(start..end)`: the matched paths ranked `start` to `end`.
#[verifier::external_body]
fn snapshot_paths(n: &nucleo::Nucleo<String>, start: u32, end: u32) -> (r: Vec<String>)
    requires
        start <= end <= snapshot_matches(*n).len(),
    ensures
        r@.map_values(|s: String| s@) == snapshot_matches(*n).subrange(start as int, end as int),
{
    n.snapshot().matched_items(start..end).map(|it| it.data.clone()).collect()
}

/// The file finder: every walked path, fuzzy-matched against the query.
pub struct FileEngine {
    nuc: nucleo::Nucleo<String>,
}

/// File items for the given paths.
pub open spec fn file_items(paths: Seq<Seq<char>>) -> Seq<ItemView> {
    paths.map_values(|p: Seq<char>| ItemView::File { path: p })
}

impl FileEngine {
    /// The matched paths of the current snapshot, in rank order.
    pub closed spec fn matches(&self) -> Seq<Seq<char>> {
        snapshot_matches(self.nuc)
    }

    /// How many paths the current snapshot holds.
    pub closed spec fn total(&self) -> nat {
        snapshot_total(self.nuc)
    }

    /// The atoms of the pattern the matcher is set to.
    pub closed spec fn pattern(&self) -> Seq<(bool, nat, Seq<char>, bool, bool)> {
        matcher_pattern(self.nuc)
    }

    /// A matcher with no paths yet.
    pub fn new() -> (e: Self)
        ensures
            e.matches().len() == 0,
            e.total() == 0,
    {
        FileEngine { nuc: new_matcher() }
    }

    /// The handle through which walked paths are added.
    pub fn injector(&self) -> nucleo::Injector<String> {
        matcher_injector(&self.nuc)
    }

    /// Sets the query; the case follows the user's setting (smart case when unset).
    /// The matches change at the next `tick`.
    pub fn set_query(&mut self, query: &str, case_sensitive: Option<bool>)
        ensures
            final(self).pattern() == parsed_pattern(
                query@,
                match case_sensitive {
                    None => CaseMode::Smart,
                    Some(true) => CaseMode::Respect,
                    Some(false) => CaseMode::Ignore,
                },
            ),
            final(self).matches() == old(self).matches(),
            final(self).total() == old(self).total(),
    {
        reparse_pattern(&mut self.nuc, query, case_mode(case_sensitive));
    }

    /// Advances the matcher; returns true while its threads are still working. The
    /// query stays as it was set.
    pub fn tick(&mut self) -> (running: bool)
        ensures
            final(self).pattern() == old(self).pattern(),
    {
        tick_matcher(&mut self.nuc)
    }

    /// Returns (the matched paths ranked in `[offset, offset + limit)`, total matched,
    /// total paths).
    pub fn snapshot(&self, offset: usize, limit: usize) -> (r: (Vec<Item>, usize, usize))
        ensures
            r.1 == self.matches().len(),
            r.2 == self.total(),
            ({
                let end = if offset + limit < self.matches().len() {
                    offset + limit
                } else {
                    self.matches().len() as int
                };
                r.0@.map_values(|i: Item| i@) == if offset >= end {
                    seq![]
                } else {
                    file_items(self.matches().subrange(offset as int, end))
                }
            }),
    {
        let (matched, total) = snapshot_counts(&self.nuc);
        let matched_n = matched as usize;
        let total_n = total as usize;
        let mut items: Vec<Item> = Vec::new();
        match match_range(offset, limit, matched_n) {
            None => {
                assert(items@.map_values(|i: Item| i@) =~= seq![]);
            },
            Some((start, end)) => {
                let paths = snapshot_paths(&self.nuc, start as u32, end as u32);
                let ghost pv = paths@.map_values(|s: String| s@);
                let n = paths.len();
                let mut k: usize = 0;
                while k < n
                    invariant
                        k <= n,
                        n == paths@.len(),
                        pv == paths@.map_values(|s: String| s@),
                        items@.len() == k,
                        forall|j: int| 0 <= j < k ==> (#[trigger] items@[j])@ == (ItemView::File { path: pv[j] }),
                    decreases n - k,
                {
                    let p = paths[k].clone();
                    items.push(Item::File { path: p });
                    k += 1;
                }
                assert(items@.map_values(|i: Item| i@) =~= file_items(pv));
            },
        }
        (items, matched_n, total_n)
    }
}

} // verus!
