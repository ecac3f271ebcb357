//! The extended (fzf-style) query language used by content search.
//!
//! A query is split on whitespace into tokens. Each token is an atom:
//! `foo` (substring), `'foo` (literal marker, same as `foo`), `^foo` (prefix),
//! `foo$` (suffix), `!foo` (negation). Consecutive atoms are ANDed; a lone `|`
//! token ORs the next atom into the previous group. Smart case: without an explicit
//! override, the query is case-sensitive exactly when it holds an uppercase letter.
use vstd::prelude::*;

use crate::text::{
    char_is_uppercase, chars_of, contains_chars, ends_with_chars, has_prefix, has_substring,
    has_suffix, is_upper, lowercase, split_whitespace, split_ws, starts_with_chars, string_of,
    to_lowercase, chars_eq,
};

verus! {

/// One query term.
#[derive(Debug, Clone, PartialEq, Eq)]
pub struct Atom {
    pub text: String,
    pub anchor_start: bool,
    pub anchor_end: bool,
    pub negated: bool,
}

/// A parsed query: an AND of OR-groups of atoms.
#[derive(Debug, Clone, PartialEq, Eq)]
pub struct ParsedQuery {
    pub groups: Vec<Vec<Atom>>,
    pub case_sensitive: bool,
}

/// The value of an `Atom`.
pub struct AtomView {
    pub text: Seq<char>,
    pub anchor_start: bool,
    pub anchor_end: bool,
    pub negated: bool,
}

/// The value of a `ParsedQuery`.
pub struct QueryView {
    pub groups: Seq<Seq<AtomView>>,
    pub case_sensitive: bool,
}

impl View for Atom {
    type V = AtomView;

    open spec fn view(&self) -> AtomView {
        AtomView {
            text: self.text@,
            anchor_start: self.anchor_start,
            anchor_end: self.anchor_end,
            negated: self.negated,
        }
    }
}

/// The values of a sequence of atom groups.
pub open spec fn groups_view(gs: Seq<Vec<Atom>>) -> Seq<Seq<AtomView>> {
    gs.map_values(|g: Vec<Atom>| g@.map_values(|a: Atom| a@))
}

impl View for ParsedQuery {
    type V = QueryView;

    open spec fn view(&self) -> QueryView {
        QueryView { groups: groups_view(self.groups@), case_sensitive: self.case_sensitive }
    }
}

// ---------------------------------------------------------------------------
// Parsing
// ---------------------------------------------------------------------------

/// The atom a token denotes, or `None` when nothing is left after its markers.
/// Markers are read in this order: a leading `!`, a leading `'`, a leading `^`,
/// a trailing `$`. When the query is not case-sensitive the text is lowercased.
pub open spec fn atom_of(token: Seq<char>, case_sensitive: bool) -> Option<AtomView> {
    let negated = token.len() > 0 && token[0] == '!';
    let t1 = if negated {
        token.skip(1)
    } else {
        token
    };
    let t2 = if t1.len() > 0 && t1[0] == '\'' {
        t1.skip(1)
    } else {
        t1
    };
    let anchor_start = t2.len() > 0 && t2[0] == '^';
    let t3 = if anchor_start {
        t2.skip(1)
    } else {
        t2
    };
    let anchor_end = t3.len() > 0 && t3.last() == '$';
    let t4 = if anchor_end {
        t3.drop_last()
    } else {
        t3
    };
    if t4.len() == 0 {
        None
    } else {
        Some(
            AtomView {
                text: if case_sensitive {
                    t4
                } else {
                    lowercase(t4)
                },
                anchor_start,
                anchor_end,
                negated,
            },
        )
    }
}

/// The query holds an uppercase letter.
pub open spec fn has_upper(s: Seq<char>) -> bool {
    exists|i: int| 0 <= i < s.len() && is_upper(#[trigger] s[i])
}

/// Case sensitivity: the explicit override when given, else smart case.
pub open spec fn effective_case(query: Seq<char>, case_sensitive: Option<bool>) -> bool {
    match case_sensitive {
        Some(b) => b,
        None => has_upper(query),
    }
}

/// The single-character token `|`.
pub open spec fn is_or_token(t: Seq<char>) -> bool {
    t == seq!['|']
}

/// Left-to-right grouping of tokens: the groups built so far and whether a `|` is
/// waiting for the next atom. A token that denotes no atom is skipped and leaves a
/// pending `|` pending. A pending `|` with no group yet starts a new group and stays
/// pending.
pub open spec fn group_scan(tokens: Seq<Seq<char>>, cs: bool) -> (Seq<Seq<AtomView>>, bool)
    decreases tokens.len(),
{
    if tokens.len() == 0 {
        (seq![], false)
    } else {
        let (gs, or_pending) = group_scan(tokens.drop_last(), cs);
        let tok = tokens.last();
        if is_or_token(tok) {
            (gs, true)
        } else {
            match atom_of(tok, cs) {
                None => (gs, or_pending),
                Some(a) => if or_pending && gs.len() > 0 {
                    (gs.update(gs.len() - 1, gs.last().push(a)), false)
                } else {
                    (gs.push(seq![a]), or_pending)
                },
            }
        }
    }
}

/// The parsed form of `query` under the given case override.
pub open spec fn parse_spec(query: Seq<char>, case_sensitive: Option<bool>) -> QueryView {
    let cs = effective_case(query, case_sensitive);
    QueryView { groups: group_scan(split_ws(query), cs).0, case_sensitive: cs }
}

fn parse_atom(token: &[char], case_sensitive: bool) -> (r: Option<Atom>)
    ensures
        match r {
            Some(a) => atom_of(token@, case_sensitive) == Some(a@),
            None => atom_of(token@, case_sensitive) is None,
        },
{
    let mut start: usize = 0;
    let mut end: usize = token.len();
    let negated = token.len() > 0 && token[0] == '!';
    if negated {
        start = 1;
    }
    let ghost t1 = if negated {
        token@.skip(1)
    } else {
        token@
    };
    assert(token@.subrange(start as int, end as int) =~= t1);
    let quoted = start < end && token[start] == '\'';
    assert(quoted == (t1.len() > 0 && t1[0] == '\''));
    if quoted {
        start = start + 1;
    }
    let ghost t2 = if t1.len() > 0 && t1[0] == '\'' {
        t1.skip(1)
    } else {
        t1
    };
    assert(token@.subrange(start as int, end as int) =~= t2);
    let anchor_start = start < end && token[start] == '^';
    assert(anchor_start == (t2.len() > 0 && t2[0] == '^'));
    if anchor_start {
        start = start + 1;
    }
    let ghost t3 = if anchor_start {
        t2.skip(1)
    } else {
        t2
    };
    assert(token@.subrange(start as int, end as int) =~= t3);
    let anchor_end = start < end && token[end - 1] == '$';
    assert(anchor_end == (t3.len() > 0 && t3.last() == '$'));
    if anchor_end {
        end = end - 1;
    }
    let ghost t4 = if anchor_end {
        t3.drop_last()
    } else {
        t3
    };
    assert(token@.subrange(start as int, end as int) =~= t4);
    if start == end {
        return None;
    }
    let mut body: Vec<char> = Vec::new();
    let mut i = start;
    while i < end
        invariant
            start <= i <= end <= token.len(),
            body@ == token@.subrange(start as int, i as int),
        decreases end - i,
    {
        body.push(token[i]);
        assert(token@.subrange(start as int, i + 1) =~= token@.subrange(start as int, i as int).push(
            token@[i as int],
        ));
        i += 1;
    }
    let s = string_of(&body);
    let text = if case_sensitive {
        s
    } else {
        to_lowercase(s.as_str())
    };
    Some(Atom { text, anchor_start, anchor_end, negated })
}

fn any_uppercase(s: &[char]) -> (r: bool)
    ensures
        r == has_upper(s@),
{
    let mut i: usize = 0;
    while i < s.len()
        invariant
            i <= s.len(),
            forall|k: int| 0 <= k < i ==> !is_upper(#[trigger] s@[k]),
        decreases s.len() - i,
    {
        if char_is_uppercase(s[i]) {
            return true;
        }
        i += 1;
    }
    false
}

/// Parses an extended query. `case_sensitive` overrides smart case when given.
pub fn parse_content(query: &str, case_sensitive: Option<bool>) -> (q: ParsedQuery)
    ensures
        q@ == parse_spec(query@, case_sensitive),
{
    let chars = chars_of(query);
    let cs = match case_sensitive {
        Some(b) => b,
        None => any_uppercase(&chars),
    };
    let tokens = split_whitespace(&chars);
    let ghost toks = split_ws(query@);
    let mut groups: Vec<Vec<Atom>> = Vec::new();
    let mut or_pending = false;
    let mut i: usize = 0;
    while i < tokens.len()
        invariant
            i <= tokens.len(),
            tokens@.len() == toks.len(),
            forall|k: int| 0 <= k < tokens@.len() ==> #[trigger] tokens@[k]@ == toks[k],
            groups_view(groups@) == group_scan(toks.take(i as int), cs).0,
            or_pending == group_scan(toks.take(i as int), cs).1,
        decreases tokens.len() - i,
    {
        assert(toks.take(i + 1).drop_last() =~= toks.take(i as int));
        assert(toks.take(i + 1).last() == toks[i as int]);
        let tok = &tokens[i];
        assert(tok@ == toks[i as int]);
        let is_or = tok.len() == 1 && tok[0] == '|';
        assert(is_or == is_or_token(tok@)) by {
            if tok@.len() == 1 && tok@[0] == '|' {
                assert(tok@ =~= seq!['|']);
            }
        }
        if is_or {
            or_pending = true;
        } else {
            match parse_atom(tok, cs) {
                None => {},
                Some(atom) => {
                    let ghost gv = groups_view(groups@);
                    if or_pending && groups.len() > 0 {
                        let mut last = groups.pop().unwrap();
                        let ghost last_before = last@;
                        last.push(atom);
                        groups.push(last);
                        proof {
                            assert(groups_view(groups@) =~= gv.update(
                                gv.len() - 1,
                                gv.last().push(atom@),
                            )) by {
                                assert(last@.map_values(|a: Atom| a@) =~= last_before.map_values(
                                    |a: Atom| a@,
                                ).push(atom@));
                            }
                        }
                        or_pending = false;
                    } else {
                        let g = vec![atom];
                        groups.push(g);
                        proof {
                            assert(g@.map_values(|a: Atom| a@) =~= seq![atom@]);
                            assert(groups_view(groups@) =~= gv.push(seq![atom@]));
                        }
                    }
                },
            }
        }
        i += 1;
    }
    assert(toks.take(tokens.len() as int) =~= toks);
    ParsedQuery { groups, case_sensitive: cs }
}

// ---------------------------------------------------------------------------
// Matching
// ---------------------------------------------------------------------------

/// Whether an atom's text is found in `hay` at the place its anchors demand.
pub open spec fn atom_found(a: AtomView, hay: Seq<char>) -> bool {
    if a.anchor_start && a.anchor_end {
        hay == a.text
    } else if a.anchor_start {
        has_prefix(hay, a.text)
    } else if a.anchor_end {
        has_suffix(hay, a.text)
    } else {
        has_substring(hay, a.text)
    }
}

/// An atom matches when its text is found, or, for a negated atom, when it is not.
pub open spec fn atom_matches(a: AtomView, hay: Seq<char>) -> bool {
    atom_found(a, hay) != a.negated
}

/// Some atom of the group matches.
pub open spec fn group_matches(g: Seq<AtomView>, hay: Seq<char>) -> bool {
    exists|k: int| 0 <= k < g.len() && atom_matches(#[trigger] g[k], hay)
}

/// The text atoms are compared against: the line itself, or its lowercase form when
/// the query is not case-sensitive.
pub open spec fn haystack(q: QueryView, line: Seq<char>) -> Seq<char> {
    if q.case_sensitive {
        line
    } else {
        lowercase(line)
    }
}

/// A line matches a query when every group has a matching atom.
pub open spec fn query_matches(q: QueryView, line: Seq<char>) -> bool {
    forall|g: int| 0 <= g < q.groups.len() ==> group_matches(#[trigger] q.groups[g], haystack(q, line))
}

impl Atom {
    /// `hay` is already in the case the comparison needs.
    fn matches(&self, hay: &[char]) -> (r: bool)
        ensures
            r == atom_matches(self@, hay@),
    {
        let text = chars_of(self.text.as_str());
        let found = if self.anchor_start && self.anchor_end {
            chars_eq(hay, &text)
        } else if self.anchor_start {
            starts_with_chars(hay, &text)
        } else if self.anchor_end {
            ends_with_chars(hay, &text)
        } else {
            contains_chars(hay, &text)
        };
        found != self.negated
    }
}

/// Whether some atom of `group` matches `hay`.
fn group_any(group: &Vec<Atom>, hay: &[char]) -> (r: bool)
    ensures
        r == group_matches(group@.map_values(|a: Atom| a@), hay@),
{
    let ghost gv = group@.map_values(|a: Atom| a@);
    let mut k: usize = 0;
    while k < group.len()
        invariant
            k <= group.len(),
            gv == group@.map_values(|a: Atom| a@),
            forall|j: int| 0 <= j < k ==> !atom_matches(#[trigger] gv[j], hay@),
        decreases group.len() - k,
    {
        if group[k].matches(hay) {
            assert(atom_matches(gv[k as int], hay@));
            return true;
        }
        k += 1;
    }
    false
}

/// Whether `line` satisfies the query.
pub fn line_matches(q: &ParsedQuery, line: &str) -> (r: bool)
    ensures
        r == query_matches(q@, line@),
{
    if q.groups.len() == 0 {
        return true;
    }
    let hay = if q.case_sensitive {
        chars_of(line)
    } else {
        let lowered = to_lowercase(line);
        chars_of(lowered.as_str())
    };
    assert(hay@ == haystack(q@, line@));
    let mut g: usize = 0;
    while g < q.groups.len()
        invariant
            g <= q.groups.len(),
            hay@ == haystack(q@, line@),
            forall|j: int| 0 <= j < g ==> group_matches(#[trigger] q@.groups[j], hay@),
        decreases q.groups.len() - g,
    {
        let group = &q.groups[g];
        assert(q@.groups[g as int] =~= group@.map_values(|a: Atom| a@));
        if !group_any(group, &hay) {
            return false;
        }
        g += 1;
    }
    true
}

// ---------------------------------------------------------------------------
// Laws
// ---------------------------------------------------------------------------

/// Splitting text that is all whitespace yields no tokens.
proof fn lemma_split_blank(s: Seq<char>)
    requires
        forall|i: int| 0 <= i < s.len() ==> crate::text::is_white_space(#[trigger] s[i]),
    ensures
        split_scan_blank(s),
    decreases s.len(),
{
    if s.len() > 0 {
        lemma_split_blank(s.drop_last());
        assert(crate::text::is_white_space(s.last()));
    }
}

spec fn split_scan_blank(s: Seq<char>) -> bool {
    crate::text::split_scan(s).0.len() == 0 && crate::text::split_scan(s).1.len() == 0
}

/// An empty or all-whitespace query matches every line, whatever the case setting.
pub proof fn law_blank_query_matches_everything(
    query: Seq<char>,
    case_sensitive: Option<bool>,
    line: Seq<char>,
)
    requires
        forall|i: int| 0 <= i < query.len() ==> crate::text::is_white_space(#[trigger] query[i]),
    ensures
        parse_spec(query, case_sensitive).groups.len() == 0,
        query_matches(parse_spec(query, case_sensitive), line),
{
    lemma_split_blank(query);
    assert(split_ws(query).len() == 0);
    assert(split_ws(query) =~= Seq::<Seq<char>>::empty());
}

/// Smart case: with no override a query is case-sensitive exactly when it holds an
/// uppercase letter; an explicit override always wins.
pub proof fn law_smart_case(query: Seq<char>, b: bool)
    ensures
        parse_spec(query, None).case_sensitive == has_upper(query),
        parse_spec(query, Some(b)).case_sensitive == b,
{
}

/// A negated atom matches exactly the lines its plain form does not.
pub proof fn law_negation_complements(a: AtomView, hay: Seq<char>)
    ensures
        atom_matches(AtomView { negated: true, ..a }, hay) == !atom_matches(
            AtomView { negated: false, ..a },
            hay,
        ),
{
}

/// The literal marker `'` changes nothing: `'foo` is the atom `foo` (the marker is
/// read after a negation and before an anchor).
pub proof fn law_literal_marker_is_plain(t: Seq<char>, cs: bool)
    requires
        t.len() > 0,
        t[0] != '!',
        t[0] != '\'',
    ensures
        atom_of(seq!['\''] + t, cs) == atom_of(t, cs),
{
    let q = seq!['\''] + t;
    assert(q.skip(1) =~= t);
    assert(q[0] == '\'');
}

/// The token spelled with the given markers around a core text: an optional `!`,
/// an optional `'`, an optional `^`, the core, an optional `$`.
pub open spec fn marked_token(core: Seq<char>, neg: bool, quote: bool, start: bool, end: bool) -> Seq<char> {
    (if neg { seq!['!'] } else { seq![] }) + (if quote { seq!['\''] } else { seq![] }) + (if start {
        seq!['^']
    } else {
        seq![]
    }) + core + (if end { seq!['$'] } else { seq![] })
}

/// Markers compose: a token made of any combination of `!`, `'`, `^` and `$` around a
/// core text (one that does not itself begin or end like a marker) is the atom of that
/// core with exactly those flags, e.g. `!^x` is `x` negated and anchored at the start.
/// Without case sensitivity the text is the core lowercased.
pub proof fn law_atom_markers(core: Seq<char>, neg: bool, quote: bool, start: bool, end: bool, cs: bool)
    requires
        core.len() > 0,
        core[0] != '!',
        core[0] != '\'',
        core[0] != '^',
        core.last() != '$',
    ensures
        atom_of(marked_token(core, neg, quote, start, end), cs) == Some(
            AtomView {
                text: if cs {
                    core
                } else {
                    lowercase(core)
                },
                anchor_start: start,
                anchor_end: end,
                negated: neg,
            },
        ),
{
    let e = if end { seq!['$'] } else { Seq::<char>::empty() };
    let t3 = core + e;
    let t2 = (if start { seq!['^'] } else { Seq::<char>::empty() }) + t3;
    let t1 = (if quote { seq!['\''] } else { Seq::<char>::empty() }) + t2;
    let t0 = (if neg { seq!['!'] } else { Seq::<char>::empty() }) + t1;
    assert(marked_token(core, neg, quote, start, end) =~= t0);
    assert(t3.len() > 0 && t3[0] == core[0]);
    if start {
        assert(t2[0] == '^');
        assert(t2.skip(1) =~= t3);
    } else {
        assert(t2 =~= t3);
    }
    assert(t2.len() > 0);
    if quote {
        assert(t1[0] == '\'');
        assert(t1.skip(1) =~= t2);
    } else {
        assert(t1 =~= t2);
        assert(t1[0] != '\'');
    }
    if neg {
        assert(t0[0] == '!');
        assert(t0.skip(1) =~= t1);
    } else {
        assert(t0 =~= t1);
        assert(t0[0] != '!');
    }
    if end {
        assert(t3.last() == '$');
        assert(t3.drop_last() =~= core);
    } else {
        assert(t3 =~= core);
    }
}

/// Negation composes with every other marker: `!` in front of a token gives the
/// atom of the token, negated, with the same text and anchors.
pub proof fn law_negation_keeps_anchors(t: Seq<char>, cs: bool)
    requires
        t.len() > 0,
        t[0] != '!',
    ensures
        atom_of(seq!['!'] + t, cs) == match atom_of(t, cs) {
            Some(a) => Some(AtomView { negated: true, ..a }),
            None => None,
        },
{
    let q = seq!['!'] + t;
    assert(q.skip(1) =~= t);
    assert(q[0] == '!');
}

} // verus!
