//! Command-line arguments.
use vstd::prelude::*;

use crate::editor::strings_view;
use crate::engine::Filters;
use crate::text::{chars_eq_str, chars_of, string_of};

verus! {

#[derive(Debug, Clone)]
pub struct CliArgs {
    /// The directory to search.
    pub root: String,
    pub filters: Filters,
    /// `Some(query)` for a headless (`--cli`) run.
    pub cli_query: Option<String>,
    pub case_sensitive: Option<bool>,
}

/// What has been read from the arguments so far.
pub struct ArgsState {
    pub root: Option<Seq<char>>,
    pub types: Seq<Seq<char>>,
    pub globs: Seq<Seq<char>>,
    pub cli: bool,
    pub cli_query: Option<Seq<char>>,
    pub case_sensitive: Option<bool>,
}

pub open spec fn initial_args_state() -> ArgsState {
    ArgsState {
        root: None,
        types: seq![],
        globs: seq![],
        cli: false,
        cli_query: None,
        case_sensitive: None,
    }
}

/// Reads the arguments from the left. `-t/--type` and `-g/--glob` take the next
/// argument as their value (whatever it looks like); `--cli/--no-tui` selects a
/// headless run; `-i/--ignore-case` and `-s/--case-sensitive` set the case (the last
/// one wins); other arguments starting with `-` are ignored. Of the remaining
/// arguments, in a headless run the first is the query; otherwise the first is the
/// root and later ones are ignored.
pub open spec fn args_scan(args: Seq<Seq<char>>, st: ArgsState) -> ArgsState
    decreases args.len(),
{
    if args.len() == 0 {
        st
    } else {
        let a = args[0];
        if a == "-t"@ || a == "--type"@ {
            if args.len() > 1 {
                args_scan(args.skip(2), ArgsState { types: st.types.push(args[1]), ..st })
            } else {
                st
            }
        } else if a == "-g"@ || a == "--glob"@ {
            if args.len() > 1 {
                args_scan(args.skip(2), ArgsState { globs: st.globs.push(args[1]), ..st })
            } else {
                st
            }
        } else if a == "--cli"@ || a == "--no-tui"@ {
            args_scan(args.skip(1), ArgsState { cli: true, ..st })
        } else if a == "-i"@ || a == "--ignore-case"@ {
            args_scan(args.skip(1), ArgsState { case_sensitive: Some(false), ..st })
        } else if a == "-s"@ || a == "--case-sensitive"@ {
            args_scan(args.skip(1), ArgsState { case_sensitive: Some(true), ..st })
        } else if a.len() > 0 && a[0] == '-' {
            args_scan(args.skip(1), st)
        } else if st.cli && st.cli_query is None {
            args_scan(args.skip(1), ArgsState { cli_query: Some(a), ..st })
        } else if st.root is None {
            args_scan(args.skip(1), ArgsState { root: Some(a), ..st })
        } else {
            args_scan(args.skip(1), st)
        }
    }
}

/// The parsed arguments: the root defaults to `.`; a headless run without a query
/// searches for the empty query.
pub open spec fn cli_args_spec(args: Seq<Seq<char>>) -> (Seq<char>, Seq<Seq<char>>, Seq<Seq<char>>, Option<Seq<char>>, Option<bool>) {
    let st = args_scan(args, initial_args_state());
    (
        match st.root {
            Some(r) => r,
            None => seq!['.'],
        },
        st.types,
        st.globs,
        if st.cli {
            match st.cli_query {
                Some(q) => Some(q),
                None => Some(seq![]),
            }
        } else {
            None
        },
        st.case_sensitive,
    )
}

pub open spec fn opt_string_view(o: Option<String>) -> Option<Seq<char>> {
    match o {
        Some(s) => Some(s@),
        None => None,
    }
}

pub open spec fn cli_args_view(c: CliArgs) -> (Seq<char>, Seq<Seq<char>>, Seq<Seq<char>>, Option<Seq<char>>, Option<bool>) {
    (
        c.root@,
        strings_view(c.filters.types@),
        strings_view(c.filters.globs@),
        opt_string_view(c.cli_query),
        c.case_sensitive,
    )
}

/// Parses the program's arguments (without the program name).
pub fn parse(args: Vec<String>) -> (c: CliArgs)
    ensures
        cli_args_view(c) == cli_args_spec(strings_view(args@)),
{
    let ghost all = strings_view(args@);
    let mut root: Option<String> = None;
    let mut types: Vec<String> = Vec::new();
    let mut globs: Vec<String> = Vec::new();
    let mut cli = false;
    let mut cli_query: Option<String> = None;
    let mut case_sensitive: Option<bool> = None;
    let mut i: usize = 0;
    assert(all.skip(0) =~= all);
    assert(strings_view(types@) =~= seq![]);
    assert(strings_view(globs@) =~= seq![]);
    while i < args.len()
        invariant
            i <= args.len(),
            all == strings_view(args@),
            args_scan(all, initial_args_state()) == args_scan(
                all.skip(i as int),
                ArgsState {
                    root: opt_string_view(root),
                    types: strings_view(types@),
                    globs: strings_view(globs@),
                    cli,
                    cli_query: opt_string_view(cli_query),
                    case_sensitive,
                },
            ),
        decreases args.len() - i,
    {
        let ghost rest = all.skip(i as int);
        let a = chars_of(args[i].as_str());
        assert(a@ == rest[0]);
        if chars_eq_str(&a, "-t") || chars_eq_str(&a, "--type") {
            if i + 1 < args.len() {
                let ghost before = types@;
                types.push(args[i + 1].clone());
                assert(strings_view(types@) =~= strings_view(before).push(rest[1]));
                assert(rest.skip(2) =~= all.skip(i + 2));
                i += 2;
            } else {
                assert(all.skip(i + 1).len() == 0);
                i += 1;
            }
        } else if chars_eq_str(&a, "-g") || chars_eq_str(&a, "--glob") {
            if i + 1 < args.len() {
                let ghost before = globs@;
                globs.push(args[i + 1].clone());
                assert(strings_view(globs@) =~= strings_view(before).push(rest[1]));
                assert(rest.skip(2) =~= all.skip(i + 2));
                i += 2;
            } else {
                assert(all.skip(i + 1).len() == 0);
                i += 1;
            }
        } else {
            assert(rest.skip(1) =~= all.skip(i + 1));
            if chars_eq_str(&a, "--cli") || chars_eq_str(&a, "--no-tui") {
                cli = true;
            } else if chars_eq_str(&a, "-i") || chars_eq_str(&a, "--ignore-case") {
                case_sensitive = Some(false);
            } else if chars_eq_str(&a, "-s") || chars_eq_str(&a, "--case-sensitive") {
                case_sensitive = Some(true);
            } else if a.len() > 0 && a[0] == '-' {
            } else if cli && cli_query.is_none() {
                cli_query = Some(args[i].clone());
            } else if root.is_none() {
                root = Some(args[i].clone());
            }
            i += 1;
        }
    }
    assert(all.skip(i as int).len() == 0);
    let root = match root {
        Some(r) => r,
        None => string_of(&['.']),
    };
    let cli_query = if cli {
        match cli_query {
            Some(q) => Some(q),
            None => Some(string_of(&[])),
        }
    } else {
        None
    };
    let c = CliArgs { root, filters: Filters { types, globs }, cli_query, case_sensitive };
    assert(cli_args_view(c).0 =~= cli_args_spec(all).0);
    assert(cli_args_view(c).3 =~= cli_args_spec(all).3);
    c
}

/// Type and glob filters accumulate in the order given.
pub proof fn law_filters_accumulate(t1: Seq<char>, t2: Seq<char>)
    ensures
        cli_args_spec(seq!["-t"@, t1, "--type"@, t2]).1 == seq![t1, t2],
{
    let args = seq!["-t"@, t1, "--type"@, t2];
    reveal_with_fuel(args_scan, 3);
    let s0 = initial_args_state();
    assert(args[0] == "-t"@);
    assert(args.skip(2) =~= seq!["--type"@, t2]);
    let s1 = ArgsState { types: s0.types.push(t1), ..s0 };
    assert(args.skip(2)[0] == "--type"@);
    assert(args.skip(2).skip(2) =~= Seq::<Seq<char>>::empty());
    assert(s1.types.push(t2) =~= seq![t1, t2]);
}

/// The arguments this reader knows by name.
pub open spec fn is_known_flag(a: Seq<char>) -> bool {
    a == "-t"@ || a == "--type"@ || a == "-g"@ || a == "--glob"@ || a == "--cli"@ || a
        == "--no-tui"@ || a == "-i"@ || a == "--ignore-case"@ || a == "-s"@ || a
        == "--case-sensitive"@
}

/// An unknown flag is skipped without effect.
pub proof fn law_unknown_flags_ignored(flag: Seq<char>, rest: Seq<Seq<char>>, st: ArgsState)
    requires
        flag.len() > 0,
        flag[0] == '-',
        !is_known_flag(flag),
    ensures
        args_scan(seq![flag] + rest, st) == args_scan(rest, st),
{
    let all = seq![flag] + rest;
    assert(all[0] == flag);
    assert(all.skip(1) =~= rest);
}

} // verus!
