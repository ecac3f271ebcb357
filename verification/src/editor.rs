//! Choosing the editor and building its command line.
use vstd::prelude::*;

use crate::config::{opt_view, Config};
use crate::text::{
    has_substring, is_white_space, occurs_at, split_scan,
    chars_eq_str, chars_of, decimal, replace_all, replace_chars, slice_chars, split_whitespace,
    split_ws, string_of, usize_to_string,
};

verus! {

/// The editor to run: a program name or path, or a command template with
/// `{file}`/`{line}` placeholders.
#[derive(Debug, Clone, PartialEq, Eq)]
pub enum ResolvedEditor {
    Known(String),
    Template(String),
}

/// The value of a `ResolvedEditor`.
pub enum EditorView {
    Known(Seq<char>),
    Template(Seq<char>),
}

impl View for ResolvedEditor {
    type V = EditorView;

    open spec fn view(&self) -> EditorView {
        match self {
            ResolvedEditor::Known(s) => EditorView::Known(s@),
            ResolvedEditor::Template(s) => EditorView::Template(s@),
        }
    }
}

/// Precedence: the `editor_cmd` template, then `editor`, then a non-empty `$EDITOR`,
/// then `vi`.
pub open spec fn resolve_spec(
    editor: Option<Seq<char>>,
    editor_cmd: Option<Seq<char>>,
    env_editor: Option<Seq<char>>,
) -> EditorView {
    match editor_cmd {
        Some(t) => EditorView::Template(t),
        None => match editor {
            Some(e) => EditorView::Known(e),
            None => match env_editor {
                Some(e) if e.len() > 0 => EditorView::Known(e),
                _ => EditorView::Known(seq!['v', 'i']),
            },
        },
    }
}

pub fn resolve_editor(cfg: &Config, env_editor: Option<String>) -> (r: ResolvedEditor)
    ensures
        r@ == resolve_spec(opt_view(cfg.editor), opt_view(cfg.editor_cmd), opt_view(env_editor)),
{
    if let Some(t) = &cfg.editor_cmd {
        return ResolvedEditor::Template(t.clone());
    }
    if let Some(e) = &cfg.editor {
        return ResolvedEditor::Known(e.clone());
    }
    if let Some(e) = env_editor {
        if chars_of(e.as_str()).len() > 0 {
            return ResolvedEditor::Known(e);
        }
    }
    let vi = string_of(&['v', 'i']);
    assert(vi@ =~= seq!['v', 'i']);
    ResolvedEditor::Known(vi)
}

/// The part of a command after its last `/` (all of it when there is none).
pub open spec fn basename_spec(cmd: Seq<char>) -> Seq<char>
    decreases cmd.len(),
{
    if cmd.len() == 0 {
        cmd
    } else if cmd.last() == '/' {
        seq![]
    } else {
        basename_spec(cmd.drop_last()).push(cmd.last())
    }
}

fn basename(cmd: &[char]) -> (r: Vec<char>)
    ensures
        r@ == basename_spec(cmd@),
{
    let mut start = cmd.len();
    assert(cmd@.take(start as int) =~= cmd@);
    assert(basename_spec(cmd@) =~= basename_spec(cmd@.take(start as int)) + cmd@.skip(
        start as int,
    ));
    while start > 0
        invariant
            start <= cmd.len(),
            basename_spec(cmd@) == basename_spec(cmd@.take(start as int)) + cmd@.skip(
                start as int,
            ),
        ensures
            basename_spec(cmd@) == cmd@.skip(start as int),
        decreases start,
    {
        assert(cmd@.take(start - 1) == cmd@.take(start as int).drop_last());
        if cmd[start - 1] == '/' {
            assert(basename_spec(cmd@.take(start as int)) == Seq::<char>::empty());
            assert(basename_spec(cmd@) =~= cmd@.skip(start as int));
            break;
        }
        assert(cmd@.skip(start - 1) =~= seq![cmd@[start - 1]] + cmd@.skip(start as int));
        start -= 1;
        assert(basename_spec(cmd@) =~= basename_spec(cmd@.take(start as int)) + cmd@.skip(
            start as int,
        ));
    }
    proof {
        if start == 0 {
            assert(cmd@.take(0) =~= Seq::<char>::empty());
        }
    }
    assert(cmd@.skip(start as int) =~= cmd@.subrange(start as int, cmd.len() as int));
    slice_chars(cmd, start, cmd.len())
}

/// The argument template for an editor known by name.
pub open spec fn known_template(name: Seq<char>) -> Option<Seq<char>> {
    if name == "vi"@ || name == "vim"@ || name == "nvim"@ || name == "nano"@ || name
        == "emacs"@ || name == "micro"@ {
        Some("+{line} {file}"@)
    } else if name == "code"@ || name == "code-insiders"@ || name == "codium"@ {
        Some("-g {file}:{line}"@)
    } else if name == "zed"@ || name == "subl"@ || name == "hx"@ {
        Some("{file}:{line}"@)
    } else {
        None
    }
}

fn known_args_template(basename: &[char]) -> (r: Option<&'static str>)
    ensures
        match r {
            Some(t) => known_template(basename@) == Some(t@),
            None => known_template(basename@) is None,
        },
{
    if chars_eq_str(basename, "vi") || chars_eq_str(basename, "vim") || chars_eq_str(
        basename,
        "nvim",
    ) || chars_eq_str(basename, "nano") || chars_eq_str(basename, "emacs") || chars_eq_str(
        basename,
        "micro",
    ) {
        Some("+{line} {file}")
    } else if chars_eq_str(basename, "code") || chars_eq_str(basename, "code-insiders")
        || chars_eq_str(basename, "codium") {
        Some("-g {file}:{line}")
    } else if chars_eq_str(basename, "zed") || chars_eq_str(basename, "subl") || chars_eq_str(
        basename,
        "hx",
    ) {
        Some("{file}:{line}")
    } else {
        None
    }
}

/// One argument of a template: `{file}` replaced first, then `{line}`.
pub open spec fn substitute_token(tok: Seq<char>, file: Seq<char>, line: Seq<char>) -> Seq<char> {
    replace_all(replace_all(tok, "{file}"@, file), "{line}"@, line)
}

/// The line number as text; a missing line opens at line 1.
pub open spec fn line_text(line: Option<usize>) -> Seq<char> {
    match line {
        Some(l) => decimal(l as nat),
        None => decimal(1),
    }
}

/// A template split on whitespace first and then substituted, so a path with spaces
/// stays one argument.
pub open spec fn substitute_spec(template: Seq<char>, file: Seq<char>, line: Option<usize>) -> Seq<
    Seq<char>,
> {
    split_ws(template).map_values(|tok: Seq<char>| substitute_token(tok, file, line_text(line)))
}

pub open spec fn strings_view(v: Seq<String>) -> Seq<Seq<char>> {
    v.map_values(|s: String| s@)
}

fn substitute_tokens(template: &str, file: &str, line: Option<usize>) -> (r: Vec<String>)
    ensures
        strings_view(r@) == substitute_spec(template@, file@, line),
{
    let line_s = match line {
        Some(l) => usize_to_string(l),
        None => usize_to_string(1),
    };
    let line_c = chars_of(line_s.as_str());
    let file_c = chars_of(file);
    let pat_file = chars_of("{file}");
    let pat_line = chars_of("{line}");
    proof {
        reveal_strlit("{file}");
        reveal_strlit("{line}");
    }
    let t = chars_of(template);
    let tokens = split_whitespace(&t);
    let ghost spec = substitute_spec(template@, file@, line);
    let mut out: Vec<String> = Vec::new();
    let mut i: usize = 0;
    while i < tokens.len()
        invariant
            i <= tokens.len(),
            tokens@.len() == split_ws(template@).len(),
            forall|k: int| 0 <= k < tokens@.len() ==> #[trigger] tokens@[k]@ == split_ws(template@)[k],
            pat_file@ == "{file}"@,
            pat_line@ == "{line}"@,
            pat_file@.len() > 0,
            pat_line@.len() > 0,
            file_c@ == file@,
            line_c@ == line_text(line),
            spec == substitute_spec(template@, file@, line),
            strings_view(out@) == spec.take(i as int),
        decreases tokens.len() - i,
    {
        let a = replace_chars(&tokens[i], &pat_file, &file_c);
        let b = replace_chars(&a, &pat_line, &line_c);
        let bs = string_of(&b);
        assert(bs@ == substitute_token(tokens@[i as int]@, file@, line_text(line)));
        assert(spec[i as int] == substitute_token(split_ws(template@)[i as int], file@, line_text(line)));
        let ghost before = out@;
        out.push(bs);
        assert(strings_view(out@) =~= strings_view(before).push(bs@));
        assert(spec.take(i + 1) =~= spec.take(i as int).push(spec[i as int]));
        i += 1;
    }
    assert(spec.take(tokens.len() as int) =~= spec);
    out
}

/// The editor command line.
pub open spec fn argv_spec(resolved: EditorView, file: Seq<char>, line: Option<usize>) -> Seq<
    Seq<char>,
> {
    match resolved {
        EditorView::Template(t) => substitute_spec(t, file, line),
        EditorView::Known(name) => match (line, known_template(basename_spec(name))) {
            (Some(l), Some(tmpl)) => seq![name] + substitute_spec(tmpl, file, Some(l)),
            _ => seq![name, file],
        },
    }
}

/// Builds the argv that opens `file` (at `line`, when given) in the resolved editor.
/// A known editor name is looked up by its basename; an unknown one, or a missing
/// line, opens just the file.
pub fn build_editor_argv(resolved: &ResolvedEditor, file: &str, line: Option<usize>) -> (r: Vec<
    String,
>)
    ensures
        strings_view(r@) == argv_spec(resolved@, file@, line),
{
    match resolved {
        ResolvedEditor::Template(t) => substitute_tokens(t.as_str(), file, line),
        ResolvedEditor::Known(name) => {
            let mut argv: Vec<String> = Vec::new();
            argv.push(name.clone());
            let name_c = chars_of(name.as_str());
            let base = basename(&name_c);
            let tmpl = known_args_template(&base);
            match (line, tmpl) {
                (Some(l), Some(tmpl)) => {
                    let mut rest = substitute_tokens(tmpl, file, Some(l));
                    let ghost before = argv@;
                    let ghost rest_v = rest@;
                    argv.append(&mut rest);
                    assert(strings_view(argv@) =~= strings_view(before) + strings_view(rest_v));
                },
                _ => {
                    argv.push(string_of(&chars_of(file)));
                },
            }
            assert(strings_view(argv@) =~= argv_spec(resolved@, file@, line));
            argv
        },
    }
}

/// A template's arguments are its whitespace-separated words: substituting a path
/// (spaces included) never changes how many arguments there are.
pub proof fn law_template_argument_count(t: Seq<char>, file: Seq<char>, line: Option<usize>)
    ensures
        argv_spec(EditorView::Template(t), file, line).len() == split_ws(t).len(),
{
}

/// Without a line number a named editor is given just the file.
pub proof fn law_no_line_opens_file(name: Seq<char>, file: Seq<char>)
    ensures
        argv_spec(EditorView::Known(name), file, None) == seq![name, file],
{
}

/// The documented editors get their line flag: the terminal editors (vi, vim, nvim,
/// nano, emacs, micro) are called as `<ed> +LINE FILE`, VS Code and its variants as
/// `<ed> -g FILE:LINE`, and zed, subl and hx as `<ed> FILE:LINE`; the same holds when
/// the editor is given by a path ending in that name.
pub proof fn law_known_editor_arguments(dir: Seq<char>, name: Seq<char>, file: Seq<char>, l: usize)
    requires
        name == "vi"@ || name == "vim"@ || name == "nvim"@ || name == "nano"@ || name == "emacs"@
            || name == "micro"@ || name == "code"@ || name == "code-insiders"@ || name
            == "codium"@ || name == "zed"@ || name == "subl"@ || name == "hx"@,
        dir.len() == 0 || dir.last() == '/',
    ensures
        ({
            let cmd = dir + name;
            let tmpl = if name == "vi"@ || name == "vim"@ || name == "nvim"@ || name == "nano"@
                || name == "emacs"@ || name == "micro"@ {
                "+{line} {file}"@
            } else if name == "code"@ || name == "code-insiders"@ || name == "codium"@ {
                "-g {file}:{line}"@
            } else {
                "{file}:{line}"@
            };
            argv_spec(EditorView::Known(cmd), file, Some(l)) == seq![cmd] + substitute_spec(
                tmpl,
                file,
                Some(l),
            )
        }),
{
    reveal_strlit("vi");
    reveal_strlit("vim");
    reveal_strlit("nvim");
    reveal_strlit("nano");
    reveal_strlit("emacs");
    reveal_strlit("micro");
    reveal_strlit("code");
    reveal_strlit("code-insiders");
    reveal_strlit("codium");
    reveal_strlit("zed");
    reveal_strlit("subl");
    reveal_strlit("hx");
    assert(forall|i: int| 0 <= i < name.len() ==> name[i] != '/');
    lemma_basename_after_slash(dir, name);
}

/// The basename of `dir + name`, where `dir` is empty or ends in `/` and `name` holds
/// no `/`, is `name`.
proof fn lemma_basename_after_slash(dir: Seq<char>, name: Seq<char>)
    requires
        dir.len() == 0 || dir.last() == '/',
        forall|i: int| 0 <= i < name.len() ==> name[i] != '/',
    ensures
        basename_spec(dir + name) == name,
    decreases name.len(),
{
    if name.len() == 0 {
        assert(dir + name =~= dir);
        if dir.len() > 0 {
            assert(basename_spec(dir) == Seq::<char>::empty());
        }
    } else {
        lemma_basename_after_slash(dir, name.drop_last());
        assert((dir + name).drop_last() =~= dir + name.drop_last());
        assert((dir + name).last() == name.last());
        assert(name.drop_last().push(name.last()) =~= name);
    }
}

/// Replacing a pattern that does not occur leaves the text as it is.
proof fn lemma_replace_absent(s: Seq<char>, pat: Seq<char>, rep: Seq<char>)
    requires
        pat.len() > 0,
        !has_substring(s, pat),
    ensures
        replace_all(s, pat, rep) == s,
    decreases s.len(),
{
    if s.len() > 0 {
        if s.len() >= pat.len() && s.take(pat.len() as int) == pat {
            assert(s.subrange(0, pat.len() as int) =~= s.take(pat.len() as int));
            assert(occurs_at(s, pat, 0));
        }
        assert forall|i: int| !#[trigger] occurs_at(s.skip(1), pat, i) by {
            if occurs_at(s.skip(1), pat, i) {
                assert(s.skip(1).subrange(i, i + pat.len()) =~= s.subrange(i + 1, i + 1 + pat.len()));
                assert(occurs_at(s, pat, i + 1));
            }
        }
        lemma_replace_absent(s.skip(1), pat, rep);
        assert(seq![s[0]] + s.skip(1) =~= s);
    }
}

/// How the `+{line} {file}` template splits, given that a space is whitespace and its
/// other characters are not.
proof fn lemma_split_line_template()
    requires
        is_white_space(' '),
        !is_white_space('+'),
        !is_white_space('{'),
        !is_white_space('}'),
        !is_white_space('l'),
        !is_white_space('i'),
        !is_white_space('n'),
        !is_white_space('e'),
        !is_white_space('f'),
    ensures
        split_ws("+{line} {file}"@) == seq![
            seq!['+', '{', 'l', 'i', 'n', 'e', '}'],
            seq!['{', 'f', 'i', 'l', 'e', '}'],
        ],
{
    reveal_strlit("+{line} {file}");
    let t = "+{line} {file}"@;
    assert(t.len() == 14);
    assert(t.take(0) =~= Seq::<char>::empty());
    assert(split_scan(t.take(0)).0 =~= Seq::<Seq<char>>::empty() && split_scan(t.take(0)).1 =~= Seq::<char>::empty());
    assert(t.take(1).drop_last() =~= t.take(0));
    assert(t.take(1).last() == '+');
    assert(split_scan(t.take(1)).0 =~= Seq::<Seq<char>>::empty() && split_scan(t.take(1)).1 =~= seq!['+']);
    assert(t.take(2).drop_last() =~= t.take(1));
    assert(t.take(2).last() == '{');
    assert(split_scan(t.take(2)).0 =~= Seq::<Seq<char>>::empty() && split_scan(t.take(2)).1 =~= seq!['+', '{']);
    assert(t.take(3).drop_last() =~= t.take(2));
    assert(t.take(3).last() == 'l');
    assert(split_scan(t.take(3)).0 =~= Seq::<Seq<char>>::empty() && split_scan(t.take(3)).1 =~= seq!['+', '{', 'l']);
    assert(t.take(4).drop_last() =~= t.take(3));
    assert(t.take(4).last() == 'i');
    assert(split_scan(t.take(4)).0 =~= Seq::<Seq<char>>::empty() && split_scan(t.take(4)).1 =~= seq!['+', '{', 'l', 'i']);
    assert(t.take(5).drop_last() =~= t.take(4));
    assert(t.take(5).last() == 'n');
    assert(split_scan(t.take(5)).0 =~= Seq::<Seq<char>>::empty() && split_scan(t.take(5)).1 =~= seq!['+', '{', 'l', 'i', 'n']);
    assert(t.take(6).drop_last() =~= t.take(5));
    assert(t.take(6).last() == 'e');
    assert(split_scan(t.take(6)).0 =~= Seq::<Seq<char>>::empty() && split_scan(t.take(6)).1 =~= seq!['+', '{', 'l', 'i', 'n', 'e']);
    assert(t.take(7).drop_last() =~= t.take(6));
    assert(t.take(7).last() == '}');
    assert(split_scan(t.take(7)).0 =~= Seq::<Seq<char>>::empty() && split_scan(t.take(7)).1 =~= seq!['+', '{', 'l', 'i', 'n', 'e', '}']);
    assert(t.take(8).drop_last() =~= t.take(7));
    assert(t.take(8).last() == ' ');
    assert(split_scan(t.take(8)).0 =~= seq![seq!['+', '{', 'l', 'i', 'n', 'e', '}']] && split_scan(t.take(8)).1 =~= Seq::<char>::empty());
    assert(t.take(9).drop_last() =~= t.take(8));
    assert(t.take(9).last() == '{');
    assert(split_scan(t.take(9)).0 =~= seq![seq!['+', '{', 'l', 'i', 'n', 'e', '}']] && split_scan(t.take(9)).1 =~= seq!['{']);
    assert(t.take(10).drop_last() =~= t.take(9));
    assert(t.take(10).last() == 'f');
    assert(split_scan(t.take(10)).0 =~= seq![seq!['+', '{', 'l', 'i', 'n', 'e', '}']] && split_scan(t.take(10)).1 =~= seq!['{', 'f']);
    assert(t.take(11).drop_last() =~= t.take(10));
    assert(t.take(11).last() == 'i');
    assert(split_scan(t.take(11)).0 =~= seq![seq!['+', '{', 'l', 'i', 'n', 'e', '}']] && split_scan(t.take(11)).1 =~= seq!['{', 'f', 'i']);
    assert(t.take(12).drop_last() =~= t.take(11));
    assert(t.take(12).last() == 'l');
    assert(split_scan(t.take(12)).0 =~= seq![seq!['+', '{', 'l', 'i', 'n', 'e', '}']] && split_scan(t.take(12)).1 =~= seq!['{', 'f', 'i', 'l']);
    assert(t.take(13).drop_last() =~= t.take(12));
    assert(t.take(13).last() == 'e');
    assert(split_scan(t.take(13)).0 =~= seq![seq!['+', '{', 'l', 'i', 'n', 'e', '}']] && split_scan(t.take(13)).1 =~= seq!['{', 'f', 'i', 'l', 'e']);
    assert(t.take(14).drop_last() =~= t.take(13));
    assert(t.take(14).last() == '}');
    assert(split_scan(t.take(14)).0 =~= seq![seq!['+', '{', 'l', 'i', 'n', 'e', '}']] && split_scan(t.take(14)).1 =~= seq!['{', 'f', 'i', 'l', 'e', '}']);
    assert(t.take(14) =~= t);
    assert(split_ws(t) =~= seq![
        seq!['+', '{', 'l', 'i', 'n', 'e', '}'],
        seq!['{', 'f', 'i', 'l', 'e', '}'],
    ]);
}

/// With `+LINE FILE`: a terminal editor (vi, vim, nvim, nano, emacs, micro) given a
/// line is called as `[editor, "+" + line, file]`. This holds given the Unicode
/// whitespace facts the template relies on (a space is whitespace; `+`, braces and
/// letters are not) and for a file name that does not itself hold `{line}` (which,
/// as in `str::replace`, would be replaced too).
pub proof fn law_terminal_editor_argv(name: Seq<char>, file: Seq<char>, l: usize)
    requires
        name == "vi"@ || name == "vim"@ || name == "nvim"@ || name == "nano"@ || name == "emacs"@
            || name == "micro"@,
        is_white_space(' '),
        !is_white_space('+'),
        !is_white_space('{'),
        !is_white_space('}'),
        !is_white_space('l'),
        !is_white_space('i'),
        !is_white_space('n'),
        !is_white_space('e'),
        !is_white_space('f'),
        !has_substring(file, "{line}"@),
    ensures
        argv_spec(EditorView::Known(name), file, Some(l)) == seq![name, seq!['+'] + decimal(l as nat), file],
{
    law_known_editor_arguments(Seq::empty(), name, file, l);
    assert(Seq::<char>::empty() + name =~= name);
    let t = "+{line} {file}"@;
    reveal_strlit("+{line} {file}");
    reveal_strlit("{line}");
    reveal_strlit("{file}");
    let tok1 = seq!['+', '{', 'l', 'i', 'n', 'e', '}'];
    let tok2 = seq!['{', 'f', 'i', 'l', 'e', '}'];
    lemma_split_line_template();
    assert(split_ws(t) == seq![tok1, tok2]);
    let d = decimal(l as nat);
    reveal_with_fuel(replace_all, 9);
    assert(tok1.take(6)[0] == '+' && "{file}"@[0] == '{');
    assert(tok1.skip(1).take(6)[1] == 'l' && "{file}"@[1] == 'f');
    assert(replace_all(tok1, "{file}"@, file) =~= tok1);
    assert(tok1.take(6)[0] == '+' && "{line}"@[0] == '{');
    assert(tok1.skip(1).take(6) =~= "{line}"@);
    assert(replace_all(tok1, "{line}"@, d) =~= seq!['+'] + d);
    assert(tok2.take(6) =~= "{file}"@);
    assert(replace_all(tok2, "{file}"@, file) =~= file);
    lemma_replace_absent(file, "{line}"@, d);
    assert(substitute_spec(t, file, Some(l)) =~= seq![seq!['+'] + d, file]);
}

} // verus!
