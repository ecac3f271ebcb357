//! User configuration and where it lives.
use vstd::prelude::*;

use crate::text::{append_chars, chars_of, string_of};

verus! {

/// The settings read from `config.toml`; every key is optional.
#[derive(Debug, Clone)]
pub struct Config {
    pub editor: Option<String>,
    pub editor_cmd: Option<String>,
    pub theme: Option<String>,
}

impl Default for Config {
    fn default() -> (c: Self)
        ensures
            c.editor is None,
            c.editor_cmd is None,
            c.theme is None,
    {
        Config { editor: None, editor_cmd: None, theme: None }
    }
}

/// `base` joined with the relative path component `comp`, as `Path::join` does on
/// Unix: a `/` goes between them unless `base` is empty or already ends in `/`.
pub open spec fn path_join(base: Seq<char>, comp: Seq<char>) -> Seq<char> {
    if base.len() == 0 || base.last() == '/' {
        base + comp
    } else {
        base + seq!['/'] + comp
    }
}

/// Joins a relative component onto a path.
pub fn join_path(base: &str, comp: &str) -> (r: String)
    ensures
        r@ == path_join(base@, comp@),
{
    let mut v = chars_of(base);
    if v.len() > 0 && v[v.len() - 1] != '/' {
        v.push('/');
    }
    let c = chars_of(comp);
    append_chars(&mut v, &c);
    string_of(&v)
}

/// The configuration directory: `$XDG_CONFIG_HOME/russee` when that variable is set
/// and non-empty, else `$HOME/.config/russee`, else none.
pub open spec fn config_dir_spec(xdg: Option<Seq<char>>, home: Option<Seq<char>>) -> Option<
    Seq<char>,
> {
    match xdg {
        Some(x) if x.len() > 0 => Some(path_join(x, "russee"@)),
        _ => match home {
            Some(h) => Some(path_join(path_join(h, ".config"@), "russee"@)),
            None => None,
        },
    }
}

pub open spec fn opt_view(o: Option<String>) -> Option<Seq<char>> {
    match o {
        Some(s) => Some(s@),
        None => None,
    }
}

/// The configuration directory for the given `XDG_CONFIG_HOME` and `HOME` values.
pub fn config_dir_from(xdg: Option<String>, home: Option<String>) -> (r: Option<String>)
    ensures
        opt_view(r) == config_dir_spec(opt_view(xdg), opt_view(home)),
{
    if let Some(x) = xdg {
        if chars_of(x.as_str()).len() > 0 {
            return Some(join_path(x.as_str(), "russee"));
        }
    }
    match home {
        Some(h) => {
            let dot = join_path(h.as_str(), ".config");
            Some(join_path(dot.as_str(), "russee"))
        },
        None => None,
    }
}

/// The directory holding custom `.tmTheme` files: `themes` inside the configuration
/// directory, for the given `XDG_CONFIG_HOME` and `HOME` values.
pub fn themes_dir(xdg: Option<String>, home: Option<String>) -> (r: Option<String>)
    ensures
        opt_view(r) == match config_dir_spec(opt_view(xdg), opt_view(home)) {
            Some(d) => Some(path_join(d, "themes"@)),
            None => None,
        },
{
    match config_dir_from(xdg, home) {
        Some(d) => Some(join_path(d.as_str(), "themes")),
        None => None,
    }
}

/// The configuration file inside the configuration directory.
pub fn config_file_from(xdg: Option<String>, home: Option<String>) -> (r: Option<String>)
    ensures
        opt_view(r) == match config_dir_spec(opt_view(xdg), opt_view(home)) {
            Some(d) => Some(path_join(d, "config.toml"@)),
            None => None,
        },
{
    match config_dir_from(xdg, home) {
        Some(d) => Some(join_path(d.as_str(), "config.toml")),
        None => None,
    }
}

/// A set, non-empty `XDG_CONFIG_HOME` always decides the directory, whatever `HOME` is.
pub proof fn law_xdg_wins(x: Seq<char>, h1: Option<Seq<char>>, h2: Option<Seq<char>>)
    requires
        x.len() > 0,
    ensures
        config_dir_spec(Some(x), h1) == config_dir_spec(Some(x), h2),
{
}

} // verus!
