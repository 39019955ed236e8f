//! A status bar for X11: the layout of its widgets, the texts they show,
//! and the decisions the bar and its widgets take on what they read.
pub mod statusbar;
pub mod utils;
pub mod widgets;

use vstd::prelude::*;

verus! {

/// `rel` pushed onto the path `base`: an absolute `rel` replaces `base`;
/// otherwise it is appended, after a `/` unless `base` is empty or already
/// ends in one.
pub open spec fn spec_path_join(base: Seq<char>, rel: Seq<char>) -> Seq<char> {
    if rel.len() > 0 && rel[0] == '/' {
        rel
    } else if base.len() == 0 || base.last() == '/' {
        base + rel
    } else {
        base + seq!['/'] + rel
    }
}

/// Joins two paths the way `PathBuf::join` does on Unix.
pub fn path_join(base: &str, rel: &str) -> (r: String)
    ensures
        r@ == spec_path_join(base@, rel@),
{
    let n = base.unicode_len();
    let m = rel.unicode_len();
    if m > 0 && rel.get_char(0) == '/' {
        return String::from_str(rel);
    }
    let mut r = String::from_str(base);
    if n > 0 && base.get_char(n - 1) != '/' {
        proof {
            reveal_strlit("/");
        }
        r.append("/");
    }
    r.append(rel);
    r
}

/// The directory of this program under an XDG base directory: the base is
/// the variable's value when it is set, else `default` under the home
/// directory.
pub open spec fn spec_xdg_dir(var: Option<Seq<char>>, home: Seq<char>, default: Seq<char>) -> Seq<char> {
    let base = match var {
        Some(v) => v,
        None => spec_path_join(home, default),
    };
    spec_path_join(base, "barust"@)
}

fn xdg_getter(var: Option<&str>, home: &str, default: &str) -> (r: String)
    ensures
        r@ == spec_xdg_dir(
            match var {
                Some(v) => Some(v@),
                None => None,
            },
            home@,
            default@,
        ),
{
    let base = match var {
        Some(v) => String::from_str(v),
        None => path_join(home, default),
    };
    path_join(base.as_str(), "barust")
}

/// The configuration directory, from `$XDG_CONFIG_HOME` (`var`) or `~/.config`.
pub fn xdg_config(var: Option<&str>, home: &str) -> (r: String)
    ensures
        r@ == spec_xdg_dir(
            match var {
                Some(v) => Some(v@),
                None => None,
            },
            home@,
            ".config"@,
        ),
{
    xdg_getter(var, home, ".config")
}

/// The data directory, from `$XDG_DATA_HOME` (`var`) or `~/.local/share`.
pub fn xdg_data(var: Option<&str>, home: &str) -> (r: String)
    ensures
        r@ == spec_xdg_dir(
            match var {
                Some(v) => Some(v@),
                None => None,
            },
            home@,
            ".local/share"@,
        ),
{
    xdg_getter(var, home, ".local/share")
}

/// The cache directory, from `$XDG_CACHE_HOME` (`var`) or `~/.cache`.
pub fn xdg_cache(var: Option<&str>, home: &str) -> (r: String)
    ensures
        r@ == spec_xdg_dir(
            match var {
                Some(v) => Some(v@),
                None => None,
            },
            home@,
            ".cache"@,
        ),
{
    xdg_getter(var, home, ".cache")
}

} // verus!
