//! The icon widget: which kind of image a file holds.
use crate::utils::strings::str_eq;
use vstd::prelude::*;

verus! {

/// The position of the last `.` in a file name, if any.
pub open spec fn last_dot(name: Seq<char>) -> Option<int> {
    if exists|i: int| 0 <= i < name.len() && name[i] == '.' {
        Some(
            choose|i: int|
                0 <= i < name.len() && name[i] == '.' && forall|j: int|
                    i < j < name.len() ==> name[j] != '.',
        )
    } else {
        None
    }
}

/// The extension of a file name, as `Path::extension` gives it: what follows
/// the last `.`, unless there is none, the only one starts the name, or the
/// name is `..`.
pub open spec fn spec_extension(name: Seq<char>) -> Option<Seq<char>> {
    if name == ".."@ {
        None
    } else {
        match last_dot(name) {
        Some(i) => if i == 0 {
            None
        } else {
            Some(name.subrange(i + 1, name.len() as int))
        },
        None => None,
        }
    }
}

/// The extension of the file name `name`.
pub fn extension(name: &str) -> (r: Option<String>)
    ensures
        match (r, spec_extension(name@)) {
            (Some(e), Some(s)) => e@ == s,
            (None, None) => true,
            _ => false,
        },
{
    proof {
        reveal_strlit("..");
    }
    if str_eq(name, "..") {
        return None;
    }
    let n = name.unicode_len();
    let mut i: usize = n;
    while i > 0
        invariant
            n == name@.len(),
            name@ != ".."@,
            i <= n,
            forall|j: int| i <= j < n ==> name@[j] != '.',
        decreases i,
    {
        if name.get_char(i - 1) == '.' {
            let k = i - 1;
            proof {
                assert(exists|j: int| 0 <= j < name@.len() && name@[j] == '.') by {
                    assert(name@[k as int] == '.');
                }
                let c = choose|j: int|
                    0 <= j < name@.len() && name@[j] == '.' && forall|l: int|
                        j < l < name@.len() ==> name@[l] != '.';
                assert(0 <= k < name@.len() && name@[k as int] == '.' && forall|l: int|
                    k < l < name@.len() ==> name@[l] != '.');
                if c < k {
                    assert(name@[k as int] != '.');
                } else if c > k {
                    assert(name@[c] != '.');
                }
                assert(c == k);
            }
            if k == 0 {
                return None;
            }
            return Some(String::from_str(name.substring_char(k + 1, n)));
        }
        i = i - 1;
    }
    None
}

/// The kinds of image an icon can show.
#[derive(Debug, Clone, Copy, PartialEq, Eq, Structural)]
pub enum IconKind {
    Png,
    Svg,
}

/// Why an icon cannot be made from a file.
#[derive(Debug)]
pub enum Error {
    UnsupportedFileType(String),
}

/// The kind of image of a file: not being a file is an error; a file
/// without extension or ending in `png` is a PNG image; one ending in `svg`
/// is an SVG image; anything else is an error naming the file.
pub fn icon_kind(path: &str, is_file: bool, extension: Option<&str>) -> (r: Result<IconKind, Error>)
    ensures
        !is_file ==> (r matches Err(Error::UnsupportedFileType(m)) && m@ == path@
            + " is not a file"@),
        is_file ==> match extension {
            None => r == Ok::<IconKind, Error>(IconKind::Png),
            Some(e) => if e@ == "png"@ {
                r == Ok::<IconKind, Error>(IconKind::Png)
            } else if e@ == "svg"@ {
                r == Ok::<IconKind, Error>(IconKind::Svg)
            } else {
                (r matches Err(Error::UnsupportedFileType(m)) && m@ == path@)
            },
        },
{
    if !is_file {
        let mut m = String::from_str(path);
        m.append(" is not a file");
        return Err(Error::UnsupportedFileType(m));
    }
    match extension {
        None => Ok(IconKind::Png),
        Some(e) => {
            if str_eq(e, "png") {
                Ok(IconKind::Png)
            } else if str_eq(e, "svg") {
                Ok(IconKind::Svg)
            } else {
                Err(Error::UnsupportedFileType(String::from_str(path)))
            }
        },
    }
}

} // verus!
