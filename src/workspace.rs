//! Decisions about the files a run touches: the name of the place copy and
//! the checks on the paths given by the caller.
use vstd::prelude::*;

use crate::error::RunError;

verus! {

/// Whether `c` separates path components: `/`, and on Windows the backslash too.
pub open spec fn is_separator(c: char, windows: bool) -> bool {
    c == '/' || (windows && c == '\\')
}

fn separates(c: char, windows: bool) -> (r: bool)
    ensures
        r == is_separator(c, windows),
{
    c == '/' || (windows && c == '\\')
}

/// The path without trailing separators and trailing `.` components, which
/// do not count when the path is split into components.
pub open spec fn trimmed(p: Seq<char>, windows: bool) -> Seq<char>
    decreases p.len(),
{
    if p.len() >= 2 && (is_separator(p.last(), windows) || (p.last() == '.' && is_separator(
        p[p.len() - 2],
        windows,
    ))) {
        trimmed(p.drop_last(), windows)
    } else {
        p
    }
}

/// The index of the last `.` in `p[..i]` that comes after the last path
/// separator there, if any.
pub open spec fn last_dot(p: Seq<char>, i: int, windows: bool) -> Option<int>
    decreases i,
{
    if i <= 0 || i > p.len() {
        None
    } else if is_separator(p[i - 1], windows) {
        None
    } else if p[i - 1] == '.' {
        Some(i - 1)
    } else {
        last_dot(p, i - 1, windows)
    }
}

/// Whether index `k` of `p` is the first character of a path component.
pub open spec fn starts_component(p: Seq<char>, k: int, windows: bool) -> bool {
    k == 0 || is_separator(p[k - 1], windows)
}

/// The file extension of a path: the text after the last `.` of its last
/// component, where that `.` is not the component's first character.
/// Trailing separators and `.` components are passed over, and a last
/// component `..` has none.
pub open spec fn extension_of(p: Seq<char>, windows: bool) -> Option<Seq<char>> {
    let t = trimmed(p, windows);
    match last_dot(t, t.len() as int, windows) {
        None => None,
        Some(k) => if starts_component(t, k, windows) || (k + 1 == t.len() && t[k - 1] == '.'
            && starts_component(t, k - 1, windows)) {
            None
        } else {
            Some(t.subrange(k + 1, t.len() as int))
        },
    }
}

/// The extension of a path, as `extension_of` says; `windows` tells
/// whether the backslash separates components too.
pub fn file_extension(path: &str, windows: bool) -> (r: Option<String>)
    ensures
        match extension_of(path@, windows) {
            None => r is None,
            Some(e) => r is Some && r->0@ == e,
        },
{
    let len = path.unicode_len();
    let mut j: usize = len;
    assert(path@.subrange(0, len as int) =~= path@);
    while j >= 2 && (separates(path.get_char(j - 1), windows) || (path.get_char(j - 1) == '.'
        && separates(path.get_char(j - 2), windows)))
        invariant
            len == path@.len(),
            j <= len,
            trimmed(path@, windows) == trimmed(path@.subrange(0, j as int), windows),
        decreases j,
    {
        assert(path@.subrange(0, j as int).drop_last() =~= path@.subrange(0, j - 1));
        j -= 1;
    }
    let t = path.substring_char(0, j);
    let n = j;
    assert(trimmed(t@, windows) == t@);
    let mut i: usize = n;
    while i > 0 && t.get_char(i - 1) != '.' && !separates(t.get_char(i - 1), windows)
        invariant
            n == t@.len(),
            i <= n,
            last_dot(t@, n as int, windows) == last_dot(t@, i as int, windows),
        decreases i,
    {
        i -= 1;
    }
    if i == 0 || t.get_char(i - 1) != '.' {
        return None;
    }
    let k = i - 1;
    if k == 0 || separates(t.get_char(k - 1), windows) {
        return None;
    }
    if k + 1 == n && t.get_char(k - 1) == '.' {
        if k - 1 == 0 || separates(t.get_char(k - 2), windows) {
            return None;
        }
    }
    Some(String::from_str(t.substring_char(k + 1, n)))
}

/// The name the place copy gets: a fixed stem with the original's extension,
/// which Studio reads to pick the file format.
pub open spec fn place_copy_name(ext: Seq<char>) -> Seq<char> {
    "run-in-roblox-place."@ + ext
}

/// The file name for the copy of the place at `path`; fails where the path
/// has no extension.
pub fn temp_place_name(path: &str, windows: bool) -> (r: Result<String, RunError>)
    ensures
        match extension_of(path@, windows) {
            None => r == Err::<String, RunError>(RunError::MissingExtension),
            Some(e) => r is Ok && r->Ok_0@ == place_copy_name(e),
        },
{
    match file_extension(path, windows) {
        None => Err(RunError::MissingExtension),
        Some(ext) => {
            let mut name = String::from_str("run-in-roblox-place.");
            name.append(ext.as_str());
            Ok(name)
        },
    }
}

/// Checks the plugins path given by the caller: it must exist and be a
/// directory.
pub fn check_plugins_dir(exists: bool, is_dir: bool) -> (r: Result<(), RunError>)
    ensures
        r == (if !exists {
            Err(RunError::PluginsPathMissing)
        } else if !is_dir {
            Err(RunError::PluginsPathNotDirectory)
        } else {
            Ok(())
        }),
{
    if !exists {
        Err(RunError::PluginsPathMissing)
    } else if !is_dir {
        Err(RunError::PluginsPathNotDirectory)
    } else {
        Ok(())
    }
}

/// Checks the Studio executable path given by the caller: it must exist and
/// not be a directory.
pub fn check_studio_app(exists: bool, is_dir: bool) -> (r: Result<(), RunError>)
    ensures
        r == (if !exists {
            Err(RunError::StudioPathMissing)
        } else if is_dir {
            Err(RunError::StudioPathIsDirectory)
        } else {
            Ok(())
        }),
{
    if !exists {
        Err(RunError::StudioPathMissing)
    } else if is_dir {
        Err(RunError::StudioPathIsDirectory)
    } else {
        Ok(())
    }
}

} // verus!
