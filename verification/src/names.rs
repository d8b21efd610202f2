//! File names and their extensions.
//!
//! A path is read as text in which `/` separates the components. Its file
//! name is its last component, final separators left aside; the extension
//! is what follows the last dot of the file name, where that dot is not its
//! first character.

use vstd::prelude::*;
use crate::text::{chars_of, push_str, slice_of, string_of};

verus! {

/// The end of `s[..end]` once final separators are dropped.
pub open spec fn name_end(s: Seq<char>, end: int) -> int
    decreases end,
{
    if end <= 0 || end > s.len() {
        0
    } else if s[end - 1] == '/' {
        name_end(s, end - 1)
    } else {
        end
    }
}

/// The index behind the last separator of `s[..end]`, or 0.
pub open spec fn name_start(s: Seq<char>, end: int) -> int
    decreases end,
{
    if end <= 0 || end > s.len() {
        0
    } else if s[end - 1] == '/' {
        end
    } else {
        name_start(s, end - 1)
    }
}

/// The file name of the path `s`: empty where `s` has no component.
pub open spec fn file_name(s: Seq<char>) -> Seq<char> {
    let e = name_end(s, s.len() as int);
    s.subrange(name_start(s, e), e)
}

/// The index of the last dot of `name[..end]`, or -1.
pub open spec fn last_dot(name: Seq<char>, end: int) -> int
    decreases end,
{
    if end <= 0 || end > name.len() {
        -1
    } else if name[end - 1] == '.' {
        end - 1
    } else {
        last_dot(name, end - 1)
    }
}

/// The extension of a file name: what follows its last dot. A name without
/// a dot, one whose only dot comes first, and the name `..` have none.
pub open spec fn name_extension(name: Seq<char>) -> Option<Seq<char>> {
    let d = last_dot(name, name.len() as int);
    if d <= 0 || name == seq!['.', '.'] {
        None
    } else {
        Some(name.subrange(d + 1, name.len() as int))
    }
}

/// The extension of the path `s`.
pub open spec fn extension(s: Seq<char>) -> Option<Seq<char>> {
    name_extension(file_name(s))
}

/// The file name of the path `s`.
pub fn file_name_of(s: &Vec<char>) -> (name: Vec<char>)
    ensures
        name@ == file_name(s@),
{
    let mut e: usize = s.len();
    while e > 0 && s[e - 1] == '/'
        invariant
            e <= s.len(),
            name_end(s@, s.len() as int) == name_end(s@, e as int),
        decreases e,
    {
        e -= 1;
    }
    let mut b: usize = e;
    while b > 0 && s[b - 1] != '/'
        invariant
            b <= e <= s.len(),
            name_start(s@, e as int) == name_start(s@, b as int),
        decreases b,
    {
        b -= 1;
    }
    slice_of(s, b, e)
}

/// The extension of a file name.
pub fn name_extension_of(name: &Vec<char>) -> (ext: Option<Vec<char>>)
    ensures
        ext is Some <==> name_extension(name@) is Some,
        ext matches Some(e) ==> e@ == name_extension(name@)->0,
{
    let mut d: usize = name.len();
    while d > 0 && name[d - 1] != '.'
        invariant
            d <= name.len(),
            last_dot(name@, name.len() as int) == last_dot(name@, d as int),
        decreases d,
    {
        d -= 1;
    }
    if d <= 1 {
        return None;
    }
    if name.len() == 2 && name[0] == '.' && name[1] == '.' {
        assert(name@ =~= seq!['.', '.']);
        return None;
    }
    assert(name@ != seq!['.', '.']) by {
        if name@ == seq!['.', '.'] {
            assert(name@.len() == 2);
            assert(name@[0] == '.');
            assert(name@[1] == '.');
        }
    }
    Some(slice_of(name, d, name.len()))
}

/// The extension of the path `s`.
pub fn extension_of(s: &Vec<char>) -> (ext: Option<Vec<char>>)
    ensures
        ext is Some <==> extension(s@) is Some,
        ext matches Some(e) ==> e@ == extension(s@)->0,
{
    let name = file_name_of(s);
    name_extension_of(&name)
}


/// Whether the path `p` starts at the root of the file system.
pub open spec fn is_rooted(p: Seq<char>) -> bool {
    p.len() > 0 && p[0] == '/'
}

/// `name` below the directory `dir`: the two with one separator between
/// them, which a `dir` that is empty or ends in one already brings.
pub open spec fn below(dir: Seq<char>, name: Seq<char>) -> Seq<char> {
    if dir.len() == 0 {
        name
    } else if dir.last() == '/' {
        dir + name
    } else {
        dir + "/"@ + name
    }
}

/// Whether `std::path::Path::is_absolute` holds of `path`, on the platform
/// that the library is built for.
pub uninterp spec fn path_is_absolute(path: Seq<char>) -> bool;

/// What `std::path::Path::join` makes of `dir` and `name`, on the platform
/// that the library is built for.
pub uninterp spec fn path_joined(dir: Seq<char>, name: Seq<char>) -> Seq<char>;

/// `std::path::Path::is_absolute`: whether `path` is absolute, which is
/// for the platform to say (a leading `/` on Unix, a drive or a share on
/// Windows).
#[verifier::external_body]
pub(crate) fn std_is_absolute(path: &str) -> (r: bool)
    ensures
        r == path_is_absolute(path@),
{
    std::path::Path::new(path).is_absolute()
}

/// `std::path::Path::join`: `name` adjoined to `dir`.
#[verifier::external_body]
fn std_join(dir: &str, name: &str) -> (r: String)
    ensures
        r@ == path_joined(dir@, name@),
{
    std::path::Path::new(dir).join(name).to_string_lossy().into_owned()
}

/// The absolute form of `path` for a process whose working directory is
/// `cwd`: a path that is absolute stays as it stands, every other is
/// adjoined to the working directory, and stays as it is where the
/// working directory is not known. Nothing is resolved: links and `.`
/// stay where they are.
pub open spec fn absolute(path: Seq<char>, cwd: Option<Seq<char>>) -> Seq<char> {
    if path_is_absolute(path) {
        path
    } else {
        match cwd {
            Some(dir) => path_joined(dir, path),
            None => path,
        }
    }
}

/// `name` below the directory `dir`.
pub fn join_path(dir: &str, name: &str) -> (joined: String)
    ensures
        joined@ == below(dir@, name@),
{
    let mut out = chars_of(dir);
    if out.len() > 0 && out[out.len() - 1] != '/' {
        push_str(&mut out, "/");
    }
    push_str(&mut out, name);
    string_of(&out)
}

/// The absolute form of `path` for a process whose working directory is
/// `cwd`.
pub fn absolute_form(path: &str, cwd: Option<&str>) -> (r: String)
    ensures
        r@ == absolute(
            path@,
            match cwd {
                Some(dir) => Some(dir@),
                None => None,
            },
        ),
{
    if std_is_absolute(path) {
        return path.to_owned();
    }
    match cwd {
        Some(dir) => std_join(dir, path),
        None => path.to_owned(),
    }
}

} // verus!
