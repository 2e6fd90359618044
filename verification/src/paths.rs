//! File paths as text: joining a relative part, and the last component of a
//! path as the platform reads it.
use vstd::prelude::*;
use crate::text::{append_str, chars_of, owned, push_char};

verus! {

/// `Path::join` with a relative part: a `/` goes between the two, unless
/// the base is empty or already ends with a separator.
pub open spec fn joined(base: Seq<char>, part: Seq<char>) -> Seq<char> {
    if base.len() == 0 || base.last() == '/' {
        base + part
    } else {
        base + seq!['/'] + part
    }
}

/// `base` joined with the relative path `part`.
pub fn join_path(base: &str, part: &str) -> (result: String)
    ensures
        result@ == joined(base@, part@),
{
    let chars = chars_of(base);
    let mut result = owned(base);
    let n = chars.len();
    if n > 0 && chars[n - 1] != '/' {
        push_char(&mut result, '/');
    }
    append_str(&mut result, part);
    result
}

/// A character that separates path components on some platform, or that
/// starts a Windows prefix.
pub open spec fn separator_like(c: char) -> bool {
    c == '/' || c == '\\' || c == ':'
}

/// A component every platform reads as a file name as it stands: not
/// empty, not `.` or `..`, with no separator.
pub open spec fn plain_component(s: Seq<char>) -> bool {
    &&& s.len() > 0
    &&& s != "."@
    &&& s != ".."@
    &&& forall|i: int| 0 <= i < s.len() ==> !separator_like(#[trigger] s[i])
}

/// The position of the last `/` of `s`, or -1.
pub open spec fn last_slash(s: Seq<char>) -> int
    decreases s.len(),
{
    if s.len() == 0 {
        -1
    } else if s.last() == '/' {
        s.len() - 1
    } else {
        last_slash(s.drop_last())
    }
}

/// What `path` holds after its last `/` (all of it when it has none).
pub open spec fn after_last_slash(path: Seq<char>) -> Seq<char> {
    path.skip(last_slash(path) + 1)
}

/// What `path` holds before its last `/` (nothing when it has none).
pub open spec fn before_last_slash(path: Seq<char>) -> Seq<char> {
    if last_slash(path) < 0 {
        Seq::empty()
    } else {
        path.take(last_slash(path))
    }
}

/// A head that no platform reads as a prefix or with another separator
/// than `/`: no `\`, no `:`, and it does not start with `//`.
pub open spec fn plain_head(head: Seq<char>) -> bool {
    &&& forall|i: int| 0 <= i < head.len() ==> head[i] != '\\' && head[i] != ':'
    &&& !(head.len() >= 2 && head[0] == '/' && head[1] == '/')
}

/// What holds of `Path::file_name` of `path`, read as text, on every
/// platform: a name found is a non-empty piece of the path without `/`;
/// and a path whose part after its last `/` is a plain component, with a
/// plain part before it, has that part as its name.
pub open spec fn file_name_fits(path: Seq<char>, name: Option<Seq<char>>) -> bool {
    &&& (name matches Some(n) ==> {
        &&& n.len() > 0
        &&& forall|i: int| 0 <= i < n.len() ==> n[i] != '/'
        &&& exists|k: int| 0 <= k && k + n.len() <= path.len() && #[trigger] path.subrange(k, k + n.len()) == n
    })
    &&& (plain_component(after_last_slash(path)) && plain_head(before_last_slash(path)) ==> name
        == Some(after_last_slash(path)))
}

/// `Path::file_name` of `path`, as text. Which characters separate the
/// components, and which prefixes a path may start with, depend on the
/// platform; what is stated is what holds on all of them.
#[verifier::external_body]
pub(crate) fn file_name(path: &str) -> (name: Option<String>)
    ensures
        file_name_fits(
            path@,
            match name {
                Some(n) => Some(n@),
                None => None,
            },
        ),
{
    match std::path::Path::new(path).file_name() {
        Some(name) => name.to_str().map(String::from),
        None => None,
    }
}

} // verus!
