//! Paths as text: slash-separated, joined and taken apart without touching
//! the file system.

use crate::text::chars_of;
use crate::text::lemma_rfind_bounds;
use crate::text::rfind_before;
use crate::text::rfind_before_exec;
use crate::text::starts_with;
use crate::text::starts_with_exec;
use crate::text::string_of;
use crate::text::without_trailing;
use crate::text::append_chars;
use crate::text::to_vec;
use crate::text::without_trailing_exec;
use vstd::prelude::*;
use vstd::slice::slice_subrange;
use vstd::string::StrSliceExecFns;

verus! {

/// `base` and `other` joined by one slash. One trailing slash of `base` and
/// one leading `/` or `./` of `other` are dropped first; an empty base gives
/// `other` alone.
pub open spec fn join_paths(base: Seq<char>, other: Seq<char>) -> Seq<char> {
    let first = without_trailing(base, '/');
    let rest = relative_part(other);
    if first.len() == 0 {
        rest
    } else {
        first + seq!['/'] + rest
    }
}

/// `other` without one leading `/` or, failing that, one leading `./`.
pub open spec fn relative_part(other: Seq<char>) -> Seq<char> {
    if other.len() > 0 && other[0] == '/' {
        other.subrange(1, other.len() as int)
    } else if starts_with(other, seq!['.', '/']) {
        other.subrange(2, other.len() as int)
    } else {
        other
    }
}

/// What stands before the last slash of `p`, if it has a slash.
pub open spec fn parent_of(p: Seq<char>) -> Option<Seq<char>> {
    let k = rfind_before(p, p.len() as int, '/');
    if k < 0 {
        None
    } else {
        Some(p.subrange(0, k))
    }
}

/// Where the final component of `p` before index `e` stands: trailing
/// slashes and `.` components are passed over, and a final `..` is none.
pub open spec fn name_bounds(p: Seq<char>, e: int) -> Option<(int, int)>
    decreases e,
{
    if e <= 0 || e > p.len() {
        None
    } else if p[e - 1] == '/' {
        name_bounds(p, e - 1)
    } else {
        let b = rfind_before(p, e, '/') + 1;
        if b < 0 || b >= e {
            None
        } else if p.subrange(b, e) == seq!['.'] {
            name_bounds(p, b)
        } else if p.subrange(b, e) == seq!['.', '.'] {
            None
        } else {
            Some((b, e))
        }
    }
}

/// The final component of `p`, if it names a file or a directory.
pub open spec fn file_name_of(p: Seq<char>) -> Option<Seq<char>> {
    match name_bounds(p, p.len() as int) {
        Some((b, e)) => Some(p.subrange(b, e)),
        None => None,
    }
}

/// Where the extension of a file name starts: after its last dot, unless
/// that dot is its first character or there is none.
pub open spec fn dot_of(name: Seq<char>) -> Option<int> {
    let k = rfind_before(name, name.len() as int, '.');
    if k <= 0 {
        None
    } else {
        Some(k)
    }
}

/// The file name of `p` without its extension.
pub open spec fn file_stem_of(p: Seq<char>) -> Option<Seq<char>> {
    match file_name_of(p) {
        Some(name) => match dot_of(name) {
            Some(k) => Some(name.subrange(0, k)),
            None => Some(name),
        },
        None => None,
    }
}

/// The extension of the file name of `p`: what follows its last dot.
pub open spec fn extension_of(p: Seq<char>) -> Option<Seq<char>> {
    match file_name_of(p) {
        Some(name) => match dot_of(name) {
            Some(k) => Some(name.subrange(k + 1, name.len() as int)),
            None => None,
        },
        None => None,
    }
}

pub proof fn lemma_name_bounds(p: Seq<char>, e: int)
    requires
        0 <= e <= p.len(),
    ensures
        match name_bounds(p, e) {
            Some((b, f)) => 0 <= b < f <= e,
            None => true,
        },
    decreases e,
{
    if e > 0 {
        if p[e - 1] == '/' {
            lemma_name_bounds(p, e - 1);
        } else {
            lemma_rfind_bounds(p, e, '/');
            let b = rfind_before(p, e, '/') + 1;
            if 0 <= b < e && p.subrange(b, e) == seq!['.'] {
                lemma_name_bounds(p, b);
            }
        }
    }
}

/// The bounds of the final component of `p`.
pub fn name_bounds_exec(p: &[char]) -> (r: Option<(usize, usize)>)
    ensures
        match r {
            Some((b, e)) => name_bounds(p@, p@.len() as int) == Some((b as int, e as int)) && b < e
                <= p@.len(),
            None => name_bounds(p@, p@.len() as int) is None,
        },
{
    let mut e: usize = p.len();
    while e > 0
        invariant
            e <= p.len(),
            name_bounds(p@, p@.len() as int) == name_bounds(p@, e as int),
        decreases e,
    {
        if p[e - 1] == '/' {
            e -= 1;
        } else {
            proof {
                lemma_rfind_bounds(p@, e as int, '/');
            }
            let b: usize = match rfind_before_exec(p, e, '/') {
                Some(k) => k + 1,
                None => 0,
            };
            let seg = slice_subrange(p, b, e);
            if seg.len() == 1 && seg[0] == '.' {
                assert(seg@ =~= seq!['.']);
                e = b;
            } else if seg.len() == 2 && seg[0] == '.' && seg[1] == '.' {
                assert(seg@ =~= seq!['.', '.']);
                return None;
            } else {
                assert(seg@ != seq!['.']) by {
                    if seg@ == seq!['.'] {
                        assert(seg@.len() == 1 && seg@[0] == '.');
                    }
                }
                assert(seg@ != seq!['.', '.']) by {
                    if seg@ == seq!['.', '.'] {
                        assert(seg@.len() == 2 && seg@[0] == '.' && seg@[1] == '.');
                    }
                }
                return Some((b, e));
            }
        }
    }
    None
}

/// The index of the dot before the extension of `name`.
pub fn dot_of_exec(name: &[char]) -> (r: Option<usize>)
    ensures
        match r {
            Some(k) => dot_of(name@) == Some(k as int) && 0 < k < name@.len(),
            None => dot_of(name@) is None,
        },
{
    match rfind_before_exec(name, name.len(), '.') {
        Some(k) => if k == 0 {
            None
        } else {
            Some(k)
        },
        None => None,
    }
}

/// A path, held as text.
#[derive(Clone, Debug, PartialEq, Eq, PartialOrd, Ord, Default, Hash)]
pub struct FilePath(pub String);

impl View for FilePath {
    type V = Seq<char>;

    open spec fn view(&self) -> Seq<char> {
        self.0@
    }
}

/// `join_paths` on characters.
pub fn join_chars(base: &[char], other: &[char]) -> (r: Vec<char>)
    ensures
        r@ == join_paths(base@, other@),
{
    let first = without_trailing_exec(base, '/');
    let dot_slash = ['.', '/'];
    assert(dot_slash@ =~= seq!['.', '/']);
    let rest = if other.len() > 0 && other[0] == '/' {
        slice_subrange(other, 1, other.len())
    } else if starts_with_exec(other, dot_slash.as_slice()) {
        slice_subrange(other, 2, other.len())
    } else {
        other
    };
    if first.len() == 0 {
        return to_vec(rest);
    }
    let mut out = to_vec(first);
    out.push('/');
    append_chars(&mut out, rest);
    out
}

impl FilePath {
    /// The path that `s` writes.
    pub fn new(s: &str) -> (r: FilePath)
        ensures
            r@ == s@,
    {
        FilePath(s.to_owned())
    }

    pub fn as_str(&self) -> (r: &str)
        ensures
            r@ == self@,
    {
        self.0.as_str()
    }

    /// Whether the path has a final component that names a file or directory.
    pub fn has_file_name(&self) -> (r: bool)
        ensures
            r == file_name_of(self@) is Some,
    {
        let chars = chars_of(self.0.as_str());
        name_bounds_exec(chars.as_slice()).is_some()
    }

    /// The final component of the path.
    pub fn file_name(&self) -> (r: &str)
        requires
            file_name_of(self@) is Some,
        ensures
            Some(r@) == file_name_of(self@),
    {
        let chars = chars_of(self.0.as_str());
        match name_bounds_exec(chars.as_slice()) {
            Some((b, e)) => self.0.as_str().substring_char(b, e),
            None => "",
        }
    }

    /// The final component of the path without its extension.
    pub fn file_stem(&self) -> (r: &str)
        requires
            file_name_of(self@) is Some,
        ensures
            Some(r@) == file_stem_of(self@),
    {
        let chars = chars_of(self.0.as_str());
        match name_bounds_exec(chars.as_slice()) {
            Some((b, e)) => {
                let name = slice_subrange(chars.as_slice(), b, e);
                match dot_of_exec(name) {
                    Some(k) => {
                        assert(self@.subrange(b as int, b + k) =~= name@.subrange(0, k as int));
                        self.0.as_str().substring_char(b, b + k)
                    },
                    None => self.0.as_str().substring_char(b, e),
                }
            },
            None => "",
        }
    }

    /// The extension of the final component, if it has one.
    pub fn extension(&self) -> (r: Option<&str>)
        ensures
            match r {
                Some(x) => extension_of(self@) == Some(x@),
                None => extension_of(self@) is None,
            },
    {
        let chars = chars_of(self.0.as_str());
        match name_bounds_exec(chars.as_slice()) {
            Some((b, e)) => {
                let name = slice_subrange(chars.as_slice(), b, e);
                match dot_of_exec(name) {
                    Some(k) => {
                        assert(self@.subrange(b + k + 1, e as int) =~= name@.subrange(
                            k + 1,
                            name@.len() as int,
                        ));
                        Some(self.0.as_str().substring_char(b + k + 1, e))
                    },
                    None => None,
                }
            },
            None => None,
        }
    }

    /// What stands before the last slash, if the path has a slash.
    pub fn parent(&self) -> (r: Option<&str>)
        ensures
            match r {
                Some(x) => parent_of(self@) == Some(x@),
                None => parent_of(self@) is None,
            },
    {
        let chars = chars_of(self.0.as_str());
        match rfind_before_exec(chars.as_slice(), chars.len(), '/') {
            Some(k) => Some(self.0.as_str().substring_char(0, k)),
            None => None,
        }
    }

    /// This path with `other` under it.
    pub fn join(&self, other: &str) -> (r: FilePath)
        ensures
            r@ == join_paths(self@, other@),
    {
        let base = chars_of(self.0.as_str());
        let rest = chars_of(other);
        let joined = join_chars(base.as_slice(), rest.as_slice());
        FilePath(string_of(joined.as_slice()))
    }
}

} // verus!
