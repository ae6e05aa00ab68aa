use vstd::prelude::*;
use vstd::string::StringExecFns;

use crate::text::{chars_of, split};

verus! {

/// The character that separates the components of a path.
pub const SEPARATOR: char = '/';

/// The text of [`SEPARATOR`].
pub const SEPARATOR_STR: &'static str = "/";

/// The components of `s`: what stands between its separators.
pub open spec fn components(s: Seq<char>) -> Seq<Seq<char>> {
    split(s, SEPARATOR)
}

/// A normal component names an entry: it is not empty, and it is neither the
/// current (`.`) nor the parent (`..`) directory.
pub open spec fn is_normal(c: Seq<char>) -> bool {
    &&& c.len() > 0
    &&& !(c =~= seq!['.'])
    &&& !(c =~= seq!['.', '.'])
}

/// Whether every one of `parts` is normal.
pub open spec fn all_normal(parts: Seq<Seq<char>>) -> bool {
    forall|i: int| 0 <= i < parts.len() ==> is_normal(#[trigger] parts[i])
}

/// Whether `s` starts at the root.
pub open spec fn is_absolute(s: Seq<char>) -> bool {
    s.len() > 0 && s[0] == SEPARATOR
}

/// `rel` adjoined to `root`: an absolute `rel` replaces `root`; otherwise it
/// follows `root`, after a separator unless `root` is empty or ends with one.
pub open spec fn join(root: Seq<char>, rel: Seq<char>) -> Seq<char> {
    if is_absolute(rel) {
        rel
    } else if root.len() == 0 || root.last() == SEPARATOR {
        root + rel
    } else {
        root + seq![SEPARATOR] + rel
    }
}

/// Whether the characters of `v` from `from` up to `to` make a normal
/// component.
pub(crate) fn normal(v: &Vec<char>, from: usize, to: usize) -> (r: bool)
    requires
        from <= to <= v.len(),
    ensures
        r == is_normal(v@.subrange(from as int, to as int)),
{
    let ghost c = v@.subrange(from as int, to as int);
    let len: usize = to - from;
    if len == 0 {
        false
    } else if len == 1 {
        assert(c[0] == v@[from as int]);
        v[from] != '.'
    } else if len == 2 {
        !(v[from] == '.' && v[from + 1] == '.')
    } else {
        true
    }
}

/// Adjoins `rel` to `root`.
pub fn adjoin(root: &str, rel: &str) -> (r: String)
    ensures
        r@ == join(root@, rel@),
{
    let tail = chars_of(rel);
    if tail.len() > 0 && tail[0] == SEPARATOR {
        return String::from_str(rel);
    }
    let head = chars_of(root);
    let mut out = String::from_str(root);
    if head.len() > 0 && head[head.len() - 1] != SEPARATOR {
        proof {
            reveal_strlit("/");
        }
        out.append(SEPARATOR_STR);
    }
    out.append(rel);
    out
}

} // verus!
