//! Slash-separated path reasoning: confinement inside a root and joining.
//!
//! Paths are plain strings of `/`-separated components, as the catalogs
//! store them. A path lies within a root when the root is a component-wise
//! prefix: the strings are equal, or the root is followed by a separator.

use vstd::prelude::*;
use vstd::string::StrSliceExecFns;
use vstd::string::StringExecFns;

verus! {

/// `path` lies within `root`: `root` is a component-wise prefix of `path`.
pub open spec fn spec_path_in_root(path: Seq<char>, root: Seq<char>) -> bool {
    &&& root.len() <= path.len()
    &&& path.subrange(0, root.len() as int) == root
    &&& (path.len() == root.len() || path[root.len() as int] == '/')
}

/// Decides confinement of `path` inside `root`, component-wise.
pub fn path_in_root(path: &str, root: &str) -> (r: bool)
    ensures
        r == spec_path_in_root(path@, root@),
{
    let plen = path.unicode_len();
    let rlen = root.unicode_len();
    if plen < rlen {
        return false;
    }
    let mut i: usize = 0;
    while i < rlen
        invariant
            i <= rlen,
            rlen == root@.len(),
            plen == path@.len(),
            rlen <= plen,
            forall|j: int| 0 <= j < i ==> path@[j] == root@[j],
        decreases rlen - i,
    {
        if path.get_char(i) != root.get_char(i) {
            assert(path@.subrange(0, rlen as int)[i as int] == path@[i as int]);
            return false;
        }
        i += 1;
    }
    assert(path@.subrange(0, rlen as int) =~= root@);
    if plen == rlen {
        true
    } else {
        path.get_char(rlen) == '/'
    }
}

/// Decides equality of two strings, character by character.
pub fn str_eq(a: &str, b: &str) -> (r: bool)
    ensures
        r == (a@ == b@),
{
    let alen = a.unicode_len();
    let blen = b.unicode_len();
    if alen != blen {
        return false;
    }
    let mut i: usize = 0;
    while i < alen
        invariant
            i <= alen,
            alen == a@.len(),
            alen == b@.len(),
            forall|j: int| 0 <= j < i ==> a@[j] == b@[j],
        decreases alen - i,
    {
        if a.get_char(i) != b.get_char(i) {
            return false;
        }
        i += 1;
    }
    proof {
        assert(a@ =~= b@);
    }
    true
}

/// Joins a directory and a child name with a single separator.
pub fn join_path(base: &str, name: &str) -> (r: String)
    ensures
        r@ == base@ + "/"@ + name@,
{
    let mut s = String::new();
    s.append(base);
    s.append("/");
    s.append(name);
    proof {
        assert(s@ =~= base@ + "/"@ + name@);
    }
    s
}

/// A joined path always lies within the directory it was joined under.
pub proof fn lemma_join_stays_in_root(base: Seq<char>, name: Seq<char>)
    ensures
        spec_path_in_root(base + "/"@ + name, base),
{
    let joined = base + "/"@ + name;
    assert(joined.subrange(0, base.len() as int) =~= base);
    reveal_strlit("/");
    assert(joined[base.len() as int] == '/');
}

} // verus!
