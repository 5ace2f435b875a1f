use vstd::prelude::*;

verus! {

/// What `path_clean::clean` makes of a path string, rendered back to text.
pub uninterp spec fn cleaned(p: Seq<char>) -> Seq<char>;

/// `root` is a component-wise ancestor of `p` (or `p` itself): `p` starts
/// with `root` and the match ends on a component boundary.  A plain
/// character prefix such as `/data` of `/data-other` does not count.
pub open spec fn is_ancestor(root: Seq<char>, p: Seq<char>) -> bool {
    &&& root.len() <= p.len()
    &&& p.subrange(0, root.len() as int) == root
    &&& (p.len() == root.len() || p[root.len() as int] == '/' || (root.len() > 0
        && root[root.len() - 1] == '/'))
}

/// A path is absolute when it starts at the root directory.
pub open spec fn is_absolute_path(p: Seq<char>) -> bool {
    p.len() > 0 && p[0] == '/'
}

/// The absolute form of `p`, resolving a relative path against `cwd`.
pub open spec fn absolute_of(p: Seq<char>, cwd: Seq<char>) -> Seq<char> {
    if is_absolute_path(p) {
        p
    } else {
        cwd + seq!['/'] + p
    }
}

/// A path that only extends the last component of a root with more
/// characters (`/data-other` against `/data`) is not inside that root,
/// although the root is a character prefix of it.
pub proof fn lemma_shared_prefix_not_within(root: Seq<char>, rest: Seq<char>)
    requires
        root.len() > 0,
        root.last() != '/',
        rest.len() > 0,
        rest[0] != '/',
    ensures
        (root + rest).subrange(0, root.len() as int) == root,
        !is_ancestor(root, root + rest),
{
    let p = root + rest;
    assert(p.subrange(0, root.len() as int) =~= root);
    assert(p[root.len() as int] == rest[0]);
}

/// Relies on `path_clean::clean`: lexical normalisation of a path (repeated
/// separators, `.` and `..` removed), a function of the text alone.
#[verifier::external_body]
pub(crate) fn clean_path(p: &str) -> (r: String)
    ensures
        r@ == cleaned(p@),
{
    path_clean::clean(p).to_string_lossy().into_owned()
}

/// Whether `p` starts at the root directory.
pub fn is_absolute(p: &str) -> (r: bool)
    ensures
        r == is_absolute_path(p@),
{
    let n = p.unicode_len();
    n > 0 && p.get_char(0) == '/'
}

/// Resolves `p` against the working directory `cwd` unless it is absolute.
pub fn make_absolute(p: &str, cwd: &str) -> (r: String)
    ensures
        r@ == absolute_of(p@, cwd@),
{
    if is_absolute(p) {
        p.to_string()
    } else {
        let mut s = cwd.to_string();
        s.append("/");
        s.append(p);
        proof {
            reveal_strlit("/");
            assert(s@ =~= cwd@ + seq!['/'] + p@);
        }
        s
    }
}

/// Component-wise containment of `p` in `root`.
pub fn is_within(root: &str, p: &str) -> (r: bool)
    ensures
        r == is_ancestor(root@, p@),
{
    let rn = root.unicode_len();
    let pn = p.unicode_len();
    if rn > pn {
        return false;
    }
    let mut i: usize = 0;
    while i < rn
        invariant
            rn == root@.len(),
            pn == p@.len(),
            rn <= pn,
            i <= rn,
            forall|j: int| 0 <= j < i ==> p@[j] == root@[j],
        decreases rn - i,
    {
        if root.get_char(i) != p.get_char(i) {
            proof {
                assert(p@.subrange(0, rn as int)[i as int] != root@[i as int]);
            }
            return false;
        }
        i = i + 1;
    }
    proof {
        assert(p@.subrange(0, rn as int) =~= root@);
    }
    rn == pn || p.get_char(rn) == '/' || (rn > 0 && root.get_char(rn - 1) == '/')
}

/// Splits `p` at its last `/` into the directory part and the leaf name;
/// a path with no `/` has no directory part.
pub fn split_leaf(p: &str) -> (r: Option<(String, String)>)
    ensures
        r is None <==> !p@.contains('/'),
        r matches Some((dir, leaf)) ==> dir@ + seq!['/'] + leaf@ == p@ && !leaf@.contains('/'),
{
    let n = p.unicode_len();
    let mut k: usize = n;
    while k > 0 && p.get_char(k - 1) != '/'
        invariant
            n == p@.len(),
            k <= n,
            forall|j: int| k <= j < n ==> p@[j] != '/',
        decreases k,
    {
        k = k - 1;
    }
    if k == 0 {
        proof {
            assert forall|j: int| 0 <= j < p@.len() implies p@[j] != '/' by {}
        }
        return None;
    }
    let dir = p.substring_char(0, k - 1).to_string();
    let leaf = p.substring_char(k, n).to_string();
    proof {
        assert(p@.contains('/')) by {
            assert(p@[k - 1] == '/');
        }
        assert(dir@ + seq!['/'] + leaf@ =~= p@);
        assert forall|j: int| 0 <= j < leaf@.len() implies leaf@[j] != '/' by {
            assert(leaf@[j] == p@[k + j]);
        }
    }
    Some((dir, leaf))
}

} // verus!
