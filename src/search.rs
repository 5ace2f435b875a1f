use vstd::prelude::*;
use crate::filesystem::{allowed_in, resolved, FileSystemManager, FsError};
use crate::paths::{is_ancestor, is_within};

verus! {

/// What `str::to_lowercase` makes of a string.
pub uninterp spec fn lower_of(s: Seq<char>) -> Seq<char>;

/// Relies on `str::to_lowercase`: Unicode lower-casing, a function of the
/// characters alone.
#[verifier::external_body]
fn lowercase(s: &str) -> (r: String)
    ensures
        r@ == lower_of(s@),
{
    s.to_lowercase()
}

/// `pat` occurs in `text` as a contiguous run of characters.
pub open spec fn contains_seq(text: Seq<char>, pat: Seq<char>) -> bool {
    exists|i: int|
        0 <= i && i + pat.len() <= text.len() && #[trigger] text.subrange(i, i + pat.len()) == pat
}

/// The last component of a path: what follows its last `/`.
pub open spec fn base_name_of(p: Seq<char>) -> Seq<char>
    decreases p.len(),
{
    if p.len() == 0 {
        p
    } else if p.last() == '/' {
        Seq::empty()
    } else {
        base_name_of(p.drop_last()).push(p.last())
    }
}

/// `p` lies strictly below the directory `d`, component-wise.
pub open spec fn strictly_below(d: Seq<char>, p: Seq<char>) -> bool {
    is_ancestor(d, p) && p.len() > d.len()
}

/// Whether `p` lies strictly below the directory `d`.
pub fn below(d: &str, p: &str) -> (r: bool)
    ensures
        r == strictly_below(d@, p@),
{
    is_within(d, p) && p.unicode_len() > d.unicode_len()
}

/// Whether `pat` occurs in `text`; callers pass both already case-folded.
pub fn contains_folded(text: &str, pat: &str) -> (r: bool)
    ensures
        r == contains_seq(text@, pat@),
{
    let tn = text.unicode_len();
    let pn = pat.unicode_len();
    if pn > tn {
        proof {
            assert forall|i: int| 0 <= i && i + pat@.len() <= text@.len() implies #[trigger] text@.subrange(i, i + pat@.len()) != pat@ by {}
        }
        return false;
    }
    let mut i: usize = 0;
    while i <= tn - pn
        invariant
            tn == text@.len(),
            pn == pat@.len(),
            pn <= tn,
            i <= tn - pn + 1,
            forall|k: int| 0 <= k < i ==> #[trigger] text@.subrange(k, k + pn) != pat@,
        decreases tn + 1 - i,
    {
        let mut j: usize = 0;
        let mut same = true;
        while j < pn
            invariant
                tn == text@.len(),
                pn == pat@.len(),
                i + pn <= tn,
                j <= pn,
                same == forall|m: int| 0 <= m < j ==> text@[i + m] == pat@[m],
            decreases pn - j,
        {
            if text.get_char(i + j) != pat.get_char(j) {
                same = false;
            }
            j = j + 1;
        }
        if same {
            assert(text@.subrange(i as int, i + pn) =~= pat@);
            return true;
        }
        proof {
            let m = choose|m: int| 0 <= m < pn && text@[i + m] != pat@[m];
            assert(text@.subrange(i as int, i + pn)[m] != pat@[m]);
        }
        i = i + 1;
    }
    proof {
        assert forall|k: int| 0 <= k && k + pat@.len() <= text@.len() implies #[trigger] text@.subrange(k, k + pat@.len()) != pat@ by {
            assert(k < i);
        }
    }
    false
}

/// Case-insensitive substring test of `pattern` in `name`.
pub fn name_matches(name: &str, pattern: &str) -> (r: bool)
    ensures
        r == contains_seq(lower_of(name@), lower_of(pattern@)),
{
    let n = lowercase(name);
    let p = lowercase(pattern);
    contains_folded(n.as_str(), p.as_str())
}

/// The last component of `p`.
pub fn base_name(p: &str) -> (r: String)
    ensures
        r@ == base_name_of(p@),
{
    let n = p.unicode_len();
    let mut k: usize = n;
    proof {
        assert(p@.subrange(0, n as int) =~= p@);
        assert(base_name_of(p@) =~= base_name_of(p@) + p@.subrange(n as int, n as int));
    }
    while k > 0 && p.get_char(k - 1) != '/'
        invariant
            n == p@.len(),
            k <= n,
            base_name_of(p@) == base_name_of(p@.subrange(0, k as int)) + p@.subrange(k as int, n as int),
        decreases k,
    {
        proof {
            let q = p@.subrange(0, k as int);
            assert(q.drop_last() =~= p@.subrange(0, k - 1));
            assert(p@.subrange(k - 1, n as int) =~= seq![q.last()] + p@.subrange(k as int, n as int));
            assert(base_name_of(q) == base_name_of(q.drop_last()).push(q.last()));
            assert(base_name_of(q.drop_last()).push(q.last()) + p@.subrange(k as int, n as int)
                =~= base_name_of(q.drop_last()) + p@.subrange(k - 1, n as int));
        }
        k = k - 1;
    }
    proof {
        let q = p@.subrange(0, k as int);
        assert(base_name_of(q) =~= Seq::<char>::empty());
        assert(base_name_of(p@) =~= p@.subrange(k as int, n as int));
    }
    p.substring_char(k, n).to_string()
}

/// An iterative walk below a validated directory.  Directories waiting to
/// be listed sit on an explicit work list; every entry is validated again
/// before it is reported or descended into.
pub struct SearchWalk {
    root: String,
    pending: Vec<String>,
    results: Vec<String>,
    pattern: String,
}

impl SearchWalk {
    pub closed spec fn pending_view(&self) -> Seq<Seq<char>> {
        self.pending@.map_values(|s: String| s@)
    }

    pub closed spec fn results_view(&self) -> Seq<Seq<char>> {
        self.results@.map_values(|s: String| s@)
    }

    pub closed spec fn pattern_view(&self) -> Seq<char> {
        self.pattern@
    }

    /// The validated directory the search started from.
    pub closed spec fn root_view(&self) -> Seq<char> {
        self.root@
    }

    /// Everything queued lies inside the sandbox of `m` and at or below the
    /// start directory; everything reported lies inside the sandbox and
    /// strictly below the start directory.
    pub open spec fn confined(&self, m: &FileSystemManager) -> bool {
        &&& forall|i: int|
            0 <= i < self.pending_view().len() ==> allowed_in(m.roots(), #[trigger] self.pending_view()[i])
                && is_ancestor(self.root_view(), self.pending_view()[i])
        &&& forall|i: int|
            0 <= i < self.results_view().len() ==> allowed_in(m.roots(), #[trigger] self.results_view()[i])
                && strictly_below(self.root_view(), self.results_view()[i])
    }

    /// Starts a search at `root` for names holding `pattern`.
    pub fn start(m: &FileSystemManager, root: &str, pattern: &str, cwd: &str) -> (r: Result<SearchWalk, FsError>)
        ensures
            r is Ok <==> allowed_in(m.roots(), resolved(root@, cwd@)),
            r matches Err(e) ==> e is AccessDenied,
            r matches Ok(w) ==> {
                &&& w.confined(m)
                &&& w.pending_view() == seq![resolved(root@, cwd@)]
                &&& w.results_view().len() == 0
                &&& w.pattern_view() == pattern@
                &&& w.root_view() == resolved(root@, cwd@)
            },
    {
        match m.validate_path(root, cwd) {
            Ok(v) => {
                let mut pending: Vec<String> = Vec::new();
                pending.push(v.clone());
                let w = SearchWalk { root: v, pending, results: Vec::new(), pattern: pattern.to_string() };
                assert(w.root_view().subrange(0, w.root_view().len() as int) =~= w.root_view());
                assert(w.pending_view() =~= seq![resolved(root@, cwd@)]);
                Ok(w)
            },
            Err(e) => Err(e),
        }
    }

    /// The next directory to list, taken off the work list.
    pub fn next_dir(&mut self) -> (r: Option<String>)
        ensures
            forall|m: &FileSystemManager| #[trigger] old(self).confined(m) ==> final(self).confined(m),
            final(self).results_view() == old(self).results_view(),
            final(self).pattern_view() == old(self).pattern_view(),
            final(self).root_view() == old(self).root_view(),
            old(self).pending_view().len() == 0 ==> r is None && final(self).pending_view().len() == 0,
            old(self).pending_view().len() > 0 ==> {
                &&& r matches Some(d) && d@ == old(self).pending_view().last()
                &&& final(self).pending_view() == old(self).pending_view().drop_last()
            },
    {
        let r = self.pending.pop();
        proof {
            if old(self).pending_view().len() > 0 {
                assert(self.pending_view() =~= old(self).pending_view().drop_last());
            } else {
                assert(self.pending_view() =~= old(self).pending_view());
            }
            assert(self.results_view() == old(self).results_view());
            assert forall|m: &FileSystemManager| #[trigger] old(self).confined(m) implies self.confined(m) by {
                assert forall|i: int| 0 <= i < self.pending_view().len() implies allowed_in(
                    m.roots(),
                    #[trigger] self.pending_view()[i],
                ) by {
                    assert(self.pending_view()[i] == old(self).pending_view()[i]);
                }
            }
        }
        r
    }

    /// Takes in one entry of the listed directory `dir`, as resolved on
    /// disk.  An entry outside the sandbox, or not strictly below the start
    /// directory, is neither reported nor descended into.  One inside is
    /// reported when its name matches, and queued when it is a directory
    /// strictly below `dir`, so that a link back up the tree is not walked
    /// again.
    pub fn on_entry(&mut self, m: &FileSystemManager, dir: &str, entry: &str, cwd: &str, is_dir: bool)
        requires
            old(self).confined(m),
        ensures
            final(self).confined(m),
            final(self).pattern_view() == old(self).pattern_view(),
            final(self).root_view() == old(self).root_view(),
            ({
                let v = resolved(entry@, cwd@);
                let ok = allowed_in(m.roots(), v) && strictly_below(old(self).root_view(), v);
                let hit = ok && contains_seq(lower_of(base_name_of(v)), lower_of(old(self).pattern_view()));
                &&& final(self).results_view() == if hit {
                    old(self).results_view().push(v)
                } else {
                    old(self).results_view()
                }
                &&& final(self).pending_view() == if ok && is_dir && strictly_below(dir@, v) {
                    old(self).pending_view().push(v)
                } else {
                    old(self).pending_view()
                }
            }),
    {
        let ghost v = resolved(entry@, cwd@);
        let ghost ok = allowed_in(m.roots(), v) && strictly_below(self.root_view(), v);
        if let Ok(v) = m.validate_path(entry, cwd) {
            if below(self.root.as_str(), v.as_str()) {
                let name = base_name(v.as_str());
                if name_matches(name.as_str(), self.pattern.as_str()) {
                    self.results.push(v.clone());
                }
                if is_dir && below(dir, v.as_str()) {
                    self.pending.push(v);
                }
            }
        }
        assert(self.results_view() =~= (if ok && contains_seq(lower_of(base_name_of(v)), lower_of(old(self).pattern_view())) {
            old(self).results_view().push(v)
        } else {
            old(self).results_view()
        }));
        assert(self.pending_view() =~= (if ok && is_dir && strictly_below(dir@, v) {
            old(self).pending_view().push(v)
        } else {
            old(self).pending_view()
        }));
    }

    /// The matches found so far, in the order they were met.
    pub fn into_results(self) -> (r: Vec<String>)
        ensures
            r@.map_values(|s: String| s@) == self.results_view(),
    {
        self.results
    }
}

/// A search reports nothing outside the sandbox and nothing outside its
/// start directory: every result of a walk kept confined names an allowed
/// path strictly below where the search started.
pub proof fn lemma_results_confined(w: SearchWalk, m: &FileSystemManager, r: Seq<String>)
    requires
        w.confined(m),
        r.map_values(|s: String| s@) == w.results_view(),
    ensures
        forall|i: int|
            0 <= i < r.len() ==> allowed_in(m.roots(), #[trigger] r[i]@) && strictly_below(w.root_view(), r[i]@),
{
    assert forall|i: int| 0 <= i < r.len() implies allowed_in(m.roots(), #[trigger] r[i]@) && strictly_below(
        w.root_view(),
        r[i]@,
    ) by {
        assert(w.results_view()[i] == r.map_values(|s: String| s@)[i]);
    }
}

} // verus!
