use vstd::prelude::*;
use crate::paths::{
    absolute_of, clean_path, cleaned, is_absolute, is_absolute_path, is_ancestor, is_within,
    make_absolute,
};

verus! {

/// Why a filesystem request was refused.
#[derive(Debug, PartialEq, Eq)]
pub enum FsError {
    /// The allow-list given at construction is unusable.
    Config(String),
    /// The path resolves outside every allowed directory.
    AccessDenied(String),
    /// The destination of a move already exists.
    AlreadyExists(String),
}

/// The text of each allowed directory.
pub open spec fn roots_view(v: Seq<String>) -> Seq<Seq<char>> {
    v.map_values(|s: String| s@)
}

/// No text appears twice in `v`.
pub open spec fn texts_unique(v: Seq<Seq<char>>) -> bool {
    forall|i: int, j: int| 0 <= i < v.len() && 0 <= j < v.len() && v[i] == v[j] ==> i == j
}

/// `t` is the cleaned form of one of `dirs`.
pub open spec fn cleaned_from(dirs: Seq<String>, t: Seq<char>) -> bool {
    exists|i: int| 0 <= i < dirs.len() && t == cleaned(#[trigger] dirs[i]@)
}

/// Whether `v` holds a string equal to `s`.
fn contains_text(v: &Vec<String>, s: &String) -> (r: bool)
    ensures
        r == roots_view(v@).contains(s@),
{
    let mut i: usize = 0;
    while i < v.len()
        invariant
            i <= v@.len(),
            forall|j: int| 0 <= j < i ==> #[trigger] v@[j]@ != s@,
        decreases v@.len() - i,
    {
        if v[i] == *s {
            assert(roots_view(v@)[i as int] == s@);
            return true;
        }
        i = i + 1;
    }
    proof {
        if roots_view(v@).contains(s@) {
            let k = choose|k: int| 0 <= k < roots_view(v@).len() && roots_view(v@)[k] == s@;
            assert(v@[k]@ == s@);
        }
    }
    false
}

/// `p` lies under one of `roots`, compared component by component.
pub open spec fn allowed_in(roots: Seq<Seq<char>>, p: Seq<char>) -> bool {
    exists|i: int| 0 <= i < roots.len() && is_ancestor(#[trigger] roots[i], p)
}

/// The normalised absolute form under which a requested path is checked.
pub open spec fn resolved(p: Seq<char>, cwd: Seq<char>) -> Seq<char> {
    cleaned(absolute_of(p, cwd))
}

/// The path sandbox: an immutable, non-empty allow-list of directories.
pub struct FileSystemManager {
    allowed_directories: Vec<String>,
}

impl FileSystemManager {
    /// The allowed directories, in the order given.
    pub closed spec fn roots(&self) -> Seq<Seq<char>> {
        roots_view(self.allowed_directories@)
    }

    /// The allow-list is a non-empty set: no directory appears twice.
    pub open spec fn wf(&self) -> bool {
        self.roots().len() > 0 && texts_unique(self.roots())
    }

    /// Builds the sandbox from directories that the caller has already
    /// resolved on disk.  Each must be absolute; the list must not be empty.
    /// Directories that clean to the same path are kept once, at their
    /// first place.
    pub fn new(allowed_dirs: Vec<String>) -> (r: Result<Self, FsError>)
        ensures
            r is Ok <==> (allowed_dirs@.len() > 0 && forall|i: int|
                0 <= i < allowed_dirs@.len() ==> is_absolute_path(#[trigger] allowed_dirs@[i]@)),
            r matches Ok(m) ==> m.wf(),
            r matches Ok(m) ==> forall|i: int|
                0 <= i < allowed_dirs@.len() ==> m.roots().contains(cleaned(#[trigger] allowed_dirs@[i]@)),
            r matches Ok(m) ==> forall|j: int|
                0 <= j < m.roots().len() ==> cleaned_from(allowed_dirs@, #[trigger] m.roots()[j]),
            r matches Err(e) ==> e is Config,
    {
        if allowed_dirs.len() == 0 {
            return Err(FsError::Config("no allowed directories".to_string()));
        }
        let mut normalized: Vec<String> = Vec::new();
        let mut i: usize = 0;
        while i < allowed_dirs.len()
            invariant
                i <= allowed_dirs@.len(),
                texts_unique(roots_view(normalized@)),
                i > 0 ==> normalized@.len() > 0,
                forall|j: int| 0 <= j < i ==> is_absolute_path(#[trigger] allowed_dirs@[j]@),
                forall|j: int| 0 <= j < i ==> roots_view(normalized@).contains(cleaned(#[trigger] allowed_dirs@[j]@)),
                forall|k: int|
                    0 <= k < normalized@.len() ==> cleaned_from(allowed_dirs@.subrange(0, i as int), #[trigger] roots_view(normalized@)[k]),
            decreases allowed_dirs@.len() - i,
        {
            let dir = &allowed_dirs[i];
            if !is_absolute(dir.as_str()) {
                return Err(FsError::Config(dir.clone()));
            }
            let c = clean_path(dir.as_str());
            let ghost before = roots_view(normalized@);
            if !contains_text(&normalized, &c) {
                normalized.push(c);
                proof {
                    let after = roots_view(normalized@);
                    assert(after =~= before.push(cleaned(allowed_dirs@[i as int]@)));
                    assert(after[before.len() as int] == cleaned(allowed_dirs@[i as int]@));
                    assert forall|j: int| 0 <= j < i + 1 implies after.contains(cleaned(#[trigger] allowed_dirs@[j]@)) by {
                        if j < i {
                            let k = choose|k: int| 0 <= k < before.len() && before[k] == cleaned(allowed_dirs@[j]@);
                            assert(after[k] == before[k]);
                        }
                    }
                    assert forall|k: int| 0 <= k < normalized@.len() implies cleaned_from(
                        allowed_dirs@.subrange(0, i + 1),
                        #[trigger] roots_view(normalized@)[k],
                    ) by {
                        let pre = allowed_dirs@.subrange(0, i as int);
                        let post = allowed_dirs@.subrange(0, i + 1);
                        if k < before.len() {
                            assert(after[k] == before[k]);
                            assert(cleaned_from(pre, before[k]));
                            let j = choose|j: int| 0 <= j < pre.len() && before[k] == cleaned(pre[j]@);
                            assert(post[j] == pre[j]);
                        } else {
                            assert(post[i as int] == allowed_dirs@[i as int]);
                        }
                    }
                }
            }
            i = i + 1;
        }
        let m = FileSystemManager { allowed_directories: normalized };
        proof {
            assert(m.roots() == roots_view(normalized@));
            assert(allowed_dirs@.subrange(0, i as int) =~= allowed_dirs@);
        }
        Ok(m)
    }

    /// Whether the normalised path `p` lies inside the sandbox.
    pub fn is_allowed(&self, p: &str) -> (r: bool)
        ensures
            r == allowed_in(self.roots(), p@),
    {
        let mut i: usize = 0;
        while i < self.allowed_directories.len()
            invariant
                i <= self.allowed_directories@.len(),
                forall|j: int| 0 <= j < i ==> !is_ancestor(#[trigger] self.roots()[j], p@),
            decreases self.allowed_directories@.len() - i,
        {
            if is_within(self.allowed_directories[i].as_str(), p) {
                assert(is_ancestor(self.roots()[i as int], p@));
                return true;
            }
            i = i + 1;
        }
        false
    }

    /// Resolves `path` against `cwd`, normalises it, and admits it only when
    /// some allowed directory is a component-wise ancestor of the result.
    /// The admitted, normalised path is returned.
    pub fn validate_path(&self, path: &str, cwd: &str) -> (r: Result<String, FsError>)
        ensures
            r is Ok <==> allowed_in(self.roots(), resolved(path@, cwd@)),
            r matches Ok(v) ==> v@ == resolved(path@, cwd@),
            r matches Err(e) ==> e is AccessDenied,
    {
        let absolute = make_absolute(path, cwd);
        let normalized = clean_path(absolute.as_str());
        if self.is_allowed(normalized.as_str()) {
            Ok(normalized)
        } else {
            Err(FsError::AccessDenied(normalized))
        }
    }

    /// Validates every path of a batch on its own, keeping the request order:
    /// one denied path leaves the others untouched.
    pub fn validate_batch(&self, paths: &Vec<String>, cwd: &str) -> (r: Vec<Result<String, FsError>>)
        ensures
            r@.len() == paths@.len(),
            forall|i: int|
                0 <= i < paths@.len() ==> {
                    &&& (#[trigger] r@[i] is Ok <==> allowed_in(self.roots(), resolved(paths@[i]@, cwd@)))
                    &&& r@[i] matches Ok(v) ==> v@ == resolved(paths@[i]@, cwd@)
                    &&& r@[i] matches Err(e) ==> e is AccessDenied
                },
    {
        let mut out: Vec<Result<String, FsError>> = Vec::new();
        let mut i: usize = 0;
        while i < paths.len()
            invariant
                i <= paths@.len(),
                out@.len() == i,
                forall|j: int|
                    0 <= j < i ==> {
                        &&& (#[trigger] out@[j] is Ok <==> allowed_in(self.roots(), resolved(paths@[j]@, cwd@)))
                        &&& out@[j] matches Ok(v) ==> v@ == resolved(paths@[j]@, cwd@)
                        &&& out@[j] matches Err(e) ==> e is AccessDenied
                    },
            decreases paths@.len() - i,
        {
            let v = self.validate_path(paths[i].as_str(), cwd);
            out.push(v);
            i = i + 1;
        }
        out
    }

    /// Decides a move: both ends are validated on their own, and a
    /// destination that already exists refuses the whole move, so that
    /// nothing is renamed.
    pub fn plan_move(&self, source: &str, destination: &str, cwd: &str, destination_exists: bool) -> (r: Result<(String, String), FsError>)
        ensures
            r is Ok <==> (allowed_in(self.roots(), resolved(source@, cwd@)) && allowed_in(
                self.roots(),
                resolved(destination@, cwd@),
            ) && !destination_exists),
            r matches Ok((s, d)) ==> s@ == resolved(source@, cwd@) && d@ == resolved(destination@, cwd@),
            !allowed_in(self.roots(), resolved(source@, cwd@)) || !allowed_in(
                self.roots(),
                resolved(destination@, cwd@),
            ) ==> (r matches Err(e) && e is AccessDenied),
            destination_exists && allowed_in(self.roots(), resolved(source@, cwd@)) && allowed_in(
                self.roots(),
                resolved(destination@, cwd@),
            ) ==> (r matches Err(e) && e is AlreadyExists),
    {
        let s = match self.validate_path(source, cwd) {
            Ok(s) => s,
            Err(e) => return Err(e),
        };
        let d = match self.validate_path(destination, cwd) {
            Ok(d) => d,
            Err(e) => return Err(e),
        };
        if destination_exists {
            return Err(FsError::AlreadyExists(d));
        }
        Ok((s, d))
    }

    /// The allowed directories, in the order given at construction.
    pub fn list_allowed_directories(&self) -> (r: Vec<String>)
        ensures
            roots_view(r@) == self.roots(),
    {
        let mut out: Vec<String> = Vec::new();
        let mut i: usize = 0;
        while i < self.allowed_directories.len()
            invariant
                i <= self.allowed_directories@.len(),
                out@.len() == i,
                forall|j: int| 0 <= j < i ==> #[trigger] out@[j]@ == self.allowed_directories@[j]@,
            decreases self.allowed_directories@.len() - i,
        {
            out.push(self.allowed_directories[i].clone());
            i = i + 1;
        }
        assert(roots_view(out@) =~= self.roots());
        out
    }
}

/// The octal digit of `d`, for `d < 8`.
pub open spec fn octal_digit(d: int) -> char {
    "01234567"@[d]
}

/// The permission bits of `mode` (`mode & 0o777`) in octal, without
/// leading zeros.
pub open spec fn permissions_of(mode: u32) -> Seq<char> {
    let m = (mode % 512) as int;
    if m >= 64 {
        seq![octal_digit(m / 64), octal_digit((m / 8) % 8), octal_digit(m % 8)]
    } else if m >= 8 {
        seq![octal_digit(m / 8), octal_digit(m % 8)]
    } else {
        seq![octal_digit(m)]
    }
}

fn octal_digit_text(d: u32) -> (r: &'static str)
    requires
        d < 8,
    ensures
        r@ == seq![octal_digit(d as int)],
{
    let digits = "01234567";
    proof {
        reveal_strlit("01234567");
    }
    let r = digits.substring_char(d as usize, d as usize + 1);
    assert(r@ =~= seq![octal_digit(d as int)]);
    r
}

/// The permission text of a file mode: the nine permission bits in octal
/// without leading zeros (`0o100644` gives `"644"`, `0o44` gives `"44"`).
pub fn permissions_text(mode: u32) -> (r: String)
    ensures
        r@ == permissions_of(mode),
{
    let m = mode % 512;
    let mut s = String::new();
    if m >= 64 {
        s.append(octal_digit_text(m / 64));
    }
    if m >= 8 {
        s.append(octal_digit_text((m / 8) % 8));
    }
    s.append(octal_digit_text(m % 8));
    assert(s@ =~= permissions_of(mode));
    s
}

impl FsError {
    /// The text reported to the peer for this error.
    pub fn message(&self) -> (r: String)
        ensures
            r@ == match self {
                FsError::Config(p) => "Invalid allowed directory: "@ + p@,
                FsError::AccessDenied(p) => "Access denied - path outside allowed directories: "@ + p@,
                FsError::AlreadyExists(p) => "Destination already exists: "@ + p@,
            },
    {
        let (mut s, p) = match self {
            FsError::Config(p) => ("Invalid allowed directory: ".to_string(), p),
            FsError::AccessDenied(p) => ("Access denied - path outside allowed directories: ".to_string(), p),
            FsError::AlreadyExists(p) => ("Destination already exists: ".to_string(), p),
        };
        s.append(p.as_str());
        s
    }
}

} // verus!
