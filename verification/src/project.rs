//! Resolving a filesystem path to a project identifier: the name of the
//! nearest ancestor directory that holds the version-control marker.
//!
//! Paths are modelled as `'/'`-separated strings. The walk itself is pure
//! and fully specified; only the three probes that ask the filesystem a
//! question (does this path exist, is it a file, is it a directory) are
//! trusted, and nothing is assumed of their answers.

use vstd::prelude::*;
use vstd::string::*;

use crate::error::{Error, ErrorKind};
use crate::text::{last_index_of, lemma_last_index_of, rfind_char, str_eq};

verus! {

/// The last component of a path: what follows the last `'/'`, or the whole
/// path when it has none.
pub open spec fn base_name_spec(s: Seq<char>) -> Seq<char> {
    match last_index_of(s, '/') {
        Some(i) => s.subrange(i + 1, s.len() as int),
        None => s,
    }
}

/// The parent directory: the part before the last `'/'`; the root `"/"`
/// and a single-component path have none.
pub open spec fn parent_spec(s: Seq<char>) -> Option<Seq<char>> {
    match last_index_of(s, '/') {
        Some(i) => if s.len() == 1 {
            None
        } else if i == 0 {
            Some(seq!['/'])
        } else {
            Some(s.subrange(0, i))
        },
        None => None,
    }
}

/// A parent is strictly shorter than its child.
pub proof fn lemma_parent_shorter(s: Seq<char>)
    ensures
        match parent_spec(s) {
            Some(p) => p.len() < s.len(),
            None => true,
        },
{
    lemma_last_index_of(s, '/');
}

/// Whether `d` is `s` itself or one of its ancestors.
pub open spec fn in_ancestor_chain(d: Seq<char>, s: Seq<char>) -> bool
    decreases s.len(),
    via in_ancestor_chain_decreases
{
    d == s || (match parent_spec(s) {
        Some(p) => in_ancestor_chain(d, p),
        None => false,
    })
}

#[via_fn]
proof fn in_ancestor_chain_decreases(d: Seq<char>, s: Seq<char>) {
    lemma_parent_shorter(s);
}

/// The ancestor chain passes through parents: an ancestor's parent is
/// still an ancestor.
pub proof fn lemma_chain_parent(d: Seq<char>, s: Seq<char>, p: Seq<char>)
    requires
        in_ancestor_chain(d, s),
        parent_spec(d) == Some(p),
    ensures
        in_ancestor_chain(p, s),
    decreases s.len(),
{
    lemma_parent_shorter(s);
    if d == s {
        assert(in_ancestor_chain(p, p));
    } else {
        match parent_spec(s) {
            Some(q) => {
                lemma_chain_parent(d, q, p);
            },
            None => {},
        }
    }
}

/// What resolution yields on a path, given the set of directories that
/// hold the marker: the base name of the nearest marked ancestor, walking
/// upward from the path itself, or nothing when no ancestor is marked.
pub open spec fn resolve_spec(s: Seq<char>, marked: Seq<Seq<char>>) -> Option<Seq<char>>
    decreases s.len(),
    via resolve_spec_decreases
{
    if marked.contains(s) {
        Some(base_name_spec(s))
    } else {
        match parent_spec(s) {
            Some(p) => resolve_spec(p, marked),
            None => None,
        }
    }
}

#[via_fn]
proof fn resolve_spec_decreases(s: Seq<char>, marked: Seq<Seq<char>>) {
    lemma_parent_shorter(s);
}

/// Law: resolution yields nothing exactly when no directory of the
/// ancestor chain is marked.
pub proof fn lemma_resolve_none(s: Seq<char>, marked: Seq<Seq<char>>)
    ensures
        (resolve_spec(s, marked) is None) <==> (forall|d: Seq<char>|
            in_ancestor_chain(d, s) ==> !marked.contains(d)),
    decreases s.len(),
{
    lemma_parent_shorter(s);
    if marked.contains(s) {
        assert(in_ancestor_chain(s, s));
    } else {
        match parent_spec(s) {
            Some(p) => {
                lemma_resolve_none(p, marked);
                if resolve_spec(s, marked) is None {
                    assert forall|d: Seq<char>| in_ancestor_chain(d, s) implies !marked.contains(
                        d,
                    ) by {
                        if d != s {
                            assert(in_ancestor_chain(d, p));
                        }
                    }
                }
            },
            None => {
                if resolve_spec(s, marked) is None {
                    assert forall|d: Seq<char>| in_ancestor_chain(d, s) implies !marked.contains(
                        d,
                    ) by {
                        if d != s {
                            assert(false);
                        }
                    }
                }
            },
        }
    }
}

/// Law: resolution yields the base name of a marked ancestor of the path.
pub proof fn lemma_resolve_some(s: Seq<char>, marked: Seq<Seq<char>>, name: Seq<char>)
    requires
        resolve_spec(s, marked) == Some(name),
    ensures
        exists|d: Seq<char>|
            in_ancestor_chain(d, s) && marked.contains(d) && name == base_name_spec(d),
    decreases s.len(),
{
    lemma_parent_shorter(s);
    if marked.contains(s) {
        assert(in_ancestor_chain(s, s));
    } else {
        match parent_spec(s) {
            Some(p) => {
                lemma_resolve_some(p, marked, name);
                let d = choose|d: Seq<char>|
                    in_ancestor_chain(d, p) && marked.contains(d) && name == base_name_spec(d);
                assert(in_ancestor_chain(d, s));
            },
            None => {},
        }
    }
}

/// The last component of a path.
pub fn base_name_str(s: &str) -> (r: String)
    ensures
        r@ == base_name_spec(s@),
{
    let n = s.unicode_len();
    match rfind_char(s, '/') {
        Some(i) => s.substring_char(i + 1, n).to_owned(),
        None => s.to_owned(),
    }
}

/// The parent directory of a path, if it has one.
pub fn parent_dir(s: &str) -> (r: Option<String>)
    ensures
        match r {
            Some(p) => parent_spec(s@) == Some(p@) && p@.len() < s@.len(),
            None => parent_spec(s@) is None,
        },
{
    let n = s.unicode_len();
    match rfind_char(s, '/') {
        Some(i) => {
            if n == 1 {
                None
            } else if i == 0 {
                let root = String::from_str("/");
                proof {
                    reveal_strlit("/");
                    assert(root@ =~= seq!['/']);
                }
                Some(root)
            } else {
                Some(s.substring_char(0, i).to_owned())
            }
        },
        None => None,
    }
}

/// Whether some entry of `v` equals `s`.
fn contains_str(v: &Vec<String>, s: &str) -> (r: bool)
    ensures
        r == v.deep_view().contains(s@),
{
    let n = v.len();
    let mut i: usize = 0;
    while i < n
        invariant
            n == v@.len(),
            0 <= i <= n,
            forall|j: int| 0 <= j < i ==> v.deep_view()[j] != s@,
        decreases n - i,
    {
        if str_eq(v[i].as_str(), s) {
            assert(v.deep_view()[i as int] == s@);
            return true;
        }
        i = i + 1;
    }
    assert(!v.deep_view().contains(s@));
    false
}

/// Resolves a project identifier from a path, given the list of
/// directories that hold the version-control marker: the base name of the
/// nearest marked ancestor, or nothing when no ancestor is marked.
pub fn resolve_repo_name(path: &str, marked: &Vec<String>) -> (r: Option<String>)
    ensures
        match r {
            Some(name) => resolve_spec(path@, marked.deep_view()) == Some(name@),
            None => resolve_spec(path@, marked.deep_view()) is None,
        },
{
    let mut cur: String = path.to_owned();
    loop
        invariant
            resolve_spec(cur@, marked.deep_view()) == resolve_spec(path@, marked.deep_view()),
        decreases cur@.len(),
    {
        if contains_str(marked, cur.as_str()) {
            return Some(base_name_str(cur.as_str()));
        }
        match parent_dir(cur.as_str()) {
            Some(p) => {
                cur = p;
            },
            None => {
                return None;
            },
        }
    }
}

/// Relies on `std::path::Path::exists`: whether anything lies at this path
/// on the filesystem right now. Nothing is assumed of the answer.
#[verifier::external_body]
fn path_exists(p: &str) -> bool {
    std::path::Path::new(p).exists()
}

/// Relies on `std::path::Path::is_file`: whether the path names an
/// existing regular file right now. Nothing is assumed of the answer.
#[verifier::external_body]
fn path_is_file(p: &str) -> bool {
    std::path::Path::new(p).is_file()
}

/// Relies on `std::path::Path::is_dir`: whether the path names an existing
/// directory right now. Nothing is assumed of the answer.
#[verifier::external_body]
fn path_is_dir(p: &str) -> bool {
    std::path::Path::new(p).is_dir()
}

/// Checks that a path holds a repository: its `.git` entry must be a
/// directory. What the filesystem answers is not modelled; an error always
/// carries the kind and message below.
pub fn ensure_repo(repo_path: &str) -> (r: Result<(), Error>)
    ensures
        match r {
            Ok(()) => true,
            Err(e) => e.kind == ErrorKind::InvalidInput && e.message@ == "not a git repository"@,
        },
{
    let mut marker = repo_path.to_owned();
    marker.append("/.git");
    if path_is_dir(marker.as_str()) {
        Ok(())
    } else {
        Err(Error::new(ErrorKind::InvalidInput, String::from_str("not a git repository")))
    }
}

/// A version-controlled project, named by a filesystem path.
#[derive(Debug)]
pub struct Project {
    pub path: String,
}

impl Project {
    /// Accepts a path that exists on the filesystem; any other is invalid
    /// input.
    pub fn new(path: String) -> (r: Result<Project, Error>)
        ensures
            match r {
                Ok(p) => p.path@ == path@,
                Err(e) => e.kind == ErrorKind::InvalidInput && e.message@ == "invalid path"@,
            },
    {
        if path_exists(path.as_str()) {
            Ok(Project { path })
        } else {
            Err(Error::new(ErrorKind::InvalidInput, String::from_str("invalid path")))
        }
    }

    /// Walks upward from the path (from its directory, when the path names
    /// a file) probing each ancestor for the marker; the identifier is the
    /// base name of the first ancestor that has it. When no ancestor has
    /// the marker the project is not found. Which ancestor answers depends
    /// on the filesystem, so success promises a name from the ancestor
    /// chain and no more.
    pub fn get_repo_name(&self) -> (r: Result<String, Error>)
        ensures
            match r {
                Ok(name) => exists|d: Seq<char>|
                    in_ancestor_chain(d, self.path@) && name@ == base_name_spec(d),
                Err(e) => e.kind == ErrorKind::NotFound && e.message@
                    == "no git repository found for given project path"@,
            },
    {
        let mut cur: String = if path_is_file(self.path.as_str()) {
            match parent_dir(self.path.as_str()) {
                Some(p) => {
                    proof {
                        assert(in_ancestor_chain(p@, p@));
                        assert(in_ancestor_chain(p@, self.path@));
                    }
                    p
                },
                None => self.path.clone(),
            }
        } else {
            self.path.clone()
        };
        proof {
            assert(in_ancestor_chain(cur@, self.path@));
        }
        loop
            invariant
                in_ancestor_chain(cur@, self.path@),
            decreases cur@.len(),
        {
            let mut marker = cur.clone();
            marker.append("/.git");
            if path_is_dir(marker.as_str()) {
                let ghost d = cur@;
                let name = base_name_str(cur.as_str());
                proof {
                    assert(in_ancestor_chain(d, self.path@) && name@ == base_name_spec(d));
                }
                return Ok(name);
            }
            match parent_dir(cur.as_str()) {
                Some(p) => {
                    proof {
                        lemma_chain_parent(cur@, self.path@, p@);
                    }
                    cur = p;
                },
                None => {
                    return Err(
                        Error::new(
                            ErrorKind::NotFound,
                            String::from_str("no git repository found for given project path"),
                        ),
                    );
                },
            }
        }
    }
}

} // verus!
