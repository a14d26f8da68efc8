//! Remote-URL codec: parsing a git remote URL into `(host, owner, repo)`
//! and formatting such a triple back into the SSH-shorthand or HTTPS form.
//!
//! Three shapes are recognised:
//! - SSH shorthand: `git@<host>:<owner>/<repo>[.git]`
//! - explicit SSH:  `ssh://[user@]<host>/<owner>/<repo>[.git]`
//! - HTTPS:         `https://<host>/<owner>/<repo>[.git]`
//!
//! Anything else parses to nothing. A trailing `.git` on the repo segment is
//! stripped, and slashes around the owner/repo path are trimmed.

use vstd::prelude::*;
use vstd::string::*;

use crate::text::{
    ends_with_str, find_char, first_index_of, last_index_of, lemma_first_index_is, rfind_char,
    starts_with_str,
};

verus! {

/// The characters of `"git@"`.
pub open spec fn git_at_prefix() -> Seq<char> {
    seq!['g', 'i', 't', '@']
}

/// The characters of `"ssh://"`.
pub open spec fn ssh_prefix() -> Seq<char> {
    seq!['s', 's', 'h', ':', '/', '/']
}

/// The characters of `"https://"`.
pub open spec fn https_prefix() -> Seq<char> {
    seq!['h', 't', 't', 'p', 's', ':', '/', '/']
}

/// The characters of `".git"`.
pub open spec fn dot_git() -> Seq<char> {
    seq!['.', 'g', 'i', 't']
}

/// Whether `p` is a prefix of `s`.
pub open spec fn has_prefix(s: Seq<char>, p: Seq<char>) -> bool {
    p.len() <= s.len() && s.subrange(0, p.len() as int) == p
}

/// Whether `p` is a suffix of `s`.
pub open spec fn has_suffix(s: Seq<char>, p: Seq<char>) -> bool {
    p.len() <= s.len() && s.subrange(s.len() - p.len(), s.len() as int) == p
}

/// `s` with every leading and trailing `'/'` removed.
pub open spec fn trim_slashes(s: Seq<char>) -> Seq<char>
    decreases s.len(),
{
    if s.len() > 0 && s[0] == '/' {
        trim_slashes(s.drop_first())
    } else if s.len() > 0 && s[s.len() - 1] == '/' {
        trim_slashes(s.drop_last())
    } else {
        s
    }
}

/// `s` with every trailing `".git"` removed.
pub open spec fn strip_git_suffix(s: Seq<char>) -> Seq<char>
    decreases s.len(),
{
    if s.len() >= 4 && has_suffix(s, dot_git()) {
        strip_git_suffix(s.take(s.len() - 4))
    } else {
        s
    }
}

/// The owner/repo path split: trim slashes, the owner reaches the first
/// `'/'`, the repo is the rest with any `".git"` suffix stripped.
/// Nothing if the trimmed path has no `'/'` at all.
pub open spec fn split_path_spec(host: Seq<char>, path: Seq<char>) -> Option<
    (Seq<char>, Seq<char>, Seq<char>),
> {
    let t = trim_slashes(path);
    match first_index_of(t, '/') {
        Some(i) => Some((host, t.take(i), strip_git_suffix(t.skip(i + 1)))),
        None => None,
    }
}

/// What parsing a remote URL yields: the `(host, owner, repo)` triple for
/// the three recognised shapes, nothing for any other text.
pub open spec fn parse_remote_spec(s: Seq<char>) -> Option<(Seq<char>, Seq<char>, Seq<char>)> {
    if has_prefix(s, git_at_prefix()) {
        let rest = s.skip(4);
        match first_index_of(rest, ':') {
            Some(i) => split_path_spec(rest.take(i), rest.skip(i + 1)),
            None => None,
        }
    } else if has_prefix(s, ssh_prefix()) {
        let rest = s.skip(6);
        let after_user = match last_index_of(rest, '@') {
            Some(i) => rest.skip(i + 1),
            None => rest,
        };
        match first_index_of(after_user, '/') {
            Some(i) => split_path_spec(after_user.take(i), after_user.skip(i + 1)),
            None => None,
        }
    } else if has_prefix(s, https_prefix()) {
        let rest = s.skip(8);
        match first_index_of(rest, '/') {
            Some(i) => split_path_spec(rest.take(i), rest.skip(i + 1)),
            None => None,
        }
    } else {
        None
    }
}

/// The canonical SSH-shorthand form `git@<host>:<owner>/<repo>.git`.
pub open spec fn format_ssh_spec(h: Seq<char>, o: Seq<char>, r: Seq<char>) -> Seq<char> {
    git_at_prefix() + h + seq![':'] + o + seq!['/'] + r + dot_git()
}

/// The canonical HTTPS form `https://<host>/<owner>/<repo>.git`.
pub open spec fn format_https_spec(h: Seq<char>, o: Seq<char>, r: Seq<char>) -> Seq<char> {
    https_prefix() + h + seq!['/'] + o + seq!['/'] + r + dot_git()
}

/// `path` with leading and trailing slashes removed.
fn trim_slashes_str<'a>(s: &'a str) -> (r: &'a str)
    ensures
        r@ == trim_slashes(s@),
{
    let n = s.unicode_len();
    let mut a: usize = 0;
    while a < n && s.get_char(a) == '/'
        invariant
            n == s@.len(),
            0 <= a <= n,
            forall|j: int| 0 <= j < a ==> s@[j] == '/',
        decreases n - a,
    {
        a = a + 1;
    }
    let mut b: usize = n;
    while b > a && s.get_char(b - 1) == '/'
        invariant
            n == s@.len(),
            a <= b <= n,
            forall|j: int| b <= j < n ==> s@[j] == '/',
        decreases b,
    {
        b = b - 1;
    }
    let t = s.substring_char(a, b);
    proof {
        lemma_trim_slashes_subrange(s@, a as int, b as int);
    }
    t
}

/// Index-based characterisation of `trim_slashes`: slashes before `a` and
/// from `b` on, none at the two inner edges, leave exactly `s[a..b]`.
proof fn lemma_trim_slashes_subrange(s: Seq<char>, a: int, b: int)
    requires
        0 <= a <= b <= s.len(),
        forall|j: int| 0 <= j < a ==> s[j] == '/',
        forall|j: int| b <= j < s.len() ==> s[j] == '/',
        a < b ==> s[a] != '/' && s[b - 1] != '/',
    ensures
        trim_slashes(s) == s.subrange(a, b),
    decreases s.len(),
{
    if s.len() == 0 {
        assert(trim_slashes(s) =~= s.subrange(a, b));
    } else if s[0] == '/' {
        let t = s.drop_first();
        if a > 0 {
            assert(forall|j: int| 0 <= j < a - 1 ==> t[j] == s[j + 1] && s[j + 1] == '/');
            assert(forall|j: int| b - 1 <= j < t.len() ==> t[j] == s[j + 1] && s[j + 1] == '/');
            lemma_trim_slashes_subrange(t, a - 1, b - 1);
            assert(t.subrange(a - 1, b - 1) =~= s.subrange(a, b));
        } else {
            // a == 0 and s[0] == '/' force a == b, so everything is slashes.
            assert(a == b);
            assert(forall|j: int| 0 <= j < t.len() ==> t[j] == s[j + 1] && s[j + 1] == '/');
            lemma_trim_slashes_subrange(t, 0, 0);
            assert(t.subrange(0, 0) =~= s.subrange(a, b));
        }
    } else if s[s.len() - 1] == '/' {
        let t = s.drop_last();
        if b < s.len() {
            assert(forall|j: int| 0 <= j < t.len() ==> t[j] == s[j]);
            lemma_trim_slashes_subrange(t, a, b);
            assert(t.subrange(a, b) =~= s.subrange(a, b));
        } else {
            // b == s.len() contradicts the edge conditions unless a == b,
            // and a == b == s.len() makes s[0] a slash, handled above.
            assert(a < b);
            assert(s[b - 1] != '/');
            assert(false);
        }
    } else {
        assert(a == 0 && b == s.len());
        assert(trim_slashes(s) =~= s.subrange(a, b));
    }
}

/// `s` with every trailing `".git"` removed.
fn strip_git_suffix_str<'a>(s: &'a str) -> (r: &'a str)
    ensures
        r@ == strip_git_suffix(s@),
{
    proof {
        reveal_strlit(".git");
        assert(".git"@ =~= dot_git());
    }
    let mut t = s;
    let mut n = t.unicode_len();
    while ends_with_str(t, ".git")
        invariant
            n == t@.len(),
            strip_git_suffix(t@) == strip_git_suffix(s@),
            ".git"@ =~= dot_git(),
        decreases t@.len(),
    {
        assert(has_suffix(t@, dot_git()));
        let ghost t_prev = t@;
        t = t.substring_char(0, n - 4);
        n = n - 4;
        proof {
            assert(t@ =~= t_prev.take(t_prev.len() - 4));
        }
    }
    assert(!has_suffix(t@, dot_git()));
    t
}

/// Splits a trimmed `owner/repo[.git]` path beside an already-known host.
fn split_path(host: &str, path: &str) -> (r: Option<(String, String, String)>)
    ensures
        match r {
            Some(t) => split_path_spec(host@, path@) == Some((t.0@, t.1@, t.2@)),
            None => split_path_spec(host@, path@) is None,
        },
{
    let t = trim_slashes_str(path);
    let tn = t.unicode_len();
    match find_char(t, '/') {
        Some(i) => {
            let owner = t.substring_char(0, i);
            let rest = t.substring_char(i + 1, tn);
            let repo = strip_git_suffix_str(rest);
            proof {
                assert(owner@ =~= t@.take(i as int));
                assert(rest@ =~= t@.skip(i + 1));
            }
            Some((host.to_owned(), owner.to_owned(), repo.to_owned()))
        },
        None => None,
    }
}

/// Parses a remote URL into `(host, owner, repo)`; anything outside the
/// three recognised shapes yields `None`.
pub fn parse_remote(url: &str) -> (r: Option<(String, String, String)>)
    ensures
        match r {
            Some(t) => parse_remote_spec(url@) == Some((t.0@, t.1@, t.2@)),
            None => parse_remote_spec(url@) is None,
        },
{
    let n = url.unicode_len();
    if starts_with_str(url, "git@") {
        proof {
            reveal_strlit("git@");
            assert("git@"@ =~= git_at_prefix());
        }
        let rest = url.substring_char(4, n);
        proof {
            assert(rest@ =~= url@.skip(4));
        }
        let m = rest.unicode_len();
        match find_char(rest, ':') {
            Some(i) => {
                let host = rest.substring_char(0, i);
                let path = rest.substring_char(i + 1, m);
                proof {
                    assert(host@ =~= rest@.take(i as int));
                    assert(path@ =~= rest@.skip(i + 1));
                }
                split_path(host, path)
            },
            None => None,
        }
    } else if starts_with_str(url, "ssh://") {
        proof {
            reveal_strlit("git@");
            reveal_strlit("ssh://");
            assert("git@"@ =~= git_at_prefix());
            assert("ssh://"@ =~= ssh_prefix());
        }
        let rest = url.substring_char(6, n);
        proof {
            assert(rest@ =~= url@.skip(6));
        }
        let m = rest.unicode_len();
        let after_user = match rfind_char(rest, '@') {
            Some(i) => {
                let a = rest.substring_char(i + 1, m);
                proof {
                    assert(a@ =~= rest@.skip(i + 1));
                }
                a
            },
            None => rest,
        };
        let am = after_user.unicode_len();
        match find_char(after_user, '/') {
            Some(i) => {
                let host = after_user.substring_char(0, i);
                let path = after_user.substring_char(i + 1, am);
                proof {
                    assert(host@ =~= after_user@.take(i as int));
                    assert(path@ =~= after_user@.skip(i + 1));
                }
                split_path(host, path)
            },
            None => None,
        }
    } else if starts_with_str(url, "https://") {
        proof {
            reveal_strlit("git@");
            reveal_strlit("ssh://");
            reveal_strlit("https://");
            assert("git@"@ =~= git_at_prefix());
            assert("ssh://"@ =~= ssh_prefix());
            assert("https://"@ =~= https_prefix());
        }
        let rest = url.substring_char(8, n);
        proof {
            assert(rest@ =~= url@.skip(8));
        }
        let m = rest.unicode_len();
        match find_char(rest, '/') {
            Some(i) => {
                let host = rest.substring_char(0, i);
                let path = rest.substring_char(i + 1, m);
                proof {
                    assert(host@ =~= rest@.take(i as int));
                    assert(path@ =~= rest@.skip(i + 1));
                }
                split_path(host, path)
            },
            None => None,
        }
    } else {
        proof {
            reveal_strlit("git@");
            reveal_strlit("ssh://");
            reveal_strlit("https://");
            assert("git@"@ =~= git_at_prefix());
            assert("ssh://"@ =~= ssh_prefix());
            assert("https://"@ =~= https_prefix());
        }
        None
    }
}

/// Law: formatting a triple in SSH shorthand and parsing the result yields
/// the triple back, provided the components are non-empty, the host holds
/// no `':'`, the owner holds no `'/'`, and the repo does not already end in
/// `".git"`.
pub proof fn lemma_parse_format_ssh(h: Seq<char>, o: Seq<char>, r: Seq<char>)
    requires
        h.len() > 0,
        o.len() > 0,
        r.len() > 0,
        forall|j: int| 0 <= j < h.len() ==> h[j] != ':',
        forall|j: int| 0 <= j < o.len() ==> o[j] != '/',
        !has_suffix(r, dot_git()),
    ensures
        parse_remote_spec(format_ssh_spec(h, o, r)) == Some((h, o, r)),
{
    let s = format_ssh_spec(h, o, r);
    assert(s.subrange(0, 4) =~= git_at_prefix());
    let rest = s.skip(4);
    let path = o + seq!['/'] + r + dot_git();
    assert(rest =~= h + seq![':'] + path);
    assert(rest[h.len() as int] == ':');
    assert(forall|j: int| 0 <= j < h.len() ==> rest[j] == h[j]);
    lemma_first_index_is(rest, ':', h.len() as int);
    assert(rest.take(h.len() as int) =~= h);
    assert(rest.skip(h.len() as int + 1) =~= path);
    lemma_split_path_canonical(h, o, r);
}

/// Law: formatting a triple in the HTTPS form and parsing the result yields
/// the triple back, provided the components are non-empty, the host holds
/// no `'/'`, the owner holds no `'/'`, and the repo does not already end in
/// `".git"`.
pub proof fn lemma_parse_format_https(h: Seq<char>, o: Seq<char>, r: Seq<char>)
    requires
        h.len() > 0,
        o.len() > 0,
        r.len() > 0,
        forall|j: int| 0 <= j < h.len() ==> h[j] != '/',
        forall|j: int| 0 <= j < o.len() ==> o[j] != '/',
        !has_suffix(r, dot_git()),
    ensures
        parse_remote_spec(format_https_spec(h, o, r)) == Some((h, o, r)),
{
    let s = format_https_spec(h, o, r);
    assert(s[0] == 'h');
    assert(!has_prefix(s, git_at_prefix())) by {
        if has_prefix(s, git_at_prefix()) {
            assert(s.subrange(0, 4)[0] == 'g');
        }
    }
    assert(!has_prefix(s, ssh_prefix())) by {
        if has_prefix(s, ssh_prefix()) {
            assert(s.subrange(0, 6)[0] == 's');
        }
    }
    assert(s.subrange(0, 8) =~= https_prefix());
    let rest = s.skip(8);
    let path = o + seq!['/'] + r + dot_git();
    assert(rest =~= h + seq!['/'] + path);
    assert(rest[h.len() as int] == '/');
    assert(forall|j: int| 0 <= j < h.len() ==> rest[j] == h[j]);
    lemma_first_index_is(rest, '/', h.len() as int);
    assert(rest.take(h.len() as int) =~= h);
    assert(rest.skip(h.len() as int + 1) =~= path);
    lemma_split_path_canonical(h, o, r);
}

/// The canonical `owner/repo.git` path splits back into its components.
proof fn lemma_split_path_canonical(h: Seq<char>, o: Seq<char>, r: Seq<char>)
    requires
        o.len() > 0,
        r.len() > 0,
        forall|j: int| 0 <= j < o.len() ==> o[j] != '/',
        !has_suffix(r, dot_git()),
    ensures
        split_path_spec(h, o + seq!['/'] + r + dot_git()) == Some((h, o, r)),
{
    let path = o + seq!['/'] + r + dot_git();
    assert(path[0] == o[0]);
    assert(path[path.len() - 1] == 't');
    assert(trim_slashes(path) == path);
    assert(path[o.len() as int] == '/');
    assert(forall|j: int| 0 <= j < o.len() ==> path[j] == o[j]);
    lemma_first_index_is(path, '/', o.len() as int);
    assert(path.take(o.len() as int) =~= o);
    let tail = path.skip(o.len() as int + 1);
    assert(tail =~= r + dot_git());
    assert(tail.subrange(tail.len() - 4, tail.len() as int) =~= dot_git());
    assert(has_suffix(tail, dot_git()));
    assert(tail.take(tail.len() - 4) =~= r);
    assert(strip_git_suffix(r) == r);
    assert(strip_git_suffix(tail) == r);
}

/// Formats a triple as the SSH shorthand `git@<host>:<owner>/<repo>.git`.
pub fn to_ssh(host: &str, owner: &str, repo: &str) -> (r: String)
    ensures
        r@ == format_ssh_spec(host@, owner@, repo@),
{
    let mut s = String::from_str("git@");
    s.append(host);
    s.append(":");
    s.append(owner);
    s.append("/");
    s.append(repo);
    s.append(".git");
    proof {
        reveal_strlit("git@");
        reveal_strlit(":");
        reveal_strlit("/");
        reveal_strlit(".git");
        assert(s@ =~= format_ssh_spec(host@, owner@, repo@));
    }
    s
}

/// Formats a triple as the HTTPS form `https://<host>/<owner>/<repo>.git`.
pub fn to_https(host: &str, owner: &str, repo: &str) -> (r: String)
    ensures
        r@ == format_https_spec(host@, owner@, repo@),
{
    let mut s = String::from_str("https://");
    s.append(host);
    s.append("/");
    s.append(owner);
    s.append("/");
    s.append(repo);
    s.append(".git");
    proof {
        reveal_strlit("https://");
        reveal_strlit("/");
        reveal_strlit(".git");
        assert(s@ =~= format_https_spec(host@, owner@, repo@));
    }
    s
}

} // verus!
