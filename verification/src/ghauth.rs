//! The text side of the delegated-credential presence check: whether a
//! cached hosts document names a host and records an OAuth token. Reading
//! the document, the environment and the external tool stays outside; this
//! module only judges the text.

use vstd::prelude::*;
use vstd::string::*;

use crate::auth::spec_is_space;
use crate::remote::has_prefix;
use crate::text::{contains_seq, contains_str_slice, find_char, starts_with_str};

verus! {

/// A line with its terminator removed, as the document splits into lines:
/// a trailing carriage return goes with the line feed.
pub open spec fn strip_cr(s: Seq<char>) -> Seq<char> {
    if s.len() > 0 && s[s.len() - 1] == '\r' {
        s.drop_last()
    } else {
        s
    }
}

/// The lines of a document: split at each line feed, dropping a carriage
/// return at each line's end; an empty document has no lines.
pub open spec fn split_lines(s: Seq<char>) -> Seq<Seq<char>>
    decreases s.len(),
    via split_lines_decreases
{
    if s.len() == 0 {
        Seq::empty()
    } else {
        match crate::text::first_index_of(s, '\n') {
            Some(i) => seq![strip_cr(s.take(i))] + split_lines(s.skip(i + 1)),
            None => seq![strip_cr(s)],
        }
    }
}

#[via_fn]
proof fn split_lines_decreases(s: Seq<char>) {
    crate::text::lemma_first_index_of(s, '\n');
}

/// `s` with leading ASCII whitespace removed.
pub open spec fn trim_start_spaces(s: Seq<char>) -> Seq<char>
    decreases s.len(),
{
    if s.len() > 0 && spec_is_space(s[0]) {
        trim_start_spaces(s.drop_first())
    } else {
        s
    }
}

/// Whether a line, after leading whitespace, opens with `host` followed by
/// a colon.
pub open spec fn line_names_host(line: Seq<char>, host: Seq<char>) -> bool {
    has_prefix(trim_start_spaces(line), host + seq![':'])
}

/// Whether the hosts document records a credential for `host`: some line
/// names the host, and the document mentions an OAuth token.
pub open spec fn hosts_text_has_credential(text: Seq<char>, host: Seq<char>) -> bool {
    (exists|i: int| 0 <= i < split_lines(text).len() && line_names_host(split_lines(text)[i], host))
        && contains_seq(text, "oauth_token:"@)
}

/// Index-based characterisation of `trim_start_spaces`.
proof fn lemma_trim_start_subrange(s: Seq<char>, a: int)
    requires
        0 <= a <= s.len(),
        forall|j: int| 0 <= j < a ==> spec_is_space(s[j]),
        a < s.len() ==> !spec_is_space(s[a]),
    ensures
        trim_start_spaces(s) == s.subrange(a, s.len() as int),
    decreases s.len(),
{
    if s.len() == 0 {
        assert(trim_start_spaces(s) =~= s.subrange(a, s.len() as int));
    } else if spec_is_space(s[0]) {
        let t = s.drop_first();
        assert(a > 0);
        assert(forall|j: int| 0 <= j < a - 1 ==> t[j] == s[j + 1] && spec_is_space(s[j + 1]));
        lemma_trim_start_subrange(t, a - 1);
        assert(t.subrange(a - 1, t.len() as int) =~= s.subrange(a, s.len() as int));
    } else {
        assert(a == 0);
        assert(trim_start_spaces(s) =~= s.subrange(a, s.len() as int));
    }
}

/// A line with leading ASCII whitespace removed.
fn trim_start_str<'a>(s: &'a str) -> (r: &'a str)
    ensures
        r@ == trim_start_spaces(s@),
{
    let n = s.unicode_len();
    let mut a: usize = 0;
    while a < n && crate::auth::is_space(s.get_char(a))
        invariant
            n == s@.len(),
            0 <= a <= n,
            forall|j: int| 0 <= j < a ==> spec_is_space(s@[j]),
        decreases n - a,
    {
        a = a + 1;
    }
    let t = s.substring_char(a, n);
    proof {
        lemma_trim_start_subrange(s@, a as int);
    }
    t
}

/// The lines of a document.
pub fn split_lines_str(text: &str) -> (r: Vec<String>)
    ensures
        r.deep_view() == split_lines(text@),
{
    let mut out: Vec<String> = Vec::new();
    let mut rest: &str = text;
    loop
        invariant
            out.deep_view() + split_lines(rest@) =~= split_lines(text@),
        decreases rest@.len(),
    {
        let n = rest.unicode_len();
        if n == 0 {
            proof {
                assert(out.deep_view() =~= split_lines(text@));
            }
            return out;
        }
        match find_char(rest, '\n') {
            Some(i) => {
                let line = strip_cr_str(rest.substring_char(0, i));
                let ghost prev = rest@;
                out.push(line.to_owned());
                rest = rest.substring_char(i + 1, n);
                proof {
                    assert(rest@ =~= prev.skip(i + 1));
                    assert(split_lines(prev) =~= seq![strip_cr(prev.take(i as int))]
                        + split_lines(prev.skip(i + 1)));
                    assert(out.deep_view() + split_lines(rest@) =~= split_lines(text@));
                }
            },
            None => {
                let line = strip_cr_str(rest);
                out.push(line.to_owned());
                proof {
                    assert(split_lines(rest@) =~= seq![strip_cr(rest@)]);
                    assert(out.deep_view() =~= split_lines(text@));
                }
                return out;
            },
        }
    }
}

/// A line without its trailing carriage return, if it has one.
fn strip_cr_str<'a>(s: &'a str) -> (r: &'a str)
    ensures
        r@ == strip_cr(s@),
{
    let n = s.unicode_len();
    if n > 0 && s.get_char(n - 1) == '\r' {
        let t = s.substring_char(0, n - 1);
        proof {
            assert(t@ =~= s@.drop_last());
        }
        t
    } else {
        s
    }
}

/// Judges a cached hosts document: true exactly when some line names
/// `host` (after leading whitespace, `host` followed by `':'`) and the
/// document mentions an OAuth token.
pub fn gh_hosts_has_credential(text: &str, host: &str) -> (r: bool)
    ensures
        r == hosts_text_has_credential(text@, host@),
{
    let lines = split_lines_str(text);
    let mut prefix = host.to_owned();
    prefix.append(":");
    proof {
        reveal_strlit(":");
        assert(prefix@ =~= host@ + seq![':']);
    }
    let n = lines.len();
    let mut found = false;
    let mut i: usize = 0;
    while i < n
        invariant
            n == lines@.len(),
            lines.deep_view() == split_lines(text@),
            prefix@ == host@ + seq![':'],
            0 <= i <= n,
            found <==> exists|j: int|
                0 <= j < i && line_names_host(lines.deep_view()[j], host@),
        decreases n - i,
    {
        let trimmed = trim_start_str(lines[i].as_str());
        if starts_with_str(trimmed, prefix.as_str()) {
            proof {
                assert(line_names_host(lines.deep_view()[i as int], host@));
            }
            found = true;
        }
        i = i + 1;
    }
    found && contains_str_slice(text, "oauth_token:")
}

} // verus!
