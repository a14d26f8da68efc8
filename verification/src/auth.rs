//! Authentication modes and parsing them from text.

use vstd::prelude::*;
use vstd::string::*;

use crate::error::{Error, ErrorKind};

verus! {

/// The authentication mode of a profile.
#[derive(Clone, Copy, Debug, PartialEq, Eq, Structural)]
pub enum AuthType {
    /// No delegated authentication: plain identity only.
    NoAuth,
    /// Authentication through a per-repository SSH key override.
    SSH,
    /// Authentication delegated to the external `gh` credential helper.
    GH,
}

/// ASCII lowering of one character.
pub open spec fn spec_lower_char(c: char) -> char {
    if 'A' <= c && c <= 'Z' {
        (((c as u8) + 32) as char)
    } else {
        c
    }
}

/// ASCII lowering of a whole sequence.
pub open spec fn lower(s: Seq<char>) -> Seq<char> {
    s.map_values(|c: char| spec_lower_char(c))
}

/// ASCII whitespace, as trimmed around an auth-type word.
pub open spec fn spec_is_space(c: char) -> bool {
    c == ' ' || c == '\t' || c == '\n' || c == '\r'
}

/// `s` with ASCII whitespace removed at both ends.
pub open spec fn trim_spaces(s: Seq<char>) -> Seq<char>
    decreases s.len(),
{
    if s.len() > 0 && spec_is_space(s[0]) {
        trim_spaces(s.drop_first())
    } else if s.len() > 0 && spec_is_space(s[s.len() - 1]) {
        trim_spaces(s.drop_last())
    } else {
        s
    }
}

/// The mode named by a piece of text: `"none"`, `"ssh"` or `"gh"`, compared
/// after trimming and ASCII case folding; anything else names no mode.
pub open spec fn auth_type_of_text(s: Seq<char>) -> Option<AuthType> {
    let t = lower(trim_spaces(s));
    if t == seq!['n', 'o', 'n', 'e'] {
        Some(AuthType::NoAuth)
    } else if t == seq!['s', 's', 'h'] {
        Some(AuthType::SSH)
    } else if t == seq!['g', 'h'] {
        Some(AuthType::GH)
    } else {
        None
    }
}

/// ASCII lowering of one character.
fn lower_char(c: char) -> (r: char)
    ensures
        r == spec_lower_char(c),
{
    if 'A' <= c && c <= 'Z' {
        ((c as u8) + 32) as char
    } else {
        c
    }
}

/// ASCII whitespace test.
pub fn is_space(c: char) -> (r: bool)
    ensures
        r == spec_is_space(c),
{
    c == ' ' || c == '\t' || c == '\n' || c == '\r'
}

/// Index-based characterisation of `trim_spaces`: whitespace before `a` and
/// from `b` on, none at the two inner edges, leaves exactly `s[a..b]`.
proof fn lemma_trim_spaces_subrange(s: Seq<char>, a: int, b: int)
    requires
        0 <= a <= b <= s.len(),
        forall|j: int| 0 <= j < a ==> spec_is_space(s[j]),
        forall|j: int| b <= j < s.len() ==> spec_is_space(s[j]),
        a < b ==> !spec_is_space(s[a]) && !spec_is_space(s[b - 1]),
    ensures
        trim_spaces(s) == s.subrange(a, b),
    decreases s.len(),
{
    if s.len() == 0 {
        assert(trim_spaces(s) =~= s.subrange(a, b));
    } else if spec_is_space(s[0]) {
        let t = s.drop_first();
        if a > 0 {
            assert(forall|j: int| 0 <= j < a - 1 ==> t[j] == s[j + 1] && spec_is_space(s[j + 1]));
            assert(forall|j: int|
                b - 1 <= j < t.len() ==> t[j] == s[j + 1] && spec_is_space(s[j + 1]));
            lemma_trim_spaces_subrange(t, a - 1, b - 1);
            assert(t.subrange(a - 1, b - 1) =~= s.subrange(a, b));
        } else {
            assert(a == b);
            assert(forall|j: int| 0 <= j < t.len() ==> t[j] == s[j + 1] && spec_is_space(s[j + 1]));
            lemma_trim_spaces_subrange(t, 0, 0);
            assert(t.subrange(0, 0) =~= s.subrange(a, b));
        }
    } else if spec_is_space(s[s.len() - 1]) {
        let t = s.drop_last();
        if b < s.len() {
            assert(forall|j: int| 0 <= j < t.len() ==> t[j] == s[j]);
            lemma_trim_spaces_subrange(t, a, b);
            assert(t.subrange(a, b) =~= s.subrange(a, b));
        } else {
            assert(a < b);
            assert(!spec_is_space(s[b - 1]));
            assert(false);
        }
    } else {
        assert(a == 0 && b == s.len());
        assert(trim_spaces(s) =~= s.subrange(a, b));
    }
}

/// `s` with ASCII whitespace removed at both ends.
fn trim_spaces_str<'a>(s: &'a str) -> (r: &'a str)
    ensures
        r@ == trim_spaces(s@),
{
    let n = s.unicode_len();
    let mut a: usize = 0;
    while a < n && is_space(s.get_char(a))
        invariant
            n == s@.len(),
            0 <= a <= n,
            forall|j: int| 0 <= j < a ==> spec_is_space(s@[j]),
        decreases n - a,
    {
        a = a + 1;
    }
    let mut b: usize = n;
    while b > a && is_space(s.get_char(b - 1))
        invariant
            n == s@.len(),
            a <= b <= n,
            forall|j: int| b <= j < n ==> spec_is_space(s@[j]),
        decreases b,
    {
        b = b - 1;
    }
    let t = s.substring_char(a, b);
    proof {
        lemma_trim_spaces_subrange(s@, a as int, b as int);
    }
    t
}

/// Whether `s` lowered equals the already-lowercase word `w`.
fn eq_lowered(s: &str, w: &str) -> (r: bool)
    requires
        lower(w@) == w@,
    ensures
        r == (lower(s@) == w@),
{
    let n = s.unicode_len();
    let m = w.unicode_len();
    if n != m {
        assert(lower(s@).len() == s@.len());
        return false;
    }
    let mut i: usize = 0;
    while i < n
        invariant
            n == s@.len(),
            n == w@.len(),
            0 <= i <= n,
            forall|j: int| 0 <= j < i ==> spec_lower_char(s@[j]) == w@[j],
        decreases n - i,
    {
        if lower_char(s.get_char(i)) != w.get_char(i) {
            assert(lower(s@)[i as int] != w@[i as int]);
            return false;
        }
        i = i + 1;
    }
    assert(lower(s@) =~= w@);
    true
}

impl AuthType {
    /// Reads a mode from text: `"none"`, `"ssh"` or `"gh"`, ignoring ASCII
    /// case and surrounding whitespace; anything else is invalid data.
    pub fn parse_text(s: &str) -> (r: Result<AuthType, Error>)
        ensures
            match r {
                Ok(t) => auth_type_of_text(s@) == Some(t),
                Err(e) => {
                    &&& auth_type_of_text(s@) is None
                    &&& e.kind == ErrorKind::InvalidData
                    &&& e.message@ == "invalid auth type"@
                },
            },
    {
        let t = trim_spaces_str(s);
        proof {
            reveal_strlit("none");
            reveal_strlit("ssh");
            reveal_strlit("gh");
            assert("none"@ =~= seq!['n', 'o', 'n', 'e']);
            assert("ssh"@ =~= seq!['s', 's', 'h']);
            assert("gh"@ =~= seq!['g', 'h']);
            assert(lower("none"@) =~= "none"@);
            assert(lower("ssh"@) =~= "ssh"@);
            assert(lower("gh"@) =~= "gh"@);
        }
        if eq_lowered(t, "none") {
            Ok(AuthType::NoAuth)
        } else if eq_lowered(t, "ssh") {
            Ok(AuthType::SSH)
        } else if eq_lowered(t, "gh") {
            Ok(AuthType::GH)
        } else {
            Err(Error::new(ErrorKind::InvalidData, String::from_str("invalid auth type")))
        }
    }

    /// The lowercase word for this mode.
    pub fn as_text(&self) -> (r: &'static str)
        ensures
            match self {
                AuthType::NoAuth => r@ == "none"@,
                AuthType::SSH => r@ == "ssh"@,
                AuthType::GH => r@ == "gh"@,
            },
    {
        match self {
            AuthType::NoAuth => "none",
            AuthType::SSH => "ssh",
            AuthType::GH => "gh",
        }
    }
}

} // verus!
