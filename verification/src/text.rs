//! Text primitives shared by the validators and sanitizers: whitespace
//! trimming and prefix tests over `Seq<char>` views, together with the
//! trusted specifications for the std string and character operations that
//! vstd does not cover.

use vstd::prelude::*;

verus! {

/// Whether std classifies a character as whitespace (`char::is_whitespace`).
pub uninterp spec fn whitespace_char(c: char) -> bool;

/// Relies on `char::is_whitespace`: the result depends on the character
/// alone (the Unicode `White_Space` property).
pub assume_specification[ char::is_whitespace ](c: char) -> (r: bool)
    ensures
        r == whitespace_char(c),
;

/// Whether std classifies a character as alphanumeric (`char::is_alphanumeric`).
pub uninterp spec fn alphanumeric_char(c: char) -> bool;

/// Relies on `char::is_alphanumeric`: the result depends on the character
/// alone (the Unicode letter and number categories).
pub assume_specification[ char::is_alphanumeric ](c: char) -> (r: bool)
    ensures
        r == alphanumeric_char(c),
;

/// Relies on `String::push`: appends exactly one character at the end.
pub assume_specification[ String::push ](s: &mut String, c: char)
    ensures
        final(s)@ == old(s)@.push(c),
;

/// Relies on `String::push_str`: appends the given slice at the end.
pub assume_specification[ String::push_str ](s: &mut String, other: &str)
    ensures
        final(s)@ == old(s)@ + other@,
;

/// Length of the run of whitespace characters at the front of `s`.
pub open spec fn ws_prefix_len(s: Seq<char>) -> nat
    decreases s.len(),
{
    if s.len() == 0 {
        0
    } else if whitespace_char(s[0]) {
        1 + ws_prefix_len(s.drop_first())
    } else {
        0
    }
}

/// Length of the run of whitespace characters at the back of `s`.
pub open spec fn ws_suffix_len(s: Seq<char>) -> nat
    decreases s.len(),
{
    if s.len() == 0 {
        0
    } else if whitespace_char(s.last()) {
        1 + ws_suffix_len(s.drop_last())
    } else {
        0
    }
}

/// `s` with leading and trailing whitespace removed (`str::trim`).
pub open spec fn trim_spec(s: Seq<char>) -> Seq<char> {
    if ws_prefix_len(s) == s.len() {
        Seq::empty()
    } else {
        s.subrange(ws_prefix_len(s) as int, s.len() - ws_suffix_len(s))
    }
}

/// The whitespace prefix is exactly the run of whitespace characters before
/// the first non-whitespace character.
pub proof fn lemma_ws_prefix_at(s: Seq<char>, i: int)
    requires
        0 <= i <= s.len(),
        forall|k: int| 0 <= k < i ==> whitespace_char(s[k]),
        i == s.len() || !whitespace_char(s[i]),
    ensures
        ws_prefix_len(s) == i,
    decreases s.len(),
{
    if i == 0 {
        if s.len() != 0 {
            assert(!whitespace_char(s[0]));
        }
    } else {
        assert(whitespace_char(s[0]));
        let t = s.drop_first();
        assert(forall|k: int| 0 <= k < i - 1 ==> s[k + 1] == t[k] && whitespace_char(s[k + 1]));
        if i < s.len() {
            assert(t[i - 1] == s[i]);
        }
        lemma_ws_prefix_at(t, i - 1);
    }
}

/// The whitespace suffix is exactly the run of whitespace characters after
/// the last non-whitespace character.
pub proof fn lemma_ws_suffix_at(s: Seq<char>, j: int)
    requires
        0 <= j <= s.len(),
        forall|k: int| j <= k < s.len() ==> whitespace_char(s[k]),
        j == 0 || !whitespace_char(s[j - 1]),
    ensures
        ws_suffix_len(s) == s.len() - j,
    decreases s.len(),
{
    if j == s.len() {
        if s.len() != 0 {
            assert(!whitespace_char(s.last()));
        }
    } else {
        assert(whitespace_char(s.last()));
        let t = s.drop_last();
        assert(forall|k: int| j <= k < t.len() ==> t[k] == s[k] && whitespace_char(s[k]));
        if j > 0 {
            assert(t[j - 1] == s[j - 1]);
        }
        lemma_ws_suffix_at(t, j);
    }
}

/// Remove leading and trailing whitespace, as `str::trim` does.
pub fn trim_str(s: &str) -> (r: String)
    ensures
        r@ == trim_spec(s@),
{
    let n = s.unicode_len();
    let mut i: usize = 0;
    while i < n && s.get_char(i).is_whitespace()
        invariant
            i <= n,
            n == s@.len(),
            forall|k: int| 0 <= k < i ==> whitespace_char(s@[k]),
        decreases n - i,
    {
        i = i + 1;
    }
    proof {
        lemma_ws_prefix_at(s@, i as int);
    }
    if i == n {
        return String::new();
    }
    let mut j: usize = n;
    while j > i && s.get_char(j - 1).is_whitespace()
        invariant
            i <= j <= n,
            n == s@.len(),
            i < n,
            !whitespace_char(s@[i as int]),
            forall|k: int| j <= k < n ==> whitespace_char(s@[k]),
        decreases j,
    {
        j = j - 1;
    }
    proof {
        if j == i {
            assert(whitespace_char(s@[i as int]));
        }
        lemma_ws_suffix_at(s@, j as int);
    }
    s.substring_char(i, j).to_owned()
}

/// Whether `p` is a prefix of `s`.
pub open spec fn starts_with_spec(s: Seq<char>, p: Seq<char>) -> bool {
    p.len() <= s.len() && s.subrange(0, p.len() as int) == p
}

/// Prefix test over characters, as `str::starts_with` decides it.
pub fn starts_with_str(s: &str, p: &str) -> (r: bool)
    ensures
        r == starts_with_spec(s@, p@),
{
    let np = p.unicode_len();
    let ns = s.unicode_len();
    if np > ns {
        assert(!starts_with_spec(s@, p@));
        return false;
    }
    let mut i: usize = 0;
    while i < np
        invariant
            i <= np,
            np == p@.len(),
            ns == s@.len(),
            np <= ns,
            forall|k: int| 0 <= k < i ==> s@[k] == p@[k],
        decreases np - i,
    {
        if s.get_char(i) != p.get_char(i) {
            assert(s@.subrange(0, np as int)[i as int] != p@[i as int]);
            return false;
        }
        i = i + 1;
    }
    proof {
        assert(s@.subrange(0, np as int) =~= p@);
    }
    true
}

/// Equality test over characters, as `str` comparison decides it.
pub fn str_equal(s: &str, p: &str) -> (r: bool)
    ensures
        r == (s@ == p@),
{
    let ns = s.unicode_len();
    let np = p.unicode_len();
    if ns != np {
        return false;
    }
    let eq = starts_with_str(s, p);
    proof {
        assert(s@.subrange(0, np as int) =~= s@);
    }
    eq
}

} // verus!
