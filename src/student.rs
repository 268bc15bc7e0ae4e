//! Deriving a Student Identifier from the filename of a submitted archive.

use crate::error::GraderError;
use vstd::prelude::*;

verus! {

/// Position of the first `c` in `s`, or `s.len()` when `s` holds none.
pub open spec fn first_index(s: Seq<char>, c: char) -> int
    decreases s.len(),
{
    if s.len() == 0 {
        0
    } else if s[0] == c {
        0
    } else {
        1 + first_index(s.drop_first(), c)
    }
}

/// `c` does not occur in `s`.
pub open spec fn lacks(s: Seq<char>, c: char) -> bool {
    forall|j: int| 0 <= j < s.len() ==> s[j] != c
}

/// The second `_`-delimited field of `s`; empty when `s` holds no `_`.
pub open spec fn username_of(s: Seq<char>) -> Seq<char> {
    let i = first_index(s, '_');
    if i == s.len() {
        Seq::empty()
    } else {
        let rest = s.skip(i + 1);
        rest.take(first_index(rest, '_'))
    }
}

/// A character that may stand in a directory name built from a filename.
pub open spec fn is_kept_char(c: char) -> bool {
    ('a' <= c && c <= 'z') || ('A' <= c && c <= 'Z') || ('0' <= c && c <= '9') || c == '_' || c
        == '-'
}

/// `s` with every character but ASCII letters, digits, `_` and `-` removed.
pub open spec fn sanitized(s: Seq<char>) -> Seq<char>
    decreases s.len(),
{
    if s.len() == 0 {
        s
    } else if is_kept_char(s.last()) {
        sanitized(s.drop_last()).push(s.last())
    } else {
        sanitized(s.drop_last())
    }
}

/// The Student Identifier of a filename: its second `_`-delimited field, or,
/// where that field is empty, the sanitized filename.
pub open spec fn student_id_of(s: Seq<char>) -> Seq<char> {
    if username_of(s).len() > 0 {
        username_of(s)
    } else {
        sanitized(s)
    }
}

/// The position that `first_index` gives is the one that its defining
/// properties single out.
pub proof fn lemma_first_index(s: Seq<char>, c: char, k: int)
    requires
        0 <= k <= s.len(),
        forall|j: int| 0 <= j < k ==> s[j] != c,
        k == s.len() || s[k] == c,
    ensures
        first_index(s, c) == k,
    decreases s.len(),
{
    if s.len() > 0 && k > 0 {
        let t = s.drop_first();
        assert forall|j: int| 0 <= j < k - 1 implies t[j] != c by {
            assert(s[j + 1] != c);
        }
        lemma_first_index(t, c, k - 1);
    }
}

/// The sanitized filename is empty exactly when no character is kept.
pub proof fn lemma_sanitized_empty(s: Seq<char>)
    ensures
        (sanitized(s).len() == 0) <==> (forall|j: int| 0 <= j < s.len() ==> !is_kept_char(s[j])),
    decreases s.len(),
{
    if s.len() > 0 {
        let t = s.drop_last();
        lemma_sanitized_empty(t);
        assert forall|j: int| 0 <= j < t.len() implies t[j] == s[j] by {}
        if forall|j: int| 0 <= j < s.len() ==> !is_kept_char(s[j]) {
            assert(!is_kept_char(s[s.len() - 1]));
        }
    }
}

/// Position of the first `c` in `s` at or after `from`, or `s.len()`.
fn find_from(s: &str, c: char, from: usize) -> (r: usize)
    requires
        from <= s@.len(),
    ensures
        from <= r <= s@.len(),
        forall|j: int| from <= j < r ==> s@[j] != c,
        r == s@.len() || s@[r as int] == c,
{
    let n = s.unicode_len();
    let mut i = from;
    while i < n
        invariant
            n == s@.len(),
            from <= i <= n,
            forall|j: int| from <= j < i ==> s@[j] != c,
        decreases n - i,
    {
        if s.get_char(i) == c {
            return i;
        }
        i = i + 1;
    }
    i
}

/// The second `_`-delimited field of `assignment`, or an empty string when
/// there is none.
pub fn get_username(assignment: &str) -> (r: String)
    ensures
        r@ == username_of(assignment@),
{
    let ghost s = assignment@;
    let n = assignment.unicode_len();
    let i = find_from(assignment, '_', 0);
    proof {
        lemma_first_index(s, '_', i as int);
    }
    if i == n {
        return String::new();
    }
    let j = find_from(assignment, '_', i + 1);
    proof {
        let rest = s.skip(i + 1);
        lemma_first_index(rest, '_', j - i - 1);
        assert(rest.take(j - i - 1) == s.subrange(i + 1, j as int));
    }
    String::from_str(assignment.substring_char(i + 1, j))
}

/// `filename` with every character but ASCII letters, digits, `_` and `-`
/// removed.
pub fn sanitize_filename(filename: &str) -> (r: String)
    ensures
        r@ == sanitized(filename@),
{
    let ghost s = filename@;
    let n = filename.unicode_len();
    let mut out = String::new();
    let mut i: usize = 0;
    while i < n
        invariant
            n == s.len(),
            s == filename@,
            i <= n,
            out@ == sanitized(s.take(i as int)),
        decreases n - i,
    {
        let c = filename.get_char(i);
        assert(s.take(i + 1).drop_last() == s.take(i as int));
        assert(s.take(i + 1).last() == c);
        if ('a' <= c && c <= 'z') || ('A' <= c && c <= 'Z') || ('0' <= c && c <= '9') || c == '_'
            || c == '-' {
            out.append(filename.substring_char(i, i + 1));
        }
        i = i + 1;
    }
    assert(s.take(n as int) == s);
    out
}

/// The Student Identifier of `filename` (its second `_`-delimited field, else
/// the sanitized filename), or `EmptyIdentifier` when that is empty.
pub fn student_identifier(filename: &str) -> (r: Result<String, GraderError>)
    ensures
        student_id_of(filename@).len() > 0 ==> r is Ok && r->Ok_0@ == student_id_of(filename@),
        student_id_of(filename@).len() == 0 ==> r == Err::<String, GraderError>(
            GraderError::EmptyIdentifier,
        ),
{
    let username = get_username(filename);
    let id = if username.unicode_len() > 0 {
        username
    } else {
        sanitize_filename(filename)
    };
    if id.as_str().unicode_len() == 0 {
        Err(GraderError::EmptyIdentifier)
    } else {
        Ok(id)
    }
}

/// For a filename `prefix_username_suffix` whose prefix and username hold no
/// `_` and whose username is not empty, the Student Identifier is the username.
pub proof fn lemma_identifier_is_username(prefix: Seq<char>, username: Seq<char>, suffix: Seq<char>)
    requires
        lacks(prefix, '_'),
        lacks(username, '_'),
        username.len() > 0,
    ensures
        student_id_of(prefix + seq!['_'] + username + seq!['_'] + suffix) == username,
{
    let s = prefix + seq!['_'] + username + seq!['_'] + suffix;
    let p = prefix.len() as int;
    assert forall|j: int| 0 <= j < p implies s[j] != '_' by {
        assert(s[j] == prefix[j]);
    }
    assert(s[p] == '_');
    lemma_first_index(s, '_', p);
    let rest = s.skip(p + 1);
    assert(rest == username + seq!['_'] + suffix);
    let u = username.len() as int;
    assert forall|j: int| 0 <= j < u implies rest[j] != '_' by {
        assert(rest[j] == username[j]);
    }
    assert(rest[u] == '_');
    lemma_first_index(rest, '_', u);
    assert(rest.take(u) == username);
}

/// For a filename without `_`, the Student Identifier is the sanitized
/// filename, and it is non-empty whenever the filename holds an ASCII letter or
/// digit, `_` or `-`.
pub proof fn lemma_identifier_without_underscore(filename: Seq<char>)
    requires
        lacks(filename, '_'),
    ensures
        student_id_of(filename) == sanitized(filename),
        (exists|j: int| 0 <= j < filename.len() && is_kept_char(filename[j])) ==> student_id_of(
            filename,
        ).len() > 0,
{
    lemma_first_index(filename, '_', filename.len() as int);
    lemma_sanitized_empty(filename);
}

} // verus!
