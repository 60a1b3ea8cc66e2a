use vstd::prelude::*;

verus! {

/// Longest identifier (in characters) accepted as a cache entry name.
pub const MAX_IDENTIFIER_CHARS: usize = 255;

/// A character that may appear in a secret identifier: path separators and
/// NUL are refused so the identifier is safe as a single path component.
pub open spec fn id_char_ok(c: char) -> bool {
    c != '/' && c != '\\' && c != '\0'
}

/// A secret identifier that may be used verbatim as a cache entry name:
/// non-empty, at most [`MAX_IDENTIFIER_CHARS`] characters, not starting
/// with a dot (which also rules out `.` and `..`), and free of path
/// separators and NUL.
pub open spec fn id_valid(s: Seq<char>) -> bool {
    &&& 1 <= s.len() <= MAX_IDENTIFIER_CHARS
    &&& s[0] != '.'
    &&& forall|j: int| 0 <= j < s.len() ==> id_char_ok(#[trigger] s[j])
}

/// Decides [`id_valid`] for an identifier handed in by a caller.
pub fn check_identifier(s: &str) -> (r: bool)
    ensures
        r == id_valid(s@),
{
    let n = s.unicode_len();
    if n == 0 || n > MAX_IDENTIFIER_CHARS {
        return false;
    }
    if s.get_char(0) == '.' {
        return false;
    }
    let mut i: usize = 0;
    while i < n
        invariant
            i <= n,
            n == s@.len(),
            1 <= n <= MAX_IDENTIFIER_CHARS,
            s@[0] != '.',
            forall|j: int| 0 <= j < i ==> id_char_ok(#[trigger] s@[j]),
        decreases n - i,
    {
        let c = s.get_char(i);
        if c == '/' || c == '\\' || c == '\0' {
            return false;
        }
        i += 1;
    }
    true
}

} // verus!
