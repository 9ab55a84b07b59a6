//! Small facts about text: equality and identifiers.
use vstd::prelude::*;

verus! {

/// Whether `c` is an ASCII letter.
pub open spec fn is_ascii_letter(c: char) -> bool {
    ('a' <= c && c <= 'z') || ('A' <= c && c <= 'Z')
}

/// Whether `c` may follow the first character of an identifier.
pub open spec fn is_ident_continue(c: char) -> bool {
    is_ascii_letter(c) || ('0' <= c && c <= '9') || c == '_'
}

/// An ASCII identifier: a letter or `_` first, then letters, digits or `_`;
/// a lone `_` is no identifier.
pub open spec fn is_ident_text(s: Seq<char>) -> bool {
    &&& s.len() > 0
    &&& (is_ascii_letter(s[0]) || s[0] == '_')
    &&& forall|k: int| 1 <= k < s.len() ==> is_ident_continue(#[trigger] s[k])
    &&& s != seq!['_']
}

/// Compares two strings character by character.
pub fn same_text(a: &str, b: &str) -> (r: bool)
    ensures
        r == (a@ == b@),
{
    let n = a.unicode_len();
    if n != b.unicode_len() {
        return false;
    }
    let mut i: usize = 0;
    while i < n
        invariant
            n == a@.len(),
            n == b@.len(),
            i <= n,
            forall|k: int| 0 <= k < i ==> a@[k] == b@[k],
        decreases n - i,
    {
        if a.get_char(i) != b.get_char(i) {
            return false;
        }
        i += 1;
    }
    assert(a@ =~= b@);
    true
}

/// Whether `s` is an ASCII identifier, as [`is_ident_text`] states.
pub fn is_identifier(s: &str) -> (r: bool)
    ensures
        r == is_ident_text(s@),
{
    let n = s.unicode_len();
    if n == 0 {
        return false;
    }
    let c0 = s.get_char(0);
    if !(('a' <= c0 && c0 <= 'z') || ('A' <= c0 && c0 <= 'Z') || c0 == '_') {
        return false;
    }
    if n == 1 && c0 == '_' {
        assert(s@ =~= seq!['_']);
        return false;
    }
    let mut i: usize = 1;
    while i < n
        invariant
            n == s@.len(),
            1 <= i <= n,
            forall|k: int| 1 <= k < i ==> is_ident_continue(#[trigger] s@[k]),
        decreases n - i,
    {
        let c = s.get_char(i);
        if !(('a' <= c && c <= 'z') || ('A' <= c && c <= 'Z') || ('0' <= c && c <= '9') || c
            == '_') {
            assert(!is_ident_continue(s@[i as int]));
            return false;
        }
        i += 1;
    }
    assert(s@ != seq!['_']) by {
        if n == 1 {
            assert(s@[0] != '_');
        } else {
            assert(s@.len() != 1);
        }
    }
    true
}

} // verus!
