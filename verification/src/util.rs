//! Helpers on character strings.

use std::collections::HashSet;
use vstd::prelude::*;

verus! {

/// Whether some character occurs at two different positions of `s`.
pub open spec fn has_duplicate_chars(s: Seq<char>) -> bool {
    exists|i: int, j: int| 0 <= i < j < s.len() && s[i] == s[j]
}

/// The code point of a character.
pub open spec fn code_of(c: char) -> u32 {
    c as u32
}

/// Two characters with the same code point are the same character.
pub proof fn lemma_code_point_injective(a: char, b: char)
    requires
        code_of(a) == code_of(b),
    ensures
        a == b,
{
}

/// The code point of `c`, as a number.
pub fn code_point(c: char) -> (code: u32)
    ensures
        code == code_of(c),
{
    c as u32
}

/// Return true if any of the characters in `s` appear anywhere else in `s`.
pub fn string_has_duplicate_chars(s: String) -> (found: bool)
    ensures
        found == has_duplicate_chars(s@),
{
    broadcast use vstd::std_specs::hash::group_hash_axioms;
    broadcast use vstd::string::group_string_axioms;

    let mut seen: HashSet<u32> = HashSet::new();
    for ch in it: s.as_str().chars()
        invariant
            it.seq() == s@,
            forall|k: int| 0 <= k < it.index() ==> seen@.contains(#[trigger] code_of(s@[k])),
            forall|code: u32| #[trigger]
                seen@.contains(code) ==> exists|k: int|
                    0 <= k < it.index() && code_of(s@[k]) == code,
            !has_duplicate_chars(s@.take(it.index())),
    {
        let code: u32 = code_point(ch);
        if seen.contains(&code) {
            proof {
                let k = choose|k: int| 0 <= k < it.index() && code_of(s@[k]) == code;
                lemma_code_point_injective(s@[k], s@[it.index()]);
            }
            return true;
        }
        seen.insert(code);
        proof {
            let next = s@.take(it.index() + 1);
            assert forall|i: int, j: int| 0 <= i < j < next.len() implies next[i] != next[j] by {
                if j < it.index() {
                    assert(s@.take(it.index())[i] == s@[i]);
                    assert(s@.take(it.index())[j] == s@[j]);
                }
            }
        }
    }
    assert(s@.take(s@.len() as int) == s@);
    false
}

/// The characters of `s`, in order.
pub fn chars_of(s: &str) -> (chars: Vec<char>)
    ensures
        chars@ == s@,
{
    broadcast use vstd::string::group_string_axioms;

    let mut chars: Vec<char> = Vec::new();
    for ch in it: s.chars()
        invariant
            it.seq() == s@,
            chars@ == s@.take(it.index()),
    {
        chars.push(ch);
        assert(s@.take(it.index() + 1) == s@.take(it.index()).push(s@[it.index()]));
    }
    assert(s@.take(s@.len() as int) == s@);
    chars
}

} // verus!
