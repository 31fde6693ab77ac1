//! Room identifiers. An id is an opaque short name supplied by the control
//! caller; it is used as a directory and cgroup leaf name, so it must be a
//! single whitespace-free token that contains neither `/` nor `..`.

use vstd::prelude::*;

use crate::text::is_space;
use crate::text::is_space_char;

verus! {

/// A usable room id: nonempty, no whitespace, no `/`, no `..`.
pub open spec fn valid_room_id(s: Seq<char>) -> bool {
    &&& 0 < s.len()
    &&& (forall|i: int| 0 <= i < s.len() ==> !is_space_char(s[i]) && s[i] != '/')
    &&& (forall|i: int| 0 <= i && i + 1 < s.len() ==> !((#[trigger] s[i]) == '.' && s[i + 1] == '.'))
}

/// Decides `valid_room_id`.
pub fn check_room_id(id: &str) -> (r: bool)
    ensures
        r == valid_room_id(id@),
{
    let n = id.unicode_len();
    if n == 0 {
        return false;
    }
    let mut i: usize = 0;
    while i < n
        invariant
            0 <= i <= n,
            n == id@.len(),
            forall|j: int| 0 <= j < i ==> !is_space_char(id@[j]) && id@[j] != '/',
        decreases n - i,
    {
        let c = id.get_char(i);
        if is_space(c) || c == '/' {
            return false;
        }
        i += 1;
    }
    let mut i: usize = 0;
    while n - i > 1
        invariant
            0 <= i <= n,
            n == id@.len(),
            forall|j: int| 0 <= j && j + 1 < i + 1 && j + 1 < n ==> !((#[trigger] id@[j]) == '.' && id@[j + 1]
                == '.'),
        decreases n - i,
    {
        if id.get_char(i) == '.' && id.get_char(i + 1) == '.' {
            return false;
        }
        i += 1;
    }
    true
}

} // verus!
