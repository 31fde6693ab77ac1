//! Vault mounts: host subtrees bound into a room by explicit policy,
//! read-only unless the policy says otherwise. The in-room target path is
//! validated before any room state is created.

use vstd::prelude::*;

verus! {

/// One vault bind-mount requested by policy.
pub struct VaultMount {
    /// Host path of the subtree handed into the room.
    pub source: String,
    /// Absolute in-room path the subtree appears at.
    pub target: String,
    /// Whether the room sees the subtree read-only.
    pub readonly: bool,
}

/// Ghost image of a vault mount.
pub struct VaultView {
    pub source: Seq<char>,
    pub target: Seq<char>,
    pub readonly: bool,
}

impl View for VaultMount {
    type V = VaultView;

    open spec fn view(&self) -> VaultView {
        VaultView { source: self.source@, target: self.target@, readonly: self.readonly }
    }
}

impl Clone for VaultMount {
    fn clone(&self) -> (r: Self)
        ensures
            r.source@ == self.source@,
            r.target@ == self.target@,
            r.readonly == self.readonly,
    {
        VaultMount { source: self.source.clone(), target: self.target.clone(), readonly: self.readonly }
    }
}

/// A `..` path segment starts at index `i` of `t`.
pub open spec fn spec_dotdot_segment_at(t: Seq<char>, i: int) -> bool {
    &&& 0 <= i
    &&& i + 2 <= t.len()
    &&& t[i] == '.'
    &&& t[i + 1] == '.'
    &&& (i == 0 || t[i - 1] == '/')
    &&& (i + 2 == t.len() || t[i + 2] == '/')
}

/// A usable vault target: nonempty, absolute, no `//` run, no `..` segment.
pub open spec fn valid_vault_target(t: Seq<char>) -> bool {
    &&& 0 < t.len()
    &&& t[0] == '/'
    &&& (forall|i: int| 0 <= i && i + 1 < t.len() ==> !((#[trigger] t[i]) == '/' && t[i + 1] == '/'))
    &&& (forall|i: int| !spec_dotdot_segment_at(t, i))
}

/// Decides `valid_vault_target`.
pub fn check_vault_target(t: &str) -> (r: bool)
    ensures
        r == valid_vault_target(t@),
{
    let n = t.unicode_len();
    if n == 0 {
        return false;
    }
    if t.get_char(0) != '/' {
        return false;
    }
    let mut i: usize = 0;
    while n - i > 1
        invariant
            0 <= i <= n,
            n == t@.len(),
            forall|j: int| 0 <= j && j + 1 < i + 1 && j + 1 < n ==> !((#[trigger] t@[j]) == '/' && t@[j + 1]
                == '/'),
        decreases n - i,
    {
        if t.get_char(i) == '/' && t.get_char(i + 1) == '/' {
            return false;
        }
        i += 1;
    }
    let mut i: usize = 0;
    while n - i >= 2
        invariant
            0 <= i <= n,
            n == t@.len(),
            forall|j: int| j < i ==> !spec_dotdot_segment_at(t@, j),
        decreases n - i,
    {
        if t.get_char(i) == '.' && t.get_char(i + 1) == '.' && (i == 0 || t.get_char(i - 1) == '/')
            && (i + 2 == n || t.get_char(i + 2) == '/') {
            proof {
                assert(spec_dotdot_segment_at(t@, i as int));
            }
            return false;
        }
        i += 1;
    }
    proof {
        assert(forall|j: int| j >= i ==> !spec_dotdot_segment_at(t@, j));
    }
    true
}

} // verus!
