//! Validity of record names at the query boundary.
//!
//! The registry's lookup primitive is modelled after a null-terminated
//! string interface: a name that embeds a null character can never be
//! stored in, nor found by, the registry.

use vstd::prelude::*;
use vstd::string::StrSliceExecFns;

verus! {

/// A name may cross the record keeper's boundary only if it embeds no
/// null character.
pub open spec fn nul_free(s: Seq<char>) -> bool {
    forall|i: int| 0 <= i < s.len() ==> s[i] != '\0'
}

/// The names a sequence of strings spells, character for character.
pub open spec fn name_seq(names: Seq<String>) -> Seq<Seq<char>> {
    names.map_values(|s: String| s@)
}

/// Executable check that a name embeds no null character.
pub fn str_nul_free(s: &str) -> (r: bool)
    ensures
        r == nul_free(s@),
{
    let n: usize = s.unicode_len();
    let mut i: usize = 0;
    while i < n
        invariant
            n == s@.len(),
            i <= n,
            forall|j: int| 0 <= j < i ==> s@[j] != '\0',
        decreases n - i,
    {
        if s.get_char(i) == '\0' {
            return false;
        }
        i += 1;
    }
    true
}

} // verus!
