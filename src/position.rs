//! Row and column bookkeeping over a character buffer.
use vstd::prelude::*;

verus! {

/// A 1-based (row, column) position, as a pair of mathematical integers.
pub type Pos = (nat, nat);

/// Whether the character at `k` is a line feed that completes a CR+LF pair
/// (such a line feed does not start another row).
pub open spec fn lf_after_cr(s: Seq<char>, k: int) -> bool {
    &&& 1 <= k < s.len()
    &&& s[k] == '\n'
    &&& s[k - 1] == '\r'
}

/// The position that follows the character at index `k`, which stands at `p`.
pub open spec fn step_over(s: Seq<char>, k: int, p: Pos) -> Pos {
    if lf_after_cr(s, k) {
        p
    } else if s[k] == '\r' || s[k] == '\n' {
        ((p.0 + 1) as nat, 1nat)
    } else {
        (p.0, (p.1 + 1) as nat)
    }
}

/// The position of the character at index `k` of `s`: CR and LF start a
/// new row at column 1 (a CR+LF pair counts once), any other character
/// moves one column right.
pub open spec fn pos_at(s: Seq<char>, k: int) -> Pos
    decreases k,
{
    if k <= 0 {
        (1nat, 1nat)
    } else {
        step_over(s, k - 1, pos_at(s, k - 1))
    }
}

/// Rows and columns start at 1 and grow by at most one per character.
pub proof fn lemma_pos_bounds(s: Seq<char>, k: int)
    requires
        0 <= k,
    ensures
        1 <= pos_at(s, k).0 <= k + 1,
        1 <= pos_at(s, k).1 <= k + 1,
    decreases k,
{
    if k > 0 {
        lemma_pos_bounds(s, k - 1);
    }
}

} // verus!
