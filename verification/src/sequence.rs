//! The Collatz step on unbounded naturals and on `u128`.

use vstd::prelude::*;

verus! {

/// The Collatz successor of `m` over the naturals: half of an even number,
/// three times an odd number plus one.
pub open spec fn next(m: nat) -> nat {
    if m % 2 == 0 {
        m / 2
    } else {
        3 * m + 1
    }
}

/// The value reached from `n` after `k` applications of [`next`].
pub open spec fn orbit(n: nat, k: nat) -> nat
    decreases k,
{
    if k == 0 {
        n
    } else {
        orbit(next(n), (k - 1) as nat)
    }
}

/// Whether `m` can be held in a `u128`.
pub open spec fn representable(m: nat) -> bool {
    m <= u128::MAX
}

/// What [`step`] returns: the successor of `m`, or `None` where the
/// successor does not fit in a `u128`.
pub open spec fn checked_next(m: u128) -> Option<u128> {
    if representable(next(m as nat)) {
        Some(next(m as nat) as u128)
    } else {
        None
    }
}

/// One Collatz step on a `u128`, without wrapping or truncation.
///
/// An even `m` is halved, which cannot overflow. For an odd `m` both the
/// multiplication by three and the addition of one are checked, and `None`
/// is returned as soon as either would leave the range of `u128`.
pub fn step(m: u128) -> (r: Option<u128>)
    ensures
        r == checked_next(m),
        m % 2 == 0 ==> r == Some((m / 2) as u128),
        m % 2 == 0 && m > 0 ==> r is Some && r->0 < m,
        m % 2 == 1 && 3 * m + 1 <= u128::MAX ==> r == Some((3 * m + 1) as u128),
        m % 2 == 1 && 3 * m + 1 > u128::MAX ==> r is None,
{
    if m % 2 == 0 {
        Some(m / 2)
    } else {
        match m.checked_mul(3) {
            None => None,
            Some(tripled) => tripled.checked_add(1),
        }
    }
}

} // verus!
