//! Verification of a single candidate: follow its Collatz sequence until it
//! reaches 1, until a step would overflow `u128`, or until the iteration
//! budget is spent.

use crate::sequence::{checked_next, next, orbit, representable, step};
use vstd::prelude::*;

verus! {

/// The number of steps granted to each candidate by [`testa_collatz`].
///
/// The budget bounds the work spent on one candidate. It is a heuristic: a
/// sequence that is still running when the budget is spent has not been
/// shown to diverge.
pub const ITERATION_BUDGET: u64 = 10_000_000;

/// Why the verification of a candidate failed.
#[derive(Clone, Copy, Debug, PartialEq, Eq, Structural)]
pub enum FaultKind {
    /// The next value of the sequence does not fit in a `u128`.
    Overflow,
    /// The iteration budget was spent before the sequence reached 1.
    BudgetExhausted,
}

/// A failed verification: the kind of failure and the value of the sequence
/// at which it was detected.
#[derive(Clone, Copy, Debug, PartialEq, Eq, Structural)]
pub struct Fault {
    pub kind: FaultKind,
    pub at: u128,
}

/// The result of verifying one candidate.
#[derive(Clone, Copy, Debug, PartialEq, Eq, Structural)]
pub enum Outcome {
    /// The sequence reached 1 within the iteration limit.
    Holds,
    /// The successor of `at` does not fit in a `u128`. `at` is the last value
    /// that could be held, not the value that could not.
    Overflow { at: u128 },
    /// As many steps as the limit allows were taken, none of them overflowed,
    /// and the value `at` that the last of them produced is not 1.
    BudgetExhausted { at: u128 },
}

impl Outcome {
    /// The failure that this outcome reports, if it reports one.
    pub open spec fn fault_of(self) -> Option<Fault> {
        match self {
            Outcome::Holds => None,
            Outcome::Overflow { at } => Some(Fault { kind: FaultKind::Overflow, at }),
            Outcome::BudgetExhausted { at } => Some(Fault { kind: FaultKind::BudgetExhausted, at }),
        }
    }

    /// The failure that this outcome reports, with its kind kept apart, or
    /// `None` for [`Outcome::Holds`].
    pub fn fault(self) -> (f: Option<Fault>)
        ensures
            f == self.fault_of(),
    {
        match self {
            Outcome::Holds => None,
            Outcome::Overflow { at } => Some(Fault { kind: FaultKind::Overflow, at }),
            Outcome::BudgetExhausted { at } => Some(Fault { kind: FaultKind::BudgetExhausted, at }),
        }
    }
}

/// The outcome of verifying `n` with `limit` steps to spend.
///
/// The test for 1 comes first, so a candidate that is 1 holds without a step
/// and a sequence that reaches 1 with its last permitted step holds too. The
/// budget is looked at next, and only then is a step attempted.
pub open spec fn verdict(n: u128, limit: nat) -> Outcome
    decreases limit,
{
    if n == 1 {
        Outcome::Holds
    } else if limit == 0 {
        Outcome::BudgetExhausted { at: n }
    } else {
        match checked_next(n) {
            None => Outcome::Overflow { at: n },
            Some(m) => verdict(m, (limit - 1) as nat),
        }
    }
}

/// The number of steps taken before [`verdict`] is reached.
pub open spec fn steps_taken(n: u128, limit: nat) -> nat
    decreases limit,
{
    if n == 1 || limit == 0 {
        0
    } else {
        match checked_next(n) {
            None => 0,
            Some(m) => 1 + steps_taken(m, (limit - 1) as nat),
        }
    }
}

/// The first `k` values of the sequence of `n` all allow a step: none of
/// them is 1 and each has a successor that fits in a `u128`.
pub open spec fn unimpeded(n: nat, k: nat) -> bool {
    forall|j: nat| j < k ==> #[trigger] orbit(n, j) != 1 && representable(next(orbit(n, j)))
}

/// The sequence of `n` reaches 1 after at most `limit` steps, none of which
/// overflows.
pub open spec fn reaches_one_within(n: nat, limit: nat) -> bool {
    exists|k: nat| k <= limit && unimpeded(n, k) && #[trigger] orbit(n, k) == 1
}

/// The sequence of `n` arrives at `at` after fewer than `limit` steps
/// without passing 1, and the successor of `at` does not fit in a `u128`.
pub open spec fn overflows_at(n: nat, limit: nat, at: nat) -> bool {
    exists|k: nat|
        k < limit && unimpeded(n, k) && #[trigger] orbit(n, k) == at && at != 1 && !representable(
            next(at),
        )
}

/// The sequence of `n` takes `limit` steps without overflow and without
/// meeting 1, and the last of them produces `at`.
pub open spec fn exhausts_at(n: nat, limit: nat, at: nat) -> bool {
    unimpeded(n, limit) && orbit(n, limit) == at && at != 1
}

/// `outcome` is a true account of the sequence of `n` after `k` steps under
/// the limit `limit`: the sequence stands at the value that the outcome
/// names, for the reason that the outcome gives.
pub open spec fn describes(outcome: Outcome, n: nat, limit: nat, k: nat) -> bool {
    match outcome {
        Outcome::Holds => k <= limit && orbit(n, k) == 1,
        Outcome::Overflow { at } => {
            &&& k < limit
            &&& orbit(n, k) == at
            &&& at != 1
            &&& !representable(next(at as nat))
        },
        Outcome::BudgetExhausted { at } => {
            &&& k == limit
            &&& orbit(n, k) == at
            &&& at != 1
        },
    }
}

/// The verdict describes the sequence: [`steps_taken`] steps are taken, each
/// of them permitted, and the verdict is a true account of where the
/// sequence then stands.
pub proof fn lemma_verdict_follows_orbit(n: u128, limit: nat)
    ensures
        unimpeded(n as nat, steps_taken(n, limit)),
        describes(verdict(n, limit), n as nat, limit, steps_taken(n, limit)),
    decreases limit,
{
    if n == 1 || limit == 0 {
    } else {
        match checked_next(n) {
            None => {},
            Some(m) => {
                let rest = (limit - 1) as nat;
                lemma_verdict_follows_orbit(m, rest);
                let k = steps_taken(m, rest);
                assert forall|j: nat| j < k + 1 implies #[trigger] orbit(n as nat, j) != 1
                    && representable(next(orbit(n as nat, j))) by {
                    if j > 0 {
                        assert(orbit(n as nat, j) == orbit(m as nat, (j - 1) as nat));
                    }
                }
            },
        }
    }
}

/// A sequence halts at one place only: where two numbers of steps are both
/// unimpeded and the sequence cannot go on from either, they are the same
/// number.
pub proof fn lemma_halt_is_unique(n: nat, i: nat, j: nat)
    requires
        unimpeded(n, i),
        unimpeded(n, j),
        orbit(n, i) == 1 || !representable(next(orbit(n, i))),
        orbit(n, j) == 1 || !representable(next(orbit(n, j))),
    ensures
        i == j,
{
    if i < j {
        assert(orbit(n, i) != 1 && representable(next(orbit(n, i))));
    } else if j < i {
        assert(orbit(n, j) != 1 && representable(next(orbit(n, j))));
    }
}

/// [`Outcome::Holds`] is the verdict exactly where the sequence reaches 1
/// within the limit.
pub proof fn lemma_holds_iff_reaches_one(n: u128, limit: nat)
    ensures
        verdict(n, limit) is Holds <==> reaches_one_within(n as nat, limit),
{
    lemma_verdict_follows_orbit(n, limit);
    let s = steps_taken(n, limit);
    if reaches_one_within(n as nat, limit) {
        let k = choose|k: nat|
            k <= limit && unimpeded(n as nat, k) && #[trigger] orbit(n as nat, k) == 1;
        match verdict(n, limit) {
            Outcome::Holds => {},
            Outcome::Overflow { .. } => {
                lemma_halt_is_unique(n as nat, k, s);
            },
            Outcome::BudgetExhausted { .. } => {
                if k < limit {
                    assert(orbit(n as nat, k) != 1);
                }
            },
        }
    }
}

/// [`Outcome::Overflow`] at `at` is the verdict exactly where the sequence
/// comes to `at` within the limit and cannot take its next step in `u128`.
pub proof fn lemma_overflow_iff_overflows(n: u128, limit: nat, at: u128)
    ensures
        verdict(n, limit) == (Outcome::Overflow { at }) <==> overflows_at(
            n as nat,
            limit,
            at as nat,
        ),
{
    lemma_verdict_follows_orbit(n, limit);
    let s = steps_taken(n, limit);
    if overflows_at(n as nat, limit, at as nat) {
        let k = choose|k: nat|
            k < limit && unimpeded(n as nat, k) && #[trigger] orbit(n as nat, k) == at as nat && at
                != 1 && !representable(next(at as nat));
        match verdict(n, limit) {
            Outcome::Holds => {
                lemma_halt_is_unique(n as nat, k, s);
            },
            Outcome::Overflow { .. } => {
                lemma_halt_is_unique(n as nat, k, s);
            },
            Outcome::BudgetExhausted { .. } => {
                assert(representable(next(orbit(n as nat, k))));
            },
        }
    }
}

/// [`Outcome::BudgetExhausted`] at `at` is the verdict exactly where the
/// sequence takes every step that the limit allows and then stands at `at`,
/// which is not 1.
pub proof fn lemma_budget_exhausted_iff_exhausts(n: u128, limit: nat, at: u128)
    ensures
        verdict(n, limit) == (Outcome::BudgetExhausted { at }) <==> exhausts_at(
            n as nat,
            limit,
            at as nat,
        ),
{
    lemma_verdict_follows_orbit(n, limit);
    let s = steps_taken(n, limit);
    if exhausts_at(n as nat, limit, at as nat) {
        match verdict(n, limit) {
            Outcome::Holds => {
                if s < limit {
                    assert(orbit(n as nat, s) != 1);
                }
            },
            Outcome::Overflow { .. } => {
                assert(representable(next(orbit(n as nat, s))));
            },
            Outcome::BudgetExhausted { .. } => {},
        }
    }
}

/// Verifies the candidate `n`, taking at most `iteration_limit` steps.
///
/// The result is [`Outcome::Holds`] where the sequence of `n` reaches 1
/// within the limit, [`Outcome::Overflow`] where it comes to a value whose
/// successor does not fit in a `u128`, and [`Outcome::BudgetExhausted`]
/// where the limit is spent first. No wrapped or truncated value is ever
/// computed.
pub fn verify(n: u128, iteration_limit: u64) -> (out: Outcome)
    ensures
        out == verdict(n, iteration_limit as nat),
        out is Holds <==> reaches_one_within(n as nat, iteration_limit as nat),
        forall|at: u128|
            out == (Outcome::Overflow { at }) <==> #[trigger] overflows_at(
                n as nat,
                iteration_limit as nat,
                at as nat,
            ),
        forall|at: u128|
            out == (Outcome::BudgetExhausted { at }) <==> #[trigger] exhausts_at(
                n as nat,
                iteration_limit as nat,
                at as nat,
            ),
        n == 1 ==> out is Holds,
        n % 2 == 1 && 3 * n + 1 > u128::MAX && iteration_limit > 0 ==> out == (Outcome::Overflow {
            at: n,
        }),
{
    let mut current: u128 = n;
    let mut remaining: u64 = iteration_limit;
    let mut out = Outcome::Holds;
    loop
        invariant_except_break
            verdict(current, remaining as nat) == verdict(n, iteration_limit as nat),
        ensures
            out == verdict(n, iteration_limit as nat),
        decreases remaining,
    {
        if current == 1 {
            out = Outcome::Holds;
            break ;
        }
        if remaining == 0 {
            out = Outcome::BudgetExhausted { at: current };
            break ;
        }
        match step(current) {
            None => {
                out = Outcome::Overflow { at: current };
                break ;
            },
            Some(following) => {
                current = following;
                remaining = remaining - 1;
            },
        }
    }
    proof {
        lemma_holds_iff_reaches_one(n, iteration_limit as nat);
        assert forall|at: u128|
            out == (Outcome::Overflow { at }) <==> #[trigger] overflows_at(
                n as nat,
                iteration_limit as nat,
                at as nat,
            ) by {
            lemma_overflow_iff_overflows(n, iteration_limit as nat, at);
        }
        assert forall|at: u128|
            out == (Outcome::BudgetExhausted { at }) <==> #[trigger] exhausts_at(
                n as nat,
                iteration_limit as nat,
                at as nat,
            ) by {
            lemma_budget_exhausted_iff_exhausts(n, iteration_limit as nat, at);
        }
    }
    out
}

/// The candidate 1 holds under every limit, and no step is spent on it.
pub proof fn lemma_one_holds_at_once(limit: nat)
    ensures
        verdict(1, limit) is Holds,
        steps_taken(1, limit) == 0,
{
}

/// A candidate whose sequence reaches 1 is below `u128::MAX`, so the
/// candidate after it can be held: `u128::MAX` itself is odd and has no
/// successor in `u128`.
pub proof fn lemma_holds_leaves_room(n: u128, limit: nat)
    requires
        verdict(n, limit) is Holds,
    ensures
        n < u128::MAX,
{
}

/// The outcome as the search reports it: both kinds of failure give the
/// value at which the failure was detected, with nothing to tell them apart.
pub open spec fn conflated(outcome: Outcome) -> Result<(), u128> {
    match outcome.fault_of() {
        None => Ok(()),
        Some(fault) => Err(fault.at),
    }
}

/// Verifies the candidate `n` with [`ITERATION_BUDGET`] steps to spend.
///
/// `Ok` means that the sequence of `n` reached 1. `Err` carries the value at
/// which the verification failed, whether a step would have overflowed there
/// or the budget was spent there: the two are reported alike, although a
/// spent budget proves nothing about the sequence.
pub fn testa_collatz(n: u128) -> (r: Result<(), u128>)
    ensures
        r == conflated(verdict(n, ITERATION_BUDGET as nat)),
        r is Ok <==> reaches_one_within(n as nat, ITERATION_BUDGET as nat),
        forall|at: u128|
            r == Err::<(), u128>(at) <==> #[trigger] overflows_at(
                n as nat,
                ITERATION_BUDGET as nat,
                at as nat,
            ) || exhausts_at(n as nat, ITERATION_BUDGET as nat, at as nat),
{
    match verify(n, ITERATION_BUDGET).fault() {
        None => Ok(()),
        Some(fault) => Err(fault.at),
    }
}

} // verus!
