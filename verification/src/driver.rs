//! The search loop as a state machine.
//!
//! The search examines the candidates `start`, `start + 1`, ... without end.
//! Each candidate is first appended to the progress record and then
//! verified; the first candidate that fails is appended to the fault record
//! and the search halts. The machine decides; its caller performs each
//! [`Action`] and hands back, as an [`Event`], how the write went.

use crate::conjecture::{lemma_holds_leaves_room, verdict, verify, Fault};
use vstd::prelude::*;

verus! {

/// The status with which the process exits when the search halts. The
/// search has no successful end, so there is no other status.
pub const FAILURE_STATUS: i32 = 1;

/// How the write that the last [`Action`] asked for went.
#[derive(Clone, Copy, Debug, PartialEq, Eq, Structural)]
pub enum Event {
    /// The line was appended.
    Written,
    /// The line could not be appended.
    WriteFailed,
}

/// What the caller is to do next.
#[derive(Clone, Copy, Debug, PartialEq, Eq, Structural)]
pub enum Action {
    /// Append `candidate` to the progress record.
    AppendProgress { candidate: u128 },
    /// Append `at` to the fault record. A failure of this write changes
    /// nothing in what follows.
    AppendFault { at: u128 },
    /// End the process with `status`.
    Exit { status: i32 },
}

/// Why the search halted.
#[derive(Clone, Copy, Debug, PartialEq, Eq, Structural)]
pub enum Halt {
    /// `candidate` could not be appended to the progress record. It was not
    /// verified.
    ProgressWriteFailed { candidate: u128 },
    /// The verification of a candidate failed with `fault`. Whether
    /// `fault.at` reached the fault record is not kept.
    Fault { fault: Fault },
}

/// Where the search stands.
#[derive(Clone, Copy, Debug, PartialEq, Eq, Structural)]
pub enum Phase {
    /// The append of `candidate` to the progress record is awaited.
    /// `candidate` has not been verified yet.
    Recording { candidate: u128 },
    /// The last candidate failed with `fault`, and the append of `fault.at`
    /// to the fault record is awaited.
    Reporting { fault: Fault },
    /// The search is over.
    Halted { cause: Halt },
}

/// A search: the iteration limit granted to every candidate, and the phase
/// that the search is in.
#[derive(Clone, Copy, Debug, PartialEq, Eq, Structural)]
pub struct Search {
    pub iteration_limit: u64,
    pub phase: Phase,
}

impl Search {
    /// The search that is about to record `start` as its first candidate.
    pub open spec fn starting_at(start: u128, iteration_limit: u64) -> Search {
        Search { iteration_limit, phase: Phase::Recording { candidate: start } }
    }

    /// The action that the search waits for in its present phase.
    pub open spec fn pending(self) -> Action {
        match self.phase {
            Phase::Recording { candidate } => Action::AppendProgress { candidate },
            Phase::Reporting { fault } => Action::AppendFault { at: fault.at },
            Phase::Halted { .. } => Action::Exit { status: FAILURE_STATUS },
        }
    }

    /// The phase that follows the present one once `event` has come in.
    ///
    /// A candidate is verified only after it has been recorded. Where it
    /// holds, the next candidate is to be recorded; where it fails, the
    /// fault is to be reported, and the search halts whether or not that
    /// report can be written. A halted search stays as it is.
    pub open spec fn phase_after(self, event: Event) -> Phase {
        match self.phase {
            Phase::Recording { candidate } => match event {
                Event::WriteFailed => Phase::Halted {
                    cause: Halt::ProgressWriteFailed { candidate },
                },
                Event::Written => match verdict(
                    candidate,
                    self.iteration_limit as nat,
                ).fault_of() {
                    None => Phase::Recording { candidate: (candidate + 1) as u128 },
                    Some(fault) => Phase::Reporting { fault },
                },
            },
            Phase::Reporting { fault } => Phase::Halted { cause: Halt::Fault { fault } },
            Phase::Halted { cause } => Phase::Halted { cause },
        }
    }

    /// The search once `event` has come in.
    pub open spec fn after(self, event: Event) -> Search {
        Search { iteration_limit: self.iteration_limit, phase: self.phase_after(event) }
    }

    /// A search that begins with the candidate `start` and grants every
    /// candidate `iteration_limit` steps.
    pub fn new(start: u128, iteration_limit: u64) -> (search: Search)
        ensures
            search == Search::starting_at(start, iteration_limit),
    {
        Search { iteration_limit, phase: Phase::Recording { candidate: start } }
    }

    /// The action that the caller is to perform now.
    pub fn action(&self) -> (action: Action)
        ensures
            action == self.pending(),
    {
        match self.phase {
            Phase::Recording { candidate } => Action::AppendProgress { candidate },
            Phase::Reporting { fault } => Action::AppendFault { at: fault.at },
            Phase::Halted { .. } => Action::Exit { status: FAILURE_STATUS },
        }
    }

    /// Takes in how the pending write went and moves to the next phase.
    ///
    /// When the progress record has taken the candidate, the candidate is
    /// verified here, with the search's iteration limit.
    pub fn advance(self, event: Event) -> (search: Search)
        ensures
            search == self.after(event),
    {
        let phase = match self.phase {
            Phase::Recording { candidate } => match event {
                Event::WriteFailed => Phase::Halted {
                    cause: Halt::ProgressWriteFailed { candidate },
                },
                Event::Written => match verify(candidate, self.iteration_limit).fault() {
                    None => {
                        proof {
                            lemma_holds_leaves_room(candidate, self.iteration_limit as nat);
                        }
                        Phase::Recording { candidate: candidate + 1 }
                    },
                    Some(fault) => Phase::Reporting { fault },
                },
            },
            Phase::Reporting { fault } => Phase::Halted { cause: Halt::Fault { fault } },
            Phase::Halted { cause } => Phase::Halted { cause },
        };
        Search { iteration_limit: self.iteration_limit, phase }
    }
}

} // verus!
