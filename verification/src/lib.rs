//! Search for counterexamples to the Collatz conjecture, one candidate at a
//! time, with every arithmetic step checked against the width of `u128`.
//!
//! * [`sequence`] defines the Collatz step, over the naturals and on `u128`.
//! * [`conjecture`] follows the sequence of one candidate until it reaches 1,
//!   would overflow, or runs out of its iteration budget.
//! * [`driver`] is the search loop as a state machine: it decides what is
//!   written to the progress record and to the fault record, and when the
//!   search halts. The caller performs the writes.
//! * [`history`] states what a run of the search leaves in the two records,
//!   whenever it is cut off and however its writes go.
//! * [`record`] is the text form of a record line and of a starting value.

pub mod sequence;
pub mod conjecture;
pub mod driver;
pub mod history;
pub mod record;
