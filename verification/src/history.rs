//! What a run of the search leaves in its two records.
//!
//! A run is given by its first candidate, its iteration limit and the
//! results of the writes it asked for, in order. The progress record holds
//! the candidates whose append succeeded, the fault record the values whose
//! append succeeded. A run that is cut off from outside is a run with fewer
//! events, so every statement here holds at every moment of a run.

use crate::conjecture::{lemma_holds_leaves_room, verdict, Fault};
use crate::driver::{Action, Event, Halt, Phase, Search, FAILURE_STATUS};
use vstd::prelude::*;

verus! {

/// A run of the search, as far as it has come: where it started, the
/// iteration limit it grants, and how each write it has asked for went.
pub ghost struct Run {
    pub start: u128,
    pub iteration_limit: u64,
    pub events: Seq<Event>,
}

impl Run {
    /// The run before its last event.
    pub open spec fn earlier(self) -> Run {
        Run {
            start: self.start,
            iteration_limit: self.iteration_limit,
            events: self.events.drop_last(),
        }
    }

    /// The run after one more event.
    pub open spec fn with(self, event: Event) -> Run {
        Run {
            start: self.start,
            iteration_limit: self.iteration_limit,
            events: self.events.push(event),
        }
    }

    /// The run after the events `later`, one after the other.
    pub open spec fn followed_by(self, later: Seq<Event>) -> Run {
        Run {
            start: self.start,
            iteration_limit: self.iteration_limit,
            events: self.events + later,
        }
    }

    /// The search as the run has left it.
    pub open spec fn search(self) -> Search
        decreases self.events.len(),
    {
        if self.events.len() == 0 {
            Search::starting_at(self.start, self.iteration_limit)
        } else {
            self.earlier().search().after(self.events.last())
        }
    }

    /// The progress record: the candidates that the search asked to append
    /// and whose append succeeded, in the order of the appends.
    pub open spec fn progress(self) -> Seq<u128>
        decreases self.events.len(),
    {
        if self.events.len() == 0 {
            Seq::empty()
        } else {
            match self.earlier().search().pending() {
                Action::AppendProgress { candidate } if self.events.last() == Event::Written => {
                    self.earlier().progress().push(candidate)
                },
                _ => self.earlier().progress(),
            }
        }
    }

    /// The fault record: the values that the search asked to append and
    /// whose append succeeded, in the order of the appends.
    pub open spec fn faults(self) -> Seq<u128>
        decreases self.events.len(),
    {
        if self.events.len() == 0 {
            Seq::empty()
        } else {
            match self.earlier().search().pending() {
                Action::AppendFault { at } if self.events.last() == Event::Written => {
                    self.earlier().faults().push(at)
                },
                _ => self.earlier().faults(),
            }
        }
    }

    /// The two records agree with the phase of the search.
    ///
    /// While a candidate waits to be recorded, the progress record holds
    /// every candidate before it and the fault record is empty. Once a
    /// candidate has failed, it is the last entry of the progress record,
    /// the fault is the one that its verdict reports, and the fault record
    /// holds nothing but the value of the fault, at most once, and only
    /// after the search has halted.
    pub open spec fn records_agree(self) -> bool {
        match self.search().phase {
            Phase::Recording { candidate } => {
                &&& candidate == self.start + self.progress().len()
                &&& self.faults().len() == 0
            },
            Phase::Reporting { fault } => {
                &&& self.progress().len() > 0
                &&& verdict(self.progress().last(), self.iteration_limit as nat).fault_of()
                    == Some(fault)
                &&& self.faults().len() == 0
            },
            Phase::Halted { cause: Halt::ProgressWriteFailed { candidate } } => {
                &&& candidate == self.start + self.progress().len()
                &&& self.faults().len() == 0
            },
            Phase::Halted { cause: Halt::Fault { fault } } => {
                &&& self.progress().len() > 0
                &&& verdict(self.progress().last(), self.iteration_limit as nat).fault_of()
                    == Some(fault)
                &&& self.faults().len() <= 1
                &&& self.faults().len() == 1 ==> self.faults()[0] == fault.at
            },
        }
    }
}

/// `record` holds `start`, `start + 1`, ... in this order, with no gap and
/// nothing twice.
pub open spec fn consecutive_from(start: u128, record: Seq<u128>) -> bool {
    forall|i: int| 0 <= i < record.len() ==> #[trigger] record[i] == start + i
}

/// No entry of `record` is below the entry before it or more than one
/// above it.
pub open spec fn rises_by_at_most_one(record: Seq<u128>) -> bool {
    forall|i: int|
        0 <= i && i + 1 < record.len() ==> #[trigger] record[i] <= record[i + 1] <= record[i] + 1
}

/// Every candidate from `start` to the last entry of `record` is an entry
/// of `record`.
pub open spec fn skips_nothing(start: u128, record: Seq<u128>) -> bool {
    forall|candidate: u128|
        record.len() > 0 && start <= candidate <= record.last() ==> #[trigger] record.contains(
            candidate,
        )
}

/// At every moment of every run the search keeps its iteration limit, the
/// progress record is consecutive from the first candidate, and the records
/// agree with the phase of the search.
pub proof fn lemma_run_keeps_records(run: Run)
    ensures
        run.search().iteration_limit == run.iteration_limit,
        consecutive_from(run.start, run.progress()),
        run.records_agree(),
    decreases run.events.len(),
{
    if run.events.len() > 0 {
        lemma_run_keeps_records(run.earlier());
        match run.earlier().search().phase {
            Phase::Recording { candidate } => {
                if verdict(candidate, run.iteration_limit as nat) is Holds {
                    lemma_holds_leaves_room(candidate, run.iteration_limit as nat);
                }
            },
            Phase::Reporting { .. } => {},
            Phase::Halted { .. } => {},
        }
    }
}

/// The progress record, read in order, begins with the first candidate of
/// the run and increases strictly, by one from each entry to the next.
pub proof fn lemma_progress_record_increases(run: Run)
    ensures
        run.progress().len() > 0 ==> run.progress()[0] == run.start,
        forall|i: int, j: int|
            0 <= i < j < run.progress().len() ==> #[trigger] run.progress()[i]
                < #[trigger] run.progress()[j],
        forall|i: int|
            0 <= i && i + 1 < run.progress().len() ==> #[trigger] run.progress()[i] + 1
                == run.progress()[i + 1],
{
    lemma_run_keeps_records(run);
}

/// A search that is cut off after it has recorded a candidate and is run
/// again from that candidate, or from the one after it, goes on where the
/// first run stopped: in the two progress records read one after the other,
/// no entry is below the entry before it or more than one above it, and
/// every candidate from the first to the last entry is there.
pub proof fn lemma_resumption_leaves_no_gap(run: Run, resumed: Run)
    requires
        run.progress().len() > 0,
        resumed.start == run.progress().last() || resumed.start == run.progress().last() + 1,
    ensures
        rises_by_at_most_one(run.progress() + resumed.progress()),
        skips_nothing(run.start, run.progress() + resumed.progress()),
{
    let first = run.progress();
    let joined = first + resumed.progress();
    lemma_run_keeps_records(run);
    lemma_run_keeps_records(resumed);
    assert forall|candidate: u128| run.start <= candidate <= joined.last() implies joined.contains(
        candidate,
    ) by {
        if candidate <= first.last() {
            assert(joined[candidate - run.start] == candidate);
        } else {
            assert(joined[first.len() + (candidate - resumed.start)] == candidate);
        }
    }
}

/// Whatever happens in a run, the fault record never holds more than one
/// entry, and it holds none unless the search has halted on a fault.
pub proof fn lemma_fault_record_has_at_most_one_entry(run: Run)
    ensures
        run.faults().len() <= 1,
        run.faults().len() == 1 ==> run.search().phase is Halted,
{
    lemma_run_keeps_records(run);
}

/// Where the verification of a candidate has just failed with `fault`, that
/// candidate is the last entry of the progress record, `fault` is what its
/// verdict reports, and the fault record is still empty. The search asks for
/// the value of the fault to be appended to the fault record. If that write
/// succeeds the fault record holds exactly this one entry; if it fails the
/// fault record stays empty. Either way the progress record is left as it
/// is, the search has then halted on `fault`, and what it asks for next is
/// the end of the process.
pub proof fn lemma_fault_is_recorded_once(run: Run, fault: Fault, event: Event)
    requires
        run.search().phase == (Phase::Reporting { fault }),
    ensures
        run.progress().len() > 0,
        verdict(run.progress().last(), run.iteration_limit as nat).fault_of() == Some(fault),
        run.search().pending() == (Action::AppendFault { at: fault.at }),
        run.faults().len() == 0,
        run.with(Event::Written).faults() == seq![fault.at],
        run.with(Event::WriteFailed).faults().len() == 0,
        run.with(event).progress() == run.progress(),
        run.with(event).search().phase == (Phase::Halted { cause: Halt::Fault { fault } }),
        run.with(event).search().pending() == (Action::Exit { status: FAILURE_STATUS }),
{
    lemma_run_keeps_records(run);
    assert(run.events.push(Event::Written).drop_last() =~= run.events);
    assert(run.events.push(Event::WriteFailed).drop_last() =~= run.events);
    assert(run.events.push(event).drop_last() =~= run.events);
    assert(run.with(Event::Written).faults() =~= seq![fault.at]);
}

/// A halted search writes nothing more: whatever events follow, the search
/// and both records stay as they were when the search halted.
pub proof fn lemma_halted_run_writes_nothing(run: Run, later: Seq<Event>)
    requires
        run.search().phase is Halted,
    ensures
        run.followed_by(later).search() == run.search(),
        run.followed_by(later).progress() == run.progress(),
        run.followed_by(later).faults() == run.faults(),
    decreases later.len(),
{
    if later.len() == 0 {
        assert(run.events + later =~= run.events);
    } else {
        lemma_halted_run_writes_nothing(run, later.drop_last());
        assert((run.events + later).drop_last() =~= run.events + later.drop_last());
    }
}

} // verus!
