use collatz_search::conjecture::{verify, Fault, FaultKind, ITERATION_BUDGET};
use collatz_search::driver::{Action, Event, Halt, Phase, Search, FAILURE_STATUS};

const THIRD_OF_MAX: u128 = 0x5555_5555_5555_5555_5555_5555_5555_5555;

/// What a run leaves behind.
struct Run {
    search: Search,
    progress: Vec<u128>,
    faults: Vec<u128>,
    exits: Vec<i32>,
}

/// Runs a search as a caller would: performs each action against records
/// held in memory, and answers each write with the next of `events`. The run
/// ends when the events are used up or the search asks to exit.
fn run(start: u128, iteration_limit: u64, events: &[Event]) -> Run {
    let mut out = Run {
        search: Search::new(start, iteration_limit),
        progress: Vec::new(),
        faults: Vec::new(),
        exits: Vec::new(),
    };
    for event in events {
        match out.search.action() {
            Action::AppendProgress { candidate } => {
                if *event == Event::Written {
                    out.progress.push(candidate);
                }
            }
            Action::AppendFault { at } => {
                if *event == Event::Written {
                    out.faults.push(at);
                }
            }
            Action::Exit { status } => {
                out.exits.push(status);
                return out;
            }
        }
        out.search = out.search.advance(*event);
    }
    out
}

#[test]
fn failure_status_is_one() {
    assert_eq!(FAILURE_STATUS, 1);
}

#[test]
fn a_new_search_records_its_start_first() {
    let search = Search::new(7, 100);
    assert_eq!(search.iteration_limit, 100);
    assert_eq!(search.phase, Phase::Recording { candidate: 7 });
    assert_eq!(search.action(), Action::AppendProgress { candidate: 7 });
}

#[test]
fn a_candidate_that_holds_is_followed_by_the_next() {
    let mut search = Search::new(1, ITERATION_BUDGET);
    for candidate in 1..200u128 {
        assert_eq!(search.action(), Action::AppendProgress { candidate });
        search = search.advance(Event::Written);
        assert_eq!(search.phase, Phase::Recording { candidate: candidate + 1 });
        assert_eq!(search.iteration_limit, ITERATION_BUDGET);
    }
}

#[test]
fn a_failed_progress_write_halts_before_verification() {
    // The candidate would fail verification; it is never verified.
    let search = Search::new(u128::MAX, ITERATION_BUDGET).advance(Event::WriteFailed);
    assert_eq!(
        search.phase,
        Phase::Halted { cause: Halt::ProgressWriteFailed { candidate: u128::MAX } }
    );
    assert_eq!(search.action(), Action::Exit { status: 1 });

    let search = Search::new(1, ITERATION_BUDGET)
        .advance(Event::Written)
        .advance(Event::Written)
        .advance(Event::WriteFailed);
    assert_eq!(search.phase, Phase::Halted { cause: Halt::ProgressWriteFailed { candidate: 3 } });
    assert_eq!(search.action(), Action::Exit { status: 1 });
}

#[test]
fn an_overflow_is_reported_and_halts_the_search() {
    let fault = Fault { kind: FaultKind::Overflow, at: THIRD_OF_MAX };
    let search = Search::new(2 * THIRD_OF_MAX, ITERATION_BUDGET);
    assert_eq!(search.action(), Action::AppendProgress { candidate: 2 * THIRD_OF_MAX });
    let search = search.advance(Event::Written);
    assert_eq!(search.phase, Phase::Reporting { fault });
    assert_eq!(search.action(), Action::AppendFault { at: THIRD_OF_MAX });
    let search = search.advance(Event::Written);
    assert_eq!(search.phase, Phase::Halted { cause: Halt::Fault { fault } });
    assert_eq!(search.action(), Action::Exit { status: 1 });
}

#[test]
fn a_spent_budget_is_reported_like_an_overflow() {
    let fault = Fault { kind: FaultKind::BudgetExhausted, at: 214 };
    let search = Search::new(27, 10).advance(Event::Written);
    assert_eq!(search.phase, Phase::Reporting { fault });
    assert_eq!(search.action(), Action::AppendFault { at: 214 });
    let search = search.advance(Event::Written);
    assert_eq!(search.phase, Phase::Halted { cause: Halt::Fault { fault } });
    assert_eq!(search.action(), Action::Exit { status: 1 });
}

#[test]
fn a_failed_fault_write_is_swallowed() {
    let fault = Fault { kind: FaultKind::Overflow, at: u128::MAX };
    let search = Search::new(u128::MAX, ITERATION_BUDGET).advance(Event::Written);
    assert_eq!(search.action(), Action::AppendFault { at: u128::MAX });
    let search = search.advance(Event::WriteFailed);
    assert_eq!(search.phase, Phase::Halted { cause: Halt::Fault { fault } });
    assert_eq!(search.action(), Action::Exit { status: 1 });
}

#[test]
fn a_halted_search_stays_halted() {
    let halted = Search::new(5, 3).advance(Event::WriteFailed);
    assert_eq!(halted.advance(Event::Written), halted);
    assert_eq!(halted.advance(Event::WriteFailed), halted);

    let halted = Search::new(27, 10).advance(Event::Written).advance(Event::Written);
    assert_eq!(halted.advance(Event::Written), halted);
    assert_eq!(halted.advance(Event::WriteFailed), halted);
    assert_eq!(halted.advance(Event::Written).action(), Action::Exit { status: 1 });
}

#[test]
fn the_progress_record_counts_up_from_the_start() {
    let events = [Event::Written; 500];
    let out = run(1000, ITERATION_BUDGET, &events);
    assert_eq!(out.progress.len(), 500);
    assert_eq!(out.progress[0], 1000);
    for i in 1..out.progress.len() {
        assert_eq!(out.progress[i], out.progress[i - 1] + 1);
        assert!(out.progress[i - 1] < out.progress[i]);
    }
    assert_eq!(out.search.phase, Phase::Recording { candidate: 1500 });
    assert!(out.faults.is_empty());
    assert!(out.exits.is_empty());
}

#[test]
fn every_candidate_is_recorded_before_it_is_verified() {
    // With five steps allowed, 1 and 2 hold and 3 stops at 4.
    let events = [Event::Written; 10];
    let out = run(1, 5, &events);
    assert_eq!(out.progress, vec![1, 2, 3]);
    assert_eq!(out.faults, vec![4]);
    assert_eq!(out.exits, vec![1]);
    assert_eq!(verify(3, 5).fault(), Some(Fault { kind: FaultKind::BudgetExhausted, at: 4 }));
}

#[test]
fn a_natural_overflow_leaves_one_fault_entry() {
    let start: u128 = 1 << 126;
    let at: u128 = 127605887595351923798765477786913079301;
    let events = [Event::Written; 20];
    let out = run(start, ITERATION_BUDGET, &events);
    assert_eq!(out.progress, vec![start, start + 1, start + 2, start + 3]);
    assert_eq!(out.faults, vec![at]);
    assert_eq!(out.exits, vec![1]);
    let fault = Fault { kind: FaultKind::Overflow, at };
    assert_eq!(verify(start + 3, ITERATION_BUDGET).fault(), Some(fault));
    assert_eq!(out.search.phase, Phase::Halted { cause: Halt::Fault { fault } });
}

#[test]
fn an_unwritable_fault_record_stays_empty() {
    let events = [Event::Written, Event::WriteFailed, Event::Written];
    let out = run(u128::MAX, ITERATION_BUDGET, &events);
    assert_eq!(out.progress, vec![u128::MAX]);
    assert!(out.faults.is_empty());
    assert_eq!(out.exits, vec![1]);
}

#[test]
fn an_unwritable_progress_record_stays_empty() {
    let events = [Event::WriteFailed, Event::Written, Event::Written];
    let out = run(1, ITERATION_BUDGET, &events);
    assert!(out.progress.is_empty());
    assert!(out.faults.is_empty());
    assert_eq!(out.exits, vec![1]);
    assert_eq!(
        out.search.phase,
        Phase::Halted { cause: Halt::ProgressWriteFailed { candidate: 1 } }
    );
}

#[test]
fn a_search_resumed_at_the_last_recorded_candidate_repeats_only_that_one() {
    // The first run is cut off after 50 has been recorded.
    let first = run(40, ITERATION_BUDGET, &[Event::Written; 11]);
    assert_eq!(*first.progress.last().unwrap(), 50);
    let second = run(50, ITERATION_BUDGET, &[Event::Written; 10]);
    let mut joined = first.progress.clone();
    joined.extend(second.progress.iter());
    assert_eq!(joined.len(), 21);
    for i in 1..joined.len() {
        assert!(joined[i - 1] <= joined[i] && joined[i] <= joined[i - 1] + 1);
    }
    for candidate in 40..60u128 {
        assert!(joined.contains(&candidate));
    }
    assert_eq!(joined.iter().filter(|c| **c == 50).count(), 2);
}

#[test]
fn a_search_resumed_after_the_last_recorded_candidate_leaves_no_gap() {
    let first = run(40, ITERATION_BUDGET, &[Event::Written; 11]);
    assert_eq!(*first.progress.last().unwrap(), 50);
    let second = run(51, ITERATION_BUDGET, &[Event::Written; 10]);
    let mut joined = first.progress.clone();
    joined.extend(second.progress.iter());
    let expected: Vec<u128> = (40..61).collect();
    assert_eq!(joined, expected);
}
