use bf::Action;
use bf::CodeMemory;
use bf::DataMemory;
use bf::Event;
use bf::Machine;
use bf::Progress;
use bf::RunError;
use std::io::Error;
use std::io::ErrorKind;

fn machine(source: &str, size: usize) -> Machine {
    Machine::new(CodeMemory::from_str(source), DataMemory::new_with_size(size))
}

fn failure() -> Event {
    Event::Failed(Error::new(ErrorKind::Other, "failed"))
}

#[test]
fn new_machine_starts_at_the_first_token() {
    let machine = machine("+-", 3);
    assert_eq!(machine.code().position(), 0);
    assert_eq!(machine.memory().position(), 0);
    assert_eq!(machine.memory().size(), 3);
    assert_eq!(machine.progress(), Progress::Running);
}

#[test]
fn action_tells_what_the_token_needs() {
    assert_eq!(machine("", 3).action(), Action::Halt);
    assert_eq!(machine(",", 3).action(), Action::Read);
    assert_eq!(machine(".", 3).action(), Action::Write(0));
    for source in ["+", "-", ">", "<", "[", "]"] {
        assert_eq!(machine(source, 3).action(), Action::Continue, "{}", source);
    }
    let mut written = machine("+++.", 3);
    for _ in 0..3 {
        written.advance(Event::Idle).unwrap();
    }
    assert_eq!(written.action(), Action::Write(3));
}

#[test]
fn io_tokens_ask_for_nothing_off_the_tape() {
    assert_eq!(machine(".", 0).action(), Action::Continue);
    assert_eq!(machine(",", 0).action(), Action::Continue);
}

#[test]
fn advance_stores_what_was_read() {
    let mut machine = machine(",", 3);
    assert!(matches!(machine.advance(Event::Received(-7)), Ok(Progress::Halted)));
    assert_eq!(machine.memory().read(), -7);
    assert_eq!(machine.code().position(), 1);
}

#[test]
fn advance_passes_a_written_token() {
    let mut machine = machine(".+", 3);
    assert!(matches!(machine.advance(Event::Written), Ok(Progress::Running)));
    assert_eq!(machine.code().position(), 1);
    assert_eq!(machine.memory().read(), 0);
}

#[test]
fn advance_hands_on_the_failure() {
    for source in [",", "."] {
        let mut machine = machine(source, 3);
        match machine.advance(Event::Failed(Error::new(ErrorKind::TimedOut, "slow"))) {
            Err(RunError::Io(error)) => assert_eq!(error.kind(), ErrorKind::TimedOut),
            other => panic!("expected an IO error, got {:?}", other),
        }
        assert_eq!(machine.code().position(), 0);
        assert_eq!(machine.memory().read(), 0);
    }
}

#[test]
fn event_that_answers_nothing_changes_nothing() {
    let mut reading = machine(",", 3);
    assert!(matches!(reading.advance(Event::Idle), Ok(Progress::Running)));
    assert!(matches!(reading.advance(Event::Written), Ok(Progress::Running)));
    assert_eq!(reading.code().position(), 0);
    let mut writing = machine(".", 3);
    assert!(matches!(writing.advance(Event::Idle), Ok(Progress::Running)));
    assert!(matches!(writing.advance(Event::Received(4)), Ok(Progress::Running)));
    assert_eq!(writing.code().position(), 0);
    assert_eq!(writing.memory().read(), 0);
    let mut adding = machine("+", 3);
    assert!(matches!(adding.advance(Event::Written), Ok(Progress::Running)));
    assert!(matches!(adding.advance(Event::Received(4)), Ok(Progress::Running)));
    assert!(matches!(adding.advance(failure()), Ok(Progress::Running)));
    assert_eq!(adding.code().position(), 0);
    assert_eq!(adding.memory().read(), 0);
    assert!(matches!(adding.advance(Event::Idle), Ok(Progress::Halted)));
    assert_eq!(adding.memory().read(), 1);
}

#[test]
fn halted_machine_stays_halted() {
    let mut machine = machine("+", 3);
    assert!(matches!(machine.advance(Event::Idle), Ok(Progress::Halted)));
    assert_eq!(machine.progress(), Progress::Halted);
    assert_eq!(machine.action(), Action::Halt);
    for event in [Event::Idle, Event::Written, Event::Received(1), failure()] {
        assert!(matches!(machine.advance(event), Ok(Progress::Halted)));
        assert_eq!(machine.code().position(), 1);
        assert_eq!(machine.memory().read(), 1);
    }
}

#[test]
fn loop_is_entered_repeated_and_left() {
    let mut machine = machine("++[-]+", 3);
    let mut positions = Vec::new();
    while machine.progress() == Progress::Running {
        positions.push(machine.code().position());
        machine.advance(Event::Idle).unwrap();
    }
    assert_eq!(positions, vec![0, 1, 2, 3, 4, 3, 4, 5]);
    assert_eq!(machine.memory().read(), 1);
}

#[test]
fn loop_with_zero_cell_is_skipped_in_one_cycle() {
    let mut machine = machine("[[-]+]+", 3);
    assert!(matches!(machine.advance(Event::Idle), Ok(Progress::Running)));
    assert_eq!(machine.code().position(), 6);
    assert!(matches!(machine.advance(Event::Idle), Ok(Progress::Halted)));
    assert_eq!(machine.memory().read(), 1);
}

#[test]
fn error_leaves_the_machine_as_it_was() {
    let mut machine = machine("+>]", 2);
    machine.advance(Event::Idle).unwrap();
    machine.advance(Event::Idle).unwrap();
    for _ in 0..3 {
        assert!(matches!(machine.advance(Event::Idle), Err(RunError::UnmatchedCloseLoop(_))));
        assert_eq!(machine.code().position(), 2);
        assert_eq!(machine.memory().position(), 1);
    }
}
