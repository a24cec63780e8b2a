use bf::BrainfuckInterpreter;
use bf::CodeMemory;
use bf::DataMemory;
use bf::IOResult;
use bf::IOSystem;
use bf::Machine;
use bf::Progress;
use bf::RunError;
use std::io::Error;
use std::io::ErrorKind;

/// Input from a list, output into a list, and a count of the calls.
struct Script {
    input: Vec<i64>,
    output: Vec<i64>,
    reads: usize,
    writes: usize,
    broken_output: bool,
}

impl Script {
    fn new(input: &[i64]) -> Self {
        Script {
            input: input.to_vec(),
            output: Vec::new(),
            reads: 0,
            writes: 0,
            broken_output: false,
        }
    }

    fn broken(input: &[i64]) -> Self {
        Script { broken_output: true, ..Script::new(input) }
    }
}

impl IOSystem for Script {
    fn read(&mut self) -> IOResult<i64> {
        self.reads += 1;
        if self.input.is_empty() {
            Err(Error::new(ErrorKind::UnexpectedEof, "no input left"))
        } else {
            Ok(self.input.remove(0))
        }
    }

    fn write(&mut self, value: i64) -> IOResult<()> {
        self.writes += 1;
        if self.broken_output {
            return Err(Error::new(ErrorKind::BrokenPipe, "output closed"));
        }
        self.output.push(value);
        Ok(())
    }
}

/// Runs `source` on a tape of `size` cells for at most `max_steps` cycles.
fn run_on(
    source: &str,
    size: usize,
    io: Script,
    max_steps: u64,
) -> (Result<Progress, RunError>, Machine, Script) {
    let mut machine = Machine::new(CodeMemory::from_str(source), DataMemory::new_with_size(size));
    let mut interpreter = BrainfuckInterpreter::new(io);
    let result = interpreter.run(&mut machine, max_steps);
    (result, machine, interpreter.into_io())
}

fn halted(result: &Result<Progress, RunError>) -> bool {
    matches!(result, Ok(Progress::Halted))
}

#[test]
fn echo_copies_one_byte() {
    let mut machine = Machine::new(CodeMemory::from_str(",."), DataMemory::new());
    let mut interpreter = BrainfuckInterpreter::new(Script::new(&[65]));
    let result = interpreter.run(&mut machine, 1000);
    assert!(halted(&result));
    let io = interpreter.into_io();
    assert_eq!(io.output, vec![65]);
    assert_eq!(io.reads, 1);
    assert_eq!(io.writes, 1);
    assert_eq!(machine.memory().read(), 65);
}

#[test]
fn three_increments_print_three() {
    let (result, machine, io) = run_on("+++.", 30_000, Script::new(&[]), 1000);
    assert!(halted(&result));
    assert_eq!(io.output, vec![3]);
    assert_eq!(io.reads, 0);
    assert_eq!(machine.memory().read(), 3);
    assert_eq!(machine.code().position(), 4);
}

#[test]
fn clearing_loop_leaves_zero_without_io() {
    let (result, machine, io) = run_on("+[-]", 30_000, Script::new(&[9]), 1000);
    assert!(halted(&result));
    assert_eq!(machine.memory().read(), 0);
    assert_eq!(machine.memory().position(), 0);
    assert_eq!(machine.code().position(), 4);
    assert_eq!(io.reads, 0);
    assert_eq!(io.writes, 0);
    assert!(io.output.is_empty());
}

#[test]
fn unmatched_close_loop_fails_at_once() {
    let (result, machine, io) = run_on("]", 30_000, Script::new(&[1, 2, 3]), 1000);
    match result {
        Err(RunError::UnmatchedCloseLoop(token)) => {
            assert_eq!(token.line, 1);
            assert_eq!(token.column, 1);
        }
        other => panic!("expected an unmatched close-loop, got {:?}", other),
    }
    assert_eq!(io.reads, 0);
    assert_eq!(io.writes, 0);
    assert_eq!(machine.code().position(), 0);
}

#[test]
fn unmatched_close_loop_fails_on_any_tape() {
    for size in [0usize, 1, 5] {
        let mut memory = DataMemory::new_with_size(size);
        if size > 0 {
            memory.write(-3);
        }
        let mut machine = Machine::new(CodeMemory::from_str("]"), memory);
        let mut interpreter = BrainfuckInterpreter::new(Script::new(&[]));
        let result = interpreter.run(&mut machine, 10);
        assert!(matches!(result, Err(RunError::UnmatchedCloseLoop(_))));
        let io = interpreter.into_io();
        assert_eq!(io.reads + io.writes, 0);
    }
}

#[test]
fn close_loop_after_a_left_loop_is_unmatched() {
    let (result, machine, _) = run_on("+[-]\n  ]", 8, Script::new(&[]), 1000);
    match result {
        Err(RunError::UnmatchedCloseLoop(token)) => {
            assert_eq!((token.line, token.column), (2, 3));
        }
        other => panic!("expected an unmatched close-loop, got {:?}", other),
    }
    assert_eq!(machine.code().position(), 4);
}

#[test]
fn empty_program_halts_at_once() {
    let (result, _, io) = run_on("", 4, Script::new(&[1]), 0);
    assert!(halted(&result));
    assert_eq!(io.reads + io.writes, 0);
    let (result, _, _) = run_on("just words", 4, Script::new(&[]), 5);
    assert!(halted(&result));
}

#[test]
fn nested_loops_multiply() {
    let (result, machine, io) = run_on("++++[>+++[>+<-]<-]>>.", 30_000, Script::new(&[]), 10_000);
    assert!(halted(&result));
    assert_eq!(io.output, vec![12]);
    assert_eq!(machine.memory().position(), 2);
    assert_eq!(machine.memory().read(), 12);
}

#[test]
fn input_is_copied_until_zero() {
    let (result, _, io) = run_on(",[.,]", 16, Script::new(&[72, 105, 33, 0, 99]), 10_000);
    assert!(halted(&result));
    assert_eq!(io.output, vec![72, 105, 33]);
    assert_eq!(io.reads, 4);
    assert_eq!(io.input, vec![99]);
}

#[test]
fn output_is_the_whole_cell() {
    let (result, _, io) = run_on("-.,.", 4, Script::new(&[1_000_000]), 100);
    assert!(halted(&result));
    assert_eq!(io.output, vec![-1, 1_000_000]);
}

#[test]
fn skipped_loop_does_nothing() {
    let (result, machine, io) = run_on("[+.>,]>+", 4, Script::new(&[5]), 100);
    assert!(halted(&result));
    assert_eq!(io.reads + io.writes, 0);
    assert_eq!(machine.memory().position(), 1);
    assert_eq!(machine.memory().read(), 1);
}

#[test]
fn unmatched_open_loop_with_zero_cell_runs_to_the_end() {
    let (result, machine, io) = run_on("[+.", 4, Script::new(&[]), 100);
    assert!(halted(&result));
    assert_eq!(io.writes, 0);
    assert_eq!(machine.memory().read(), 0);
    assert_eq!(machine.code().position(), 3);
}

#[test]
fn unmatched_open_loop_with_nonzero_cell_runs_its_body_once() {
    let (result, machine, io) = run_on("+[+.", 4, Script::new(&[]), 100);
    assert!(halted(&result));
    assert_eq!(io.output, vec![2]);
    assert_eq!(machine.code().position(), 4);
}

#[test]
fn failed_read_stops_the_run() {
    let (result, machine, io) = run_on("+,+.", 4, Script::new(&[]), 100);
    match result {
        Err(RunError::Io(error)) => assert_eq!(error.kind(), ErrorKind::UnexpectedEof),
        other => panic!("expected an IO error, got {:?}", other),
    }
    assert_eq!(io.reads, 1);
    assert_eq!(io.writes, 0);
    assert_eq!(machine.code().position(), 1);
    assert_eq!(machine.memory().read(), 1);
}

#[test]
fn failed_write_stops_the_run() {
    let (result, machine, io) = run_on("++.+.", 4, Script::broken(&[]), 100);
    match result {
        Err(RunError::Io(error)) => assert_eq!(error.kind(), ErrorKind::BrokenPipe),
        other => panic!("expected an IO error, got {:?}", other),
    }
    assert_eq!(io.writes, 1);
    assert_eq!(machine.code().position(), 2);
    assert_eq!(machine.memory().read(), 2);
}

#[test]
fn moving_before_the_first_cell_is_out_of_bounds() {
    let (result, machine, _) = run_on("+<+", 4, Script::new(&[]), 100);
    match result {
        Err(RunError::OutOfBounds(token)) => assert_eq!((token.line, token.column), (1, 2)),
        other => panic!("expected out of bounds, got {:?}", other),
    }
    assert_eq!(machine.memory().position(), 0);
    assert_eq!(machine.memory().read(), 1);
    assert_eq!(machine.code().position(), 1);
}

#[test]
fn moving_past_the_last_cell_is_out_of_bounds() {
    let (result, machine, _) = run_on(">>\n>+", 3, Script::new(&[]), 100);
    match result {
        Err(RunError::OutOfBounds(token)) => assert_eq!((token.line, token.column), (2, 1)),
        other => panic!("expected out of bounds, got {:?}", other),
    }
    assert_eq!(machine.memory().position(), 2);
    assert_eq!(machine.code().position(), 2);
}

#[test]
fn empty_tape_has_no_cell_to_work_on() {
    for source in ["+", "-", ".", ",", "[", ">", "<"] {
        let (result, _, io) = run_on(source, 0, Script::new(&[1]), 100);
        assert!(matches!(result, Err(RunError::OutOfBounds(_))), "{}", source);
        assert_eq!(io.reads + io.writes, 0, "{}", source);
    }
}

#[test]
fn budget_stops_an_endless_loop() {
    let (result, machine, io) = run_on("+[]", 4, Script::new(&[]), 1001);
    assert!(matches!(result, Ok(Progress::Running)));
    assert_eq!(machine.memory().read(), 1);
    assert_eq!(io.reads + io.writes, 0);
}

#[test]
fn budget_counts_cycles() {
    let (result, machine, _) = run_on("+++++", 4, Script::new(&[]), 3);
    assert!(matches!(result, Ok(Progress::Running)));
    assert_eq!(machine.memory().read(), 3);
    assert_eq!(machine.code().position(), 3);
    let (result, machine, _) = run_on("+++++", 4, Script::new(&[]), 5);
    assert!(halted(&result));
    assert_eq!(machine.memory().read(), 5);
    let (result, machine, _) = run_on("+++++", 4, Script::new(&[]), 0);
    assert!(matches!(result, Ok(Progress::Running)));
    assert_eq!(machine.memory().read(), 0);
}

#[test]
fn run_can_be_taken_up_again() {
    let mut machine = Machine::new(CodeMemory::from_str("++[>++<-]>."), DataMemory::new());
    let mut interpreter = BrainfuckInterpreter::new(Script::new(&[]));
    let mut rounds = 0;
    loop {
        match interpreter.run(&mut machine, 2) {
            Ok(Progress::Running) => rounds += 1,
            Ok(Progress::Halted) => break,
            Err(error) => panic!("the run failed: {:?}", error),
        }
    }
    assert_eq!(rounds, 8);
    assert_eq!(interpreter.into_io().output, vec![4]);
}

#[test]
fn step_runs_one_cycle() {
    let mut machine = Machine::new(CodeMemory::from_str("+."), DataMemory::new());
    let mut interpreter = BrainfuckInterpreter::new(Script::new(&[]));
    assert!(matches!(interpreter.step(&mut machine), Ok(Progress::Running)));
    assert_eq!(machine.code().position(), 1);
    assert!(matches!(interpreter.step(&mut machine), Ok(Progress::Halted)));
    assert_eq!(machine.code().position(), 2);
    assert!(matches!(interpreter.step(&mut machine), Ok(Progress::Halted)));
    assert_eq!(machine.code().position(), 2);
    let io = interpreter.into_io();
    assert_eq!(io.output, vec![1]);
    assert_eq!(io.writes, 1);
}

#[test]
fn cells_wrap_in_a_run() {
    let mut memory = DataMemory::new_with_size(1);
    memory.write(i64::MAX);
    let mut machine = Machine::new(CodeMemory::from_str("+.--."), memory);
    let mut interpreter = BrainfuckInterpreter::new(Script::new(&[]));
    assert!(halted(&interpreter.run(&mut machine, 100)));
    assert_eq!(interpreter.into_io().output, vec![i64::MIN, i64::MAX - 1]);
}

#[test]
fn run_starts_at_the_code_cursor() {
    let mut code = CodeMemory::from_str("+++.");
    code.move_to(2);
    let mut machine = Machine::new(code, DataMemory::new());
    let mut interpreter = BrainfuckInterpreter::new(Script::new(&[]));
    assert!(halted(&interpreter.run(&mut machine, 100)));
    assert_eq!(interpreter.into_io().output, vec![1]);
}
