//! The Brainfuck state machine: a code sequence, a tape and the stack of the
//! loops that are being repeated.
//!
//! The machine does no input or output itself. Before each instruction it
//! says what it needs ([`Action`]); whoever drives it does that and hands
//! back what came of it ([`Event`]).

use crate::code_memory::scan_to_close;
use crate::code_memory::CodeMemory;
use crate::code_memory::CodeView;
use crate::data_memory::predecessor;
use crate::data_memory::successor;
use crate::data_memory::DataMemory;
use crate::data_memory::TapeView;
use crate::nesting::lemma_innermost_open_loop;
use crate::nesting::lemma_innermost_open_loop_matches;
use crate::nesting::lemma_nesting_by_last;
use crate::nesting::lemma_open_loops_stay;
use crate::nesting::lemma_skipped_loop_is_closed;
use crate::nesting::lemma_well_nested_loops_close;
use crate::nesting::nesting;
use crate::nesting::open_loops;
use crate::nesting::well_nested;
use crate::tokenizer::CodeDebugToken;
use crate::tokenizer::CodeToken;
use vstd::prelude::*;

verus! {

/// Why a run stopped before the end of the program.
#[derive(Debug)]
pub enum RunError {
    /// The input or output operation of the instruction failed.
    Io(std::io::Error),
    /// The token closes a loop, and no loop is open.
    UnmatchedCloseLoop(CodeDebugToken),
    /// The token needs the current cell or moves the cursor, and the cursor
    /// is, or would be, off the tape.
    OutOfBounds(CodeDebugToken),
}

/// Whether a machine has reached the end of its program.
#[derive(Debug, Clone, Copy, PartialEq, Eq, Structural)]
pub enum Progress {
    /// There is a token under the code cursor.
    Running,
    /// The code cursor is past the last token.
    Halted,
}

/// What the machine needs done before it can execute its next instruction.
#[derive(Debug, Clone, Copy, PartialEq, Eq, Structural)]
pub enum Action {
    /// Nothing: the program has ended.
    Halt,
    /// Nothing: the instruction does no input or output.
    Continue,
    /// The value is to be written to the output stream.
    Write(i64),
    /// A value is to be read from the input stream.
    Read,
}

/// What came of an [`Action`].
#[derive(Debug)]
pub enum Event {
    /// Nothing was to be done.
    Idle,
    /// The value was written.
    Written,
    /// This value was read.
    Received(i64),
    /// The operation failed.
    Failed(std::io::Error),
}

impl Action {
    /// Whether `event` is an outcome of this action.
    pub open spec fn accepts(self, event: Event) -> bool {
        match self {
            Action::Halt | Action::Continue => event is Idle,
            Action::Write(_) => event is Written || event is Failed,
            Action::Read => event is Received || event is Failed,
        }
    }
}

/// What a [`Machine`] holds.
pub struct MachineState {
    /// The program and the code cursor.
    pub code: CodeView,
    /// The tape and the data cursor.
    pub memory: TapeView,
    /// The positions of the open-loop tokens of the loops being repeated,
    /// innermost last.
    pub loops: Seq<usize>,
}

impl MachineState {
    /// The state in which a run of `code` on `memory` starts.
    pub open spec fn start(code: CodeView, memory: TapeView) -> MachineState {
        MachineState { code, memory, loops: Seq::empty() }
    }

    /// The program is no longer than a `usize` can count, and every saved
    /// loop position is the position of a token.
    pub open spec fn wf(self) -> bool {
        &&& self.code.tokens.len() <= usize::MAX
        &&& forall|i: int| 0 <= i < self.loops.len() ==> self.loops[i] < self.code.tokens.len()
    }

    /// Whether the saved loop positions are the loops that are open around
    /// the code cursor, as they are at the start of a program and stay
    /// while a well-nested program runs.
    pub open spec fn in_step(self) -> bool {
        &&& self.code.position <= self.code.tokens.len()
        &&& self.loops == open_loops(self.code.tokens, self.code.position)
    }

    /// Whether the program has ended.
    pub open spec fn progress(self) -> Progress {
        if self.code.current() is None {
            Progress::Halted
        } else {
            Progress::Running
        }
    }

    /// What the next instruction needs from outside. An input or output
    /// instruction met with the data cursor off the tape needs nothing: it
    /// fails before it reads or writes.
    pub open spec fn action(self) -> Action {
        match self.code.current() {
            None => Action::Halt,
            Some(at) => if at.token == CodeToken::Output && self.memory.in_bounds() {
                Action::Write(self.memory.current())
            } else if at.token == CodeToken::Input && self.memory.in_bounds() {
                Action::Read
            } else {
                Action::Continue
            },
        }
    }

    /// This state with the code cursor past the token under it.
    pub open spec fn advanced(self) -> MachineState {
        MachineState { code: self.code.passed(), ..self }
    }

    /// This state with `memory` for its tape and the code cursor one token
    /// further.
    pub open spec fn advanced_with(self, memory: TapeView) -> MachineState {
        MachineState { memory, ..self.advanced() }
    }

    /// This state after the loop that opens under the code cursor was
    /// skipped: the code cursor is past the matching close-loop token, or at
    /// the end of the stream if there is none.
    pub open spec fn skipped(self) -> MachineState {
        MachineState { code: self.code.at(self.code.matching_close()).passed(), ..self }
    }

    /// This state after the loop that opens under the code cursor was
    /// entered: its position is saved.
    pub open spec fn entered(self) -> MachineState {
        MachineState { loops: self.loops.push(self.code.position as usize), ..self.advanced() }
    }

    /// This state after the innermost loop was repeated: the code cursor is
    /// past the saved open-loop token, on the first token of the body.
    pub open spec fn repeated(self) -> MachineState {
        MachineState { code: self.code.at(self.loops.last() as nat).passed(), ..self }
    }

    /// This state after the innermost loop was left.
    pub open spec fn left(self) -> MachineState {
        MachineState { loops: self.loops.drop_last(), ..self.advanced() }
    }

    /// The effect of the token `at` under the code cursor, given the outcome
    /// `event` of the action that it asked for.
    pub open spec fn execute(self, at: CodeDebugToken, event: Event) -> Result<
        MachineState,
        RunError,
    > {
        let memory = self.memory;
        match at.token {
            CodeToken::Increment => if memory.in_bounds() {
                Ok(self.advanced_with(memory.with_current(successor(memory.current()))))
            } else {
                Err(RunError::OutOfBounds(at))
            },
            CodeToken::Decrement => if memory.in_bounds() {
                Ok(self.advanced_with(memory.with_current(predecessor(memory.current()))))
            } else {
                Err(RunError::OutOfBounds(at))
            },
            CodeToken::Next => if memory.has_next() {
                Ok(self.advanced_with(memory.at(memory.position + 1)))
            } else {
                Err(RunError::OutOfBounds(at))
            },
            CodeToken::Previous => if memory.has_previous() {
                Ok(self.advanced_with(memory.at((memory.position - 1) as nat)))
            } else {
                Err(RunError::OutOfBounds(at))
            },
            CodeToken::StartLoop => if !memory.in_bounds() {
                Err(RunError::OutOfBounds(at))
            } else if memory.current() == 0 {
                Ok(self.skipped())
            } else {
                Ok(self.entered())
            },
            CodeToken::EndLoop => if self.loops.len() == 0 {
                Err(RunError::UnmatchedCloseLoop(at))
            } else if !memory.in_bounds() {
                Err(RunError::OutOfBounds(at))
            } else if memory.current() != 0 {
                Ok(self.repeated())
            } else {
                Ok(self.left())
            },
            CodeToken::Output => if !memory.in_bounds() {
                Err(RunError::OutOfBounds(at))
            } else {
                match event {
                    Event::Failed(error) => Err(RunError::Io(error)),
                    _ => Ok(self.advanced()),
                }
            },
            CodeToken::Input => if !memory.in_bounds() {
                Err(RunError::OutOfBounds(at))
            } else {
                match event {
                    Event::Received(value) => Ok(self.advanced_with(memory.with_current(value))),
                    Event::Failed(error) => Err(RunError::Io(error)),
                    _ => Ok(self),
                }
            },
        }
    }

    /// One fetch-execute cycle. A machine that has halted stays as it is,
    /// and so does one that is handed an event that is no outcome of its
    /// pending action. Otherwise the token under the code cursor is
    /// executed; if that fails, the error says why.
    pub open spec fn step(self, event: Event) -> Result<MachineState, RunError> {
        match self.code.current() {
            Some(at) if self.action().accepts(event) => self.execute(at, event),
            _ => Ok(self),
        }
    }

    /// The state after one fetch-execute cycle, and how the cycle ended: with
    /// the program still running, with the program at its end, or with an
    /// error, which leaves the state as it was.
    pub open spec fn cycle(self, event: Event) -> (MachineState, Result<Progress, RunError>) {
        match self.step(event) {
            Ok(next) => (next, Ok(next.progress())),
            Err(error) => (self, Err(error)),
        }
    }

    /// The state after the cycles that `events` answer, one event each, and
    /// how they ended. The cycles stop at the first that fails and when the
    /// program has ended: events that come later change nothing.
    pub open spec fn run(self, events: Seq<Event>) -> (MachineState, Result<Progress, RunError>)
        decreases events.len(),
    {
        if events.len() == 0 {
            (self, Ok(self.progress()))
        } else {
            let (state, result) = self.run(events.drop_last());
            if result == Ok::<Progress, RunError>(Progress::Running) {
                state.cycle(events.last())
            } else {
                (state, result)
            }
        }
    }

    /// Whether `events` can be what came of the actions of a run from this
    /// state: each event is an outcome of the action that was pending when
    /// it came.
    pub open spec fn answered_by(self, events: Seq<Event>) -> bool
        decreases events.len(),
    {
        events.len() > 0 ==> {
            &&& self.answered_by(events.drop_last())
            &&& self.run(events.drop_last()).0.action().accepts(events.last())
        }
    }
}

/// A cycle leaves a well-formed state well-formed.
pub proof fn lemma_cycle_keeps_wf(state: MachineState, event: Event)
    requires
        state.wf(),
    ensures
        state.cycle(event).0.wf(),
{
}

/// A run leaves a well-formed state well-formed.
pub proof fn lemma_run_keeps_wf(state: MachineState, events: Seq<Event>)
    requires
        state.wf(),
    ensures
        state.run(events).0.wf(),
    decreases events.len(),
{
    if events.len() > 0 {
        lemma_run_keeps_wf(state, events.drop_last());
        lemma_cycle_keeps_wf(state.run(events.drop_last()).0, events.last());
    }
}

/// A run can be made in two parts: while the first part leaves the program
/// running, the second goes on from where it stopped; once the first part
/// has ended or failed, the second changes nothing.
pub proof fn lemma_run_in_parts(state: MachineState, first: Seq<Event>, second: Seq<Event>)
    ensures
        state.run(first + second) == if state.run(first).1 == Ok::<Progress, RunError>(
            Progress::Running,
        ) {
            state.run(first).0.run(second)
        } else {
            state.run(first)
        },
    decreases second.len(),
{
    if second.len() == 0 {
        assert(first + second == first);
        lemma_result_is_progress(state, first);
    } else {
        assert((first + second).drop_last() == first + second.drop_last());
        lemma_run_in_parts(state, first, second.drop_last());
    }
}

/// The result of a run that did not fail tells whether the program has ended
/// in the state that the run leaves.
pub proof fn lemma_result_is_progress(state: MachineState, events: Seq<Event>)
    ensures
        state.run(events).1 matches Ok(progress) ==> progress == state.run(events).0.progress(),
    decreases events.len(),
{
    if events.len() > 0 {
        lemma_result_is_progress(state, events.drop_last());
    }
}

/// A close-loop token met while no loop is open fails the run at once,
/// whatever the tape holds and wherever its cursor is: the token asks for no
/// input or output, its cycle fails with the unmatched close-loop error, and
/// the state stays as it was.
pub proof fn lemma_unmatched_close_fails(state: MachineState, at: CodeDebugToken, events: Seq<Event>)
    requires
        state.code.current() == Some(at),
        at.token == CodeToken::EndLoop,
        state.loops.len() == 0,
        events.len() > 0,
        state.answered_by(events),
    ensures
        state.action() == Action::Continue,
        state.run(events) == (state, Err::<Progress, RunError>(RunError::UnmatchedCloseLoop(at))),
    decreases events.len(),
{
    if events.len() > 1 {
        lemma_unmatched_close_fails(state, at, events.drop_last());
    } else {
        assert(events.drop_last().len() == 0);
    }
}

/// A run from the first token starts with the saved loop positions in step
/// with the code cursor: no loop is open and none is saved.
pub proof fn lemma_start_is_in_step(tokens: Seq<CodeDebugToken>, memory: TapeView)
    ensures
        MachineState::start(CodeView { tokens, position: 0 }, memory).in_step(),
{
}

/// A cycle of a well-nested program keeps the saved loop positions in step
/// with the code cursor: entering a loop saves the loop that opens there,
/// leaving one drops the loop that closes there, and skipping or repeating
/// one moves the cursor to where the same loops are open.
pub proof fn lemma_cycle_keeps_in_step(state: MachineState, event: Event)
    requires
        state.wf(),
        state.in_step(),
        well_nested(state.code.tokens),
    ensures
        state.cycle(event).0.in_step(),
{
    let tokens = state.code.tokens;
    let position = state.code.position;
    match state.code.current() {
        Some(at) if state.action().accepts(event) && state.step(event) is Ok => {
            if at.token == CodeToken::StartLoop {
                if state.memory.current() == 0 {
                    lemma_well_nested_loops_close(tokens, position);
                    lemma_skipped_loop_is_closed(tokens, position);
                }
            } else if at.token == CodeToken::EndLoop {
                lemma_innermost_open_loop(tokens, position);
                if state.memory.current() != 0 {
                    let open = state.loops.last();
                    assert(state.loops.drop_last().push(open) == state.loops);
                    assert(open_loops(tokens, open as nat + 1) == state.loops);
                }
            }
        },
        _ => {},
    }
}

/// A run of a well-nested program keeps the saved loop positions in step
/// with the code cursor.
pub proof fn lemma_run_keeps_in_step(state: MachineState, events: Seq<Event>)
    requires
        state.wf(),
        state.in_step(),
        well_nested(state.code.tokens),
    ensures
        state.run(events).0.wf(),
        state.run(events).0.in_step(),
        state.run(events).0.code.tokens == state.code.tokens,
    decreases events.len(),
{
    if events.len() > 0 {
        let before = state.run(events.drop_last()).0;
        lemma_run_keeps_in_step(state, events.drop_last());
        lemma_cycle_keeps_wf(before, events.last());
        lemma_cycle_keeps_in_step(before, events.last());
    }
}

/// While the saved loop positions are in step with the code cursor, a
/// close-loop token of a well-nested program always finds its loop saved,
/// and the saved position is that of the open-loop token that the forward
/// scan pairs with it: the machine repeats a loop from the token from which
/// it would have skipped to this one.
pub proof fn lemma_repeat_returns_to_matching_open(state: MachineState, at: CodeDebugToken)
    requires
        state.wf(),
        state.in_step(),
        well_nested(state.code.tokens),
        state.code.current() == Some(at),
        at.token == CodeToken::EndLoop,
    ensures
        state.loops.len() > 0,
        state.code.tokens[state.loops.last() as int].token == CodeToken::StartLoop,
        scan_to_close(state.code.tokens, state.loops.last() as nat + 1, 0) == state.code.position,
{
    let tokens = state.code.tokens;
    let position = state.code.position;
    assert(nesting(tokens, 0, position + 1) >= 0);
    lemma_open_loops_stay(tokens, 0, position);
    lemma_nesting_by_last(tokens, 0, position);
    lemma_innermost_open_loop(tokens, position);
    lemma_innermost_open_loop_matches(tokens, position);
}

/// The Brainfuck state machine.
///
/// It owns the code and the tape of one run, and the positions of the loops
/// that are being repeated.
pub struct Machine {
    code: CodeMemory,
    memory: DataMemory,
    loops: Vec<usize>,
}

impl View for Machine {
    type V = MachineState;

    closed spec fn view(&self) -> MachineState {
        MachineState { code: self.code@, memory: self.memory@, loops: self.loops@ }
    }
}

impl Machine {
    /// Creates a machine that is about to run `code` on `memory`.
    pub fn new(code: CodeMemory, memory: DataMemory) -> (machine: Self)
        ensures
            machine@ == MachineState::start(code@, memory@),
            machine@.wf(),
    {
        proof {
            code.lemma_length_fits();
        }
        Self { code, memory, loops: Vec::new() }
    }

    /// Returns the code of the machine.
    pub fn code(&self) -> (code: &CodeMemory)
        ensures
            code@ == self@.code,
    {
        &self.code
    }

    /// Returns the tape of the machine.
    pub fn memory(&self) -> (memory: &DataMemory)
        ensures
            memory@ == self@.memory,
    {
        &self.memory
    }

    /// Returns whether the program has ended.
    pub fn progress(&self) -> (progress: Progress)
        ensures
            progress == self@.progress(),
    {
        match self.code.read() {
            Some(_) => Progress::Running,
            None => Progress::Halted,
        }
    }

    /// Returns what is to be done before the next call of
    /// [`advance`](Machine::advance).
    pub fn action(&self) -> (action: Action)
        ensures
            action == self@.action(),
    {
        let in_bounds = self.memory.position() < self.memory.size();
        match self.code.read() {
            None => Action::Halt,
            Some(at) => match at.token {
                CodeToken::Output if in_bounds => Action::Write(self.memory.read()),
                CodeToken::Input if in_bounds => Action::Read,
                _ => Action::Continue,
            },
        }
    }

    /// Executes a token that needs nothing from outside.
    fn execute(&mut self, at: CodeDebugToken) -> (result: Result<(), RunError>)
        requires
            old(self)@.code.current() == Some(at),
            old(self)@.action() == Action::Continue,
        ensures
            match old(self)@.execute(at, Event::Idle) {
                Ok(next) => result is Ok && final(self)@ == next,
                Err(error) => result == Err::<(), RunError>(error) && final(self)@ == old(self)@,
            },
    {
        let in_bounds = self.memory.position() < self.memory.size();
        match at.token {
            CodeToken::Next => {
                if self.memory.next().is_err() {
                    return Err(RunError::OutOfBounds(at));
                }
            },
            CodeToken::Previous => {
                if self.memory.previous().is_err() {
                    return Err(RunError::OutOfBounds(at));
                }
            },
            CodeToken::EndLoop if self.loops.len() == 0 => {
                return Err(RunError::UnmatchedCloseLoop(at));
            },
            _ if !in_bounds => {
                return Err(RunError::OutOfBounds(at));
            },
            CodeToken::Increment => self.memory.increment(),
            CodeToken::Decrement => self.memory.decrement(),
            CodeToken::StartLoop => {
                if self.memory.read() == 0 {
                    self.code.skip_loop();
                } else {
                    self.loops.push(self.code.position());
                }
            },
            CodeToken::EndLoop => {
                if self.memory.read() != 0 {
                    self.code.move_to(self.loops[self.loops.len() - 1]);
                } else {
                    self.loops.pop();
                }
            },
            CodeToken::Output | CodeToken::Input => {},
        }
        // A skip or a jump may have left the cursor at the end of the
        // stream, where there is no token to pass.
        if self.code.read().is_some() {
            self.code.next();
        }
        Ok(())
    }

    /// Executes the token under the code cursor, given what came of the
    /// action that it asked for, and moves on. An error leaves the machine
    /// as it was.
    pub fn advance(&mut self, event: Event) -> (result: Result<Progress, RunError>)
        ensures
            (final(self)@, result) == old(self)@.cycle(event),
    {
        let at = match self.code.read() {
            Some(at) => at,
            None => {
                return Ok(Progress::Halted);
            },
        };
        match (self.action(), event) {
            (Action::Continue, Event::Idle) => {
                self.execute(at)?;
            },
            (Action::Write(_), Event::Written) => {
                self.code.next();
            },
            (Action::Read, Event::Received(value)) => {
                self.memory.write(value);
                self.code.next();
            },
            (Action::Write(_), Event::Failed(error)) | (Action::Read, Event::Failed(error)) => {
                return Err(RunError::Io(error));
            },
            _ => {},
        }
        Ok(self.progress())
    }
}

} // verus!
