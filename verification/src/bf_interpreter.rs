//! The interpreter: it drives a [`Machine`] and does its input and output
//! through an [`IOSystem`].

use crate::io_system::IOSystem;
use crate::machine::Action;
use crate::machine::Event;
use crate::machine::Machine;
use crate::machine::Progress;
use crate::machine::RunError;
use vstd::prelude::*;

verus! {

/// Interpreter for the Brainfuck language.
///
/// Given a machine, runs its code directly. If any IO operation fails, the
/// interpreter fails with that error.
pub struct BrainfuckInterpreter<IO: IOSystem> {
    io: IO,
}

impl<IO: IOSystem> BrainfuckInterpreter<IO> {
    /// The IO system that the interpreter reads from and writes to.
    pub closed spec fn io(&self) -> IO {
        self.io
    }

    /// Creates a new Brainfuck interpreter with the given `IO`.
    pub fn new(io: IO) -> (interpreter: Self)
        ensures
            interpreter.io() == io,
    {
        Self { io }
    }

    /// Gives back the IO system.
    pub fn into_io(self) -> (io: IO)
        ensures
            io == self.io(),
    {
        self.io
    }

    /// Runs one fetch-execute cycle of the machine: does what the next
    /// instruction needs done, and executes the instruction. The value
    /// handed to the IO system is the current cell; the value taken from it
    /// goes into the current cell. Nothing is read or written for an
    /// instruction that does no input or output, nor once the program has
    /// ended.
    pub fn step(&mut self, machine: &mut Machine) -> (result: Result<Progress, RunError>)
        ensures
            exists|event: Event|
                {
                    &&& old(machine)@.action().accepts(event)
                    &&& #[trigger] old(machine)@.cycle(event) == (final(machine)@, result)
                },
            old(machine)@.action() is Halt || old(machine)@.action() is Continue
                ==> final(self).io() == old(self).io(),
    {
        let event = match machine.action() {
            Action::Halt | Action::Continue => Event::Idle,
            Action::Write(value) => match self.io.write(value) {
                Ok(()) => Event::Written,
                Err(error) => Event::Failed(error),
            },
            Action::Read => match self.io.read() {
                Ok(value) => Event::Received(value),
                Err(error) => Event::Failed(error),
            },
        };
        machine.advance(event)
    }

    /// Runs the machine until the program ends, a cycle fails, or
    /// `max_steps` cycles have run, whichever comes first. Returns whether
    /// the program has ended; an error leaves the machine before the
    /// instruction that failed.
    pub fn run(&mut self, machine: &mut Machine, max_steps: u64) -> (result: Result<
        Progress,
        RunError,
    >)
        ensures
            exists|events: Seq<Event>|
                {
                    &&& events.len() <= max_steps
                    &&& old(machine)@.answered_by(events)
                    &&& #[trigger] old(machine)@.run(events) == (final(machine)@, result)
                    &&& result == Ok::<Progress, RunError>(Progress::Running) ==> events.len()
                        == max_steps
                    &&& (forall|i: int| 0 <= i < events.len() ==> events[i] is Idle)
                        ==> final(self).io() == old(self).io()
                },
    {
        let ghost start = machine@;
        let ghost mut events: Seq<Event> = Seq::empty();
        let mut steps: u64 = 0;
        while steps < max_steps
            invariant
                start == old(machine)@,
                steps <= max_steps,
                events.len() == steps,
                start.answered_by(events),
                start.run(events) == (machine@, Ok::<Progress, RunError>(machine@.progress())),
                (forall|i: int| 0 <= i < events.len() ==> events[i] is Idle)
                    ==> self.io() == old(self).io(),
            decreases max_steps - steps,
        {
            if let Progress::Halted = machine.progress() {
                return Ok(Progress::Halted);
            }
            let ghost before = machine@;
            let result = self.step(machine);
            proof {
                let event = choose|event: Event|
                    {
                        &&& before.action().accepts(event)
                        &&& #[trigger] before.cycle(event) == (machine@, result)
                    };
                assert(events.push(event).drop_last() == events);
                events = events.push(event);
                assert(start.run(events) == (machine@, result));
            }
            if result.is_err() {
                return result;
            }
            steps += 1;
        }
        Ok(machine.progress())
    }
}

} // verus!
