//! The reload command: put the machine back to its start, or load the
//! program anew.

use vstd::prelude::*;
use crate::brackets::well_bracketed;
use crate::interpreter::{loaded, Interpreter, InterpreterError};
use crate::state::State;
use crate::tape::zeroed;

verus! {

#[derive(Debug, Clone, Copy, PartialEq, Eq, Structural)]
pub enum ReloadMode {
    /// Reload the file's contents
    File,
    /// Reset the interpreter to its initial state (previously known as "run -r")
    Interpreter,
}

#[derive(Debug, Clone, Copy)]
pub struct ReloadArgs {
    /// What mode to run the command in
    pub mode: ReloadMode,
}

#[derive(Debug, Clone, Copy, PartialEq, Eq, Structural)]
pub enum ReloadErr {
    /// {0}
    InterpreterError(InterpreterError),
}

/// What a reload leaves behind. A reset puts the instruction pointer and the
/// tape back and keeps the breakpoints. A program that loads replaces the
/// machine and clears the breakpoints; one that does not load changes nothing.
pub open spec fn reload_done(
    before: State,
    after: State,
    args: ReloadArgs,
    text: Seq<char>,
    r: Result<(), ReloadErr>,
) -> bool {
    match args.mode {
        ReloadMode::Interpreter => {
            &&& r is Ok
            &&& after.interpreter@ == before.interpreter@.reset()
            &&& after.interpreter.same_setup(&before.interpreter)
            &&& after.interpreter.sink == before.interpreter.sink
            &&& after.breakpoints@ == before.breakpoints@
        },
        ReloadMode::File => {
            let program = loaded(text, before.interpreter.profile);
            if well_bracketed(program) {
                &&& r is Ok
                &&& after.breakpoints@ == Seq::<usize>::empty()
                &&& after.interpreter.code@ == program
                &&& after.interpreter.instruction_pointer == 0
                &&& after.interpreter.tape.pointer == 0
                &&& after.interpreter.tape.cells@ == zeroed(before.interpreter.tape.cells@.len())
                &&& after.interpreter.profile == before.interpreter.profile
                &&& after.interpreter.sink is None
                &&& after.interpreter.source is None
                &&& after.interpreter.source_position == 0
                &&& !after.interpreter.stdout_echo
            } else {
                &&& r == Err::<(), ReloadErr>(ReloadErr::InterpreterError(InterpreterError::UnmatchedLoop))
                &&& after == before
            }
        },
    }
}

/// Resets the machine, or loads `text` as its new program with the options
/// that the machine was made with. `text` is read in file mode only.
pub fn reload(state: &mut State, args: ReloadArgs, text: &str) -> (r: Result<(), ReloadErr>)
    requires
        old(state).wf(),
    ensures
        final(state).wf(),
        reload_done(*old(state), *final(state), args, text@, r),
{
    match args.mode {
        ReloadMode::Interpreter => {
            state.interpreter.reset();
            Ok(())
        },
        ReloadMode::File => {
            let options = state.interpreter.get_options();
            match Interpreter::new(text, options) {
                Ok(new_interpreter) => {
                    // also don't forget to clean our breakpoints
                    state.breakpoints.clear();
                    state.interpreter = new_interpreter;
                    Ok(())
                },
                Err(interpreter_err) => Err(ReloadErr::InterpreterError(interpreter_err)),
            }
        },
    }
}

} // verus!
