//! The run command: let the machine go until a breakpoint, the end of the
//! program, or a moment at which the caller has to step in.

use vstd::prelude::*;
use crate::interpreter::{InterpreterError, Machine, Step};
use crate::state::State;

verus! {

/// What the run command is given.
#[derive(Debug, Clone, Copy)]
pub struct RunArgs {
    /// Whether to ignore breakpoints (basically runs the program till EOF)
    pub ignore_breakpoints: bool,
}

/// How a run ended.
#[derive(Debug, Clone, Copy, PartialEq, Eq, Structural)]
pub enum RunError {
    // Not actually an error
    /// Found a breakpoint at index {0}
    BreakpointFound(usize),
    // Not actually an error
    /// Reached program EOF without finding any breakpoints
    ReachedEOF,
    /// The instruction pointer is past the program's EOF. Use the -r flag to reset it
    PastEOF,
}

/// Why a run came back to its caller. Where the caller has to step in,
/// `target` is the breakpoint that the run was heading for: `run_until` takes
/// it to go on.
#[derive(Debug, Clone, Copy, PartialEq, Eq, Structural)]
pub enum RunReport {
    /// The run is over.
    Finished(RunError),
    /// An output instruction was executed and no sink is set: the byte is the
    /// caller's to show.
    Output { byte: u8, target: Option<usize> },
    /// An input instruction is next and no source is set: the caller is to
    /// supply a character.
    InputNeeded { target: Option<usize> },
    /// A channel failed.
    Failed(InterpreterError),
    /// The run has used up the steps it was given and is not over.
    Running { target: Option<usize> },
}

/// A run towards `target` does not go on from this machine: the instruction
/// pointer has reached or passed the target, or the next step ends the run.
pub open spec fn run_ends(machine: Machine, target: Option<usize>) -> bool {
    (target matches Some(t) && machine.ip >= t) || machine.pauses()
}

/// A run towards `target` executes `steps` instructions before it ends.
pub open spec fn ends_after(machine: Machine, target: Option<usize>, steps: nat) -> bool {
    &&& run_ends(machine.run(steps), target)
    &&& forall|k: nat| k < steps ==> !run_ends(#[trigger] machine.run(k), target)
}

/// A run towards `target` comes to an end.
pub open spec fn run_settles(machine: Machine, target: Option<usize>) -> bool {
    exists|steps: nat| ends_after(machine, target, steps)
}

/// The number of instructions that a run towards `target` executes before it ends.
pub open spec fn run_length(machine: Machine, target: Option<usize>) -> nat {
    choose|steps: nat| ends_after(machine, target, steps)
}

/// What a run towards `target` reports when it ends at this machine.
pub open spec fn report_at(machine: Machine, target: Option<usize>) -> RunReport {
    if target matches Some(t) && machine.ip >= t {
        RunReport::Finished(RunError::BreakpointFound(target->0))
    } else {
        match machine.outcome() {
            Ok(Step::Output(byte)) => RunReport::Output { byte, target },
            Ok(Step::InputNeeded) => RunReport::InputNeeded { target },
            Ok(_) => RunReport::Finished(RunError::ReachedEOF),
            Err(error) => RunReport::Failed(error),
        }
    }
}

/// The machine that a run towards `target` leaves behind when it ends at this
/// machine: this machine at a breakpoint, else the one after the last step.
pub open spec fn rest_at(machine: Machine, target: Option<usize>) -> Machine {
    if target matches Some(t) && machine.ip >= t {
        machine
    } else {
        machine.next()
    }
}

/// The number of instructions that a run towards `target` executes when it is
/// given `limit` of them at most: `limit` itself where the run does not end
/// within them.
pub open spec fn run_length_within(machine: Machine, target: Option<usize>, limit: nat) -> nat {
    if exists|steps: nat| steps < limit && ends_after(machine, target, steps) {
        choose|steps: nat| steps < limit && ends_after(machine, target, steps)
    } else {
        limit
    }
}

/// What a run towards `target` with `limit` steps at most does from `before`.
pub open spec fn within_done(
    before: State,
    after: State,
    target: Option<usize>,
    limit: nat,
    report: RunReport,
) -> bool {
    let start = before.interpreter@;
    let steps = run_length_within(start, target, limit);
    &&& steps <= limit
    &&& steps < limit ==> {
        &&& ends_after(start, target, steps)
        &&& report == report_at(start.run(steps), target)
        &&& after.interpreter@ == rest_at(start.run(steps), target)
    }
    &&& steps == limit ==> {
        &&& report == RunReport::Running { target }
        &&& after.interpreter@ == start.run(limit)
    }
    &&& after.breakpoints@ == before.breakpoints@
    &&& after.interpreter.same_setup(&before.interpreter)
    &&& before.interpreter.sink is Some ==> after.interpreter.sink_bytes() == before.interpreter.sink_bytes()
        + start.emitted(steps)
}

/// What the run command with `limit` steps at most does from `before`.
pub open spec fn run_within_done(
    before: State,
    after: State,
    args: RunArgs,
    limit: nat,
    report: RunReport,
) -> bool {
    if before.interpreter@.halted() {
        report == RunReport::Finished(RunError::PastEOF) && after == before
    } else {
        within_done(before, after, run_target(before, args), limit, report)
    }
}

/// The breakpoint that the run command heads for.
pub open spec fn run_target(state: State, args: RunArgs) -> Option<usize> {
    if args.ignore_breakpoints || state.breakpoints@.len() == 0 {
        None
    } else {
        state.target()
    }
}

/// What the run command does from `before`.
pub open spec fn run_done(before: State, after: State, args: RunArgs, report: RunReport) -> bool {
    if before.interpreter@.halted() {
        report == RunReport::Finished(RunError::PastEOF) && after == before
    } else {
        until_done(before, after, run_target(before, args), report)
    }
}

/// What a run towards `target` does from `before`.
pub open spec fn until_done(before: State, after: State, target: Option<usize>, report: RunReport) -> bool {
    let start = before.interpreter@;
    let steps = run_length(start, target);
    &&& ends_after(start, target, steps)
    &&& report == report_at(start.run(steps), target)
    &&& after.interpreter@ == rest_at(start.run(steps), target)
    &&& after.breakpoints@ == before.breakpoints@
    &&& after.interpreter.same_setup(&before.interpreter)
    &&& before.interpreter.sink is Some ==> after.interpreter.sink_bytes() == before.interpreter.sink_bytes()
        + start.emitted(steps)
}

/// A run towards a target has one length only.
pub proof fn lemma_run_length(machine: Machine, target: Option<usize>, steps: nat)
    requires
        ends_after(machine, target, steps),
    ensures
        run_length(machine, target) == steps,
{
    let other = run_length(machine, target);
    assert(ends_after(machine, target, other));
    if steps < other {
        assert(!run_ends(machine.run(steps), target));
    } else if other < steps {
        assert(!run_ends(machine.run(other), target));
    }
}

/// Within a budget that it does not use up, a run has the length that it has
/// without one.
pub proof fn lemma_run_length_within(machine: Machine, target: Option<usize>, limit: nat, steps: nat)
    requires
        ends_after(machine, target, steps),
        steps < limit,
    ensures
        run_length_within(machine, target, limit) == steps,
        run_length(machine, target) == steps,
{
    lemma_run_length(machine, target, steps);
    let other = run_length_within(machine, target, limit);
    assert(other < limit && ends_after(machine, target, other));
    lemma_run_length(machine, target, other);
}

/// Steps the machine until the instruction pointer has reached or passed
/// `target`, the program is over, a channel fails, or the caller has a byte
/// to show or to supply. After such a byte the caller goes on with the same
/// target. A run that never comes to any of these does not return, and is
/// left out.
pub fn run_until(state: &mut State, target: Option<usize>) -> (report: RunReport)
    requires
        old(state).wf(),
        run_settles(old(state).interpreter@, target),
    ensures
        final(state).wf(),
        until_done(*old(state), *final(state), target, report),
        !(report is Running),
{
    let ghost start = state.interpreter@;
    let ghost total = run_length(start, target);
    let ghost mut done: nat = 0;
    loop
        invariant
            state.wf(),
            state.breakpoints@ == old(state).breakpoints@,
            state.interpreter.same_setup(&old(state).interpreter),
            start == old(state).interpreter@,
            ends_after(start, target, total),
            total == run_length(start, target),
            done <= total,
            state.interpreter@ == start.run(done),
            old(state).interpreter.sink is Some ==> state.interpreter.sink_bytes() == old(
                state,
            ).interpreter.sink_bytes() + start.emitted(done),
        decreases total - done,
    {
        let ghost before = state.interpreter@;
        match target {
            Some(next_breakpoint_index) => {
                if state.interpreter.instruction_pointer >= next_breakpoint_index {
                    proof {
                        if done < total {
                            assert(!run_ends(start.run(done), target));
                        }
                    }
                    return RunReport::Finished(RunError::BreakpointFound(next_breakpoint_index));
                }
            },
            None => {},
        }
        let step = state.interpreter.run_step();
        match step {
            Ok(Step::Advanced) => {
                proof {
                    assert(!run_ends(start.run(done), target));
                    done = done + 1;
                    assert(start.run(done) == before.next());
                }
            },
            _ => {
                proof {
                    assert(run_ends(start.run(done), target));
                    if done < total {
                        assert(!run_ends(start.run(done), target));
                    }
                    assert(before.sent() =~= Seq::<u8>::empty() || !before.has_sink);
                }
                return match step {
                    Ok(Step::Output(byte)) => RunReport::Output { byte, target },
                    Ok(Step::InputNeeded) => RunReport::InputNeeded { target },
                    Ok(_) => RunReport::Finished(RunError::ReachedEOF),
                    Err(error) => RunReport::Failed(error),
                };
            },
        }
    }
}

/// Steps the machine as `run_until` does, but for `limit` executed
/// instructions at most. Where the run is not over after them, the report
/// says so, and a further call with the same target goes on.
pub fn run_until_within(state: &mut State, target: Option<usize>, limit: usize) -> (report: RunReport)
    requires
        old(state).wf(),
    ensures
        final(state).wf(),
        within_done(*old(state), *final(state), target, limit as nat, report),
{
    let ghost start = state.interpreter@;
    let mut done: usize = 0;
    while done < limit
        invariant
            state.wf(),
            state.breakpoints@ == old(state).breakpoints@,
            state.interpreter.same_setup(&old(state).interpreter),
            start == old(state).interpreter@,
            done <= limit,
            state.interpreter@ == start.run(done as nat),
            forall|k: nat| k < done ==> !run_ends(#[trigger] start.run(k), target),
            old(state).interpreter.sink is Some ==> state.interpreter.sink_bytes() == old(
                state,
            ).interpreter.sink_bytes() + start.emitted(done as nat),
        decreases limit - done,
    {
        let ghost before = state.interpreter@;
        match target {
            Some(next_breakpoint_index) => {
                if state.interpreter.instruction_pointer >= next_breakpoint_index {
                    proof {
                        assert(ends_after(start, target, done as nat));
                        lemma_run_length_within(start, target, limit as nat, done as nat);
                    }
                    return RunReport::Finished(RunError::BreakpointFound(next_breakpoint_index));
                }
            },
            None => {},
        }
        let step = state.interpreter.run_step();
        match step {
            Ok(Step::Advanced) => {
                done += 1;
                assert(start.run(done as nat) == before.next());
            },
            _ => {
                proof {
                    assert(ends_after(start, target, done as nat));
                    lemma_run_length_within(start, target, limit as nat, done as nat);
                    assert(before.sent() =~= Seq::<u8>::empty() || !before.has_sink);
                }
                return match step {
                    Ok(Step::Output(byte)) => RunReport::Output { byte, target },
                    Ok(Step::InputNeeded) => RunReport::InputNeeded { target },
                    Ok(_) => RunReport::Finished(RunError::ReachedEOF),
                    Err(error) => RunReport::Failed(error),
                };
            },
        }
    }
    proof {
        if exists|steps: nat| steps < limit && ends_after(start, target, steps) {
            let steps = choose|steps: nat| steps < limit && ends_after(start, target, steps);
            assert(!run_ends(start.run(steps), target));
        }
    }
    RunReport::Running { target }
}

/// The run command with `limit` steps at most: as `run`, but a run that is
/// not over after them reports so, and `run_until_within` goes on with the
/// target that the report names.
pub fn run_within(state: &mut State, args: RunArgs, limit: usize) -> (report: RunReport)
    requires
        old(state).wf(),
    ensures
        final(state).wf(),
        run_within_done(*old(state), *final(state), args, limit as nat, report),
{
    if state.interpreter.instruction_pointer >= state.interpreter.code.len() {
        return RunReport::Finished(RunError::PastEOF);
    }
    let target = if args.ignore_breakpoints || state.breakpoints.len() == 0 {
        None
    } else {
        state.next_breakpoint()
    };
    run_until_within(state, target, limit)
}

/// Start executing the program. Past the end of the program nothing is done.
/// With breakpoints ignored, or none set, the run goes to the end of the
/// program; else it heads for the next breakpoint behind the instruction
/// pointer.
pub fn run(state: &mut State, args: RunArgs) -> (report: RunReport)
    requires
        old(state).wf(),
        !old(state).interpreter@.halted() ==> run_settles(old(state).interpreter@, run_target(*old(state), args)),
    ensures
        final(state).wf(),
        run_done(*old(state), *final(state), args, report),
        !(report is Running),
{
    if state.interpreter.instruction_pointer >= state.interpreter.code.len() {
        return RunReport::Finished(RunError::PastEOF);
    }
    let target = if args.ignore_breakpoints || state.breakpoints.len() == 0 {
        None
    } else {
        // Check where the next breakpoint would be
        state.next_breakpoint()
    };
    run_until(state, target)
}

} // verus!
