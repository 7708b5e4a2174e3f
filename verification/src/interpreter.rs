//! The machine that runs a program: its options, its errors, how a program is
//! loaded and how it runs, one instruction at a time.

use vstd::prelude::*;
use bimap::BiMap;
use crate::brackets::{
    is_loop_index, lemma_partner_of_close, lemma_partner_of_open, lemma_scan_close, lemma_scan_end,
    lemma_scan_open, lemma_scan_other, lemma_scan_unmatched_close, loop_pairs, loops_get_by_left,
    loops_get_by_right, loops_insert, loops_new, partner, scan_inv, well_bracketed,
};
use crate::tape::{advanced, decremented, incremented, retreated, zeroed, Tape};

verus! {

/// The default filename to use in case one isn't specified by the user
pub const DEFAULT_FILENAME: &'static str = "main.bf";

/// The default cell size to use in case one isn't specified by the user
pub const DEFAULT_CELL_SIZE: usize = 30000;

/// Why a channel could not serve the machine.
#[derive(Clone, Copy, Debug, PartialEq, Eq, Structural)]
pub enum IoFailure {
    /// The source has no byte left for an input instruction.
    UnexpectedEof,
}

/// Why a machine could not be made, or could not go on.
#[derive(Clone, Copy, Debug, PartialEq, Eq, Structural)]
pub enum InterpreterError {
    /// Found unmatched loop brackets
    UnmatchedLoop,
    /// A tape needs at least one cell
    InvalidCapacity,
    /// A channel failed
    IOError(IoFailure),
}

/// How a program text is taken in.
#[derive(Clone, Copy, Debug, PartialEq, Eq, Structural)]
pub enum InterpreterProfile {
    /// The program text is kept as it is, comments included.
    Debug,
    /// Every character that is no instruction is dropped when the program is loaded.
    Release,
}

impl Default for InterpreterProfile {
    fn default() -> (r: Self)
        ensures
            r == InterpreterProfile::Release,
    {
        InterpreterProfile::Release
    }
}

/// What a machine is made with: the number of cells and the profile.
#[derive(Clone, Copy, Debug)]
pub struct InterpreterOptions {
    pub num_of_cells: usize,
    pub profile: InterpreterProfile,
}

impl InterpreterOptions {
    /// The default number of cells, with the program text kept as it is.
    pub fn debug() -> (r: Self)
        ensures
            r.profile == InterpreterProfile::Debug,
            r.num_of_cells == DEFAULT_CELL_SIZE,
    {
        Self { profile: InterpreterProfile::Debug, num_of_cells: DEFAULT_CELL_SIZE }
    }

    /// The default number of cells, with comments dropped from the program.
    pub fn release() -> (r: Self)
        ensures
            r.profile == InterpreterProfile::Release,
            r.num_of_cells == DEFAULT_CELL_SIZE,
    {
        Self { profile: InterpreterProfile::Release, num_of_cells: DEFAULT_CELL_SIZE }
    }

    /// The same options with another number of cells.
    pub fn with_cell_size(self, cell_size: usize) -> (r: Self)
        ensures
            r.num_of_cells == cell_size,
            r.profile == self.profile,
    {
        Self { num_of_cells: cell_size, profile: self.profile }
    }
}

impl Default for InterpreterOptions {
    fn default() -> (r: Self)
        ensures
            r.num_of_cells == DEFAULT_CELL_SIZE,
            r.profile == InterpreterProfile::Release,
    {
        Self { num_of_cells: DEFAULT_CELL_SIZE, profile: InterpreterProfile::Release }
    }
}

/// `c` is one of the eight instructions.
pub open spec fn is_instruction(c: char) -> bool {
    c == '>' || c == '<' || c == '+' || c == '-' || c == '.' || c == ',' || c == '[' || c == ']'
}

/// The instructions of a text, in their order, with everything else dropped.
pub open spec fn instructions_of(text: Seq<char>) -> Seq<char> {
    text.filter(|c: char| is_instruction(c))
}

/// The characters of a text, one by one.
pub fn chars_of(text: &str) -> (code: Vec<char>)
    ensures
        code@ == text@,
{
    let mut code: Vec<char> = Vec::new();
    for c in it: text.chars()
        invariant
            it.seq() == text@,
            code@ == text@.take(it.index() as int),
    {
        code.push(c);
        assert(text@.take(it.index() + 1) =~= text@.take(it.index() as int).push(c));
    }
    assert(text@.take(text@.len() as int) =~= text@);
    code
}

/// What a step of the machine reports.
#[derive(Clone, Copy, Debug, PartialEq, Eq, Structural)]
pub enum Step {
    /// The instruction pointer is at or past the end of the program: there is
    /// no more work, and nothing changed.
    Halted,
    /// One instruction was executed.
    Advanced,
    /// An output instruction was executed and no sink is set: the byte is the
    /// caller's to show.
    Output(u8),
    /// An input instruction is next and no source is set: nothing changed, and
    /// the machine waits for `accept_input`.
    InputNeeded,
}

/// What became of a character that was offered as input.
#[derive(Clone, Copy, Debug, PartialEq, Eq, Structural)]
pub enum InputReply {
    /// The character went into the current cell and the machine moved on;
    /// `echo` says whether the caller is to show it.
    Stored { echo: bool },
    /// The character is not ASCII: nothing changed, and the caller asks again.
    Rejected,
    /// The machine is not waiting for input: nothing changed.
    NotAwaited,
}

/// The machine as the contracts see it.
pub struct Machine {
    /// The program.
    pub code: Seq<char>,
    /// The instruction pointer.
    pub ip: int,
    /// The tape pointer.
    pub pointer: int,
    /// The tape.
    pub cells: Seq<u8>,
    /// The bytes that the source still holds, if a source is set.
    pub source: Option<Seq<u8>>,
    /// Whether a sink is set.
    pub has_sink: bool,
}

impl Machine {
    /// There is no instruction left to execute.
    pub open spec fn halted(self) -> bool {
        self.ip >= self.code.len()
    }

    /// The byte in the cell under the pointer.
    pub open spec fn cell(self) -> u8 {
        self.cells[self.pointer]
    }

    /// The instruction under the instruction pointer.
    pub open spec fn instruction(self) -> char {
        self.code[self.ip]
    }

    /// What the next step reports.
    pub open spec fn outcome(self) -> Result<Step, InterpreterError> {
        if self.halted() {
            Ok(Step::Halted)
        } else if self.instruction() == '.' && !self.has_sink {
            Ok(Step::Output(self.cell()))
        } else if self.instruction() == ',' {
            match self.source {
                None => Ok(Step::InputNeeded),
                Some(bytes) => if bytes.len() == 0 {
                    Err(InterpreterError::IOError(IoFailure::UnexpectedEof))
                } else {
                    Ok(Step::Advanced)
                },
            }
        } else {
            Ok(Step::Advanced)
        }
    }

    /// The next step executes an instruction.
    pub open spec fn executes(self) -> bool {
        self.outcome() == Ok::<Step, InterpreterError>(Step::Advanced) || self.outcome() == Ok::<
            Step,
            InterpreterError,
        >(Step::Output(self.cell()))
    }

    /// The machine after the effect of the instruction under the instruction
    /// pointer, before that pointer moves on. A jump puts the instruction
    /// pointer on the partner bracket.
    pub open spec fn applied(self) -> Machine {
        let c = self.instruction();
        if c == '>' {
            Machine { pointer: advanced(self.pointer, self.cells.len() as int), ..self }
        } else if c == '<' {
            Machine { pointer: retreated(self.pointer, self.cells.len() as int), ..self }
        } else if c == '+' {
            Machine { cells: self.cells.update(self.pointer, incremented(self.cell())), ..self }
        } else if c == '-' {
            Machine { cells: self.cells.update(self.pointer, decremented(self.cell())), ..self }
        } else if c == ',' {
            Machine {
                cells: self.cells.update(self.pointer, self.source->0[0]),
                source: Some(self.source->0.skip(1)),
                ..self
            }
        } else if c == '[' && self.cell() == 0 {
            Machine { ip: partner(self.code, self.ip), ..self }
        } else if c == ']' && self.cell() != 0 {
            Machine { ip: partner(self.code, self.ip), ..self }
        } else {
            self
        }
    }

    /// The machine after the next step. A step that executes nothing leaves
    /// the machine as it is.
    pub open spec fn next(self) -> Machine {
        if self.executes() {
            Machine { ip: self.applied().ip + 1, ..self.applied() }
        } else {
            self
        }
    }

    /// The bytes that the next step sends out: one byte for an output
    /// instruction, none for any other.
    pub open spec fn sent(self) -> Seq<u8> {
        if !self.halted() && self.instruction() == '.' {
            seq![self.cell()]
        } else {
            Seq::empty()
        }
    }

    /// The machine after `steps` steps.
    pub open spec fn run(self, steps: nat) -> Machine
        decreases steps,
    {
        if steps == 0 {
            self
        } else {
            self.run((steps - 1) as nat).next()
        }
    }

    /// The bytes that the first `steps` steps send out.
    pub open spec fn emitted(self, steps: nat) -> Seq<u8>
        decreases steps,
    {
        if steps == 0 {
            Seq::empty()
        } else {
            self.emitted((steps - 1) as nat) + self.run((steps - 1) as nat).sent()
        }
    }

    /// The next step ends a run: the program is over, a channel failed, or the
    /// caller has a byte to show or to supply.
    pub open spec fn pauses(self) -> bool {
        self.outcome() != Ok::<Step, InterpreterError>(Step::Advanced)
    }

    /// A run takes `steps` steps before the step that ends it.
    pub open spec fn pauses_after(self, steps: nat) -> bool {
        &&& self.run(steps).pauses()
        &&& forall|k: nat| k < steps ==> !(#[trigger] self.run(k)).pauses()
    }

    /// A run from here comes to an end.
    pub open spec fn settles(self) -> bool {
        exists|steps: nat| self.pauses_after(steps)
    }

    /// The number of steps that a run takes before the step that ends it.
    pub open spec fn steps_to_pause(self) -> nat {
        choose|steps: nat| self.pauses_after(steps)
    }

    /// The number of steps that a run of at most `limit` steps takes before the
    /// step that ends it; `limit` itself where no step among them ends it.
    pub open spec fn steps_within(self, limit: nat) -> nat {
        if exists|steps: nat| steps < limit && self.pauses_after(steps) {
            choose|steps: nat| steps < limit && self.pauses_after(steps)
        } else {
            limit
        }
    }

    /// The machine with the instruction pointer and the tape as they were at
    /// the start, and the program and the channels as they are.
    pub open spec fn reset(self) -> Machine {
        Machine { ip: 0, pointer: 0, cells: zeroed(self.cells.len()), ..self }
    }
}

/// A run has one length only.
pub proof fn lemma_pause_is_unique(machine: Machine, first: nat, second: nat)
    requires
        machine.pauses_after(first),
        machine.pauses_after(second),
    ensures
        first == second,
{
    if first < second {
        assert(!machine.run(first).pauses());
    } else if second < first {
        assert(!machine.run(second).pauses());
    }
}

/// A halted machine stays as it is: every further step reports that there is
/// no more work, changes nothing and sends nothing.
pub proof fn lemma_halted_stays(machine: Machine, steps: nat)
    requires
        machine.halted(),
    ensures
        machine.outcome() == Ok::<Step, InterpreterError>(Step::Halted),
        machine.next() == machine,
        machine.run(steps) == machine,
        machine.emitted(steps) == Seq::<u8>::empty(),
    decreases steps,
{
    if steps > 0 {
        lemma_halted_stays(machine, (steps - 1) as nat);
    }
}

/// Two machines with one program, tapes of one length and channels in one
/// state behave alike once they are reset: step for step they are the same
/// machine and send the same bytes, and either both runs end or neither does.
pub proof fn lemma_reset_replays(first: Machine, second: Machine, steps: nat)
    requires
        first.code == second.code,
        first.cells.len() == second.cells.len(),
        first.source == second.source,
        first.has_sink == second.has_sink,
    ensures
        first.reset().run(steps) == second.reset().run(steps),
        first.reset().emitted(steps) == second.reset().emitted(steps),
        first.reset().settles() == second.reset().settles(),
        first.reset().steps_to_pause() == second.reset().steps_to_pause(),
{
    assert(first.reset() == second.reset());
}

/// A machine that is reset and given the input of its first run again repeats
/// that run: step for step it is the machine that it was then, and it sends
/// the same bytes. `fresh` is the machine before its first run, `later` the
/// same machine at any time after.
pub proof fn lemma_second_run_repeats_first(fresh: Machine, later: Machine, steps: nat)
    requires
        fresh.ip == 0,
        fresh.pointer == 0,
        fresh.cells == zeroed(fresh.cells.len()),
        later.code == fresh.code,
        later.cells.len() == fresh.cells.len(),
        later.source == fresh.source,
        later.has_sink == fresh.has_sink,
    ensures
        later.reset().run(steps) == fresh.run(steps),
        later.reset().emitted(steps) == fresh.emitted(steps),
        later.reset().settles() == fresh.settles(),
        later.reset().steps_to_pause() == fresh.steps_to_pause(),
{
    assert(later.reset() == fresh);
}

/// The machine.
pub struct Interpreter {
    pub instruction_pointer: usize,
    pub tape: Tape,
    pub code: Vec<char>,
    pub loops: BiMap<usize, usize>,
    pub profile: InterpreterProfile,
    /// If this is unset, the bytes of output instructions go to the caller
    pub sink: Option<Vec<u8>>,
    /// If this is unset, the caller is asked for the bytes of input instructions
    pub source: Option<Vec<u8>>,
    /// How many bytes of the source were read
    pub source_position: usize,
    pub stdout_echo: bool,
}

impl View for Interpreter {
    type V = Machine;

    open spec fn view(&self) -> Machine {
        Machine {
            code: self.code@,
            ip: self.instruction_pointer as int,
            pointer: self.tape.pointer as int,
            cells: self.tape.cells@,
            source: match self.source {
                Some(bytes) => Some(bytes@.skip(self.source_position as int)),
                None => None,
            },
            has_sink: self.sink is Some,
        }
    }
}

/// The program that a text is loaded as.
pub open spec fn loaded(text: Seq<char>, profile: InterpreterProfile) -> Seq<char> {
    if profile == InterpreterProfile::Release {
        instructions_of(text)
    } else {
        text
    }
}

impl Interpreter {
    /// The tape is sound, the loop index is that of the program, and the
    /// source was not read past its end.
    pub open spec fn wf(&self) -> bool {
        &&& self.tape.wf()
        &&& is_loop_index(self.code@, loop_pairs(self.loops))
        &&& self.source matches Some(bytes) ==> self.source_position <= bytes@.len()
    }

    /// The bytes that the sink holds; none where no sink is set.
    pub open spec fn sink_bytes(&self) -> Seq<u8> {
        match self.sink {
            Some(bytes) => bytes@,
            None => Seq::empty(),
        }
    }

    /// The program, the loop index, the tape's length and the settings are
    /// those of `before`, and so is what the source was given.
    pub open spec fn same_setup(&self, before: &Interpreter) -> bool {
        &&& self.code@ == before.code@
        &&& self.loops == before.loops
        &&& self.tape.modulo == before.tape.modulo
        &&& self.tape.cells@.len() == before.tape.cells@.len()
        &&& self.profile == before.profile
        &&& self.stdout_echo == before.stdout_echo
        &&& self.source is Some == before.source is Some
        &&& self.source matches Some(bytes) ==> bytes@ == before.source->0@
        &&& self.sink is Some == before.sink is Some
    }

    /// Remove all non-instruction characters
    pub fn remove_comments(code: &mut Vec<char>)
        ensures
            final(code)@ == instructions_of(old(code)@),
    {
        let mut kept: Vec<char> = Vec::new();
        let n: usize = code.len();
        let mut i: usize = 0;
        while i < n
            invariant
                i <= n,
                n == code@.len(),
                code@ == old(code)@,
                kept@ == instructions_of(code@.subrange(0, i as int)),
            decreases n - i,
        {
            let c: char = code[i];
            proof {
                reveal(Seq::filter);
                let longer = code@.subrange(0, i + 1);
                assert(longer.drop_last() =~= code@.subrange(0, i as int));
                assert(longer.last() == c);
            }
            if c == '>' || c == '<' || c == '+' || c == '-' || c == '.' || c == ',' || c == '[' || c == ']' {
                kept.push(c);
            }
            i += 1;
        }
        assert(code@.subrange(0, n as int) =~= code@);
        *code = kept;
    }

    /// A looping function to get all matching loop brackets (returns `UnmatchedLoop`
    /// if a bracket is unmatched)
    pub fn get_loop(code: &Vec<char>) -> (r: Result<BiMap<usize, usize>, InterpreterError>)
        ensures
            r is Ok <==> well_bracketed(code@),
            r matches Ok(loops) ==> is_loop_index(code@, loop_pairs(loops)),
            r matches Err(e) ==> e == InterpreterError::UnmatchedLoop,
    {
        let mut loops = loops_new();
        let mut stack: Vec<usize> = Vec::new();
        let mut index: usize = 0;
        while index < code.len()
            invariant
                scan_inv(code@, index as int, stack@, loop_pairs(loops)),
            decreases code.len() - index,
        {
            let character: char = code[index];
            if character == '[' {
                proof {
                    lemma_scan_open(code@, index, stack@, loop_pairs(loops));
                }
                stack.push(index);
            } else if character == ']' {
                let ghost before = stack@;
                match stack.pop() {
                    None => {
                        proof {
                            lemma_scan_unmatched_close(code@, index as int, stack@, loop_pairs(loops));
                        }
                        return Err(InterpreterError::UnmatchedLoop);
                    },
                    Some(open) => {
                        proof {
                            lemma_scan_close(code@, index, before, loop_pairs(loops));
                        }
                        loops_insert(&mut loops, open, index);
                    },
                }
            } else {
                proof {
                    lemma_scan_other(code@, index as int, stack@, loop_pairs(loops));
                }
            }
            index += 1;
        }
        proof {
            lemma_scan_end(code@, stack@, loop_pairs(loops));
        }
        if stack.len() != 0 {
            return Err(InterpreterError::UnmatchedLoop);
        }
        Ok(loops)
    }

    /// Loads a program. In the release profile every character that is no
    /// instruction is dropped. A program with an unmatched bracket is
    /// refused, and so is a tape without cells.
    pub fn new(code: &str, options: InterpreterOptions) -> (r: Result<Self, InterpreterError>)
        ensures
            !well_bracketed(loaded(code@, options.profile)) ==> r == Err::<Self, InterpreterError>(
                InterpreterError::UnmatchedLoop,
            ),
            well_bracketed(loaded(code@, options.profile)) && options.num_of_cells == 0 ==> r == Err::<
                Self,
                InterpreterError,
            >(InterpreterError::InvalidCapacity),
            well_bracketed(loaded(code@, options.profile)) && options.num_of_cells > 0 ==> r is Ok,
            r matches Ok(machine) ==> {
                &&& machine.wf()
                &&& machine.code@ == loaded(code@, options.profile)
                &&& machine.instruction_pointer == 0
                &&& machine.tape.pointer == 0
                &&& machine.tape.cells@ == zeroed(options.num_of_cells as nat)
                &&& machine.profile == options.profile
                &&& machine.sink is None
                &&& machine.source is None
                &&& machine.source_position == 0
                &&& !machine.stdout_echo
            },
    {
        let mut code: Vec<char> = chars_of(code);
        if options.profile == InterpreterProfile::Release {
            Self::remove_comments(&mut code);
        }
        let loops = match Self::get_loop(&code) {
            Ok(loops) => loops,
            Err(error) => {
                return Err(error);
            },
        };
        let tape = match Tape::new(options.num_of_cells) {
            Ok(tape) => tape,
            Err(error) => {
                return Err(error);
            },
        };
        Ok(
            Self {
                instruction_pointer: 0,
                tape,
                code,
                loops,
                profile: options.profile,
                sink: None,
                source: None,
                source_position: 0,
                stdout_echo: false,
            },
        )
    }

    /// Executes one instruction. Where the program is over, where an input
    /// instruction finds no source set, and where the source has no byte left,
    /// nothing changes.
    pub fn run_step(&mut self) -> (r: Result<Step, InterpreterError>)
        requires
            old(self).wf(),
        ensures
            final(self).wf(),
            final(self).same_setup(old(self)),
            r == old(self)@.outcome(),
            final(self)@ == old(self)@.next(),
            old(self).sink is Some ==> final(self).sink_bytes() == old(self).sink_bytes() + old(self)@.sent(),
            r matches Ok(Step::Output(byte)) ==> old(self)@.sent() == seq![byte],
    {
        // Check if EOF was reached
        if self.instruction_pointer >= self.code.len() {
            return Ok(Step::Halted);
        }
        // Get the next character to process
        let character: char = self.code[self.instruction_pointer];
        let mut report = Step::Advanced;

        if character == '>' {
            self.tape.advance();
        } else if character == '<' {
            self.tape.retreat();
        } else if character == '+' {
            self.tape.increment();
        } else if character == '-' {
            self.tape.decrement();
        } else if character == '.' {
            let byte: u8 = self.tape.read();
            match &mut self.sink {
                Some(writable) => {
                    writable.push(byte);
                },
                None => {
                    report = Step::Output(byte);
                },
            }
        } else if character == ',' {
            match &self.source {
                Some(readable) => {
                    if self.source_position >= readable.len() {
                        return Err(InterpreterError::IOError(IoFailure::UnexpectedEof));
                    }
                    let byte: u8 = readable[self.source_position];
                    assert(readable@.skip(self.source_position as int).skip(1) =~= readable@.skip(
                        self.source_position + 1,
                    ));
                    self.source_position += 1;
                    self.tape.write(byte);
                },
                None => {
                    return Ok(Step::InputNeeded);
                },
            }
        } else if character == '[' {
            if self.tape.read() == 0 {
                proof {
                    lemma_partner_of_open(self.code@, loop_pairs(self.loops), self.instruction_pointer);
                }
                match loops_get_by_left(&self.loops, self.instruction_pointer) {
                    Some(close) => {
                        self.instruction_pointer = close;
                    },
                    None => {},
                }
            }
        } else if character == ']' {
            if self.tape.read() != 0 {
                match loops_get_by_right(&self.loops, self.instruction_pointer) {
                    Some(open) => {
                        proof {
                            lemma_partner_of_close(
                                self.code@,
                                loop_pairs(self.loops),
                                self.instruction_pointer,
                                open,
                            );
                        }
                        self.instruction_pointer = open;
                    },
                    None => {
                        proof {
                            let c = self.instruction_pointer;
                            assert(self.code@[c as int] == ']');
                        }
                    },
                }
            }
        }
        // Increment the instruction pointer for the next cycle

        self.instruction_pointer += 1;

        Ok(report)
    }

    /// Runs `run_step` until a step reports something other than one executed
    /// instruction, and hands that report on: the end of the program, a byte
    /// to show, a byte to supply, or a failed channel. A run that never comes
    /// to such a step does not return, and is left out.
    pub fn run_to_end(&mut self) -> (r: Result<Step, InterpreterError>)
        requires
            old(self).wf(),
            old(self)@.settles(),
        ensures
            final(self).wf(),
            final(self).same_setup(old(self)),
            r == old(self)@.run(old(self)@.steps_to_pause()).outcome(),
            r != Ok::<Step, InterpreterError>(Step::Advanced),
            final(self)@ == old(self)@.run(old(self)@.steps_to_pause()).next(),
            old(self).sink is Some ==> final(self).sink_bytes() == old(self).sink_bytes() + old(self)@.emitted(
                old(self)@.steps_to_pause(),
            ),
    {
        let ghost start = self@;
        let ghost total = start.steps_to_pause();
        let ghost mut done: nat = 0;
        loop
            invariant
                self.wf(),
                self.same_setup(old(self)),
                start == old(self)@,
                start.pauses_after(total),
                total == start.steps_to_pause(),
                done <= total,
                self@ == start.run(done),
                old(self).sink is Some ==> self.sink_bytes() == old(self).sink_bytes() + start.emitted(done),
            decreases total - done,
        {
            let ghost before = self@;
            let r = self.run_step();
            match r {
                Ok(Step::Advanced) => {
                    proof {
                        assert(!start.run(done).pauses());
                        done = done + 1;
                        assert(start.run(done) == before.next());
                    }
                },
                _ => {
                    proof {
                        assert(start.run(done).pauses());
                        if done < total {
                            assert(!start.run(done).pauses());
                        }
                        assert(before.sent() =~= Seq::<u8>::empty() || !before.has_sink);
                    }
                    return r;
                },
            }
        }
    }

    /// Runs `run_step` as `run_to_end` does, but for `limit` executed
    /// instructions at most. Where none of them ends the run, the report is
    /// that of an executed instruction, and a further call goes on.
    pub fn run_steps(&mut self, limit: usize) -> (r: Result<Step, InterpreterError>)
        requires
            old(self).wf(),
        ensures
            final(self).wf(),
            final(self).same_setup(old(self)),
            old(self)@.steps_within(limit as nat) <= limit,
            old(self)@.steps_within(limit as nat) < limit ==> {
                &&& old(self)@.pauses_after(old(self)@.steps_within(limit as nat))
                &&& r == old(self)@.run(old(self)@.steps_within(limit as nat)).outcome()
                &&& final(self)@ == old(self)@.run(old(self)@.steps_within(limit as nat)).next()
            },
            old(self)@.steps_within(limit as nat) == limit ==> {
                &&& r == Ok::<Step, InterpreterError>(Step::Advanced)
                &&& final(self)@ == old(self)@.run(limit as nat)
            },
            old(self).sink is Some ==> final(self).sink_bytes() == old(self).sink_bytes() + old(self)@.emitted(
                old(self)@.steps_within(limit as nat),
            ),
    {
        let ghost start = self@;
        let mut done: usize = 0;
        while done < limit
            invariant
                self.wf(),
                self.same_setup(old(self)),
                start == old(self)@,
                done <= limit,
                self@ == start.run(done as nat),
                forall|k: nat| k < done ==> !(#[trigger] start.run(k)).pauses(),
                old(self).sink is Some ==> self.sink_bytes() == old(self).sink_bytes() + start.emitted(
                    done as nat,
                ),
            decreases limit - done,
        {
            let ghost before = self@;
            let r = self.run_step();
            match r {
                Ok(Step::Advanced) => {
                    done += 1;
                    assert(start.run(done as nat) == before.next());
                },
                _ => {
                    proof {
                        assert(start.pauses_after(done as nat));
                        lemma_pause_is_unique(start, done as nat, start.steps_within(limit as nat));
                        assert(before.sent() =~= Seq::<u8>::empty() || !before.has_sink);
                    }
                    return r;
                },
            }
        }
        proof {
            if exists|steps: nat| steps < limit && start.pauses_after(steps) {
                let steps = choose|steps: nat| steps < limit && start.pauses_after(steps);
                assert(!start.run(steps).pauses());
            }
        }
        Ok(Step::Advanced)
    }

    /// Ready the interpreter for another program run
    pub fn reset(&mut self)
        requires
            old(self).wf(),
        ensures
            final(self).wf(),
            final(self).same_setup(old(self)),
            final(self)@ == old(self)@.reset(),
            final(self).sink == old(self).sink,
            final(self).source_position == old(self).source_position,
    {
        // Reset instruction and data pointer
        self.instruction_pointer = 0;
        // Reset data vector
        self.tape.clear();
    }

    /// An easy way to redirect the program's character output
    pub fn set_sink(&mut self, sink: Vec<u8>)
        ensures
            final(self).sink == Some(sink),
            final(self).instruction_pointer == old(self).instruction_pointer,
            final(self).tape == old(self).tape,
            final(self).code == old(self).code,
            final(self).loops == old(self).loops,
            final(self).profile == old(self).profile,
            final(self).source == old(self).source,
            final(self).source_position == old(self).source_position,
            final(self).stdout_echo == old(self).stdout_echo,
    {
        self.sink = Some(sink)
    }

    /// An easy way to set an alternative program character input
    pub fn set_source(&mut self, source: Vec<u8>)
        ensures
            final(self).source == Some(source),
            final(self).source_position == 0,
            final(self).instruction_pointer == old(self).instruction_pointer,
            final(self).tape == old(self).tape,
            final(self).code == old(self).code,
            final(self).loops == old(self).loops,
            final(self).profile == old(self).profile,
            final(self).sink == old(self).sink,
            final(self).stdout_echo == old(self).stdout_echo,
    {
        self.source = Some(source);
        self.source_position = 0;
    }

    /// Whether to echo data written to stdin back to stdout IF AND ONLY IF sink isn't set
    pub fn set_stdout_echo(&mut self, echo: bool)
        ensures
            final(self).stdout_echo == echo,
            final(self).instruction_pointer == old(self).instruction_pointer,
            final(self).tape == old(self).tape,
            final(self).code == old(self).code,
            final(self).loops == old(self).loops,
            final(self).profile == old(self).profile,
            final(self).sink == old(self).sink,
            final(self).source == old(self).source,
            final(self).source_position == old(self).source_position,
    {
        self.stdout_echo = echo
    }

    /// The options that the machine was made with.
    pub fn get_options(&self) -> (r: InterpreterOptions)
        requires
            self.wf(),
        ensures
            r.num_of_cells == self.tape.cells@.len(),
            r.profile == self.profile,
    {
        InterpreterOptions { num_of_cells: self.tape.capacity(), profile: self.profile }
    }

    /// The machine stands on an input instruction and has no source to read from.
    pub open spec fn awaits_input(&self) -> bool {
        self@.outcome() == Ok::<Step, InterpreterError>(Step::InputNeeded)
    }

    /// Takes a character that the caller read for an input instruction. An
    /// ASCII character goes into the current cell and the machine moves on;
    /// it is to be echoed where the echo is on and no sink is set. Any other
    /// character is turned away, and so is one that the machine does not wait for.
    pub fn accept_input(&mut self, c: char) -> (r: InputReply)
        requires
            old(self).wf(),
        ensures
            final(self).wf(),
            final(self).same_setup(old(self)),
            final(self).sink == old(self).sink,
            final(self).source_position == old(self).source_position,
            r == (if !old(self).awaits_input() {
                InputReply::NotAwaited
            } else if c as u32 >= 128 {
                InputReply::Rejected
            } else {
                InputReply::Stored { echo: old(self).stdout_echo && old(self).sink is None }
            }),
            r is Stored ==> final(self)@ == (Machine {
                ip: old(self)@.ip + 1,
                cells: old(self)@.cells.update(old(self)@.pointer, c as u8),
                ..old(self)@
            }),
            !(r is Stored) ==> final(self)@ == old(self)@,
    {
        if self.instruction_pointer >= self.code.len() {
            return InputReply::NotAwaited;
        }
        if self.code[self.instruction_pointer] != ',' || self.source.is_some() {
            return InputReply::NotAwaited;
        }
        if c as u32 >= 128 {
            return InputReply::Rejected;
        }
        self.tape.write(c as u8);
        self.instruction_pointer += 1;
        InputReply::Stored { echo: self.stdout_echo && self.sink.is_none() }
    }
}

} // verus!
