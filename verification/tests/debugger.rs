use aneurysm::breakpoint::{
    breakpoint, BreakpointArgs, BreakpointError, BreakpointMode, BreakpointReply,
};
use aneurysm::interpreter::{
    InputReply, Interpreter, InterpreterError, InterpreterOptions, IoFailure,
};
use aneurysm::memdump::{
    cell_text, digit, max_cells_visible, memdump, CellType, DumpCell, MemdumpArgs, MemdumpError,
};
use aneurysm::reload::{reload, ReloadArgs, ReloadErr, ReloadMode};
use aneurysm::run::{
    run, run_until, run_until_within, run_within, RunArgs, RunError, RunReport,
};
use aneurysm::state::{find, State};

fn session(program: &str, cells: usize) -> State {
    let interpreter =
        Interpreter::new(program, InterpreterOptions::release().with_cell_size(cells)).unwrap();
    State::new(interpreter)
}

fn stepping() -> RunArgs {
    RunArgs { ignore_breakpoints: false }
}

#[test]
fn run_stops_at_each_breakpoint_in_turn() {
    let mut state = session(&"+".repeat(20), 4);
    assert_eq!(state.interpreter.code.len(), 20);
    assert_eq!(state.add(5), Ok(()));
    assert_eq!(state.add(12), Ok(()));

    assert_eq!(run(&mut state, stepping()), RunReport::Finished(RunError::BreakpointFound(5)));
    // the pointer has reached the breakpoint: the instructions before it are done
    assert_eq!(state.interpreter.instruction_pointer, 5);
    assert_eq!(state.interpreter.tape.cells[0], 5);

    assert_eq!(run(&mut state, stepping()), RunReport::Finished(RunError::BreakpointFound(12)));
    assert_eq!(state.interpreter.instruction_pointer, 12);

    assert_eq!(run(&mut state, stepping()), RunReport::Finished(RunError::ReachedEOF));
    assert_eq!(state.interpreter.instruction_pointer, 20);
    assert_eq!(state.interpreter.tape.cells[0], 20);

    // past the end nothing is done
    assert_eq!(run(&mut state, stepping()), RunReport::Finished(RunError::PastEOF));
    assert_eq!(state.interpreter.instruction_pointer, 20);
    assert_eq!(state.interpreter.tape.cells[0], 20);
    assert_eq!(state.list(), &vec![5, 12]);
}

#[test]
fn run_stops_behind_a_breakpoint_that_a_jump_passes() {
    // the `[` at 4 finds a zero cell and jumps over the `]` at 5
    let program = format!(">>>>[]{}", "+".repeat(14));
    let mut state = session(&program, 8);
    assert_eq!(state.interpreter.code.len(), 20);
    assert_eq!(state.add(12), Ok(()));
    assert_eq!(state.add(5), Ok(()));
    assert_eq!(state.list(), &vec![5, 12]);

    assert_eq!(run(&mut state, stepping()), RunReport::Finished(RunError::BreakpointFound(5)));
    assert_eq!(state.interpreter.instruction_pointer, 6);

    assert_eq!(run(&mut state, stepping()), RunReport::Finished(RunError::BreakpointFound(12)));
    assert_eq!(state.interpreter.instruction_pointer, 12);
}

#[test]
fn run_keeps_its_target_while_the_pointer_goes_back() {
    // two rounds of a loop whose body holds a breakpoint before the pointer
    let mut state = session("++[-]+", 2);
    assert_eq!(state.add(3), Ok(()));
    assert_eq!(state.add(5), Ok(()));
    // from 0 the run heads for 3
    assert_eq!(run(&mut state, stepping()), RunReport::Finished(RunError::BreakpointFound(3)));
    assert_eq!(state.interpreter.instruction_pointer, 3);
    // from 3 it heads for 5, and does not stop at 3 when the loop comes back to it
    assert_eq!(run(&mut state, stepping()), RunReport::Finished(RunError::BreakpointFound(5)));
    assert_eq!(state.interpreter.instruction_pointer, 5);
    assert_eq!(state.interpreter.tape.cells[0], 0);
}

#[test]
fn run_ignores_breakpoints_on_demand_and_without_any() {
    let mut ignoring = session("+++", 1);
    assert_eq!(ignoring.add(1), Ok(()));
    assert_eq!(
        run(&mut ignoring, RunArgs { ignore_breakpoints: true }),
        RunReport::Finished(RunError::ReachedEOF)
    );
    assert_eq!(ignoring.interpreter.instruction_pointer, 3);

    let mut none_set = session("+++", 1);
    assert_eq!(run(&mut none_set, stepping()), RunReport::Finished(RunError::ReachedEOF));
    assert_eq!(none_set.interpreter.tape.cells[0], 3);

    let mut empty = session("", 1);
    assert_eq!(run(&mut empty, stepping()), RunReport::Finished(RunError::PastEOF));
}

#[test]
fn run_hands_console_bytes_to_the_caller_and_goes_on_with_its_target() {
    let mut state = session(",.+.", 1);
    assert_eq!(state.add(2), Ok(()));

    assert_eq!(run(&mut state, stepping()), RunReport::InputNeeded { target: Some(2) });
    assert_eq!(state.interpreter.instruction_pointer, 0);
    assert_eq!(state.interpreter.accept_input('a'), InputReply::Stored { echo: false });

    assert_eq!(
        run_until(&mut state, Some(2)),
        RunReport::Output { byte: b'a', target: Some(2) }
    );
    assert_eq!(state.interpreter.instruction_pointer, 2);
    assert_eq!(
        run_until(&mut state, Some(2)),
        RunReport::Finished(RunError::BreakpointFound(2))
    );
    assert_eq!(state.interpreter.instruction_pointer, 2);

    // the pointer stands on the breakpoint: none is left ahead
    assert_eq!(run(&mut state, stepping()), RunReport::Output { byte: b'b', target: None });
    assert_eq!(run_until(&mut state, None), RunReport::Finished(RunError::ReachedEOF));
}

#[test]
fn run_reports_a_source_that_ran_dry() {
    let mut state = session("+,", 1);
    state.interpreter.set_source(Vec::new());
    assert_eq!(
        run(&mut state, stepping()),
        RunReport::Failed(InterpreterError::IOError(IoFailure::UnexpectedEof))
    );
    assert_eq!(state.interpreter.instruction_pointer, 1);
    assert_eq!(state.interpreter.tape.cells[0], 1);
}

#[test]
fn breakpoints_stay_sorted_and_unique() {
    let mut state = session("++++++++", 1);
    for index in [6, 2, 4, 0, 7] {
        assert_eq!(state.add(index), Ok(()));
    }
    assert_eq!(state.list(), &vec![0, 2, 4, 6, 7]);
    assert_eq!(state.add(4), Err(BreakpointError::AlreadyExists(4)));
    assert_eq!(state.add(8), Err(BreakpointError::PastEOF { index: 8, len: 8 }));
    assert_eq!(state.add(100), Err(BreakpointError::PastEOF { index: 100, len: 8 }));
    assert_eq!(state.list(), &vec![0, 2, 4, 6, 7]);

    assert_eq!(state.remove(3), Err(BreakpointError::NotFound(3)));
    assert_eq!(state.list(), &vec![0, 2, 4, 6, 7]);
    assert_eq!(state.remove(4), Ok(()));
    assert_eq!(state.remove(0), Ok(()));
    assert_eq!(state.remove(7), Ok(()));
    assert_eq!(state.list(), &vec![2, 6]);
    assert_eq!(state.remove(4), Err(BreakpointError::NotFound(4)));

    assert_eq!(state.next_breakpoint(), Some(2));
    state.interpreter.instruction_pointer = 2;
    assert_eq!(state.next_breakpoint(), Some(6));
    state.interpreter.instruction_pointer = 6;
    assert_eq!(state.next_breakpoint(), None);
}

#[test]
fn find_tells_where_a_breakpoint_stands_or_would_stand() {
    let breakpoints = vec![1, 3, 5, 7];
    assert_eq!(find(&breakpoints, 1), Ok(0));
    assert_eq!(find(&breakpoints, 7), Ok(3));
    assert_eq!(find(&breakpoints, 0), Err(0));
    assert_eq!(find(&breakpoints, 4), Err(2));
    assert_eq!(find(&breakpoints, 8), Err(4));
    assert_eq!(find(&Vec::new(), 8), Err(0));
}

#[test]
fn breakpoint_command_serves_each_index() {
    let mut state = session("+++++", 1);
    let added = breakpoint(
        &mut state,
        BreakpointArgs { mode: BreakpointMode::Add, index: Some(vec![3, 1, 3, 5, 9, 0]) },
    );
    assert_eq!(
        added,
        BreakpointReply::Changed(vec![
            Ok(()),
            Ok(()),
            Err(BreakpointError::AlreadyExists(3)),
            Err(BreakpointError::PastEOF { index: 5, len: 5 }),
            Err(BreakpointError::PastEOF { index: 9, len: 5 }),
            Ok(()),
        ])
    );
    assert_eq!(state.breakpoints, vec![0, 1, 3]);

    let shown = breakpoint(&mut state, BreakpointArgs { mode: BreakpointMode::Show, index: None });
    assert_eq!(shown, BreakpointReply::Shown(vec![0, 1, 3]));

    let removed = breakpoint(
        &mut state,
        BreakpointArgs { mode: BreakpointMode::Remove, index: Some(vec![1, 2, 1, 0]) },
    );
    assert_eq!(
        removed,
        BreakpointReply::Changed(vec![
            Ok(()),
            Err(BreakpointError::NotFound(2)),
            Err(BreakpointError::NotFound(1)),
            Ok(()),
        ])
    );
    assert_eq!(state.breakpoints, vec![3]);
}

#[test]
fn breakpoint_command_refuses_wrong_usage_and_changes_nothing() {
    let mut state = session("+++++", 1);
    assert_eq!(state.add(2), Ok(()));
    assert_eq!(
        breakpoint(&mut state, BreakpointArgs { mode: BreakpointMode::Show, index: Some(vec![1]) }),
        BreakpointReply::IndexNotAllowed
    );
    assert_eq!(
        breakpoint(&mut state, BreakpointArgs { mode: BreakpointMode::Add, index: None }),
        BreakpointReply::IndexRequired
    );
    assert_eq!(
        breakpoint(&mut state, BreakpointArgs { mode: BreakpointMode::Remove, index: None }),
        BreakpointReply::IndexRequired
    );
    assert_eq!(state.breakpoints, vec![2]);
    assert_eq!(BreakpointMode::default(), BreakpointMode::Show);
}

#[test]
fn max_cells_visible_is_a_third_of_the_width_and_one() {
    assert_eq!(max_cells_visible(0), 0);
    assert_eq!(max_cells_visible(1), 0);
    assert_eq!(max_cells_visible(2), 1);
    assert_eq!(max_cells_visible(3), 1);
    assert_eq!(max_cells_visible(5), 2);
    assert_eq!(max_cells_visible(80), 27);
    // the largest width is a multiple of three, so the added one gains nothing
    assert_eq!(max_cells_visible(usize::MAX), usize::MAX / 3);
    assert_eq!(max_cells_visible(usize::MAX - 1), usize::MAX / 3);
    assert_eq!(max_cells_visible(usize::MAX - 2), usize::MAX / 3 - 1);
}

#[test]
fn memdump_shows_the_range_and_marks_the_pointer() {
    let mut state = session("+>++>+++", 30);
    assert_eq!(run(&mut state, stepping()), RunReport::Finished(RunError::ReachedEOF));
    let dump = memdump(
        &state,
        MemdumpArgs { width: 3, uppercase_hex: true, offset: 1 },
        80,
    )
    .unwrap();
    assert_eq!(
        dump.indexes,
        vec![
            DumpCell { cell: CellType::Index(1), inverse: false, sep: true },
            DumpCell { cell: CellType::Index(2), inverse: true, sep: true },
            DumpCell { cell: CellType::Index(3), inverse: false, sep: true },
            DumpCell { cell: CellType::Index(4), inverse: false, sep: false },
        ]
    );
    assert_eq!(
        dump.data,
        vec![
            DumpCell {
                cell: CellType::Data { byte: 2, hex_uppercase: true },
                inverse: false,
                sep: true
            },
            DumpCell {
                cell: CellType::Data { byte: 3, hex_uppercase: true },
                inverse: true,
                sep: true
            },
            DumpCell {
                cell: CellType::Data { byte: 0, hex_uppercase: true },
                inverse: false,
                sep: true
            },
            DumpCell {
                cell: CellType::Data { byte: 0, hex_uppercase: true },
                inverse: false,
                sep: false
            },
        ]
    );
}

#[test]
fn memdump_refuses_what_it_cannot_show() {
    let state = session("", 30);
    assert_eq!(
        memdump(&state, MemdumpArgs { width: 4, uppercase_hex: false, offset: 0 }, 80),
        Err(MemdumpError::EvenWidth)
    );
    // an even width comes first
    assert_eq!(
        memdump(&state, MemdumpArgs { width: 40, uppercase_hex: false, offset: 0 }, 20),
        Err(MemdumpError::EvenWidth)
    );
    assert_eq!(
        memdump(&state, MemdumpArgs { width: 9, uppercase_hex: false, offset: 0 }, 20),
        Err(MemdumpError::TerminalTooSmall { width: 20, cells: 7, provided: 9 })
    );
    assert_eq!(
        memdump(&state, MemdumpArgs { width: 3, uppercase_hex: false, offset: 28 }, 80),
        Err(MemdumpError::OutOfBounds { limit: 31, overflown: 1, end: 30 })
    );
    assert!(memdump(&state, MemdumpArgs { width: 3, uppercase_hex: false, offset: 26 }, 80).is_ok());
}

#[test]
fn reload_of_the_interpreter_keeps_program_and_breakpoints() {
    let mut state = session("+>+", 3);
    assert_eq!(state.add(1), Ok(()));
    assert_eq!(run(&mut state, RunArgs { ignore_breakpoints: true }), RunReport::Finished(RunError::ReachedEOF));
    assert_eq!(state.interpreter.tape.cells, vec![1, 1, 0]);

    assert_eq!(reload(&mut state, ReloadArgs { mode: ReloadMode::Interpreter }, "ignored"), Ok(()));
    assert_eq!(state.interpreter.instruction_pointer, 0);
    assert_eq!(state.interpreter.tape.pointer, 0);
    assert_eq!(state.interpreter.tape.cells, vec![0, 0, 0]);
    assert_eq!(state.interpreter.code, vec!['+', '>', '+']);
    assert_eq!(state.breakpoints, vec![1]);
}

#[test]
fn reload_of_the_file_replaces_the_program_and_clears_the_breakpoints() {
    let mut state = session("+>+", 3);
    assert_eq!(state.add(1), Ok(()));
    assert_eq!(run(&mut state, RunArgs { ignore_breakpoints: true }), RunReport::Finished(RunError::ReachedEOF));

    assert_eq!(reload(&mut state, ReloadArgs { mode: ReloadMode::File }, "new: [-]"), Ok(()));
    assert_eq!(state.interpreter.code, vec!['[', '-', ']']);
    assert_eq!(state.interpreter.instruction_pointer, 0);
    assert_eq!(state.interpreter.tape.cells, vec![0, 0, 0]);
    assert!(state.breakpoints.is_empty());
}

#[test]
fn reload_of_a_broken_file_changes_nothing() {
    let mut state = session("+>+", 3);
    assert_eq!(state.add(1), Ok(()));
    assert_eq!(run(&mut state, stepping()), RunReport::Finished(RunError::BreakpointFound(1)));

    assert_eq!(
        reload(&mut state, ReloadArgs { mode: ReloadMode::File }, "[[]"),
        Err(ReloadErr::InterpreterError(InterpreterError::UnmatchedLoop))
    );
    assert_eq!(state.interpreter.code, vec!['+', '>', '+']);
    assert_eq!(state.interpreter.instruction_pointer, 1);
    assert_eq!(state.interpreter.tape.cells, vec![1, 0, 0]);
    assert_eq!(state.breakpoints, vec![1]);
}

fn text_of(cell: DumpCell) -> String {
    cell_text(cell).into_iter().collect()
}

#[test]
fn cell_text_shows_two_digits_with_highlight_and_separator() {
    assert_eq!(
        text_of(DumpCell { cell: CellType::Index(7), inverse: false, sep: true }),
        "07|"
    );
    assert_eq!(
        text_of(DumpCell { cell: CellType::Index(1234), inverse: false, sep: false }),
        "34"
    );
    assert_eq!(
        text_of(DumpCell { cell: CellType::Index(100), inverse: true, sep: true }),
        "\x1B[7m00\x1B[0m|"
    );
    assert_eq!(
        text_of(DumpCell {
            cell: CellType::Data { byte: 0xAB, hex_uppercase: false },
            inverse: false,
            sep: true
        }),
        "ab|"
    );
    assert_eq!(
        text_of(DumpCell {
            cell: CellType::Data { byte: 0xAB, hex_uppercase: true },
            inverse: true,
            sep: false
        }),
        "\x1B[7mAB\x1B[0m"
    );
    assert_eq!(
        text_of(DumpCell {
            cell: CellType::Data { byte: 5, hex_uppercase: true },
            inverse: false,
            sep: false
        }),
        "05"
    );
    assert_eq!(digit(9, true), '9');
    assert_eq!(digit(10, true), 'A');
    assert_eq!(digit(15, false), 'f');
}

#[test]
fn a_run_with_a_budget_stops_when_it_is_used_up_and_goes_on_after() {
    let mut state = session(&"+".repeat(20), 1);
    assert_eq!(state.add(12), Ok(()));

    assert_eq!(run_within(&mut state, stepping(), 5), RunReport::Running { target: Some(12) });
    assert_eq!(state.interpreter.instruction_pointer, 5);
    assert_eq!(
        run_until_within(&mut state, Some(12), 0),
        RunReport::Running { target: Some(12) }
    );
    assert_eq!(state.interpreter.instruction_pointer, 5);
    // seven more steps bring the pointer to the breakpoint, and the budget is used up
    assert_eq!(
        run_until_within(&mut state, Some(12), 7),
        RunReport::Running { target: Some(12) }
    );
    assert_eq!(state.interpreter.instruction_pointer, 12);
    assert_eq!(
        run_until_within(&mut state, Some(12), 7),
        RunReport::Finished(RunError::BreakpointFound(12))
    );
    assert_eq!(state.interpreter.instruction_pointer, 12);
    assert_eq!(
        run_within(&mut state, stepping(), usize::MAX),
        RunReport::Finished(RunError::ReachedEOF)
    );
    assert_eq!(
        run_within(&mut state, stepping(), usize::MAX),
        RunReport::Finished(RunError::PastEOF)
    );
}

#[test]
fn a_run_with_a_budget_returns_from_a_program_that_never_ends() {
    let mut state = session("+[]", 1);
    assert_eq!(run_within(&mut state, stepping(), 1000), RunReport::Running { target: None });
    assert_eq!(state.interpreter.tape.cells[0], 1);
    assert_eq!(run_until_within(&mut state, None, 1000), RunReport::Running { target: None });
}
