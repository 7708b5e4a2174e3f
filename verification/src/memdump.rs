//! The memory dump command: which cells to show, and how each is to be shown.

use vstd::prelude::*;
use crate::state::State;

verus! {

#[derive(Debug, Clone, Copy)]
pub struct MemdumpArgs {
    /// The "width" of the memory dump. Must be an odd number
    pub width: usize,
    /// Print the memory contents as uppercase hex
    pub uppercase_hex: bool,
    /// The start offset of the memdump
    pub offset: usize,
}

#[derive(Debug, Clone, Copy, PartialEq, Eq, Structural)]
pub enum MemdumpError {
    /// Expected the width parameter to be odd, it is even
    EvenWidth,
    /// Resize the terminal so that the program can print the entire memdump
    /// (With the current terminal width of {width}, a max number of {cells} cells can be printed, found {provided})
    TerminalTooSmall { width: usize, cells: usize, provided: usize },
    /// Memdump end limit is out-of-bounds: The end limit ({limit}) is {overflown} bytes after the cell array's end ({end})
    OutOfBounds { limit: usize, overflown: usize, end: usize },
}

/// What one cell of the dump holds.
#[derive(Debug, Clone, Copy, PartialEq, Eq, Structural)]
pub enum CellType {
    Index(usize),
    Data { byte: u8, hex_uppercase: bool },
}

/// One cell of the dump: what it holds, whether it is highlighted, and
/// whether a separator follows it.
#[derive(Debug, Clone, Copy, PartialEq, Eq, Structural)]
pub struct DumpCell {
    pub cell: CellType,
    pub inverse: bool,
    pub sep: bool,
}

/// The two rows of a dump: the indices, and under them the cells' contents.
#[derive(Debug, PartialEq, Eq)]
pub struct Memdump {
    pub indexes: Vec<DumpCell>,
    pub data: Vec<DumpCell>,
}

// +1 for the non-existent end seperator and /3 for the cell char size plus the seperator
pub fn max_cells_visible(width: usize) -> (cells: usize)
    ensures
        cells == (width + 1) / 3,
{
    if width % 3 == 2 {
        width / 3 + 1
    } else {
        width / 3
    }
}

/// Why a dump is refused, if it is: an even width, a terminal too narrow for
/// the width, or a range that ends behind the tape, in this order.
pub open spec fn memdump_error(args: MemdumpArgs, terminal_width: usize, cells: nat) -> Option<MemdumpError> {
    if args.width % 2 == 0 {
        Some(MemdumpError::EvenWidth)
    } else if args.width > (terminal_width + 1) / 3 {
        Some(
            MemdumpError::TerminalTooSmall {
                width: terminal_width,
                cells: ((terminal_width + 1) / 3) as usize,
                provided: args.width,
            },
        )
    } else if args.offset + args.width > cells {
        Some(
            MemdumpError::OutOfBounds {
                limit: (args.offset + args.width) as usize,
                overflown: (args.offset + args.width - cells) as usize,
                end: cells as usize,
            },
        )
    } else {
        None
    }
}

/// The cell of the index row that stands for the tape's cell `at`.
pub open spec fn index_cell(at: usize, pointer: usize, last: usize) -> DumpCell {
    DumpCell { cell: CellType::Index(at), inverse: at == pointer, sep: at != last }
}

/// The cell of the data row that stands for the tape's cell `at`.
pub open spec fn data_cell(at: usize, byte: u8, hex_uppercase: bool, pointer: usize, last: usize) -> DumpCell {
    DumpCell { cell: CellType::Data { byte, hex_uppercase }, inverse: at == pointer, sep: at != last }
}

/// Dumps a portion of the program's memory: the cells from `offset` to
/// `offset + width`, both included, the one under the data pointer
/// highlighted. The last of them has to exist where the dump is not refused.
pub fn memdump(state: &State, args: MemdumpArgs, terminal_width: usize) -> (r: Result<Memdump, MemdumpError>)
    requires
        state.wf(),
        args.offset + args.width <= usize::MAX,
        memdump_error(args, terminal_width, state.interpreter.tape.cells@.len()) is None ==> args.offset
            + args.width < state.interpreter.tape.cells@.len(),
    ensures
        match memdump_error(args, terminal_width, state.interpreter.tape.cells@.len()) {
            Some(error) => r == Err::<Memdump, MemdumpError>(error),
            None => r matches Ok(dump) && {
                &&& dump.indexes@.len() == args.width + 1
                &&& dump.data@.len() == args.width + 1
                &&& forall|i: int|
                    0 <= i <= args.width ==> #[trigger] dump.indexes@[i] == index_cell(
                        (args.offset + i) as usize,
                        state.interpreter.tape.pointer,
                        (args.offset + args.width) as usize,
                    )
                &&& forall|i: int|
                    0 <= i <= args.width ==> #[trigger] dump.data@[i] == data_cell(
                        (args.offset + i) as usize,
                        state.interpreter.tape.cells@[args.offset + i],
                        args.uppercase_hex,
                        state.interpreter.tape.pointer,
                        (args.offset + args.width) as usize,
                    )
            },
        },
{
    if args.width % 2 == 0 {
        return Err(MemdumpError::EvenWidth);
    }
    let cells: usize = max_cells_visible(terminal_width);
    if args.width > cells {
        return Err(MemdumpError::TerminalTooSmall { width: terminal_width, cells, provided: args.width });
    }
    let len: usize = state.interpreter.tape.cells.len();
    // Let's now check if the offset parameter, combined with width, is in bounds of the cell array
    if args.offset + args.width > len {
        return Err(
            MemdumpError::OutOfBounds {
                limit: args.offset + args.width,
                overflown: args.offset + args.width - len,
                end: len,
            },
        );
    }
    // we can now start dumping the memory

    let start: usize = args.offset;
    let end: usize = args.offset + args.width;
    let pointer: usize = state.interpreter.tape.pointer;
    let mut indexes: Vec<DumpCell> = Vec::new();
    let mut data: Vec<DumpCell> = Vec::new();
    let mut i: usize = start;
    while i <= end
        invariant
            start <= i <= end + 1,
            end < len,
            len == state.interpreter.tape.cells@.len(),
            start == args.offset,
            end == args.offset + args.width,
            pointer == state.interpreter.tape.pointer,
            indexes@.len() == i - start,
            data@.len() == i - start,
            forall|k: int| 0 <= k < i - start ==> #[trigger] indexes@[k] == index_cell((start + k) as usize, pointer, end),
            forall|k: int|
                0 <= k < i - start ==> #[trigger] data@[k] == data_cell(
                    (start + k) as usize,
                    state.interpreter.tape.cells@[start + k],
                    args.uppercase_hex,
                    pointer,
                    end,
                ),
        decreases end + 1 - i,
    {
        indexes.push(DumpCell { cell: CellType::Index(i), inverse: i == pointer, sep: i != end });
        data.push(
            DumpCell {
                cell: CellType::Data { byte: state.interpreter.tape.cells[i], hex_uppercase: args.uppercase_hex },
                inverse: i == pointer,
                sep: i != end,
            },
        );
        i += 1;
    }
    Ok(Memdump { indexes, data })
}

/// The sixteen digits, with the letters in upper or in lower case.
pub open spec fn digits(uppercase: bool) -> Seq<char> {
    if uppercase {
        seq!['0', '1', '2', '3', '4', '5', '6', '7', '8', '9', 'A', 'B', 'C', 'D', 'E', 'F']
    } else {
        seq!['0', '1', '2', '3', '4', '5', '6', '7', '8', '9', 'a', 'b', 'c', 'd', 'e', 'f']
    }
}

/// The two characters that stand for a cell: the last two decimal digits of
/// an index, or the two hexadecimal digits of a byte.
pub open spec fn cell_digits(cell: CellType) -> Seq<char> {
    match cell {
        CellType::Index(i) => seq![digits(false)[(i as int % 100) / 10], digits(false)[i as int % 10]],
        CellType::Data { byte, hex_uppercase } => seq![
            digits(hex_uppercase)[byte as int / 16],
            digits(hex_uppercase)[byte as int % 16],
        ],
    }
}

/// The characters that switch the terminal to inverse colours.
pub open spec fn inverse_on() -> Seq<char> {
    seq!['\x1B', '[', '7', 'm']
}

/// The characters that switch the terminal's modes off.
pub open spec fn modes_off() -> Seq<char> {
    seq!['\x1B', '[', '0', 'm']
}

/// The text of a cell of the dump: its two digits, between the switches for
/// inverse colours where it is highlighted, and a separator behind it where
/// one follows.
pub open spec fn cell_text_of(cell: DumpCell) -> Seq<char> {
    (if cell.inverse {
        inverse_on()
    } else {
        Seq::empty()
    }) + cell_digits(cell.cell) + (if cell.inverse {
        modes_off()
    } else {
        Seq::empty()
    }) + (if cell.sep {
        seq!['|']
    } else {
        Seq::empty()
    })
}

/// One of the sixteen digits.
pub fn digit(value: usize, uppercase: bool) -> (c: char)
    requires
        value < 16,
    ensures
        c == digits(uppercase)[value as int],
{
    let lower: [char; 16] = ['0', '1', '2', '3', '4', '5', '6', '7', '8', '9', 'a', 'b', 'c', 'd', 'e', 'f'];
    let upper: [char; 16] = ['0', '1', '2', '3', '4', '5', '6', '7', '8', '9', 'A', 'B', 'C', 'D', 'E', 'F'];
    if uppercase {
        upper[value]
    } else {
        lower[value]
    }
}

/// The text that shows a cell of the dump.
pub fn cell_text(cell: DumpCell) -> (text: Vec<char>)
    ensures
        text@ == cell_text_of(cell),
{
    let mut text: Vec<char> = Vec::new();
    // start inverse ANSI mode
    if cell.inverse {
        text.push('\x1B');
        text.push('[');
        text.push('7');
        text.push('m');
    }
    match cell.cell {
        CellType::Index(i) => {
            // show only the last 2 digits of the current offset for compatibility reasons
            text.push(digit((i % 100) / 10, false));
            text.push(digit(i % 10, false));
        },
        CellType::Data { byte, hex_uppercase } => {
            // show it as a 2-digit hex
            text.push(digit((byte / 16) as usize, hex_uppercase));
            text.push(digit((byte % 16) as usize, hex_uppercase));
        },
    }
    // reset all enabled ANSI modes
    if cell.inverse {
        text.push('\x1B');
        text.push('[');
        text.push('0');
        text.push('m');
    }
    // a separator between numbers
    if cell.sep {
        text.push('|');
    }
    assert(text@ =~= cell_text_of(cell));
    text
}

} // verus!
