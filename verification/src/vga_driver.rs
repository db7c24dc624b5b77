//! VGA text-mode console driver: cursor state machine, control-character
//! handling and line scrolling over an owned 80x25 cell grid.
//!
//! The driver owns the character grid as plain data, row-major with the top
//! row first; the caller that maps it onto the hardware buffer copies the
//! cells out after writing. Events are single characters: the printable
//! ASCII range is written at the cursor, four control characters move it,
//! and every other character is deliberately ignored.

use vstd::prelude::*;
use vstd::string::StrSliceExecFns;

verus! {

/// Columns of the text buffer.
pub const BUFFER_WIDTH: usize = 80;

/// Rows of the text buffer.
pub const BUFFER_HEIGHT: usize = 25;

/// Style byte of every cell this driver writes: light grey on black.
pub const DEFAULT_STYLE: u8 = 0x07;

/// One cell of the text buffer: a codepoint byte and a style byte.
#[derive(Clone, Copy, Debug, PartialEq, Eq, Structural)]
pub struct VgaCharacter {
    pub codepoint: u8,
    pub style: u8,
}

/// The blank cell: a space in the default style.
pub open spec fn empty_char() -> VgaCharacter {
    VgaCharacter { codepoint: 0x20, style: DEFAULT_STYLE }
}

/// The blank cell: a space in the default style.
pub fn blank() -> (r: VgaCharacter)
    ensures
        r == empty_char(),
{
    VgaCharacter { codepoint: 0x20, style: DEFAULT_STYLE }
}

/// Row-major position of a cell in the grid.
pub open spec fn cell_index(row: nat, col: nat) -> nat {
    row * (BUFFER_WIDTH as nat) + col
}

/// Characters the driver writes into the buffer: space through tilde.
pub open spec fn is_printable(c: char) -> bool {
    0x20 <= c as u32 && c as u32 <= 0x7E
}

/// Mathematical state of the console: the cell grid and the cursor.
#[verifier::ext_equal]
pub ghost struct ScreenModel {
    pub cells: Seq<VgaCharacter>,
    pub col: nat,
    pub row: nat,
}

impl ScreenModel {
    /// The cursor sits on a valid cell and the grid has its fixed size.
    pub open spec fn wf(self) -> bool {
        self.col < BUFFER_WIDTH && self.row < BUFFER_HEIGHT && self.cells.len() == (
        BUFFER_WIDTH * BUFFER_HEIGHT) as nat
    }
}

/// Every row but the last overwritten with the row below it; the last row
/// cleared to blank cells.
pub open spec fn scroll_model(cells: Seq<VgaCharacter>) -> Seq<VgaCharacter> {
    Seq::new(
        cells.len(),
        |i: int|
            if i + BUFFER_WIDTH < cells.len() {
                cells[i + BUFFER_WIDTH]
            } else {
                empty_char()
            },
    )
}

/// The transition of the console on one character.
///
/// A printable character is written at the cursor in the default style and
/// the cursor advances, wrapping at the end of a row and scrolling past the
/// last row, where the cursor is pinned to the last valid row. A newline
/// moves to the start of the next row with the same scroll rule. Backspace
/// is a no-op at the origin; otherwise it steps back one column, wrapping
/// to the previous row's last column, and blanks that cell's codepoint
/// while keeping its style byte. Tab moves to the next four-column stop,
/// clamped to the last column, blanking the cells it skips. Carriage
/// return resets the column. Any other character changes nothing.
pub open spec fn step(s: ScreenModel, c: char) -> ScreenModel {
    if is_printable(c) {
        let written = s.cells.update(
            cell_index(s.row, s.col) as int,
            VgaCharacter { codepoint: (c as u32) as u8, style: DEFAULT_STYLE },
        );
        if s.col + 1 < BUFFER_WIDTH {
            ScreenModel { cells: written, col: s.col + 1, row: s.row }
        } else if s.row + 1 < BUFFER_HEIGHT {
            ScreenModel { cells: written, col: 0, row: s.row + 1 }
        } else {
            ScreenModel {
                cells: scroll_model(written),
                col: 0,
                row: (BUFFER_HEIGHT - 1) as nat,
            }
        }
    } else if c == '\n' {
        if s.row + 1 < BUFFER_HEIGHT {
            ScreenModel { cells: s.cells, col: 0, row: s.row + 1 }
        } else {
            ScreenModel {
                cells: scroll_model(s.cells),
                col: 0,
                row: (BUFFER_HEIGHT - 1) as nat,
            }
        }
    } else if c == '\u{8}' {
        if s.col == 0 && s.row == 0 {
            s
        } else {
            let back_row = if s.col == 0 {
                (s.row - 1) as nat
            } else {
                s.row
            };
            let back_col = if s.col == 0 {
                (BUFFER_WIDTH - 1) as nat
            } else {
                (s.col - 1) as nat
            };
            let ix = cell_index(back_row, back_col) as int;
            ScreenModel {
                cells: s.cells.update(
                    ix,
                    VgaCharacter { codepoint: 0x20, style: s.cells[ix].style },
                ),
                col: back_col,
                row: back_row,
            }
        }
    } else if c == '\t' {
        let stop0 = (s.col / 4 + 1) * 4;
        let stop = if stop0 >= BUFFER_WIDTH {
            (BUFFER_WIDTH - 1) as nat
        } else {
            stop0
        };
        ScreenModel {
            cells: Seq::new(
                s.cells.len(),
                |i: int|
                    if cell_index(s.row, s.col) <= i < cell_index(s.row, stop) {
                        empty_char()
                    } else {
                        s.cells[i]
                    },
            ),
            col: stop,
            row: s.row,
        }
    } else if c == '\r' {
        ScreenModel { cells: s.cells, col: 0, row: s.row }
    } else {
        s
    }
}

/// The transition folded over a sequence of characters, in order.
pub open spec fn write_seq(s: ScreenModel, cs: Seq<char>) -> ScreenModel
    decreases cs.len(),
{
    if cs.len() == 0 {
        s
    } else {
        write_seq(step(s, cs[0]), cs.subrange(1, cs.len() as int))
    }
}

/// One step keeps the console well formed.
pub proof fn lemma_step_wf(s: ScreenModel, c: char)
    requires
        s.wf(),
    ensures
        step(s, c).wf(),
{
    if c == '\t' {
        assert(s.col / 4 <= 19) by (nonlinear_arith)
            requires
                s.col < 80,
        ;
        assert((s.col / 4 + 1) * 4 <= 80) by (nonlinear_arith)
            requires
                s.col / 4 <= 19,
        ;
    }
}

/// Folding a sequence of steps keeps the console well formed.
pub proof fn lemma_write_seq_wf(s: ScreenModel, cs: Seq<char>)
    requires
        s.wf(),
    ensures
        write_seq(s, cs).wf(),
    decreases cs.len(),
{
    if cs.len() > 0 {
        lemma_step_wf(s, cs[0]);
        lemma_write_seq_wf(step(s, cs[0]), cs.subrange(1, cs.len() as int));
    }
}

/// Appending one character to a written sequence is one more step.
pub proof fn lemma_write_seq_snoc(s: ScreenModel, cs: Seq<char>, c: char)
    ensures
        write_seq(s, cs.push(c)) == step(write_seq(s, cs), c),
    decreases cs.len(),
{
    if cs.len() == 0 {
        assert(cs.push(c)[0] == c);
        assert(cs.push(c).subrange(1, 1) =~= Seq::<char>::empty());
        assert(write_seq(s, cs.push(c)) == write_seq(step(s, c), Seq::<char>::empty()));
        assert(write_seq(step(s, c), Seq::<char>::empty()) == step(s, c));
        assert(write_seq(s, cs) == s);
    } else {
        let rest = cs.subrange(1, cs.len() as int);
        assert(cs.push(c)[0] == cs[0]);
        assert(cs.push(c).subrange(1, cs.len() as int + 1) =~= rest.push(c));
        assert(write_seq(s, cs.push(c)) == write_seq(step(s, cs[0]), rest.push(c)));
        lemma_write_seq_snoc(step(s, cs[0]), rest, c);
        assert(write_seq(s, cs) == write_seq(step(s, cs[0]), rest));
    }
}

/// Writing printable characters that fit before the end of the row moves
/// the cursor right by one column each and touches no other cursor state.
pub proof fn lemma_printables_advance(s: ScreenModel, cs: Seq<char>)
    requires
        s.wf(),
        s.col + cs.len() < BUFFER_WIDTH,
        forall|i: int| 0 <= i < cs.len() ==> is_printable(#[trigger] cs[i]),
    ensures
        write_seq(s, cs).wf(),
        write_seq(s, cs).col == s.col + cs.len(),
        write_seq(s, cs).row == s.row,
    decreases cs.len(),
{
    if cs.len() > 0 {
        lemma_step_wf(s, cs[0]);
        lemma_printables_advance(step(s, cs[0]), cs.subrange(1, cs.len() as int));
    }
}

/// Writing a full row's worth of printable characters from the start of a
/// row leaves the cursor at column zero of the next row — not at column
/// `BUFFER_WIDTH` — scrolling if the cursor was already on the last row.
pub proof fn lemma_full_width_line(s: ScreenModel, cs: Seq<char>)
    requires
        s.wf(),
        s.col == 0,
        cs.len() == BUFFER_WIDTH,
        forall|i: int| 0 <= i < cs.len() ==> is_printable(#[trigger] cs[i]),
    ensures
        write_seq(s, cs).wf(),
        write_seq(s, cs).col == 0,
        write_seq(s, cs).row == if s.row + 1 < BUFFER_HEIGHT {
            s.row + 1
        } else {
            (BUFFER_HEIGHT - 1) as nat
        },
{
    let head = cs.subrange(0, BUFFER_WIDTH - 1);
    let last = cs[BUFFER_WIDTH - 1];
    assert(cs =~= head.push(last));
    lemma_printables_advance(s, head);
    lemma_write_seq_snoc(s, head, last);
    let t = write_seq(s, head);
    lemma_step_wf(t, last);
}

/// Backspace at the buffer origin changes nothing: neither the cursor nor
/// any cell.
pub proof fn lemma_backspace_at_origin(s: ScreenModel)
    requires
        s.wf(),
        s.col == 0,
        s.row == 0,
    ensures
        step(s, '\u{8}') == s,
{
}

/// Tab from column 77 clamps the cursor to the last column, 79, rather
/// than the four-column stop at 80.
pub proof fn lemma_tab_clamps_at_row_end(s: ScreenModel)
    requires
        s.wf(),
        s.col == 77,
    ensures
        step(s, '\t').col == (BUFFER_WIDTH - 1) as nat,
        step(s, '\t').row == s.row,
{
    assert((77nat / 4 + 1) * 4 == 80) by (nonlinear_arith);
}

/// The console driver: the owned cell grid and the cursor position.
///
/// The grid is the sole stand-in for the memory-mapped hardware buffer;
/// all emission routes through this driver, so the cursor invariant cannot
/// be bypassed.
pub struct VgaScreen {
    cursor_col: usize,
    cursor_row: usize,
    cells: Vec<VgaCharacter>,
}

impl View for VgaScreen {
    type V = ScreenModel;

    closed spec fn view(&self) -> ScreenModel {
        ScreenModel {
            cells: self.cells@,
            col: self.cursor_col as nat,
            row: self.cursor_row as nat,
        }
    }
}

impl VgaScreen {
    /// A fresh console: cursor at the origin, every cell blank.
    pub fn new() -> (r: VgaScreen)
        ensures
            r@.wf(),
            r@.col == 0,
            r@.row == 0,
            forall|i: int| 0 <= i < r@.cells.len() ==> r@.cells[i] == empty_char(),
    {
        let mut cells: Vec<VgaCharacter> = Vec::new();
        let mut i: usize = 0;
        while i < BUFFER_WIDTH * BUFFER_HEIGHT
            invariant
                i <= BUFFER_WIDTH * BUFFER_HEIGHT,
                cells@.len() == i,
                forall|j: int| 0 <= j < cells@.len() ==> cells@[j] == empty_char(),
            decreases BUFFER_WIDTH * BUFFER_HEIGHT - i,
        {
            cells.push(blank());
            i = i + 1;
        }
        VgaScreen { cursor_col: 0, cursor_row: 0, cells }
    }

    /// The cursor's column.
    pub fn cursor_col(&self) -> (r: usize)
        ensures
            r as nat == self@.col,
    {
        self.cursor_col
    }

    /// The cursor's row.
    pub fn cursor_row(&self) -> (r: usize)
        ensures
            r as nat == self@.row,
    {
        self.cursor_row
    }

    /// The cell at the given position.
    pub fn char_at(&self, row: usize, col: usize) -> (r: VgaCharacter)
        requires
            self@.wf(),
            row < BUFFER_HEIGHT,
            col < BUFFER_WIDTH,
        ensures
            r == self@.cells[cell_index(row as nat, col as nat) as int],
    {
        proof {
            assert(row * BUFFER_WIDTH + col < BUFFER_WIDTH * BUFFER_HEIGHT) by (nonlinear_arith)
                requires
                    row < BUFFER_HEIGHT,
                    col < BUFFER_WIDTH,
                    BUFFER_WIDTH == 80,
                    BUFFER_HEIGHT == 25,
            ;
        }
        self.cells[row * BUFFER_WIDTH + col]
    }

    /// Applies the transition for one character to the console.
    pub fn print_char(&mut self, c: char)
        requires
            old(self)@.wf(),
        ensures
            final(self)@ == step(old(self)@, c),
            final(self)@.wf(),
    {
        proof {
            lemma_step_wf(old(self)@, c);
        }
        let u = c as u32;
        if 0x20 <= u && u <= 0x7E {
            let ix = self.cursor_row * BUFFER_WIDTH + self.cursor_col;
            proof {
                assert(self.cursor_row * BUFFER_WIDTH + self.cursor_col < BUFFER_WIDTH
                    * BUFFER_HEIGHT) by (nonlinear_arith)
                    requires
                        self.cursor_row < BUFFER_HEIGHT,
                        self.cursor_col < BUFFER_WIDTH,
                        BUFFER_WIDTH == 80,
                        BUFFER_HEIGHT == 25,
                ;
            }
            self.cells[ix] = VgaCharacter { codepoint: u as u8, style: DEFAULT_STYLE };
            self.cursor_col = self.cursor_col + 1;
            if self.cursor_col >= BUFFER_WIDTH {
                self.cursor_col = 0;
                self.cursor_row = self.cursor_row + 1;
                if self.cursor_row >= BUFFER_HEIGHT {
                    self.scroll();
                    self.cursor_row = BUFFER_HEIGHT - 1;
                }
            }
            proof {
                assert(self@ =~= step(old(self)@, c));
            }
        } else if c == '\n' {
            self.cursor_col = 0;
            self.cursor_row = self.cursor_row + 1;
            if self.cursor_row >= BUFFER_HEIGHT {
                self.scroll();
                self.cursor_row = BUFFER_HEIGHT - 1;
            }
            proof {
                assert(self@ =~= step(old(self)@, c));
            }
        } else if c == '\u{8}' {
            if self.cursor_col != 0 || self.cursor_row != 0 {
                if self.cursor_col == 0 {
                    self.cursor_col = BUFFER_WIDTH - 1;
                    self.cursor_row = self.cursor_row - 1;
                } else {
                    self.cursor_col = self.cursor_col - 1;
                }
                let ix = self.cursor_row * BUFFER_WIDTH + self.cursor_col;
                proof {
                    assert(self.cursor_row * BUFFER_WIDTH + self.cursor_col < BUFFER_WIDTH
                        * BUFFER_HEIGHT) by (nonlinear_arith)
                        requires
                            self.cursor_row < BUFFER_HEIGHT,
                            self.cursor_col < BUFFER_WIDTH,
                            BUFFER_WIDTH == 80,
                            BUFFER_HEIGHT == 25,
                    ;
                }
                let kept_style = self.cells[ix].style;
                self.cells[ix] = VgaCharacter { codepoint: 0x20, style: kept_style };
            }
            proof {
                assert(self@ =~= step(old(self)@, c));
            }
        } else if c == '\t' {
            let mut next_stop = (self.cursor_col / 4 + 1) * 4;
            proof {
                assert(self.cursor_col / 4 <= 19 && (self.cursor_col / 4 + 1) * 4 <= 80) by (
                nonlinear_arith)
                    requires
                        self.cursor_col < 80,
                ;
            }
            if next_stop >= BUFFER_WIDTH {
                next_stop = BUFFER_WIDTH - 1;
            }
            let row_start = self.cursor_row * BUFFER_WIDTH;
            proof {
                assert(self.cursor_row * BUFFER_WIDTH + BUFFER_WIDTH <= BUFFER_WIDTH
                    * BUFFER_HEIGHT) by (nonlinear_arith)
                    requires
                        self.cursor_row < BUFFER_HEIGHT,
                        BUFFER_WIDTH == 80,
                        BUFFER_HEIGHT == 25,
                ;
            }
            let mut x = self.cursor_col;
            while x < next_stop
                invariant
                    old(self)@.wf(),
                    self.cursor_col <= x <= next_stop,
                    next_stop < BUFFER_WIDTH,
                    row_start == self.cursor_row * BUFFER_WIDTH,
                    row_start + BUFFER_WIDTH <= BUFFER_WIDTH * BUFFER_HEIGHT,
                    self.cursor_col == old(self).cursor_col,
                    self.cursor_row == old(self).cursor_row,
                    self.cells@.len() == old(self).cells@.len(),
                    forall|j: int|
                        0 <= j < self.cells@.len() ==> self.cells@[j] == (if row_start
                            + self.cursor_col <= j < row_start + x {
                            empty_char()
                        } else {
                            old(self).cells@[j]
                        }),
                decreases next_stop - x,
            {
                self.cells[row_start + x] = blank();
                x = x + 1;
            }
            self.cursor_col = next_stop;
            proof {
                assert(self@.cells =~= step(old(self)@, c).cells);
                assert(self@ =~= step(old(self)@, c));
            }
        } else if c == '\r' {
            self.cursor_col = 0;
            proof {
                assert(self@ =~= step(old(self)@, c));
            }
        } else {
            proof {
                assert(self@ =~= step(old(self)@, c));
            }
        }
    }

    /// Moves every row up by one and clears the last row to blank cells.
    /// The cursor is left where it was; the caller pins it back into range.
    pub fn scroll(&mut self)
        requires
            old(self)@.cells.len() == (BUFFER_WIDTH * BUFFER_HEIGHT) as nat,
        ensures
            final(self)@.cells == scroll_model(old(self)@.cells),
            final(self)@.col == old(self)@.col,
            final(self)@.row == old(self)@.row,
    {
        let mut i: usize = 0;
        while i < (BUFFER_HEIGHT - 1) * BUFFER_WIDTH
            invariant
                i <= (BUFFER_HEIGHT - 1) * BUFFER_WIDTH,
                self.cells@.len() == (BUFFER_WIDTH * BUFFER_HEIGHT) as nat,
                self.cursor_col == old(self).cursor_col,
                self.cursor_row == old(self).cursor_row,
                forall|j: int|
                    0 <= j < self.cells@.len() ==> self.cells@[j] == (if j < i {
                        old(self).cells@[j + BUFFER_WIDTH]
                    } else {
                        old(self).cells@[j]
                    }),
            decreases (BUFFER_HEIGHT - 1) * BUFFER_WIDTH - i,
        {
            let moved = self.cells[i + BUFFER_WIDTH];
            self.cells[i] = moved;
            i = i + 1;
        }
        let mut x: usize = 0;
        while x < BUFFER_WIDTH
            invariant
                x <= BUFFER_WIDTH,
                self.cells@.len() == (BUFFER_WIDTH * BUFFER_HEIGHT) as nat,
                self.cursor_col == old(self).cursor_col,
                self.cursor_row == old(self).cursor_row,
                forall|j: int|
                    0 <= j < self.cells@.len() ==> self.cells@[j] == (if j < (BUFFER_HEIGHT - 1)
                        * BUFFER_WIDTH {
                        old(self).cells@[j + BUFFER_WIDTH]
                    } else if j < (BUFFER_HEIGHT - 1) * BUFFER_WIDTH + x {
                        empty_char()
                    } else {
                        old(self).cells@[j]
                    }),
            decreases BUFFER_WIDTH - x,
        {
            self.cells[(BUFFER_HEIGHT - 1) * BUFFER_WIDTH + x] = blank();
            x = x + 1;
        }
        proof {
            assert(self@.cells =~= scroll_model(old(self)@.cells));
        }
    }

    /// Writes a sequence of characters in order, folding the one-character
    /// transition across it. There is no error channel: every character
    /// either takes its effect or is ignored.
    pub fn write_str(&mut self, s: &str)
        requires
            old(self)@.wf(),
        ensures
            final(self)@ == write_seq(old(self)@, s@),
            final(self)@.wf(),
    {
        let n = s.unicode_len();
        let mut i: usize = 0;
        while i < n
            invariant
                i <= n,
                n as nat == s@.len(),
                self@.wf(),
                self@ == write_seq(old(self)@, s@.take(i as int)),
            decreases n - i,
        {
            let c = s.get_char(i);
            proof {
                lemma_write_seq_snoc(old(self)@, s@.take(i as int), c);
                assert(s@.take(i as int).push(s@[i as int]) =~= s@.take(i + 1));
            }
            self.print_char(c);
            i = i + 1;
        }
        proof {
            assert(s@.take(n as int) =~= s@);
        }
    }
}

} // verus!
