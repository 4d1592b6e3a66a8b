//! Text-screen writer.
//!
//! The screen is a fixed grid of character cells; text is written on the
//! bottom row and the grid scrolls up a row at a time.  In the running
//! kernel the grid is the memory-mapped text buffer, written through a
//! volatile wrapper behind a global lock; here the writer owns a plain grid
//! of the same shape, so every cell and cursor move is specified, and the
//! shell mirrors the verified writes into the mapped memory.

use vstd::prelude::*;
use vstd::string::StringSliceAdditionalSpecFns;

verus! {

/// Rows of the text screen.
pub const BUFFER_HEIGHT: usize = 25;

/// Columns of the text screen.
pub const BUFFER_WIDTH: usize = 80;

/// The byte rendered for one that is not printable.
pub const REPLACEMENT_BYTE: u8 = 0xfe;

/// The blank byte, an ordinary space.
pub const SPACE_BYTE: u8 = 32;

/// The newline byte.
pub const NEWLINE_BYTE: u8 = 10;

/// The colors the text screen supports, for background and foreground.
#[derive(Debug, Clone, Copy, PartialEq, Eq, Structural)]
pub enum Color {
    Black,
    Blue,
    Green,
    Cyan,
    Red,
    Magenta,
    Brown,
    LightGray,
    DarkGray,
    LightBlue,
    LightGreen,
    LightCyan,
    LightRed,
    Pink,
    Yellow,
    White,
}

impl Color {
    /// The color's four-bit hardware code.
    pub open spec fn spec_code(self) -> u8 {
        match self {
            Color::Black => 0,
            Color::Blue => 1,
            Color::Green => 2,
            Color::Cyan => 3,
            Color::Red => 4,
            Color::Magenta => 5,
            Color::Brown => 6,
            Color::LightGray => 7,
            Color::DarkGray => 8,
            Color::LightBlue => 9,
            Color::LightGreen => 10,
            Color::LightCyan => 11,
            Color::LightRed => 12,
            Color::Pink => 13,
            Color::Yellow => 14,
            Color::White => 15,
        }
    }

    /// The color's four-bit hardware code.
    pub fn code(self) -> (r: u8)
        ensures
            r == self.spec_code(),
    {
        match self {
            Color::Black => 0,
            Color::Blue => 1,
            Color::Green => 2,
            Color::Cyan => 3,
            Color::Red => 4,
            Color::Magenta => 5,
            Color::Brown => 6,
            Color::LightGray => 7,
            Color::DarkGray => 8,
            Color::LightBlue => 9,
            Color::LightGreen => 10,
            Color::LightCyan => 11,
            Color::LightRed => 12,
            Color::Pink => 13,
            Color::Yellow => 14,
            Color::White => 15,
        }
    }
}

/// A cell's packed color byte: background in the high four bits, foreground
/// in the low four.
#[derive(Debug, Clone, Copy, PartialEq, Eq, Structural)]
pub struct ColorCode(u8);

impl ColorCode {
    /// The packed byte.
    pub closed spec fn value(self) -> u8 {
        self.0
    }

    /// The packed byte.
    pub fn to_byte(self) -> (r: u8)
        ensures
            r == self.value(),
    {
        self.0
    }

    /// Packs a foreground and a background color into one byte.
    pub fn new(foreground: Color, background: Color) -> (r: ColorCode)
        ensures
            r.value() == background.spec_code() * 16 + foreground.spec_code(),
    {
        let fg = foreground.code();
        let bg = background.code();
        proof {
            assert(bg < 16 && fg < 16 ==> ((bg << 4) | fg) == bg * 16 + fg) by (bit_vector);
        }
        ColorCode((bg << 4) | fg)
    }
}

/// One cell of the text screen: a code-page byte and its colors.
#[derive(Debug, Clone, Copy, PartialEq, Eq, Structural)]
pub struct ScreenChar {
    pub ascii_character: u8,
    pub color_code: ColorCode,
}

/// An empty cell in the given colors.
pub open spec fn blank_char(color: ColorCode) -> ScreenChar {
    ScreenChar { ascii_character: SPACE_BYTE, color_code: color }
}

/// A whole row of empty cells.
pub open spec fn blank_row(color: ColorCode) -> Seq<ScreenChar> {
    Seq::new(BUFFER_WIDTH as nat, |c: int| blank_char(color))
}

/// Mathematical state of the writer: the cursor column on the bottom row,
/// the colors new text is written in, and the grid of cells, top row first.
pub struct WriterModel {
    pub column_position: int,
    pub color_code: ColorCode,
    pub screen: Seq<Seq<ScreenChar>>,
}

/// The shapes a writer can take: a full grid, and a cursor that never runs
/// more than one step past the rightmost column.
pub open spec fn writer_wf(m: WriterModel) -> bool {
    &&& m.screen.len() == BUFFER_HEIGHT
    &&& forall|r: int| 0 <= r < BUFFER_HEIGHT ==> (#[trigger] m.screen[r]).len() == BUFFER_WIDTH
    &&& 0 <= m.column_position <= BUFFER_WIDTH + 1
}

/// Scrolling one line: every row moves up one, a fresh blank row enters at
/// the bottom, and the cursor returns to the left edge.
pub open spec fn spec_new_line(m: WriterModel) -> WriterModel {
    WriterModel {
        column_position: 0,
        color_code: m.color_code,
        screen: m.screen.skip(1).push(blank_row(m.color_code)),
    }
}

/// Index of the rightmost cell of the row that holds a glyph (anything but a
/// space); the left edge when the row is all spaces.
pub open spec fn spec_last_glyph(row: Seq<ScreenChar>) -> int
    decreases row.len(),
{
    if row.len() == 0 {
        0
    } else if row.last().ascii_character != SPACE_BYTE {
        row.len() - 1
    } else {
        spec_last_glyph(row.drop_last())
    }
}

/// Deleting a line backwards: the rows below the top move down one, a blank
/// row opens behind the top row, and the cursor lands two steps past the
/// last glyph of the new bottom row.
pub open spec fn spec_del_line(m: WriterModel) -> WriterModel {
    let screen = seq![m.screen[0], blank_row(m.color_code)] + m.screen.subrange(
        1, BUFFER_HEIGHT - 1);
    WriterModel {
        column_position: spec_last_glyph(screen[BUFFER_HEIGHT - 1]) + 2,
        color_code: m.color_code,
        screen,
    }
}

/// Writing one byte: a newline scrolls; anything else lands at the cursor on
/// the bottom row -- after a scroll when the cursor has left the row -- and
/// moves the cursor right.
pub open spec fn spec_write_byte(m: WriterModel, byte: u8) -> WriterModel {
    if byte == NEWLINE_BYTE {
        spec_new_line(m)
    } else {
        let base = if m.column_position >= BUFFER_WIDTH {
            spec_new_line(m)
        } else {
            m
        };
        let row = BUFFER_HEIGHT - 1;
        let cell = ScreenChar { ascii_character: byte, color_code: m.color_code };
        WriterModel {
            column_position: base.column_position + 1,
            color_code: base.color_code,
            screen: base.screen.update(
                row as int, base.screen[row as int].update(base.column_position, cell)),
        }
    }
}

/// The byte a glyph is rendered as: itself when printable or a newline, the
/// replacement byte otherwise.
pub open spec fn spec_render_byte(byte: u8) -> u8 {
    if (0x20 <= byte && byte <= 0x7e) || byte == NEWLINE_BYTE {
        byte
    } else {
        REPLACEMENT_BYTE
    }
}

/// Writing the first `n` bytes of a string, each rendered then written.
pub open spec fn spec_write_bytes(m: WriterModel, bytes: Seq<u8>, n: int) -> WriterModel
    decreases n,
{
    if n <= 0 {
        m
    } else {
        spec_write_byte(spec_write_bytes(m, bytes, n - 1), spec_render_byte(bytes[n - 1]))
    }
}

/// Rubbing out the cell left of the cursor: at the left edge a line is first
/// deleted backwards; the cursor is clamped to the rightmost column, and the
/// cell it lands on is blanked.
pub open spec fn spec_backspace(m: WriterModel) -> WriterModel {
    let base = if m.column_position <= 0 {
        spec_del_line(m)
    } else {
        m
    };
    let col = if base.column_position - 1 > BUFFER_WIDTH - 1 {
        BUFFER_WIDTH - 1
    } else {
        base.column_position - 1
    };
    let row = BUFFER_HEIGHT - 1;
    WriterModel {
        column_position: col,
        color_code: base.color_code,
        screen: base.screen.update(
            row as int, base.screen[row as int].update(col, blank_char(base.color_code))),
    }
}

/// The text of one row of the screen.
pub open spec fn spec_row_text(m: WriterModel, row: int) -> Seq<u8> {
    Seq::new(BUFFER_WIDTH as nat, |c: int| m.screen[row][c].ascii_character)
}

/// Writes text to the screen: cursor, colors, and the grid of cells.
pub struct Writer {
    column_position: usize,
    color_code: ColorCode,
    buffer: Vec<Vec<ScreenChar>>,
}

impl View for Writer {
    type V = WriterModel;

    closed spec fn view(&self) -> WriterModel {
        WriterModel {
            column_position: self.column_position as int,
            color_code: self.color_code,
            screen: Seq::new(self.buffer@.len() as nat, |r: int| self.buffer@[r]@),
        }
    }
}

/// A fresh row of blank cells in the given colors.
fn make_blank_row(color_code: ColorCode) -> (v: Vec<ScreenChar>)
    ensures
        v@ == blank_row(color_code),
{
    let blank = ScreenChar { ascii_character: SPACE_BYTE, color_code };
    let mut v: Vec<ScreenChar> = Vec::new();
    let mut c: usize = 0;
    while c < BUFFER_WIDTH
        invariant
            blank == blank_char(color_code),
            c <= BUFFER_WIDTH,
            v@.len() == c,
            forall|i: int| 0 <= i < c ==> v@[i] == blank_char(color_code),
        decreases BUFFER_WIDTH - c,
    {
        v.push(blank);
        proof {
            assert(v@[c as int] == blank_char(color_code));
        }
        c = c + 1;
    }
    proof {
        assert(v@ =~= blank_row(color_code));
    }
    v
}

impl Writer {
    /// A well-shaped writer.
    pub open spec fn wf(&self) -> bool {
        writer_wf(self@)
    }

    /// A writer over a blank screen, with the cursor at the left edge.
    pub fn new(color_code: ColorCode) -> (r: Writer)
        ensures
            r.wf(),
            r@.column_position == 0,
            r@.color_code == color_code,
            r@.screen == Seq::new(BUFFER_HEIGHT as nat, |i: int| blank_row(color_code)),
    {
        let mut buffer: Vec<Vec<ScreenChar>> = Vec::new();
        let mut r: usize = 0;
        while r < BUFFER_HEIGHT
            invariant
                r <= BUFFER_HEIGHT,
                buffer@.len() == r,
                forall|i: int| 0 <= i < r ==> (#[trigger] buffer@[i])@ == blank_row(color_code),
            decreases BUFFER_HEIGHT - r,
        {
            buffer.push(make_blank_row(color_code));
            r = r + 1;
        }
        let w = Writer { column_position: 0, color_code, buffer };
        proof {
            assert(w@.screen =~~= Seq::new(BUFFER_HEIGHT as nat, |i: int| blank_row(color_code)));
        }
        w
    }

    /// Blanks one row.
    fn clear_row(&mut self, row: usize)
        requires
            old(self).wf(),
            row < BUFFER_HEIGHT,
        ensures
            final(self).wf(),
            final(self)@ == (WriterModel {
                screen: old(self)@.screen.update(row as int, blank_row(old(self)@.color_code)),
                ..old(self)@
            }),
    {
        let blank_line = make_blank_row(self.color_code);
        self.buffer[row] = blank_line;
        proof {
            assert(self@.screen =~~= old(self)@.screen.update(
                row as int, blank_row(old(self)@.color_code)));
        }
    }

    /// Scrolls the screen one line up and returns the cursor to the left
    /// edge.
    fn new_line(&mut self)
        requires
            old(self).wf(),
        ensures
            final(self).wf(),
            final(self)@ == spec_new_line(old(self)@),
    {
        let blank_line = make_blank_row(self.color_code);
        self.buffer.remove(0);
        self.buffer.push(blank_line);
        self.column_position = 0;
        proof {
            assert(self@.screen =~~= spec_new_line(old(self)@).screen);
        }
    }

    /// Deletes a line backwards: rows below the top move down, a blank row
    /// opens under the top one, and the cursor lands after the last glyph of
    /// the new bottom row.
    fn del_line(&mut self)
        requires
            old(self).wf(),
        ensures
            final(self).wf(),
            final(self)@ == spec_del_line(old(self)@),
            final(self)@.column_position >= 2,
    {
        let blank_line = make_blank_row(self.color_code);
        self.buffer.insert(1, blank_line);
        self.buffer.pop();
        proof {
            assert(self@.screen =~~= spec_del_line(old(self)@).screen);
        }
        let pos = self.get_char_pos(BUFFER_HEIGHT - 1);
        self.column_position = pos + 2;
    }

    /// Index of the rightmost glyph of a row, to wrap the cursor to when a
    /// line is deleted backwards.
    fn get_char_pos(&self, row: usize) -> (r: usize)
        requires
            self.wf(),
            row < BUFFER_HEIGHT,
        ensures
            r == spec_last_glyph(self@.screen[row as int]),
            r < BUFFER_WIDTH,
    {
        let cells = &self.buffer[row];
        let ghost full = self@.screen[row as int];
        let mut last_char_pos: usize = 0;
        let mut column: usize = 0;
        proof {
            lemma_last_glyph_bounds(full.take(0));
        }
        while column < BUFFER_WIDTH
            invariant
                self.wf(),
                row < BUFFER_HEIGHT,
                cells@ == full,
                full.len() == BUFFER_WIDTH,
                column <= BUFFER_WIDTH,
                last_char_pos == spec_last_glyph(full.take(column as int)),
                last_char_pos < BUFFER_WIDTH,
            decreases BUFFER_WIDTH - column,
        {
            proof {
                let pre = full.take(column as int);
                let cur = full.take(column + 1);
                assert(cur.drop_last() =~= pre);
                assert(cur.last() == full[column as int]);
                lemma_last_glyph_bounds(cur);
            }
            if cells[column].ascii_character != SPACE_BYTE {
                last_char_pos = column;
            }
            column = column + 1;
        }
        proof {
            assert(full.take(BUFFER_WIDTH as int) =~= full);
        }
        last_char_pos
    }

    /// Writes one byte: a newline scrolls, anything else lands at the cursor
    /// on the bottom row and moves the cursor right.
    pub fn write_byte(&mut self, byte: u8)
        requires
            old(self).wf(),
        ensures
            final(self).wf(),
            final(self)@ == spec_write_byte(old(self)@, byte),
    {
        if byte == NEWLINE_BYTE {
            self.new_line();
        } else {
            if self.column_position >= BUFFER_WIDTH {
                self.new_line();
            }
            let row = BUFFER_HEIGHT - 1;
            let col = self.column_position;
            let color_code = self.color_code;
            proof {
                assert(self@.screen[row as int] == self.buffer@[row as int]@);
            }
            self.buffer[row][col] = ScreenChar { ascii_character: byte, color_code };
            self.column_position = col + 1;
            proof {
                assert(self@.screen =~~= spec_write_byte(old(self)@, byte).screen);
            }
        }
    }

    /// Writes a string byte by byte, rendering what is not printable as the
    /// replacement byte.
    pub fn write_string(&mut self, s: &str)
        requires
            old(self).wf(),
        ensures
            final(self).wf(),
            final(self)@ == spec_write_bytes(
                old(self)@, s.spec_bytes(), s.spec_bytes().len() as int),
    {
        let bytes = s.as_bytes();
        let mut i: usize = 0;
        while i < bytes.len()
            invariant
                self.wf(),
                bytes@ == s.spec_bytes(),
                i <= bytes@.len(),
                self@ == spec_write_bytes(old(self)@, s.spec_bytes(), i as int),
            decreases bytes@.len() - i,
        {
            let byte = bytes[i];
            if (0x20 <= byte && byte <= 0x7e) || byte == NEWLINE_BYTE {
                self.write_byte(byte);
            } else {
                self.write_byte(REPLACEMENT_BYTE);
            }
            i = i + 1;
        }
    }

    /// Blanks the whole screen.  The cursor stays where it was.
    pub fn clear_screen(&mut self)
        requires
            old(self).wf(),
        ensures
            final(self).wf(),
            final(self)@ == (WriterModel {
                screen: Seq::new(BUFFER_HEIGHT as nat, |r: int| blank_row(old(self)@.color_code)),
                ..old(self)@
            }),
    {
        let mut row: usize = 0;
        while row < BUFFER_HEIGHT
            invariant
                self.wf(),
                self@.column_position == old(self)@.column_position,
                self@.color_code == old(self)@.color_code,
                row <= BUFFER_HEIGHT,
                forall|r: int| 0 <= r < row ==> self@.screen[r] == blank_row(old(self)@.color_code),
                forall|r: int| row <= r < BUFFER_HEIGHT ==> self@.screen[r] == old(self)@.screen[r],
            decreases BUFFER_HEIGHT - row,
        {
            self.clear_row(row);
            row = row + 1;
        }
        proof {
            assert(self@.screen =~~= Seq::new(
                BUFFER_HEIGHT as nat, |r: int| blank_row(old(self)@.color_code)));
        }
    }

    /// Rubs out the cell left of the cursor, deleting a line backwards when
    /// the cursor sits at the left edge.
    pub fn backspace(&mut self)
        requires
            old(self).wf(),
        ensures
            final(self).wf(),
            final(self)@ == spec_backspace(old(self)@),
    {
        if self.column_position == 0 {
            self.del_line();
        }
        let row = BUFFER_HEIGHT - 1;
        let mut col = self.column_position - 1;
        if col > BUFFER_WIDTH - 1 {
            col = BUFFER_WIDTH - 1;
        }
        let color_code = self.color_code;
        proof {
            assert(self@.screen[row as int] == self.buffer@[row as int]@);
        }
        self.buffer[row][col] = ScreenChar { ascii_character: SPACE_BYTE, color_code };
        self.column_position = col;
        proof {
            assert(self@.screen =~~= spec_backspace(old(self)@).screen);
        }
    }

    /// One cell of the screen.
    pub fn char_at(&self, row: usize, col: usize) -> (r: ScreenChar)
        requires
            self.wf(),
            row < BUFFER_HEIGHT,
            col < BUFFER_WIDTH,
        ensures
            r == self@.screen[row as int][col as int],
    {
        proof {
            assert(self@.screen[row as int] == self.buffer@[row as int]@);
        }
        self.buffer[row][col]
    }

    /// The text of the row above the cursor line, where the line most
    /// recently finished with a newline sits.
    pub fn read(&self) -> (r: Vec<u8>)
        requires
            self.wf(),
        ensures
            r@ == spec_row_text(self@, BUFFER_HEIGHT - 2),
    {
        let cells = &self.buffer[BUFFER_HEIGHT - 2];
        let mut row_data: Vec<u8> = Vec::new();
        let mut i: usize = 0;
        while i < BUFFER_WIDTH
            invariant
                self.wf(),
                cells@ == self@.screen[BUFFER_HEIGHT - 2],
                i <= BUFFER_WIDTH,
                row_data@ == spec_row_text(self@, BUFFER_HEIGHT - 2).take(i as int),
            decreases BUFFER_WIDTH - i,
        {
            proof {
                assert(spec_row_text(self@, BUFFER_HEIGHT - 2).take(i + 1) =~= spec_row_text(
                    self@, BUFFER_HEIGHT - 2).take(i as int).push(cells@[i as int].ascii_character));
            }
            row_data.push(cells[i].ascii_character);
            i = i + 1;
        }
        proof {
            assert(spec_row_text(self@, BUFFER_HEIGHT - 2).take(BUFFER_WIDTH as int)
                =~= spec_row_text(self@, BUFFER_HEIGHT - 2));
        }
        row_data
    }
}

/// The last glyph of a row never lies right of the row's end.
proof fn lemma_last_glyph_bounds(row: Seq<ScreenChar>)
    ensures
        0 <= spec_last_glyph(row),
        row.len() == 0 ==> spec_last_glyph(row) == 0,
        row.len() > 0 ==> spec_last_glyph(row) < row.len(),
    decreases row.len(),
{
    if row.len() > 0 {
        lemma_last_glyph_bounds(row.drop_last());
    }
}

} // verus!
