//! The text screen: 25 rows of 80 character cells, written at the bottom
//! row and scrolled upward.
//!
//! The writer keeps the cells; showing them is left to the caller, which
//! copies them to the display.

use vstd::prelude::*;
use vstd::string::StringSliceAdditionalSpecFns;

verus! {

/// Rows of the screen.
pub const BUFFER_HEIGHT: usize = 25;

/// Columns of the screen.
pub const BUFFER_WIDTH: usize = 80;

/// Cells of the screen.
pub const CELLS: usize = 2000;

/// The space character.
pub const SPACE: u8 = 0x20;

/// The line feed character.
pub const LINE_FEED: u8 = 0x0a;

/// The character shown for a byte that cannot be printed.
pub const UNPRINTABLE: u8 = 0xfe;

/// The sixteen colours of the text mode.
#[allow(dead_code)]
#[derive(Debug, Clone, Copy, PartialEq, Eq, Structural)]
pub enum Color {
    Black,
    Blue,
    Green,
    Cyan,
    Red,
    Magenta,
    Brown,
    LightGray,
    DarkGray,
    LightBlue,
    LightGreen,
    LightCyan,
    LightRed,
    Pink,
    Yellow,
    White,
}

/// A foreground and a background colour in one byte.
#[derive(Debug, Clone, Copy, PartialEq, Eq, Structural)]
pub struct ColorCode(pub u8);

/// A cell of the screen.
#[derive(Debug, Clone, Copy, PartialEq, Eq, Structural)]
pub struct ScreenChar {
    pub ascii_character: u8,
    pub color_code: ColorCode,
}

/// The number of a colour, from 0 for black to 15 for white.
pub open spec fn color_number(color: Color) -> u8 {
    match color {
        Color::Black => 0,
        Color::Blue => 1,
        Color::Green => 2,
        Color::Cyan => 3,
        Color::Red => 4,
        Color::Magenta => 5,
        Color::Brown => 6,
        Color::LightGray => 7,
        Color::DarkGray => 8,
        Color::LightBlue => 9,
        Color::LightGreen => 10,
        Color::LightCyan => 11,
        Color::LightRed => 12,
        Color::Pink => 13,
        Color::Yellow => 14,
        Color::White => 15,
    }
}

impl Color {
    /// The number of the colour.
    pub fn number(self) -> (n: u8)
        ensures
            n == color_number(self),
            n < 16,
    {
        match self {
            Color::Black => 0,
            Color::Blue => 1,
            Color::Green => 2,
            Color::Cyan => 3,
            Color::Red => 4,
            Color::Magenta => 5,
            Color::Brown => 6,
            Color::LightGray => 7,
            Color::DarkGray => 8,
            Color::LightBlue => 9,
            Color::LightGreen => 10,
            Color::LightCyan => 11,
            Color::LightRed => 12,
            Color::Pink => 13,
            Color::Yellow => 14,
            Color::White => 15,
        }
    }
}

impl ColorCode {
    /// The colour code with the background in the high four bits and the
    /// foreground in the low four.
    pub fn new(foreground: Color, background: Color) -> (code: ColorCode)
        ensures
            code.0 == 16 * color_number(background) + color_number(foreground),
    {
        let high = background.number();
        let low = foreground.number();
        assert(high < 16 && low < 16 ==> (high << 4 | low) == 16 * high + low) by (bit_vector);
        ColorCode(high << 4 | low)
    }
}

/// The screen as the contracts speak of it: row after row of cells, the
/// column at which the next character goes, and the colour it gets.
pub struct Screen {
    pub column: nat,
    pub color: ColorCode,
    pub cells: Seq<ScreenChar>,
}

impl Screen {
    /// The screen has its 2000 cells and the column lies on it or just past
    /// its right edge.
    pub open spec fn wf(self) -> bool {
        self.cells.len() == CELLS && self.column <= BUFFER_WIDTH
    }

    /// The cell at a row and a column.
    pub open spec fn cell(self, row: int, col: int) -> ScreenChar {
        self.cells[row * BUFFER_WIDTH + col]
    }

    /// An empty cell in the colour of the screen.
    pub open spec fn blank(self) -> ScreenChar {
        ScreenChar { ascii_character: SPACE, color_code: self.color }
    }

    /// The screen with one row made blank.
    pub open spec fn cleared(self, row: int) -> Screen {
        Screen {
            cells: Seq::new(
                CELLS as nat,
                |i: int|
                    if row * BUFFER_WIDTH <= i < (row + 1) * BUFFER_WIDTH {
                        self.blank()
                    } else {
                        self.cells[i]
                    },
            ),
            ..self
        }
    }

    /// The screen after a line feed: every row moved up by one, the top row
    /// gone, the bottom row blank and the column back at the left edge.
    pub open spec fn scrolled(self) -> Screen {
        Screen {
            column: 0,
            color: self.color,
            cells: Seq::new(
                CELLS as nat,
                |i: int|
                    if i < CELLS - BUFFER_WIDTH {
                        self.cells[i + BUFFER_WIDTH]
                    } else {
                        self.blank()
                    },
            ),
        }
    }

    /// The screen after a byte was written. A line feed scrolls. Any other
    /// byte goes to the bottom row at the column, after a scroll where the
    /// row is full, and moves the column on by one.
    pub open spec fn put(self, byte: u8) -> Screen {
        if byte == LINE_FEED {
            self.scrolled()
        } else {
            let s = if self.column >= BUFFER_WIDTH {
                self.scrolled()
            } else {
                self
            };
            Screen {
                column: s.column + 1,
                color: s.color,
                cells: s.cells.update(
                    (BUFFER_HEIGHT - 1) * BUFFER_WIDTH + s.column,
                    ScreenChar { ascii_character: byte, color_code: s.color },
                ),
            }
        }
    }

    /// The screen after the first `count` bytes of a text were printed.
    pub open spec fn printed(self, text: Seq<u8>, count: nat) -> Screen
        decreases count,
    {
        if count == 0 {
            self
        } else {
            self.printed(text, (count - 1) as nat).put(shown(text[count - 1]))
        }
    }
}

/// What is written for a byte of a text: the byte itself where it is
/// printable ASCII or a line feed, and a filled box otherwise.
pub open spec fn shown(byte: u8) -> u8 {
    if 0x20 <= byte <= 0x7e || byte == LINE_FEED {
        byte
    } else {
        UNPRINTABLE
    }
}

/// The cells of the screen.
pub struct Buffer {
    pub chars: [ScreenChar; 2000],
}

/// Writes text to the screen.
pub struct Writer {
    column_position: usize,
    color_code: ColorCode,
    buffer: Buffer,
}

impl View for Writer {
    type V = Screen;

    closed spec fn view(&self) -> Screen {
        Screen {
            column: self.column_position as nat,
            color: self.color_code,
            cells: self.buffer.chars@,
        }
    }
}

impl Writer {
    /// The column lies on the screen or just past its right edge.
    /// Construction establishes this and every operation keeps it.
    pub closed spec fn wf(&self) -> bool {
        self.column_position <= BUFFER_WIDTH
    }

    /// A well-formed writer has a well-formed screen.
    pub proof fn screen_is_well_formed(&self)
        requires
            self.wf(),
        ensures
            self@.wf(),
    {
    }

    /// A writer on a blank screen.
    pub fn new(color_code: ColorCode) -> (writer: Writer)
        ensures
            writer.wf(),
            writer@.column == 0,
            writer@.color == color_code,
            writer@.cells == Seq::new(CELLS as nat, |i: int| writer@.blank()),
    {
        let blank = ScreenChar { ascii_character: SPACE, color_code };
        let writer = Writer {
            column_position: 0,
            color_code,
            buffer: Buffer { chars: [blank;2000] },
        };
        assert(writer@.cells =~= Seq::new(CELLS as nat, |i: int| writer@.blank()));
        writer
    }

    /// The cells of the screen, row after row.
    pub fn cells(&self) -> (cells: &[ScreenChar; 2000])
        ensures
            cells@ == self@.cells,
    {
        &self.buffer.chars
    }

    /// The column at which the next character goes.
    pub fn column(&self) -> (column: usize)
        ensures
            column == self@.column,
    {
        self.column_position
    }

    /// Writes one byte.
    pub fn write_byte(&mut self, byte: u8)
        requires
            old(self).wf(),
        ensures
            final(self).wf(),
            final(self)@ == old(self)@.put(byte),
    {
        if byte == LINE_FEED {
            self.new_line();
        } else {
            if self.column_position >= BUFFER_WIDTH {
                self.new_line();
            }
            let row = BUFFER_HEIGHT - 1;
            let col = self.column_position;
            let color_code = self.color_code;
            self.buffer.chars[row * BUFFER_WIDTH + col] = ScreenChar {
                ascii_character: byte,
                color_code,
            };
            self.column_position += 1;
        }
    }

    /// Moves every row up by one and starts a blank bottom row.
    fn new_line(&mut self)
        requires
            old(self).wf(),
        ensures
            final(self).wf(),
            final(self)@ == old(self)@.scrolled(),
    {
        for row in 1..BUFFER_HEIGHT
            invariant
                self.column_position == old(self).column_position,
                self.color_code == old(self).color_code,
                forall|i: int|
                    0 <= i < (row - 1) * BUFFER_WIDTH ==> self.buffer.chars@[i] == old(
                        self,
                    ).buffer.chars@[i + BUFFER_WIDTH],
                forall|i: int|
                    (row - 1) * BUFFER_WIDTH <= i < CELLS ==> self.buffer.chars@[i] == old(
                        self,
                    ).buffer.chars@[i],
        {
            for col in 0..BUFFER_WIDTH
                invariant
                    1 <= row < BUFFER_HEIGHT,
                    self.column_position == old(self).column_position,
                    self.color_code == old(self).color_code,
                    forall|i: int|
                        0 <= i < (row - 1) * BUFFER_WIDTH + col ==> self.buffer.chars@[i] == old(
                            self,
                        ).buffer.chars@[i + BUFFER_WIDTH],
                    forall|i: int|
                        (row - 1) * BUFFER_WIDTH + col <= i < CELLS ==> self.buffer.chars@[i]
                            == old(self).buffer.chars@[i],
            {
                let character = self.buffer.chars[row * BUFFER_WIDTH + col];
                self.buffer.chars[(row - 1) * BUFFER_WIDTH + col] = character;
            }
        }
        self.clear_row(BUFFER_HEIGHT - 1);
        self.column_position = 0;
        assert(self@.cells =~= old(self)@.scrolled().cells);
    }

    /// Makes one row blank.
    fn clear_row(&mut self, row: usize)
        requires
            row < BUFFER_HEIGHT,
        ensures
            final(self)@ == old(self)@.cleared(row as int),
            final(self).column_position == old(self).column_position,
    {
        for col in 0..BUFFER_WIDTH
            invariant
                row < BUFFER_HEIGHT,
                self.column_position == old(self).column_position,
                self.color_code == old(self).color_code,
                forall|i: int|
                    row * BUFFER_WIDTH <= i < row * BUFFER_WIDTH + col ==> self.buffer.chars@[i]
                        == old(self)@.blank(),
                forall|i: int|
                    0 <= i < CELLS && !(row * BUFFER_WIDTH <= i < row * BUFFER_WIDTH + col)
                        ==> self.buffer.chars@[i] == old(self).buffer.chars@[i],
        {
            self.buffer.chars[row * BUFFER_WIDTH + col] = ScreenChar {
                ascii_character: SPACE,
                color_code: self.color_code,
            };
        }
        assert(self@.cells =~= old(self)@.cleared(row as int).cells);
    }

    /// Writes a text, byte by byte. A byte that is neither printable ASCII
    /// nor a line feed is shown as a filled box.
    pub fn write_string(&mut self, s: &str)
        requires
            old(self).wf(),
        ensures
            final(self).wf(),
            final(self)@ == old(self)@.printed(s.spec_bytes(), s.spec_bytes().len()),
    {
        let bytes = s.as_bytes();
        for i in 0..bytes.len()
            invariant
                bytes@ == s.spec_bytes(),
                self.wf(),
                self@ == old(self)@.printed(bytes@, i as nat),
        {
            let byte = bytes[i];
            if (0x20 <= byte && byte <= 0x7e) || byte == LINE_FEED {
                self.write_byte(byte);
            } else {
                self.write_byte(UNPRINTABLE);
            }
        }
    }

    /// Writes a text and reports success, as a formatter expects.
    pub fn write_str(&mut self, s: &str) -> (done: Result<(), ()>)
        requires
            old(self).wf(),
        ensures
            final(self).wf(),
            done is Ok,
            final(self)@ == old(self)@.printed(s.spec_bytes(), s.spec_bytes().len()),
    {
        self.write_string(s);
        Ok(())
    }
}

} // verus!
