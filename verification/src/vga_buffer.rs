//! The grid console: a fixed grid of character cells in memory that the
//! display hardware reads, written through volatile accesses only.
//!
//! Text always goes to the bottom row. When that row is full, or on a line
//! feed, every row moves up by one and the bottom row is cleared.

use vstd::prelude::*;
use vstd::string::StringSliceAdditionalSpecFns;
use volatile::Volatile;

verus! {

/// Number of rows of the grid.
pub const BUFFER_HEIGHT: usize = 25;

/// Number of columns of the grid.
pub const BUFFER_WIDTH: usize = 80;

/// The line feed: it advances the line and occupies no cell.
pub const LINE_FEED: u8 = 0x0a;

/// The character of a cleared cell.
pub const BLANK: u8 = 0x20;

/// The glyph drawn for a byte that is neither printable nor a line feed.
pub const UNPRINTABLE: u8 = 0xfe;

/// The sixteen colors of the text mode palette, in palette order.
#[derive(Debug, Clone, Copy, PartialEq, Eq, Structural)]
pub enum Color {
    Black,
    Blue,
    Green,
    Cyan,
    Red,
    Magenta,
    Brown,
    LightGray,
    DarkGray,
    LightBlue,
    LightGreen,
    LightCyan,
    LightRed,
    Pink,
    Yellow,
    White,
}

impl Color {
    /// Position of the color in the palette, from 0 to 15.
    pub open spec fn spec_index(self) -> u8 {
        match self {
            Color::Black => 0,
            Color::Blue => 1,
            Color::Green => 2,
            Color::Cyan => 3,
            Color::Red => 4,
            Color::Magenta => 5,
            Color::Brown => 6,
            Color::LightGray => 7,
            Color::DarkGray => 8,
            Color::LightBlue => 9,
            Color::LightGreen => 10,
            Color::LightCyan => 11,
            Color::LightRed => 12,
            Color::Pink => 13,
            Color::Yellow => 14,
            Color::White => 15,
        }
    }

    /// Position of the color in the palette, from 0 to 15.
    #[verifier::when_used_as_spec(spec_index)]
    pub fn index(self) -> (i: u8)
        ensures
            i == self.spec_index(),
            i < 16,
    {
        match self {
            Color::Black => 0,
            Color::Blue => 1,
            Color::Green => 2,
            Color::Cyan => 3,
            Color::Red => 4,
            Color::Magenta => 5,
            Color::Brown => 6,
            Color::LightGray => 7,
            Color::DarkGray => 8,
            Color::LightBlue => 9,
            Color::LightGreen => 10,
            Color::LightCyan => 11,
            Color::LightRed => 12,
            Color::Pink => 13,
            Color::Yellow => 14,
            Color::White => 15,
        }
    }
}

/// The attribute byte of a cell: background in the high four bits,
/// foreground in the low four.
#[derive(Debug, Clone, Copy, PartialEq, Eq, Structural)]
pub struct ColorCode(pub u8);

impl ColorCode {
    /// The attribute byte for two palette positions.
    pub open spec fn pack(foreground: u8, background: u8) -> u8 {
        (background << 4) | foreground
    }

    /// The attribute of `foreground` on `background`.
    pub open spec fn spec_new(foreground: Color, background: Color) -> ColorCode {
        ColorCode(Self::pack(foreground.spec_index(), background.spec_index()))
    }

    /// The attribute of `foreground` on `background`.
    #[verifier::when_used_as_spec(spec_new)]
    pub fn new(foreground: Color, background: Color) -> (code: ColorCode)
        ensures
            code == Self::spec_new(foreground, background),
    {
        ColorCode((background.index() << 4) | foreground.index())
    }

    /// The attribute byte holds the background's palette position in its
    /// high four bits and the foreground's in its low four: each can be
    /// read back from it, and the byte is sixteen times the one plus the
    /// other.
    pub proof fn lemma_nibbles(foreground: Color, background: Color)
        ensures
            Self::spec_new(foreground, background).0 >> 4 == background.spec_index(),
            Self::spec_new(foreground, background).0 & 0x0f == foreground.spec_index(),
            Self::spec_new(foreground, background).0 == 16 * background.spec_index()
                + foreground.spec_index(),
    {
        let f = foreground.spec_index();
        let b = background.spec_index();
        assert(((b << 4) | f) >> 4 == b && ((b << 4) | f) & 0x0f == f && ((b << 4) | f) == 16 * b
            + f) by (bit_vector)
            requires
                f < 16,
                b < 16,
        ;
    }
}

/// What one cell shows: a character and its attribute.
#[derive(Debug, Clone, Copy, PartialEq, Eq, Structural)]
pub struct ScreenChar {
    pub ascii_character: u8,
    pub color_code: ColorCode,
}

impl ScreenChar {
    /// The cell as its two bytes in memory: the character, then the
    /// attribute.
    pub fn to_bytes(self) -> (bytes: [u8; 2])
        ensures
            bytes@ == seq![self.ascii_character, self.color_code.0],
    {
        [self.ascii_character, self.color_code.0]
    }

    /// The cell that two bytes in memory show.
    pub fn from_bytes(bytes: [u8; 2]) -> (cell: ScreenChar)
        ensures
            cell == cell_of(bytes@),
    {
        ScreenChar { ascii_character: bytes[0], color_code: ColorCode(bytes[1]) }
    }
}

/// The cell that a pair of bytes shows.
pub open spec fn cell_of(bytes: Seq<u8>) -> ScreenChar {
    ScreenChar { ascii_character: bytes[0], color_code: ColorCode(bytes[1]) }
}

/// The memory cell of one grid position: `Volatile` of the `volatile`
/// crate, a wrapper of the size of what it holds that is read and written
/// by volatile accesses only. Nothing inside it is visible to the proofs:
/// what it holds is named by [`cell_bytes`].
#[verifier::external_type_specification]
#[verifier::external_body]
#[verifier::reject_recursive_types(T)]
pub struct ExVolatile<T: Copy>(Volatile<T>);

/// The two bytes that a memory cell holds: the character, then the
/// attribute. They are what was last written to the cell; the display only
/// reads the grid.
pub uninterp spec fn cell_bytes(cell: Volatile<[u8; 2]>) -> Seq<u8>;

/// `Volatile::read`: one volatile read of the cell, which hands back a copy
/// of the bytes it holds and leaves the cell as it is. It never panics.
/// This is taken from the crate's source and not proved here.
#[verifier::external_body]
fn read_cell(cell: &Volatile<[u8; 2]>) -> (bytes: [u8; 2])
    ensures
        bytes@ == cell_bytes(*cell),
{
    cell.read()
}

/// `Volatile::write`: one volatile write, after which the cell holds
/// `bytes`. It never panics. This is taken from the crate's source and not
/// proved here.
#[verifier::external_body]
fn write_cell(cell: &mut Volatile<[u8; 2]>, bytes: [u8; 2])
    ensures
        cell_bytes(*final(cell)) == bytes@,
    no_unwind
{
    cell.write(bytes)
}

/// The grid in memory, row by row from the top: each cell is two bytes,
/// the character and then its attribute.
pub type Buffer = [[Volatile<[u8; 2]>; BUFFER_WIDTH]; BUFFER_HEIGHT];

/// What a grid in memory shows, row by row.
pub open spec fn grid_view(buffer: Buffer) -> Seq<Seq<ScreenChar>> {
    Seq::new(
        BUFFER_HEIGHT as nat,
        |r: int| Seq::new(BUFFER_WIDTH as nat, |c: int| cell_of(cell_bytes(buffer[r][c]))),
    )
}

/// The console as a mathematical value: what the grid shows, where the
/// next character goes in the bottom row, and the attribute it will get.
pub struct Console {
    pub cells: Seq<Seq<ScreenChar>>,
    pub column: int,
    pub color: ColorCode,
}

impl Console {
    /// The grid has its fixed size and the column lies in `0..=BUFFER_WIDTH`.
    pub open spec fn wf(self) -> bool {
        &&& self.cells.len() == BUFFER_HEIGHT
        &&& forall|r: int| 0 <= r < BUFFER_HEIGHT ==> (#[trigger] self.cells[r]).len() == BUFFER_WIDTH
        &&& 0 <= self.column <= BUFFER_WIDTH
    }

    /// A cleared cell in the given attribute.
    pub open spec fn blank(color: ColorCode) -> ScreenChar {
        ScreenChar { ascii_character: BLANK, color_code: color }
    }

    /// A row of cleared cells.
    pub open spec fn blank_row(color: ColorCode) -> Seq<ScreenChar> {
        Seq::new(BUFFER_WIDTH as nat, |c: int| Self::blank(color))
    }

    /// Row `row` cleared in the current attribute.
    pub open spec fn clear_row(self, row: int) -> Console {
        Console { cells: self.cells.update(row, Self::blank_row(self.color)), ..self }
    }

    /// The line advance: every row moves up by one, the top row is lost,
    /// the bottom row is cleared and the column goes back to 0.
    pub open spec fn new_line(self) -> Console {
        Console {
            cells: self.cells.subrange(1, BUFFER_HEIGHT as int).push(Self::blank_row(self.color)),
            column: 0,
            color: self.color,
        }
    }

    /// `byte` placed at the column in the bottom row, and the column moved
    /// on by one.
    pub open spec fn put(self, byte: u8) -> Console {
        let row = BUFFER_HEIGHT - 1;
        let cell = ScreenChar { ascii_character: byte, color_code: self.color };
        Console {
            cells: self.cells.update(row, self.cells[row].update(self.column, cell)),
            column: self.column + 1,
            color: self.color,
        }
    }

    /// One byte written: a line feed advances the line; any other byte is
    /// placed, after a line advance if the bottom row is full.
    pub open spec fn write_byte(self, byte: u8) -> Console {
        if byte == LINE_FEED {
            self.new_line()
        } else if self.column >= BUFFER_WIDTH {
            self.new_line().put(byte)
        } else {
            self.put(byte)
        }
    }

    /// The byte that is written for `byte` of a string: itself if it is
    /// printable or a line feed, else the replacement glyph.
    pub open spec fn sanitize(byte: u8) -> u8 {
        if (0x20 <= byte <= 0x7e) || byte == LINE_FEED {
            byte
        } else {
            UNPRINTABLE
        }
    }

    /// The bytes of a string written one after the other, each one
    /// sanitized first.
    pub open spec fn write_string(self, bytes: Seq<u8>) -> Console
        decreases bytes.len(),
    {
        if bytes.len() == 0 {
            self
        } else {
            self.write_string(bytes.drop_last()).write_byte(Self::sanitize(bytes.last()))
        }
    }

    /// The attribute changed, the grid and the column untouched.
    pub open spec fn set_color(self, foreground: Color, background: Color) -> Console {
        Console { color: ColorCode::spec_new(foreground, background), ..self }
    }
}

/// The writer of the grid console. It holds the grid for as long as the
/// program runs, the column of the next character and the attribute that
/// new cells get.
pub struct Writer {
    column_position: usize,
    color_code: ColorCode,
    buffer: &'static mut Buffer,
}

impl View for Writer {
    type V = Console;

    closed spec fn view(&self) -> Console {
        Console {
            cells: grid_view(*self.buffer),
            column: self.column_position as int,
            color: self.color_code,
        }
    }
}

impl Writer {
    /// The column never passes the end of the row.
    #[verifier::type_invariant]
    spec fn column_in_range(&self) -> bool {
        self.column_position <= BUFFER_WIDTH
    }

    /// A writer on `buffer`, at column 0, writing light gray on black. What
    /// the grid shows stays as it is.
    pub fn new(buffer: &'static mut Buffer) -> (writer: Writer)
        ensures
            writer@ == (Console {
                cells: grid_view(*old(buffer)),
                column: 0,
                color: ColorCode::spec_new(Color::LightGray, Color::Black),
            }),
            writer@.wf(),
    {
        Writer {
            column_position: 0,
            color_code: ColorCode::new(Color::LightGray, Color::Black),
            buffer,
        }
    }

    /// The column at which the next character is placed. It is at most
    /// `BUFFER_WIDTH`, which it reaches when the bottom row is full.
    pub fn column_position(&self) -> (column: usize)
        ensures
            column == self@.column,
            self@.wf(),
    {
        proof {
            use_type_invariant(self);
        }
        self.column_position
    }

    /// The attribute that new cells get.
    pub fn color_code(&self) -> (color: ColorCode)
        ensures
            color == self@.color,
    {
        self.color_code
    }

    /// What the cell at `row` and `col` shows, by one volatile read; `None`
    /// outside the grid.
    pub fn read(&self, row: usize, col: usize) -> (cell: Option<ScreenChar>)
        ensures
            cell == if row < BUFFER_HEIGHT && col < BUFFER_WIDTH {
                Some(self@.cells[row as int][col as int])
            } else {
                None
            },
    {
        if row < BUFFER_HEIGHT && col < BUFFER_WIDTH {
            Some(self.load(row, col))
        } else {
            None
        }
    }

    /// One volatile read of a cell of the grid.
    fn load(&self, row: usize, col: usize) -> (cell: ScreenChar)
        requires
            row < BUFFER_HEIGHT,
            col < BUFFER_WIDTH,
        ensures
            cell == self@.cells[row as int][col as int],
    {
        ScreenChar::from_bytes(read_cell(&self.buffer[row][col]))
    }

    /// One volatile write of a cell of the grid; every other cell stays.
    fn store(&mut self, row: usize, col: usize, cell: ScreenChar)
        requires
            row < BUFFER_HEIGHT,
            col < BUFFER_WIDTH,
        ensures
            final(self)@ == (Console {
                cells: old(self)@.cells.update(
                    row as int,
                    old(self)@.cells[row as int].update(col as int, cell),
                ),
                ..old(self)@
            }),
    {
        proof {
            use_type_invariant(&*self);
        }
        write_cell(&mut self.buffer[row][col], cell.to_bytes());
        proof {
            let before = old(self)@.cells;
            let after = self@.cells;
            let expected = before.update(row as int, before[row as int].update(col as int, cell));
            assert forall|r: int| 0 <= r < BUFFER_HEIGHT implies #[trigger] after[r] == expected[r] by {
                if r == row {
                    assert(after[r] =~= expected[r]);
                } else {
                    assert(self.buffer[r] == old(self).buffer[r]);
                    assert(after[r] =~= expected[r]);
                }
            }
            assert(after =~= expected);
        }
    }

    /// Sets the attribute that cells written from now on get. No cell of
    /// the grid is touched, and the column stays.
    pub fn set_color(&mut self, foreground: Color, background: Color)
        ensures
            final(self)@ == old(self)@.set_color(foreground, background),
            final(self)@.cells == old(self)@.cells,
            final(self)@.wf(),
    {
        proof {
            use_type_invariant(&*self);
        }
        self.color_code = ColorCode::new(foreground, background);
    }

    /// Overwrites every cell of `row` with a blank in the current
    /// attribute.
    fn clear_row(&mut self, row: usize)
        requires
            row < BUFFER_HEIGHT,
        ensures
            final(self)@ == old(self)@.clear_row(row as int),
    {
        let blank = ScreenChar { ascii_character: BLANK, color_code: self.color_code };
        for col in 0..BUFFER_WIDTH
            invariant
                row < BUFFER_HEIGHT,
                blank == Console::blank(old(self)@.color),
                self@.column == old(self)@.column,
                self@.color == old(self)@.color,
                forall|r: int|
                    0 <= r < BUFFER_HEIGHT && r != row ==> #[trigger] self@.cells[r] == old(
                        self,
                    )@.cells[r],
                forall|c: int| 0 <= c < col ==> #[trigger] self@.cells[row as int][c] == blank,
        {
            self.store(row, col, blank);
        }
        proof {
            assert(self@.cells[row as int] =~= Console::blank_row(old(self)@.color));
            assert(self@.cells =~= old(self)@.clear_row(row as int).cells);
        }
    }

    /// The line advance: copies every row but the top one into the row
    /// above it, cell by cell from the top, clears the bottom row and puts
    /// the column back to 0.
    fn new_line(&mut self)
        ensures
            final(self)@ == old(self)@.new_line(),
    {
        for row in 1..BUFFER_HEIGHT
            invariant
                self@.column == old(self)@.column,
                self@.color == old(self)@.color,
                forall|r: int|
                    0 <= r < row - 1 ==> #[trigger] self@.cells[r] == old(self)@.cells[r + 1],
                forall|r: int|
                    row - 1 <= r < BUFFER_HEIGHT ==> #[trigger] self@.cells[r] == old(
                        self,
                    )@.cells[r],
        {
            for col in 0..BUFFER_WIDTH
                invariant
                    1 <= row < BUFFER_HEIGHT,
                    self@.column == old(self)@.column,
                    self@.color == old(self)@.color,
                    forall|r: int|
                        0 <= r < row - 1 ==> #[trigger] self@.cells[r] == old(self)@.cells[r + 1],
                    forall|r: int|
                        row <= r < BUFFER_HEIGHT ==> #[trigger] self@.cells[r] == old(
                            self,
                        )@.cells[r],
                    forall|c: int|
                        0 <= c < col ==> #[trigger] self@.cells[row - 1][c] == old(
                            self,
                        )@.cells[row as int][c],
            {
                let character = self.load(row, col);
                self.store(row - 1, col, character);
            }
            proof {
                assert(self@.cells[row - 1] =~= old(self)@.cells[row as int]);
            }
        }
        self.clear_row(BUFFER_HEIGHT - 1);
        self.column_position = 0;
        proof {
            assert(self@.cells =~= old(self)@.new_line().cells);
        }
    }

    /// Writes one byte at the cursor. A line feed advances the line and
    /// writes no cell. Any other byte is written as it is, in the current
    /// attribute, at the column in the bottom row, after a line advance if
    /// that row is full; the column then moves on by one.
    pub fn write_byte(&mut self, byte: u8)
        ensures
            final(self)@ == old(self)@.write_byte(byte),
            final(self)@.wf(),
    {
        if byte == LINE_FEED {
            self.new_line();
        } else {
            if self.column_position() >= BUFFER_WIDTH {
                self.new_line();
            }
            let row: usize = BUFFER_HEIGHT - 1;
            let col: usize = self.column_position();
            let color_code = self.color_code;
            self.store(row, col, ScreenChar { ascii_character: byte, color_code });
            self.column_position += 1;
        }
    }

    /// Writes the bytes of `s` in order. A byte that is neither printable
    /// (`0x20..=0x7e`) nor a line feed is written as the replacement glyph.
    pub fn write_string(&mut self, s: &str)
        ensures
            final(self)@ == old(self)@.write_string(s.spec_bytes()),
            final(self)@.wf(),
    {
        proof {
            use_type_invariant(&*self);
        }
        let bytes = s.as_bytes();
        for i in 0..bytes.len()
            invariant
                bytes@ == s.spec_bytes(),
                self@ == old(self)@.write_string(bytes@.take(i as int)),
                self@.wf(),
        {
            proof {
                assert(bytes@.take(i + 1).drop_last() =~= bytes@.take(i as int));
            }
            let byte: u8 = bytes[i];
            if (0x20 <= byte && byte <= 0x7e) || byte == LINE_FEED {
                self.write_byte(byte);
            } else {
                self.write_byte(UNPRINTABLE);
            }
        }
        proof {
            assert(bytes@.take(bytes@.len() as int) =~= bytes@);
        }
    }
}

/// The error of `core::fmt`, which a formatter hands on when a writer
/// refuses text. This writer never makes one.
#[verifier::external_type_specification]
#[verifier::external_body]
pub struct ExFmtError(core::fmt::Error);

/// Formatted text goes to the console through `write_str`: each piece that
/// the formatter makes is written as a string, and none is refused.
impl core::fmt::Write for Writer {
    fn write_str(&mut self, s: &str) -> (done: Result<(), core::fmt::Error>)
        ensures
            final(self)@ == old(self)@.write_string(s.spec_bytes()),
            final(self)@.wf(),
            done is Ok,
    {
        self.write_string(s);
        Ok(())
    }
}

} // verus!
