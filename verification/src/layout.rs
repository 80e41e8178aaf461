//! Where text lands on the grid.
//!
//! The console writes from left to right in the bottom row and moves the
//! rows up when it advances the line. The theorems here say, for every
//! string and every console, in which cell each byte ends up, how many
//! line advances are made, what the other cells show, and what is left on
//! the grid after many lines.
//!
//! Lines are counted from the line on which a string starts, which is line
//! 0; each line advance begins the next one. After the string, the last
//! line stands in the bottom row and each earlier line one row higher.

use vstd::prelude::*;
use crate::vga_buffer::{
    ColorCode, Console, ScreenChar, BUFFER_HEIGHT, BUFFER_WIDTH, LINE_FEED, UNPRINTABLE,
};

verus! {

/// The column after `bytes` were written from column `start`.
pub open spec fn column_after(start: int, bytes: Seq<u8>) -> int
    decreases bytes.len(),
{
    if bytes.len() == 0 {
        start
    } else {
        let before = column_after(start, bytes.drop_last());
        if bytes.last() == LINE_FEED {
            0
        } else if before >= BUFFER_WIDTH {
            1
        } else {
            before + 1
        }
    }
}

/// The number of line advances made while `bytes` were written from column
/// `start`: one for each line feed, and one for each other byte that found
/// the bottom row full.
pub open spec fn advances(start: int, bytes: Seq<u8>) -> int
    decreases bytes.len(),
{
    if bytes.len() == 0 {
        0
    } else {
        let before = column_after(start, bytes.drop_last());
        let advance: int = if bytes.last() == LINE_FEED || before >= BUFFER_WIDTH {
            1
        } else {
            0
        };
        advances(start, bytes.drop_last()) + advance
    }
}

/// The line on which byte `index` of `bytes` is placed.
pub open spec fn line_of(start: int, bytes: Seq<u8>, index: int) -> int {
    advances(start, bytes.take(index + 1))
}

/// The column in which byte `index` of `bytes` is placed.
pub open spec fn column_of(start: int, bytes: Seq<u8>, index: int) -> int {
    column_after(start, bytes.take(index + 1)) - 1
}

/// Byte `index` of `bytes` fills the cell at `line` and `column`.
pub open spec fn fills(start: int, bytes: Seq<u8>, index: int, line: int, column: int) -> bool {
    &&& 0 <= index < bytes.len()
    &&& bytes[index] != LINE_FEED
    &&& line_of(start, bytes, index) == line
    &&& column_of(start, bytes, index) == column
}

/// Every byte is printable: none is a line feed, and none is replaced.
pub open spec fn printable(bytes: Seq<u8>) -> bool {
    forall|i: int| 0 <= i < bytes.len() ==> 0x20 <= #[trigger] bytes[i] <= 0x7e
}

/// The cell that byte `byte` of a string becomes in attribute `color`.
pub open spec fn glyph(byte: u8, color: ColorCode) -> ScreenChar {
    ScreenChar { ascii_character: Console::sanitize(byte), color_code: color }
}

/// One written byte keeps the console well formed and its attribute.
pub proof fn lemma_write_byte_wf(console: Console, byte: u8)
    requires
        console.wf(),
    ensures
        console.write_byte(byte).wf(),
        console.write_byte(byte).color == console.color,
{
}

/// A written string keeps the console well formed and its attribute, and
/// leaves the column where `column_after` says.
pub proof fn lemma_write_string_cursor(console: Console, bytes: Seq<u8>)
    requires
        console.wf(),
    ensures
        console.write_string(bytes).wf(),
        console.write_string(bytes).color == console.color,
        console.write_string(bytes).column == column_after(console.column, bytes),
    decreases bytes.len(),
{
    if bytes.len() > 0 {
        let before = console.write_string(bytes.drop_last());
        lemma_write_string_cursor(console, bytes.drop_last());
        lemma_write_byte_wf(before, Console::sanitize(bytes.last()));
    }
}

/// Writing two strings one after the other is writing them joined.
pub proof fn lemma_write_string_concat(console: Console, first: Seq<u8>, second: Seq<u8>)
    ensures
        console.write_string(first + second) == console.write_string(first).write_string(second),
    decreases second.len(),
{
    if second.len() == 0 {
        assert(first + second =~= first);
    } else {
        lemma_write_string_concat(console, first, second.drop_last());
        assert((first + second).drop_last() =~= first + second.drop_last());
    }
}

/// A byte of a string that is neither printable nor a line feed is drawn
/// as the replacement glyph: writing it is writing the glyph, and the cell
/// it fills shows the glyph in the current attribute, which is not the
/// byte unless the byte is the glyph's own code.
pub proof fn lemma_unprintable_is_replaced(console: Console, byte: u8)
    requires
        console.wf(),
        !(0x20 <= byte <= 0x7e),
        byte != LINE_FEED,
    ensures
        console.write_string(seq![byte]) == console.write_byte(UNPRINTABLE),
        ({
            let after = console.write_string(seq![byte]);
            let cell = after.cells[BUFFER_HEIGHT - 1][after.column - 1];
            &&& 1 <= after.column <= BUFFER_WIDTH
            &&& cell == ScreenChar { ascii_character: UNPRINTABLE, color_code: console.color }
            &&& byte != UNPRINTABLE ==> cell.ascii_character != byte
        }),
{
    let bytes = seq![byte];
    assert(bytes.drop_last() =~= Seq::<u8>::empty());
    assert(console.write_string(bytes.drop_last()) == console);
    assert(bytes.last() == byte);
}

/// The column stays within the row, and the count of line advances never
/// goes down.
pub proof fn lemma_cursor_range(start: int, bytes: Seq<u8>)
    requires
        0 <= start <= BUFFER_WIDTH,
    ensures
        0 <= column_after(start, bytes) <= BUFFER_WIDTH,
        0 <= advances(start, bytes),
        bytes.len() > 0 && bytes.last() != LINE_FEED ==> 1 <= column_after(start, bytes),
    decreases bytes.len(),
{
    if bytes.len() > 0 {
        lemma_cursor_range(start, bytes.drop_last());
    }
}

/// As long as no line advance is made, every byte moves the column on by
/// one.
pub proof fn lemma_no_advance(start: int, bytes: Seq<u8>)
    requires
        0 <= start <= BUFFER_WIDTH,
        advances(start, bytes) == 0,
    ensures
        column_after(start, bytes) == start + bytes.len(),
    decreases bytes.len(),
{
    if bytes.len() > 0 {
        lemma_cursor_range(start, bytes.drop_last());
        lemma_no_advance(start, bytes.drop_last());
    }
}

/// The closed form of the cursor for a string without line feeds: from
/// column `start`, a line advance is made for every `BUFFER_WIDTH` bytes,
/// each time a byte finds the row full.
pub proof fn lemma_wrap(start: int, bytes: Seq<u8>)
    requires
        0 <= start <= BUFFER_WIDTH,
        printable(bytes),
    ensures
        bytes.len() == 0 ==> column_after(start, bytes) == start && advances(start, bytes) == 0,
        bytes.len() > 0 ==> ({
            let width = BUFFER_WIDTH as int;
            let last = start + bytes.len() - 1;
            &&& column_after(start, bytes) == last % width + 1
            &&& advances(start, bytes) == last / width
        }),
    decreases bytes.len(),
{
    if bytes.len() > 0 {
        let shorter = bytes.drop_last();
        assert(printable(shorter));
        lemma_wrap(start, shorter);
        assert(bytes.last() != LINE_FEED);
    }
}

/// A byte that is written later comes after an earlier one: on a later
/// line, or further right on the same line.
pub proof fn lemma_later_bytes_come_after(start: int, bytes: Seq<u8>, index: int)
    requires
        0 <= start <= BUFFER_WIDTH,
        0 <= index < bytes.len(),
        bytes[index] != LINE_FEED,
    ensures
        0 <= column_of(start, bytes, index) < BUFFER_WIDTH,
        0 <= line_of(start, bytes, index) <= advances(start, bytes),
        line_of(start, bytes, index) == advances(start, bytes) ==> column_of(start, bytes, index)
            < column_after(start, bytes),
    decreases bytes.len(),
{
    let upto = bytes.take(index + 1);
    lemma_cursor_range(start, upto);
    assert(upto.last() == bytes[index]);
    if bytes.len() == index + 1 {
        assert(upto =~= bytes);
    } else {
        let shorter = bytes.drop_last();
        assert(shorter.take(index + 1) =~= upto);
        lemma_later_bytes_come_after(start, shorter, index);
        lemma_cursor_range(start, shorter);
    }
}

/// The layout of a written string: every byte but a line feed fills the
/// cell at its line and column, in the attribute of the console. Each line
/// advance moves it up by one row, so after the whole string it stands as
/// many rows above the bottom row as lines were advanced after it, as long
/// as that is still on the grid.
pub proof fn lemma_layout(console: Console, bytes: Seq<u8>, index: int)
    requires
        console.wf(),
        0 <= index < bytes.len(),
        bytes[index] != LINE_FEED,
        advances(console.column, bytes) - line_of(console.column, bytes, index) < BUFFER_HEIGHT,
    ensures
        ({
            let above = advances(console.column, bytes) - line_of(console.column, bytes, index);
            let column = column_of(console.column, bytes, index);
            let after = console.write_string(bytes);
            after.cells[BUFFER_HEIGHT - 1 - above][column] == glyph(bytes[index], console.color)
        }),
    decreases bytes.len(),
{
    let start = console.column;
    let upto = bytes.take(index + 1);
    let shorter = bytes.drop_last();
    lemma_write_string_cursor(console, shorter);
    lemma_cursor_range(start, shorter);
    assert(upto.last() == bytes[index]);
    if bytes.len() == index + 1 {
        assert(upto =~= bytes);
    } else {
        assert(shorter.take(index + 1) =~= upto);
        lemma_later_bytes_come_after(start, shorter, index);
        if advances(start, shorter) - line_of(start, shorter, index) < BUFFER_HEIGHT {
            lemma_layout(console, shorter, index);
        }
    }
}

/// The layout of a printable string: from left to right and from top to
/// bottom, in rows of `BUFFER_WIDTH` cells, with one line advance each time
/// a row is full and another byte comes. Counted in cells from the start of
/// the row in which the string starts, byte `index` lies at the console's
/// column plus `index`; the last byte lies in the bottom row; and the cell
/// shows the byte as it was written.
pub proof fn lemma_printable_layout(console: Console, bytes: Seq<u8>, index: int)
    requires
        console.wf(),
        printable(bytes),
        0 <= index < bytes.len(),
    ensures
        ({
            let width = BUFFER_WIDTH as int;
            let last = console.column + bytes.len() - 1;
            let here = console.column + index;
            let after = console.write_string(bytes);
            let above = last / width - here / width;
            &&& after.column == last % width + 1
            &&& advances(console.column, bytes) == last / width
            &&& 0 <= above
            &&& above < BUFFER_HEIGHT ==> after.cells[BUFFER_HEIGHT - 1 - above][here % width]
                == ScreenChar { ascii_character: bytes[index], color_code: console.color }
        }),
{
    let upto = bytes.take(index + 1);
    assert(printable(upto));
    lemma_wrap(console.column, bytes);
    lemma_wrap(console.column, upto);
    lemma_write_string_cursor(console, bytes);
    lemma_later_bytes_come_after(console.column, bytes, index);
    if advances(console.column, bytes) - line_of(console.column, bytes, index) < BUFFER_HEIGHT {
        lemma_layout(console, bytes, index);
    }
}

/// What stood on the grid before a string was written stands, after it,
/// one row higher for each line advance: every cell of the rows above the
/// bottom row, and of the bottom row the cells left of the column, which
/// the string does not reach.
pub proof fn lemma_earlier_cells_move_up(console: Console, bytes: Seq<u8>, row: int, column: int)
    requires
        console.wf(),
        0 <= row < BUFFER_HEIGHT,
        0 <= column < BUFFER_WIDTH,
        row < BUFFER_HEIGHT - 1 || column < console.column,
        advances(console.column, bytes) <= row,
    ensures
        console.write_string(bytes).cells[row - advances(console.column, bytes)][column]
            == console.cells[row][column],
    decreases bytes.len(),
{
    if bytes.len() > 0 {
        let shorter = bytes.drop_last();
        lemma_cursor_range(console.column, shorter);
        lemma_write_string_cursor(console, shorter);
        lemma_earlier_cells_move_up(console, shorter, row, column);
        if advances(console.column, shorter) == 0 {
            lemma_no_advance(console.column, shorter);
        }
    }
}

/// A byte fills the same cell whatever is written after it.
proof fn lemma_fills_in_longer(start: int, bytes: Seq<u8>, index: int, line: int, column: int)
    requires
        bytes.len() > 0,
        fills(start, bytes.drop_last(), index, line, column),
    ensures
        fills(start, bytes, index, line, column),
{
    assert(bytes.drop_last().take(index + 1) =~= bytes.take(index + 1));
}

/// A cell of a line that the string began, which no byte of the string
/// fills, is blank in the attribute of the console.
pub proof fn lemma_fresh_cells_are_blank(console: Console, bytes: Seq<u8>, row: int, column: int)
    requires
        console.wf(),
        0 <= row < BUFFER_HEIGHT,
        0 <= column < BUFFER_WIDTH,
        ({
            let line = advances(console.column, bytes) - (BUFFER_HEIGHT - 1 - row);
            &&& line >= 1
            &&& forall|i: int| !#[trigger] fills(console.column, bytes, i, line, column)
        }),
    ensures
        console.write_string(bytes).cells[row][column] == Console::blank(console.color),
    decreases bytes.len(),
{
    let start = console.column;
    let line = advances(start, bytes) - (BUFFER_HEIGHT - 1 - row);
    let shorter = bytes.drop_last();
    let last = bytes.len() - 1;
    lemma_cursor_range(start, shorter);
    lemma_write_string_cursor(console, shorter);
    assert(bytes.take(last + 1) =~= bytes);
    assert(!fills(start, bytes, last, line, column));
    assert forall|i: int| !#[trigger] fills(start, shorter, i, line, column) by {
        if fills(start, shorter, i, line, column) {
            lemma_fills_in_longer(start, bytes, i, line, column);
        }
    }
    if advances(start, shorter) == advances(start, bytes) {
        lemma_fresh_cells_are_blank(console, shorter, row, column);
    } else if row < BUFFER_HEIGHT - 1 {
        lemma_fresh_cells_are_blank(console, shorter, row + 1, column);
    }
}

/// A cell that no byte of the string fills keeps what it showed, one row
/// higher for each line advance.
pub proof fn lemma_untouched_cells_move_up(
    console: Console,
    bytes: Seq<u8>,
    row: int,
    column: int,
)
    requires
        console.wf(),
        0 <= row < BUFFER_HEIGHT,
        0 <= column < BUFFER_WIDTH,
        advances(console.column, bytes) <= row,
        row == BUFFER_HEIGHT - 1 ==> forall|i: int|
            !#[trigger] fills(console.column, bytes, i, 0, column),
    ensures
        console.write_string(bytes).cells[row - advances(console.column, bytes)][column]
            == console.cells[row][column],
    decreases bytes.len(),
{
    if bytes.len() > 0 {
        let start = console.column;
        let shorter = bytes.drop_last();
        let last = bytes.len() - 1;
        lemma_cursor_range(start, shorter);
        lemma_write_string_cursor(console, shorter);
        assert(bytes.take(last + 1) =~= bytes);
        if row == BUFFER_HEIGHT - 1 {
            assert(!fills(start, bytes, last, 0, column));
            assert forall|i: int| !#[trigger] fills(start, shorter, i, 0, column) by {
                if fills(start, shorter, i, 0, column) {
                    lemma_fills_in_longer(start, bytes, i, 0, column);
                }
            }
        }
        lemma_untouched_cells_move_up(console, shorter, row, column);
    }
}

/// The grid after a string, cell by cell. The row of a cell stands for a
/// line: the bottom row for the line that the string ended on, the row
/// above it for the line before, and so on. A cell that a byte of the
/// string fills shows that byte. Of the other cells, those of a line that
/// the string began are blank, and those of the line on which it started,
/// or of a line before that, show what stood there before.
pub proof fn lemma_grid_after_string(console: Console, bytes: Seq<u8>, row: int, column: int)
    requires
        console.wf(),
        0 <= row < BUFFER_HEIGHT,
        0 <= column < BUFFER_WIDTH,
    ensures
        ({
            let moved = advances(console.column, bytes);
            let line = moved - (BUFFER_HEIGHT - 1 - row);
            let cell = console.write_string(bytes).cells[row][column];
            let untouched = forall|i: int| !#[trigger] fills(console.column, bytes, i, line, column);
            &&& forall|i: int| #[trigger]
                fills(console.column, bytes, i, line, column) ==> cell == glyph(
                    bytes[i],
                    console.color,
                )
            &&& untouched && line >= 1 ==> cell == Console::blank(console.color)
            &&& untouched && line <= 0 ==> cell == console.cells[row + moved][column]
        }),
{
    let moved = advances(console.column, bytes);
    let line = moved - (BUFFER_HEIGHT - 1 - row);
    let cell = console.write_string(bytes).cells[row][column];
    lemma_cursor_range(console.column, bytes);
    assert forall|i: int| #[trigger] fills(console.column, bytes, i, line, column) implies cell
        == glyph(bytes[i], console.color) by {
        lemma_layout(console, bytes, i);
    }
    if forall|i: int| !#[trigger] fills(console.column, bytes, i, line, column) {
        if line >= 1 {
            lemma_fresh_cells_are_blank(console, bytes, row, column);
        } else {
            lemma_untouched_cells_move_up(console, bytes, row + moved, column);
        }
    }
}

/// The lines written one after the other, each followed by a line feed.
pub open spec fn write_lines(console: Console, lines: Seq<Seq<u8>>) -> Console
    decreases lines.len(),
{
    if lines.len() == 0 {
        console
    } else {
        write_lines(console, lines.drop_last()).write_string(lines.last()).write_byte(LINE_FEED)
    }
}

/// The line fits one row: it has at most `BUFFER_WIDTH` bytes and no line
/// feed among them.
pub open spec fn fits_row(line: Seq<u8>) -> bool {
    &&& line.len() <= BUFFER_WIDTH
    &&& forall|i: int| 0 <= i < line.len() ==> #[trigger] line[i] != LINE_FEED
}

/// The row that shows `line` alone: its bytes from the left, then blanks.
pub open spec fn row_of_line(line: Seq<u8>, color: ColorCode) -> Seq<ScreenChar> {
    Seq::new(
        BUFFER_WIDTH as nat,
        |c: int|
            if c < line.len() {
                glyph(line[c], color)
            } else {
                Console::blank(color)
            },
    )
}

/// The grid that shows the last `BUFFER_HEIGHT - 1` of `lines`, one per
/// row from the top, above a blank bottom row.
pub open spec fn grid_of_last_lines(lines: Seq<Seq<u8>>, color: ColorCode) -> Seq<
    Seq<ScreenChar>,
> {
    Seq::new(
        BUFFER_HEIGHT as nat,
        |r: int|
            if r < BUFFER_HEIGHT - 1 {
                row_of_line(lines[lines.len() - (BUFFER_HEIGHT - 1) + r], color)
            } else {
                Console::blank_row(color)
            },
    )
}

/// Written lines keep the console well formed and its attribute.
pub proof fn lemma_write_lines_wf(console: Console, lines: Seq<Seq<u8>>)
    requires
        console.wf(),
    ensures
        write_lines(console, lines).wf(),
        write_lines(console, lines).color == console.color,
    decreases lines.len(),
{
    if lines.len() > 0 {
        let before = write_lines(console, lines.drop_last());
        lemma_write_lines_wf(console, lines.drop_last());
        lemma_write_string_cursor(before, lines.last());
    }
}

/// A line that fits one row, written from column 0 into a blank bottom row,
/// makes that row show the line alone and touches no other row; the column
/// is then the length of the line.
pub proof fn lemma_line_on_blank_row(console: Console, line: Seq<u8>)
    requires
        console.wf(),
        console.column == 0,
        console.cells[BUFFER_HEIGHT - 1] == Console::blank_row(console.color),
        fits_row(line),
    ensures
        console.write_string(line) == (Console {
            cells: console.cells.update(BUFFER_HEIGHT - 1, row_of_line(line, console.color)),
            column: line.len() as int,
            color: console.color,
        }),
    decreases line.len(),
{
    let bottom = BUFFER_HEIGHT - 1;
    let shown = row_of_line(line, console.color);
    if line.len() == 0 {
        assert(shown =~= Console::blank_row(console.color));
        assert(console.cells.update(bottom, shown) =~= console.cells);
    } else {
        let shorter = line.drop_last();
        assert(fits_row(shorter));
        lemma_line_on_blank_row(console, shorter);
        let after = console.write_string(line);
        assert(line.last() != LINE_FEED);
        assert(after.cells[bottom] =~= shown);
        assert(after.cells =~= console.cells.update(bottom, shown));
    }
}

/// After the last `count` of the lines, each of which fits one row, the
/// rows just above the bottom row show them, the bottom row is blank and
/// the column is 0.
proof fn lemma_last_lines(console: Console, lines: Seq<Seq<u8>>, count: int)
    requires
        console.wf(),
        0 <= count < BUFFER_HEIGHT,
        count < lines.len(),
        forall|i: int| lines.len() - count <= i < lines.len() ==> fits_row(#[trigger] lines[i]),
    ensures
        ({
            let after = write_lines(console, lines);
            &&& after.wf()
            &&& after.column == 0
            &&& after.color == console.color
            &&& after.cells[BUFFER_HEIGHT - 1] == Console::blank_row(console.color)
            &&& forall|j: int|
                0 <= j < count ==> #[trigger] after.cells[BUFFER_HEIGHT - 1 - count + j]
                    == row_of_line(lines[lines.len() - count + j], console.color)
        }),
    decreases count,
{
    let earlier = lines.drop_last();
    let before = write_lines(console, earlier);
    let line = lines.last();
    let after = write_lines(console, lines);
    lemma_write_lines_wf(console, earlier);
    lemma_write_string_cursor(before, line);
    assert(after == before.write_string(line).new_line());
    if count > 0 {
        lemma_last_lines(console, earlier, count - 1);
        lemma_line_on_blank_row(before, line);
        assert forall|j: int| 0 <= j < count implies #[trigger] after.cells[BUFFER_HEIGHT - 1
            - count + j] == row_of_line(lines[lines.len() - count + j], console.color) by {
            if j < count - 1 {
                assert(before.cells[BUFFER_HEIGHT - 1 - (count - 1) + j] == row_of_line(
                    earlier[earlier.len() - (count - 1) + j],
                    console.color,
                ));
            }
        }
    }
}

/// After at least `BUFFER_HEIGHT` lines, the last `BUFFER_HEIGHT - 1` of
/// which fit one row each, the grid shows exactly those, in order, above a
/// blank bottom row. Nothing is left of what the grid showed before, nor of
/// any earlier line: the console is the same whatever they were.
pub proof fn lemma_scroll(console: Console, lines: Seq<Seq<u8>>)
    requires
        console.wf(),
        lines.len() >= BUFFER_HEIGHT,
        forall|i: int|
            lines.len() - (BUFFER_HEIGHT - 1) <= i < lines.len() ==> fits_row(#[trigger] lines[i]),
    ensures
        write_lines(console, lines) == (Console {
            cells: grid_of_last_lines(lines, console.color),
            column: 0,
            color: console.color,
        }),
{
    let after = write_lines(console, lines);
    let shown = grid_of_last_lines(lines, console.color);
    lemma_last_lines(console, lines, BUFFER_HEIGHT - 1);
    assert forall|r: int| 0 <= r < BUFFER_HEIGHT implies #[trigger] after.cells[r] == shown[r] by {
        if r < BUFFER_HEIGHT - 1 {
            assert(after.cells[BUFFER_HEIGHT - 1 - (BUFFER_HEIGHT - 1) + r] == row_of_line(
                lines[lines.len() - (BUFFER_HEIGHT - 1) + r],
                console.color,
            ));
        }
    }
    assert(after.cells =~= shown);
}

} // verus!
