use vga_console::vga_buffer::{
    Buffer, Color, ColorCode, ScreenChar, Writer, BLANK, BUFFER_HEIGHT, BUFFER_WIDTH, LINE_FEED,
    UNPRINTABLE,
};
use std::fmt::Write;
use volatile::Volatile;

const GRAY_ON_BLACK: ColorCode = ColorCode(0x07);

/// A grid in ordinary memory, every cell holding `fill`, that lives as long
/// as the test process.
fn grid(fill: [u8; 2]) -> &'static mut Buffer {
    let cells: Buffer = std::array::from_fn(|_| std::array::from_fn(|_| Volatile::new(fill)));
    Box::leak(Box::new(cells))
}

/// A writer on a grid of blanks in the attribute the writer starts with.
fn writer() -> Writer {
    Writer::new(grid([BLANK, GRAY_ON_BLACK.0]))
}

fn cell(writer: &Writer, row: usize, col: usize) -> ScreenChar {
    writer.read(row, col).unwrap()
}

fn row_text(writer: &Writer, row: usize) -> String {
    (0..BUFFER_WIDTH).map(|col| char::from(cell(writer, row, col).ascii_character)).collect()
}

fn padded(text: &str) -> String {
    format!("{:<width$}", text, width = BUFFER_WIDTH)
}

fn gray(byte: u8) -> ScreenChar {
    ScreenChar { ascii_character: byte, color_code: GRAY_ON_BLACK }
}

#[test]
fn test_println_simple() {
    let mut writer = writer();
    writer.write_string("test_println_simple output\n");
    assert_eq!(writer.column_position(), 0);
    assert_eq!(row_text(&writer, BUFFER_HEIGHT - 2), padded("test_println_simple output"));
    assert_eq!(row_text(&writer, BUFFER_HEIGHT - 1), padded(""));
}

#[test]
fn test_println_many() {
    let mut writer = writer();
    for _ in 0..200 {
        writer.write_string("test_println_many output\n");
        assert_eq!(writer.column_position(), 0);
    }
    for row in 0..BUFFER_HEIGHT - 1 {
        assert_eq!(row_text(&writer, row), padded("test_println_many output"));
    }
    assert_eq!(row_text(&writer, BUFFER_HEIGHT - 1), padded(""));
}

#[test]
fn bulk_writes_without_line_feeds_leave_the_column_of_the_last_partial_line() {
    let mut writer = writer();
    let text = "test_println_many output";
    for _ in 0..200 {
        writer.write_string(text);
    }
    let total = 200 * text.len();
    assert_eq!(writer.column_position(), (total - 1) % BUFFER_WIDTH + 1);
    assert_eq!(writer.column_position(), 80);
    assert_eq!(cell(&writer, BUFFER_HEIGHT - 1, BUFFER_WIDTH - 1), gray(b't'));
}

#[test]
fn test_println_output() {
    let mut writer = writer();
    let s = "Some test string that fits on a single line";
    writer.write_string(s);
    writer.write_string("\n");
    for (i, c) in s.chars().enumerate() {
        let screen_char = writer.read(BUFFER_HEIGHT - 2, i).unwrap();
        assert_eq!(char::from(screen_char.ascii_character), c);
    }
}

#[test]
fn new_writer_is_light_gray_on_black_at_column_zero() {
    let writer = Writer::new(grid([b'x', 0x4f]));
    assert_eq!(writer.column_position(), 0);
    assert_eq!(writer.color_code(), ColorCode(0x07));
    assert_eq!(writer.color_code(), ColorCode::new(Color::LightGray, Color::Black));
    for row in 0..BUFFER_HEIGHT {
        for col in 0..BUFFER_WIDTH {
            assert_eq!(
                writer.read(row, col),
                Some(ScreenChar { ascii_character: b'x', color_code: ColorCode(0x4f) })
            );
        }
    }
}

#[test]
fn read_outside_the_grid_is_none() {
    let writer = writer();
    assert_eq!(writer.read(BUFFER_HEIGHT, 0), None);
    assert_eq!(writer.read(0, BUFFER_WIDTH), None);
    assert_eq!(writer.read(usize::MAX, usize::MAX), None);
    assert!(writer.read(BUFFER_HEIGHT - 1, BUFFER_WIDTH - 1).is_some());
}

#[test]
fn write_byte_places_the_byte_at_the_column_of_the_bottom_row() {
    let mut writer = Writer::new(grid([b'.', 0x70]));
    writer.write_byte(b'a');
    writer.write_byte(b'b');
    assert_eq!(writer.column_position(), 2);
    assert_eq!(cell(&writer, BUFFER_HEIGHT - 1, 0), gray(b'a'));
    assert_eq!(cell(&writer, BUFFER_HEIGHT - 1, 1), gray(b'b'));
    let untouched = ScreenChar { ascii_character: b'.', color_code: ColorCode(0x70) };
    assert_eq!(cell(&writer, BUFFER_HEIGHT - 1, 2), untouched);
    assert_eq!(cell(&writer, BUFFER_HEIGHT - 2, 0), untouched);
}

#[test]
fn write_byte_writes_any_byte_but_the_line_feed_as_it_is() {
    let mut writer = writer();
    writer.write_byte(0x07);
    writer.write_byte(0xff);
    writer.write_byte(0x00);
    assert_eq!(cell(&writer, BUFFER_HEIGHT - 1, 0), gray(0x07));
    assert_eq!(cell(&writer, BUFFER_HEIGHT - 1, 1), gray(0xff));
    assert_eq!(cell(&writer, BUFFER_HEIGHT - 1, 2), gray(0x00));
    assert_eq!(writer.column_position(), 3);
}

#[test]
fn line_feed_moves_every_row_up_and_clears_the_bottom_row() {
    let mut writer = Writer::new(grid([b'.', 0x70]));
    writer.write_string("top");
    writer.write_byte(LINE_FEED);
    writer.write_string("below");
    writer.write_byte(LINE_FEED);
    assert_eq!(writer.column_position(), 0);
    assert_eq!(&row_text(&writer, BUFFER_HEIGHT - 3)[..5], "top..");
    assert_eq!(row_text(&writer, BUFFER_HEIGHT - 2), padded("below"));
    assert_eq!(row_text(&writer, BUFFER_HEIGHT - 1), padded(""));
    for col in 0..BUFFER_WIDTH {
        assert_eq!(cell(&writer, BUFFER_HEIGHT - 1, col), gray(BLANK));
    }
    assert_eq!(row_text(&writer, 0), ".".repeat(BUFFER_WIDTH));
}

#[test]
fn full_row_advances_the_line_only_when_the_next_byte_comes() {
    let mut writer = writer();
    let line = "x".repeat(BUFFER_WIDTH);
    writer.write_string(&line);
    assert_eq!(writer.column_position(), BUFFER_WIDTH);
    assert_eq!(row_text(&writer, BUFFER_HEIGHT - 1), line);
    writer.write_byte(b'y');
    assert_eq!(writer.column_position(), 1);
    assert_eq!(row_text(&writer, BUFFER_HEIGHT - 2), line);
    assert_eq!(row_text(&writer, BUFFER_HEIGHT - 1), padded("y"));
}

#[test]
fn line_feed_on_a_full_row_advances_once() {
    let mut writer = writer();
    let line = "x".repeat(BUFFER_WIDTH);
    writer.write_string(&line);
    writer.write_byte(LINE_FEED);
    assert_eq!(writer.column_position(), 0);
    assert_eq!(row_text(&writer, BUFFER_HEIGHT - 2), line);
    assert_eq!(row_text(&writer, BUFFER_HEIGHT - 1), padded(""));
    assert_eq!(row_text(&writer, BUFFER_HEIGHT - 3), padded(""));
}

#[test]
fn long_string_wraps_from_left_to_right_and_top_to_bottom() {
    let mut writer = writer();
    writer.write_string("ab");
    let text: String = (0..200usize).map(|i| char::from(b'0' + (i % 10) as u8)).collect();
    writer.write_string(&text);
    let last = 2 + text.len() - 1;
    assert_eq!(writer.column_position(), last % BUFFER_WIDTH + 1);
    assert_eq!(writer.column_position(), 42);
    for (i, byte) in text.bytes().enumerate() {
        let here = 2 + i;
        let above = last / BUFFER_WIDTH - here / BUFFER_WIDTH;
        assert_eq!(cell(&writer, BUFFER_HEIGHT - 1 - above, here % BUFFER_WIDTH), gray(byte));
    }
    assert_eq!(&row_text(&writer, BUFFER_HEIGHT - 3)[..2], "ab");
    assert_eq!(row_text(&writer, BUFFER_HEIGHT - 4), padded(""));
    assert_eq!(&row_text(&writer, BUFFER_HEIGHT - 1)[42..], &padded("")[42..]);
}

#[test]
fn many_lines_leave_the_last_ones_on_the_grid() {
    let mut writer = Writer::new(grid([b'#', 0x23]));
    writer.write_string("left over");
    let lines: Vec<String> = (0..60).map(|i| format!("line {}", i)).collect();
    for line in &lines {
        writer.write_string(line);
        writer.write_string("\n");
    }
    assert_eq!(writer.column_position(), 0);
    for row in 0..BUFFER_HEIGHT - 1 {
        let line = &lines[lines.len() - (BUFFER_HEIGHT - 1) + row];
        assert_eq!(row_text(&writer, row), padded(line));
        for col in 0..BUFFER_WIDTH {
            assert_eq!(cell(&writer, row, col).color_code, GRAY_ON_BLACK);
        }
    }
    assert_eq!(row_text(&writer, BUFFER_HEIGHT - 1), padded(""));
}

#[test]
fn write_string_replaces_what_is_not_printable() {
    let mut writer = writer();
    writer.write_string("a\u{7}b\u{7f}\tc\u{1f}~ ");
    let shown: Vec<u8> =
        (0..9).map(|col| cell(&writer, BUFFER_HEIGHT - 1, col).ascii_character).collect();
    assert_eq!(
        shown,
        vec![b'a', UNPRINTABLE, b'b', UNPRINTABLE, UNPRINTABLE, b'c', UNPRINTABLE, b'~', b' ']
    );
    assert_eq!(writer.column_position(), 9);
    assert_eq!(UNPRINTABLE, 0xfe);
}

#[test]
fn write_string_replaces_each_byte_of_a_character_outside_ascii() {
    let mut writer = writer();
    writer.write_string("h\u{e9}llo \u{20ac}");
    let shown: Vec<u8> =
        (0..10).map(|col| cell(&writer, BUFFER_HEIGHT - 1, col).ascii_character).collect();
    assert_eq!(shown, vec![b'h', 0xfe, 0xfe, b'l', b'l', b'o', b' ', 0xfe, 0xfe, 0xfe]);
    assert_eq!(writer.column_position(), 10);
}

#[test]
fn write_string_takes_line_feeds_inside_the_string() {
    let mut writer = writer();
    writer.write_string("one\ntwo\n\nfour");
    assert_eq!(writer.column_position(), 4);
    assert_eq!(row_text(&writer, BUFFER_HEIGHT - 4), padded("one"));
    assert_eq!(row_text(&writer, BUFFER_HEIGHT - 3), padded("two"));
    assert_eq!(row_text(&writer, BUFFER_HEIGHT - 2), padded(""));
    assert_eq!(row_text(&writer, BUFFER_HEIGHT - 1), padded("four"));
}

#[test]
fn empty_string_changes_nothing() {
    let mut writer = Writer::new(grid([b'q', 0x11]));
    writer.write_string("abc");
    writer.write_string("");
    assert_eq!(writer.column_position(), 3);
    assert_eq!(&row_text(&writer, BUFFER_HEIGHT - 1)[..5], "abcqq");
}

#[test]
fn set_color_leaves_written_cells_as_they_are() {
    let mut writer = writer();
    writer.write_string("old");
    writer.set_color(Color::Yellow, Color::Blue);
    assert_eq!(writer.color_code(), ColorCode(0x1e));
    assert_eq!(writer.column_position(), 3);
    for (col, byte) in "old".bytes().enumerate() {
        assert_eq!(cell(&writer, BUFFER_HEIGHT - 1, col), gray(byte));
    }
    writer.write_string("new");
    for (col, byte) in "old".bytes().enumerate() {
        assert_eq!(cell(&writer, BUFFER_HEIGHT - 1, col), gray(byte));
    }
    for (col, byte) in "new".bytes().enumerate() {
        assert_eq!(
            cell(&writer, BUFFER_HEIGHT - 1, 3 + col),
            ScreenChar { ascii_character: byte, color_code: ColorCode(0x1e) }
        );
    }
}

#[test]
fn line_advance_clears_in_the_current_color() {
    let mut writer = writer();
    writer.write_string("old");
    writer.set_color(Color::White, Color::Red);
    writer.write_string("\n");
    assert_eq!(cell(&writer, BUFFER_HEIGHT - 2, 0), gray(b'o'));
    assert_eq!(cell(&writer, BUFFER_HEIGHT - 2, 3), gray(BLANK));
    for col in 0..BUFFER_WIDTH {
        assert_eq!(
            cell(&writer, BUFFER_HEIGHT - 1, col),
            ScreenChar { ascii_character: b' ', color_code: ColorCode(0x4f) }
        );
    }
}

#[test]
fn color_code_packs_background_high_and_foreground_low() {
    assert_eq!(ColorCode::new(Color::LightGray, Color::Black), ColorCode(0x07));
    assert_eq!(ColorCode::new(Color::Black, Color::LightGray), ColorCode(0x70));
    assert_eq!(ColorCode::new(Color::Yellow, Color::Blue), ColorCode(0x1e));
    assert_eq!(ColorCode::new(Color::White, Color::White), ColorCode(0xff));
    assert_eq!(ColorCode::new(Color::Black, Color::Black), ColorCode(0x00));
    assert_eq!(ColorCode::new(Color::Pink, Color::DarkGray), ColorCode(0x8d));
}

#[test]
fn colors_stand_in_palette_order() {
    let palette = [
        Color::Black,
        Color::Blue,
        Color::Green,
        Color::Cyan,
        Color::Red,
        Color::Magenta,
        Color::Brown,
        Color::LightGray,
        Color::DarkGray,
        Color::LightBlue,
        Color::LightGreen,
        Color::LightCyan,
        Color::LightRed,
        Color::Pink,
        Color::Yellow,
        Color::White,
    ];
    for (position, color) in palette.iter().enumerate() {
        assert_eq!(color.index() as usize, position);
        for (other, background) in palette.iter().enumerate() {
            let code = ColorCode::new(*color, *background);
            assert_eq!(code.0 as usize, other * 16 + position);
            assert_eq!((code.0 >> 4) as usize, other);
            assert_eq!((code.0 & 0x0f) as usize, position);
        }
    }
}

#[test]
fn cell_is_its_character_then_its_attribute() {
    let cell = ScreenChar { ascii_character: b'Z', color_code: ColorCode(0x2a) };
    assert_eq!(cell.to_bytes(), [b'Z', 0x2a]);
    assert_eq!(ScreenChar::from_bytes([b'Z', 0x2a]), cell);
    assert_eq!(ScreenChar::from_bytes([0x2a, b'Z']).ascii_character, 0x2a);
}

#[test]
fn grid_has_the_size_of_the_text_mode() {
    assert_eq!((BUFFER_HEIGHT, BUFFER_WIDTH), (25, 80));
    assert_eq!(std::mem::size_of::<Buffer>(), 25 * 80 * 2);
    assert_eq!((LINE_FEED, BLANK), (b'\n', b' '));
}

#[test]
fn writer_writes_into_the_grid_it_was_given() {
    let buffer = grid([0, 0]);
    buffer[3][4].write([b'p', 0x05]);
    let mut writer = Writer::new(buffer);
    assert_eq!(
        writer.read(3, 4),
        Some(ScreenChar { ascii_character: b'p', color_code: ColorCode(0x05) })
    );
    writer.write_byte(b'k');
    assert_eq!(writer.read(BUFFER_HEIGHT - 1, 0), Some(gray(b'k')));
    assert_eq!(writer.read(0, 0), Some(ScreenChar { ascii_character: 0, color_code: ColorCode(0) }));
}

#[test]
fn writer_takes_text_from_a_formatter() {
    let mut writer = writer();
    assert_eq!(writer.write_str(&format!("{} + {} = {}\n", 1, 2.5, "three")), Ok(()));
    assert_eq!(writer.write_char('o'), Ok(()));
    assert_eq!(writer.write_char('\u{e9}'), Ok(()));
    assert_eq!(writer.write_str("k"), Ok(()));
    assert_eq!(row_text(&writer, BUFFER_HEIGHT - 2), padded("1 + 2.5 = three"));
    assert_eq!(&row_text(&writer, BUFFER_HEIGHT - 1)[..1], "o");
    assert_eq!(cell(&writer, BUFFER_HEIGHT - 1, 1), gray(UNPRINTABLE));
    assert_eq!(cell(&writer, BUFFER_HEIGHT - 1, 2), gray(UNPRINTABLE));
    assert_eq!(cell(&writer, BUFFER_HEIGHT - 1, 3), gray(b'k'));
    assert_eq!(writer.column_position(), 4);
}
