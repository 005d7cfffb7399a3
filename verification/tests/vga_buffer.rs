use blight_os::vga_buffer::{Color, ColorCode, ScreenChar, Writer};

const WIDTH: usize = 80;
const LAST_ROW: usize = 24 * WIDTH;

fn writer() -> Writer {
    Writer::new(ColorCode::new(Color::Yellow, Color::Black))
}

fn row(writer: &Writer, row: usize) -> Vec<u8> {
    writer.cells()[row * WIDTH..(row + 1) * WIDTH].iter().map(|c| c.ascii_character).collect()
}

#[test]
fn colors_are_numbered_from_black_to_white() {
    assert_eq!(Color::Black.number(), 0);
    assert_eq!(Color::Blue.number(), 1);
    assert_eq!(Color::LightGray.number(), 7);
    assert_eq!(Color::DarkGray.number(), 8);
    assert_eq!(Color::Yellow.number(), 14);
    assert_eq!(Color::White.number(), 15);
}

#[test]
fn color_code_packs_background_above_foreground() {
    assert_eq!(ColorCode::new(Color::Yellow, Color::Black), ColorCode(0x0E));
    assert_eq!(ColorCode::new(Color::Black, Color::Yellow), ColorCode(0xE0));
    assert_eq!(ColorCode::new(Color::White, Color::Blue), ColorCode(0x1F));
    assert_eq!(ColorCode::new(Color::White, Color::White), ColorCode(0xFF));
    assert_eq!(ColorCode::new(Color::Black, Color::Black), ColorCode(0x00));
}

#[test]
fn new_screen_is_blank() {
    let writer = writer();
    assert_eq!(writer.column(), 0);
    assert_eq!(writer.cells().len(), 2000);
    let blank = ScreenChar { ascii_character: b' ', color_code: ColorCode(0x0E) };
    assert!(writer.cells().iter().all(|c| *c == blank));
}

#[test]
fn bytes_go_to_the_bottom_row() {
    let mut writer = writer();
    writer.write_byte(b'H');
    writer.write_byte(b'i');
    assert_eq!(writer.column(), 2);
    assert_eq!(
        writer.cells()[LAST_ROW],
        ScreenChar { ascii_character: b'H', color_code: ColorCode(0x0E) }
    );
    assert_eq!(writer.cells()[LAST_ROW + 1].ascii_character, b'i');
    assert_eq!(writer.cells()[LAST_ROW + 2].ascii_character, b' ');
    assert!(writer.cells()[..LAST_ROW].iter().all(|c| c.ascii_character == b' '));
}

#[test]
fn line_feed_scrolls_up() {
    let mut writer = writer();
    writer.write_string("one\ntwo\n");
    assert_eq!(writer.column(), 0);
    assert_eq!(&row(&writer, 22)[..4], b"one ");
    assert_eq!(&row(&writer, 23)[..4], b"two ");
    assert_eq!(row(&writer, 24), vec![b' '; 80]);
    assert_eq!(row(&writer, 21), vec![b' '; 80]);
}

#[test]
fn full_row_wraps_before_the_next_byte() {
    let mut writer = writer();
    for _ in 0..80 {
        writer.write_byte(b'x');
    }
    assert_eq!(writer.column(), 80);
    assert_eq!(row(&writer, 24), vec![b'x'; 80]);
    writer.write_byte(b'y');
    assert_eq!(writer.column(), 1);
    assert_eq!(row(&writer, 23), vec![b'x'; 80]);
    assert_eq!(&row(&writer, 24)[..2], b"y ");
}

#[test]
fn top_row_scrolls_off() {
    let mut writer = writer();
    for i in 0..26u8 {
        writer.write_byte(b'a' + i);
        writer.write_byte(b'\n');
    }
    assert_eq!(row(&writer, 0)[0], b'c');
    assert_eq!(row(&writer, 23)[0], b'z');
    assert_eq!(row(&writer, 24), vec![b' '; 80]);
}

#[test]
fn unprintable_bytes_are_shown_as_a_box() {
    let mut writer = writer();
    writer.write_string("a\u{e9}b\tc\u{7f}~ ");
    assert_eq!(&row(&writer, 24)[..10], &[b'a', 0xfe, 0xfe, b'b', 0xfe, b'c', 0xfe, b'~', b' ', b' ']);
    assert_eq!(writer.column(), 9);
}

#[test]
fn write_byte_writes_any_byte_as_it_is() {
    let mut writer = writer();
    writer.write_byte(0x01);
    writer.write_byte(0xfe);
    assert_eq!(&row(&writer, 24)[..2], &[0x01, 0xfe]);
}

#[test]
fn test_println_simple() {
    let mut writer = writer();
    assert_eq!(writer.write_str("test_println_simple output\n"), Ok(()));
    assert_eq!(&row(&writer, 23)[..27], b"test_println_simple output ");
    assert_eq!(writer.column(), 0);
}

#[test]
fn test_println_many() {
    let mut writer = writer();
    for _ in 0..200 {
        writer.write_string("test_println_many output\n");
    }
    assert_eq!(&row(&writer, 0)[..24], b"test_println_many output");
    assert_eq!(&row(&writer, 23)[..24], b"test_println_many output");
    assert_eq!(row(&writer, 24), vec![b' '; 80]);
}

#[test]
fn test_println_output() {
    let mut writer = writer();
    let s = "Some test string that fits on a single line";
    writer.write_string(s);
    writer.write_string("\n");
    for (i, c) in s.chars().enumerate() {
        let screen_char = writer.cells()[(25 - 2) * WIDTH + i];
        assert_eq!(char::from(screen_char.ascii_character), c);
    }
}
