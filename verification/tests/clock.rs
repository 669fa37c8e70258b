use glyph_clock::buffer::ScrBuf;
use glyph_clock::clock::{
    delim, digit, draw_frame, face_of, numeral, paint_symbols, paint_time, Symbol, TimeSnapshot,
    FACE_GLYPHS,
};
use glyph_clock::counter::Counter;
use glyph_clock::symbols::Symbols;

fn padded(pieces: &[&str], width: usize) -> String {
    let mut line = pieces.concat();
    while line.chars().count() < width {
        line.push(' ');
    }
    line.push('\n');
    line
}

#[test]
fn digit_extracts_decimal_places() {
    assert_eq!(digit(10, 0, 1234), 4);
    assert_eq!(digit(10, 1, 1234), 3);
    assert_eq!(digit(10, 2, 1234), 2);
    assert_eq!(digit(10, 3, 1234), 1);
    assert_eq!(digit(10, 4, 1234), 0);
    assert_eq!(digit(10, 0, 0), 0);
    assert_eq!(digit(10, 1, 7), 0);
    assert_eq!(digit(10, 1, 59), 5);
    assert_eq!(digit(10, 2, 999), 9);
}

#[test]
fn digit_works_in_other_bases() {
    assert_eq!(digit(2, 0, 0b1010), 0);
    assert_eq!(digit(2, 1, 0b1010), 1);
    assert_eq!(digit(2, 3, 0b1010), 1);
    assert_eq!(digit(16, 1, 0xAB), 0xA);
    assert_eq!(digit(60, 1, 3725), 2);
    assert_eq!(digit(1, 0, 7), 0);
    assert_eq!(digit(1, 5, 7), 0);
}

#[test]
fn digit_beyond_the_number_is_zero() {
    assert_eq!(digit(10, 30, usize::MAX), 0);
    assert_eq!(digit(2, isize::MAX, usize::MAX), 0);
    assert_eq!(digit(1, isize::MAX, usize::MAX), 0);
    assert_eq!(digit(usize::MAX, 1, usize::MAX), 1);
    assert_eq!(digit(usize::MAX, 0, usize::MAX), 0);
    assert_eq!(digit(10, 19, 10_000_000_000_000_000_000), 1);
}

#[test]
fn numeral_stands_on_its_row() {
    let symbols = Symbols::compact();
    let mut buf = ScrBuf::new(4, 4, '.');
    numeral(&mut buf, 4, 1, 0, &symbols);
    assert_eq!(buf.render(), "....\n.╷╷.\n.└┤.\n. ╵.\n");
    buf.clear('.');
    numeral(&mut buf, 14, 2, 1, &symbols);
    assert_eq!(buf.render(), "..╷╷\n..└┤\n.. ╵\n....\n");
}

#[test]
fn numeral_is_clipped_at_the_right_edge() {
    let symbols = Symbols::normal();
    let mut buf = ScrBuf::new(4, 5, '.');
    numeral(&mut buf, 8, 2, 0, &symbols);
    assert_eq!(buf.render(), "..┌─\n..│ \n..├─\n..│ \n..└─\n");
    numeral(&mut buf, 8, 4, 0, &symbols);
    assert_eq!(buf.render(), "..┌─\n..│ \n..├─\n..│ \n..└─\n");
}

#[test]
fn delim_stands_on_its_row() {
    let symbols = Symbols::compact();
    let mut buf = ScrBuf::new(3, 3, '#');
    delim(&mut buf, ':', 0, 0, &symbols);
    assert_eq!(buf.render(), "  #\n :#\n  #\n");
    delim(&mut buf, '.', 1, 0, &symbols);
    assert_eq!(buf.render(), "   \n   \n  •\n");
    delim(&mut buf, '?', 0, 0, &symbols);
    assert_eq!(buf.render(), "   \n   \n  •\n");
}

#[test]
fn glyphs_side_by_side_fill_the_bottom_rows() {
    let symbols = Symbols::normal();
    let mut buf = ScrBuf::new(50, 10, ' ');
    let mut x_cursor = Counter::in_steps(0, symbols.width as isize);
    numeral(&mut buf, 1, x_cursor.next(), 0, &symbols);
    numeral(&mut buf, 2, x_cursor.next(), 0, &symbols);
    delim(&mut buf, ':', x_cursor.next(), 0, &symbols);
    numeral(&mut buf, 3, x_cursor.next(), 0, &symbols);
    numeral(&mut buf, 4, x_cursor.next(), 0, &symbols);
    delim(&mut buf, ':', x_cursor.next(), 0, &symbols);
    numeral(&mut buf, 5, x_cursor.next(), 0, &symbols);
    numeral(&mut buf, 6, x_cursor.next(), 0, &symbols);
    delim(&mut buf, '.', x_cursor.next(), 0, &symbols);
    assert_eq!(x_cursor.next(), 27);

    let mut expected = String::new();
    for _ in 0..5 {
        expected += &padded(&[], 50);
    }
    expected += &padded(&[" ┐ ", "╶─┐", "   ", "╶─┐", "╷ ╷", "   ", "┌─╴", "┌─╴", "   "], 50);
    expected += &padded(&[" │ ", "  │", " • ", "  │", "│ │", " • ", "│  ", "│  ", "   "], 50);
    expected += &padded(&[" │ ", "┌─┘", "   ", "╶─┤", "└─┤", "   ", "└─┐", "├─┐", "   "], 50);
    expected += &padded(&[" │ ", "│  ", " • ", "  │", "  │", " • ", "  │", "│ │", "   "], 50);
    expected += &padded(&[" ┴ ", "└─╴", "   ", "╶─┘", "  ╵", "   ", "╶─┘", "└─┘", " • "], 50);

    let text = buf.render();
    assert_eq!(text, expected);
    let lines: Vec<&str> = text.lines().collect();
    assert_eq!(lines.len(), 10);
    for line in &lines[..5] {
        assert!(line.chars().all(|c| c == ' '));
        assert_eq!(line.chars().count(), 50);
    }
    assert!(lines[5].starts_with(" ┐ ╶─┐   ╶─┐╷ ╷"));
    assert!(lines[9].starts_with(" ┴ └─╴   ╶─┘  ╵"));
}

#[test]
fn paint_symbols_lays_glyphs_out_left_to_right() {
    let symbols = Symbols::normal();
    let mut buf = ScrBuf::new(50, 10, ' ');
    let signs = vec![
        Symbol::Digit(1),
        Symbol::Digit(2),
        Symbol::Delimiter(':'),
        Symbol::Digit(3),
        Symbol::Digit(4),
        Symbol::Delimiter('.'),
        Symbol::Digit(5),
        Symbol::Digit(6),
    ];
    paint_symbols(&mut buf, &symbols, &signs, 0);

    let mut expected = String::new();
    for _ in 0..5 {
        expected += &padded(&[], 50);
    }
    expected += &padded(&[" ┐ ", "╶─┐", "   ", "╶─┐", "╷ ╷", "   ", "┌─╴", "┌─╴"], 50);
    expected += &padded(&[" │ ", "  │", " • ", "  │", "│ │", "   ", "│  ", "│  "], 50);
    expected += &padded(&[" │ ", "┌─┘", "   ", "╶─┤", "└─┤", "   ", "└─┐", "├─┐"], 50);
    expected += &padded(&[" │ ", "│  ", " • ", "  │", "  │", "   ", "  │", "│ │"], 50);
    expected += &padded(&[" ┴ ", "└─╴", "   ", "╶─┘", "  ╵", " • ", "╶─┘", "└─┘"], 50);
    assert_eq!(buf.render(), expected);
}

#[test]
fn paint_symbols_stands_on_the_given_row() {
    let symbols = Symbols::compact();
    let mut buf = ScrBuf::new(7, 5, '.');
    let signs = vec![Symbol::Digit(14), Symbol::Delimiter(':'), Symbol::Digit(2)];
    paint_symbols(&mut buf, &symbols, &signs, 1);
    assert_eq!(buf.render(), ".......\n╷╷  ╶┐.\n└┤ :┌┘.\n ╵  └╴.\n.......\n");
    paint_symbols(&mut buf, &symbols, &Vec::new(), 0);
    assert_eq!(buf.render(), ".......\n╷╷  ╶┐.\n└┤ :┌┘.\n ╵  └╴.\n.......\n");
}

#[test]
fn face_of_lists_the_signs_of_a_time() {
    let now = TimeSnapshot { hour: 12, minute: 34, second: 56, milli: 789 };
    assert_eq!(
        face_of(&now),
        vec![
            Symbol::Digit(1),
            Symbol::Digit(2),
            Symbol::Delimiter(':'),
            Symbol::Digit(3),
            Symbol::Digit(4),
            Symbol::Delimiter(':'),
            Symbol::Digit(5),
            Symbol::Digit(6),
            Symbol::Delimiter('.'),
            Symbol::Digit(7),
            Symbol::Digit(8),
        ]
    );
    let midnight = TimeSnapshot { hour: 0, minute: 0, second: 0, milli: 5 };
    let face = face_of(&midnight);
    assert_eq!(face.len(), FACE_GLYPHS);
    assert_eq!(face[0], Symbol::Digit(0));
    assert_eq!(face[9], Symbol::Digit(0));
    assert_eq!(face[10], Symbol::Digit(0));
}

#[test]
fn paint_time_writes_the_face_along_the_bottom() {
    let symbols = Symbols::normal();
    let mut buf = ScrBuf::new(50, 10, ' ');
    let now = TimeSnapshot { hour: 12, minute: 34, second: 56, milli: 789 };
    paint_time(&mut buf, &symbols, &now);

    let mut expected = String::new();
    for _ in 0..5 {
        expected += &padded(&[], 50);
    }
    expected += &padded(
        &[" ┐ ", "╶─┐", "   ", "╶─┐", "╷ ╷", "   ", "┌─╴", "┌─╴", "   ", "╶─┐", "┌─┐"],
        50,
    );
    expected += &padded(
        &[" │ ", "  │", " • ", "  │", "│ │", " • ", "│  ", "│  ", "   ", "  │", "│ │"],
        50,
    );
    expected += &padded(
        &[" │ ", "┌─┘", "   ", "╶─┤", "└─┤", "   ", "└─┐", "├─┐", "   ", "  │", "├─┤"],
        50,
    );
    expected += &padded(
        &[" │ ", "│  ", " • ", "  │", "  │", " • ", "  │", "│ │", "   ", "  │", "│ │"],
        50,
    );
    expected += &padded(
        &[" ┴ ", "└─╴", "   ", "╶─┘", "  ╵", "   ", "╶─┘", "└─┘", " • ", "  ╵", "└─┘"],
        50,
    );
    assert_eq!(buf.render(), expected);
    assert_eq!(FACE_GLYPHS, 11);
}

#[test]
fn paint_time_leaves_the_rest_of_the_buffer() {
    let symbols = Symbols::compact();
    let mut buf = ScrBuf::new(24, 4, '#');
    let now = TimeSnapshot { hour: 9, minute: 5, second: 0, milli: 42 };
    paint_time(&mut buf, &symbols, &now);
    let mut expected = String::new();
    expected += "########################\n";
    expected += "┌┐┌┐  ┌┐┌╴  ┌┐┌┐  ┌┐╷╷##\n";
    expected += "││└┤ :││└┐ :││││  ││└┤##\n";
    expected += "└┘╶┘  └┘╶┘  └┘└┘ •└┘ ╵##\n";
    assert_eq!(buf.render(), expected);
    assert_eq!(buf.bg, '#');
}

#[test]
fn paint_time_is_clipped_by_a_narrow_buffer() {
    let symbols = Symbols::compact();
    let mut buf = ScrBuf::new(5, 3, '#');
    let now = TimeSnapshot { hour: 23, minute: 59, second: 59, milli: 999 };
    paint_time(&mut buf, &symbols, &now);
    assert_eq!(buf.render(), "╶┐╶┐ \n┌┘╶┤ \n└╴╶┘ \n");
}

#[test]
fn draw_frame_clears_paints_and_renders() {
    let symbols = Symbols::compact();
    let mut buf = ScrBuf::new(24, 4, '#');
    buf.blit(0, 3, "left over from before");
    let now = TimeSnapshot { hour: 9, minute: 5, second: 0, milli: 42 };
    let text = draw_frame(&mut buf, &symbols, &now);
    let mut expected = String::new();
    expected += "                        \n";
    expected += "┌┐┌┐  ┌┐┌╴  ┌┐┌┐  ┌┐╷╷  \n";
    expected += "││└┤ :││└┐ :││││  ││└┤  \n";
    expected += "└┘╶┘  └┘╶┘  └┘└┘ •└┘ ╵  \n";
    assert_eq!(text, expected);
    assert_eq!(buf.bg, ' ');
    assert_eq!(buf.frames(), 1);
    let later = TimeSnapshot { hour: 9, minute: 5, second: 1, milli: 42 };
    let next = draw_frame(&mut buf, &symbols, &later);
    assert_ne!(next, text);
    assert_eq!(buf.frames(), 2);
    assert_eq!(draw_frame(&mut buf, &symbols, &now), text);
}
