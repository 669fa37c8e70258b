use glyph_clock::buffer::ScrBuf;

fn rows(text: &str) -> Vec<String> {
    text.lines().map(|line| line.to_string()).collect()
}

#[test]
fn new_fills_every_cell_with_background() {
    let mut buf = ScrBuf::new(4, 2, '.');
    assert_eq!(buf.width, 4);
    assert_eq!(buf.height, 2);
    assert_eq!(buf.bg, '.');
    assert_eq!(buf.frames(), 0);
    assert!(buf.is_well_formed());
    assert_eq!(buf.render(), "....\n....\n");
}

#[test]
fn new_raises_zero_dimensions_to_one() {
    let mut buf = ScrBuf::new(0, 0, 'x');
    assert_eq!(buf.width, 1);
    assert_eq!(buf.height, 1);
    assert!(buf.is_well_formed());
    assert_eq!(buf.render(), "x\n");

    let mut tall = ScrBuf::new(0, 3, 'x');
    assert_eq!((tall.width, tall.height), (1, 3));
    assert_eq!(tall.render(), "x\nx\nx\n");

    let mut wide = ScrBuf::new(3, 0, 'x');
    assert_eq!((wide.width, wide.height), (3, 1));
    assert_eq!(wide.render(), "xxx\n");
}

#[test]
fn clear_then_render_is_all_background() {
    let mut buf = ScrBuf::new(5, 3, ' ');
    buf.blit(0, 1, "hello");
    buf.set_cell(2, 2, '!');
    buf.clear('#');
    assert_eq!(buf.bg, '#');
    assert_eq!((buf.width, buf.height), (5, 3));
    let text = buf.render();
    assert_eq!(text, "#####\n#####\n#####\n");
    assert_eq!(text.lines().count(), 3);
    assert!(text.lines().all(|line| line.chars().count() == 5 && line.chars().all(|c| c == '#')));
    assert!(text.ends_with('\n'));
}

#[test]
fn clear_keeps_the_frame_count() {
    let mut buf = ScrBuf::new(2, 2, ' ');
    buf.render();
    buf.clear('.');
    assert_eq!(buf.frames(), 1);
}

#[test]
fn set_cell_counts_rows_from_the_bottom() {
    let mut buf = ScrBuf::new(3, 2, '.');
    buf.set_cell(0, 0, 'a');
    assert_eq!(buf.render(), "...\na..\n");
    buf.set_cell(2, 1, 'b');
    assert_eq!(buf.render(), "..b\na..\n");
    buf.set_cell(0, 0, 'c');
    assert_eq!(buf.render(), "..b\nc..\n");
}

#[test]
fn blit_writes_from_the_column_on() {
    let mut buf = ScrBuf::new(10, 3, '.');
    buf.blit(2, 1, "abc");
    assert_eq!(buf.render(), "..........\n..abc.....\n..........\n");
}

#[test]
fn blit_drops_what_runs_off_the_right_edge() {
    let mut buf = ScrBuf::new(10, 2, '.');
    buf.blit(8, 0, "abc");
    let text = buf.render();
    assert_eq!(text, "..........\n........ab\n");
    let bottom: Vec<char> = rows(&text)[1].chars().collect();
    assert_eq!(bottom.len(), 10);
    assert_eq!(bottom[8], 'a');
    assert_eq!(bottom[9], 'b');
    assert!(!text.contains('c'));
    assert!(buf.is_well_formed());
}

#[test]
fn blit_at_or_beyond_the_width_writes_nothing() {
    let mut buf = ScrBuf::new(4, 1, '.');
    buf.blit(4, 0, "abc");
    assert_eq!(buf.render(), "....\n");
    buf.blit(usize::MAX, 0, "abc");
    assert_eq!(buf.render(), "....\n");
}

#[test]
fn blit_of_empty_text_writes_nothing() {
    let mut buf = ScrBuf::new(4, 1, '.');
    buf.blit(1, 0, "");
    assert_eq!(buf.render(), "....\n");
}

#[test]
fn blit_overwrites_with_spaces_too() {
    let mut buf = ScrBuf::new(5, 1, '#');
    buf.blit(1, 0, "a b");
    assert_eq!(buf.render(), "#a b#\n");
    buf.blit(1, 0, "   ");
    assert_eq!(buf.render(), "#   #\n");
}

#[test]
fn blit_counts_characters_not_bytes() {
    let mut buf = ScrBuf::new(5, 1, '.');
    buf.blit(1, 0, "┌─┐");
    assert_eq!(buf.render(), ".┌─┐.\n");
    buf.blit(3, 0, "╶─┤");
    assert_eq!(buf.render(), ".┌─╶─\n");
}

#[test]
fn r_blit_ends_just_left_of_the_column() {
    let mut buf = ScrBuf::new(10, 1, '.');
    buf.r_blit(5, 0, "abc");
    assert_eq!(buf.render(), "..abc.....\n");
}

#[test]
fn r_blit_may_start_at_the_left_edge() {
    let mut buf = ScrBuf::new(10, 1, '.');
    buf.r_blit(3, 0, "abc");
    assert_eq!(buf.render(), "abc.......\n");
    buf.r_blit(0, 0, "");
    assert_eq!(buf.render(), "abc.......\n");
}

#[test]
fn r_blit_drops_what_runs_off_the_right_edge() {
    let mut buf = ScrBuf::new(10, 2, '.');
    buf.r_blit(12, 1, "abc");
    assert_eq!(buf.render(), ".........a\n..........\n");
    buf.r_blit(20, 1, "xyz");
    assert_eq!(buf.render(), ".........a\n..........\n");
}

#[test]
fn blit_lines_puts_line_zero_on_top() {
    let glyph = vec!["A".to_string(), "B".to_string(), "C".to_string()];
    let mut buf = ScrBuf::new(1, 5, '.');
    buf.blit_lines(0, 0, &glyph);
    let text = buf.render();
    assert_eq!(text, ".\n.\nA\nB\nC\n");
    let lines = rows(&text);
    let row_of = |s: &str| lines.iter().position(|line| line == s).unwrap();
    assert!(row_of("A") < row_of("B"));
    assert!(row_of("B") < row_of("C"));
    assert_eq!(row_of("C"), 4);
}

#[test]
fn blit_lines_moves_up_as_y_grows() {
    let glyph = vec!["A".to_string(), "B".to_string(), "C".to_string()];
    let mut buf = ScrBuf::new(1, 5, '.');
    buf.blit_lines(0, 1, &glyph);
    assert_eq!(buf.render(), ".\nA\nB\nC\n.\n");
    buf.clear('.');
    buf.blit_lines(0, 2, &glyph);
    assert_eq!(buf.render(), "A\nB\nC\n.\n.\n");
}

#[test]
fn blit_lines_clips_each_line_at_the_right_edge() {
    let glyph = vec!["ab".to_string(), "cd".to_string()];
    let mut buf = ScrBuf::new(3, 3, '.');
    buf.blit_lines(2, 0, &glyph);
    assert_eq!(buf.render(), "...\n..a\n..c\n");
    buf.blit_lines(1, 1, &glyph);
    assert_eq!(buf.render(), ".ab\n.cd\n..c\n");
    buf.blit_lines(3, 0, &glyph);
    assert_eq!(buf.render(), ".ab\n.cd\n..c\n");
}

#[test]
fn blit_lines_without_lines_writes_nothing() {
    let glyph: Vec<String> = Vec::new();
    let mut buf = ScrBuf::new(2, 2, '.');
    buf.blit_lines(0, 0, &glyph);
    buf.blit_lines(0, 2, &glyph);
    assert_eq!(buf.render(), "..\n..\n");
}

#[test]
fn blit_lines_writes_blank_lines_over_old_content() {
    let mut buf = ScrBuf::new(3, 2, '#');
    buf.blit_lines(0, 0, &vec!["   ".to_string(), " x ".to_string()]);
    assert_eq!(buf.render(), "   \n x \n");
}

#[test]
fn render_twice_gives_the_same_text_and_counts_two_frames() {
    let mut buf = ScrBuf::new(6, 3, ' ');
    buf.blit(1, 1, "tick");
    let before = buf.frames();
    let first = buf.render();
    let second = buf.render();
    assert_eq!(first, second);
    assert_eq!(first, "      \n tick \n      \n");
    assert_eq!(buf.frames(), before + 2);
}

#[test]
fn render_joins_rows_with_newlines() {
    let mut buf = ScrBuf::new(2, 3, '.');
    buf.set_cell(0, 2, '1');
    buf.set_cell(0, 1, '2');
    buf.set_cell(0, 0, '3');
    let text = buf.render();
    assert_eq!(text, "1.\n2.\n3.\n");
    assert_eq!(text.chars().count(), 3 * (2 + 1));
    assert_eq!(buf.frames(), 1);
    assert_eq!(buf.rendered_frames, 1);
}

#[test]
fn a_buffer_with_a_wrong_width_is_not_well_formed() {
    let mut buf = ScrBuf::new(3, 2, '.');
    assert!(buf.is_well_formed());
    buf.width = 4;
    assert!(!buf.is_well_formed());
    buf.width = 3;
    buf.height = 5;
    assert!(!buf.is_well_formed());
    buf.height = 2;
    assert!(buf.is_well_formed());
    buf.lines[1].push('x');
    assert!(!buf.is_well_formed());
}
