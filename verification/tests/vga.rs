use kernul::vga_driver::{VgaScreen, BUFFER_HEIGHT, BUFFER_WIDTH, DEFAULT_STYLE};

fn assert_blank(screen: &VgaScreen, row: usize, col: usize) {
    let cell = screen.char_at(row, col);
    assert_eq!(cell.codepoint, b' ');
    assert_eq!(cell.style, DEFAULT_STYLE);
}

#[test]
fn fresh_screen_is_blank_with_cursor_at_origin() {
    let screen = VgaScreen::new();
    assert_eq!(screen.cursor_col(), 0);
    assert_eq!(screen.cursor_row(), 0);
    for row in 0..BUFFER_HEIGHT {
        for col in 0..BUFFER_WIDTH {
            assert_blank(&screen, row, col);
        }
    }
}

#[test]
fn printable_characters_are_written_and_advance_the_cursor() {
    let mut screen = VgaScreen::new();
    screen.write_str("Hi!");
    assert_eq!(screen.char_at(0, 0).codepoint, b'H');
    assert_eq!(screen.char_at(0, 1).codepoint, b'i');
    assert_eq!(screen.char_at(0, 2).codepoint, b'!');
    assert_eq!(screen.char_at(0, 0).style, DEFAULT_STYLE);
    assert_eq!(screen.cursor_col(), 3);
    assert_eq!(screen.cursor_row(), 0);
}

#[test]
fn full_width_line_wraps_to_next_row_start() {
    let mut screen = VgaScreen::new();
    let line: String = "x".repeat(BUFFER_WIDTH);
    screen.write_str(&line);
    // not (0, BUFFER_WIDTH): the cursor wraps
    assert_eq!(screen.cursor_row(), 1);
    assert_eq!(screen.cursor_col(), 0);
    screen.write_str(&line);
    assert_eq!(screen.cursor_row(), 2);
    assert_eq!(screen.cursor_col(), 0);
}

#[test]
fn newline_past_last_row_scrolls_first_line_away() {
    let mut screen = VgaScreen::new();
    let letters = "ABCDEFGHIJKLMNOPQRSTUVWXYZ";
    for i in 0..(BUFFER_HEIGHT + 1) {
        let line = format!("{}\n", &letters[i..i + 1]);
        screen.write_str(&line);
    }
    // the first two lines scrolled out
    for row in 0..BUFFER_HEIGHT {
        for col in 0..BUFFER_WIDTH {
            assert_ne!(screen.char_at(row, col).codepoint, b'A');
            assert_ne!(screen.char_at(row, col).codepoint, b'B');
        }
    }
    // the most recent line sits on the lowest row that still has content
    assert_eq!(screen.char_at(BUFFER_HEIGHT - 2, 0).codepoint, b'Z');
    assert_eq!(screen.char_at(0, 0).codepoint, b'C');
    for col in 0..BUFFER_WIDTH {
        assert_blank(&screen, BUFFER_HEIGHT - 1, col);
    }
    assert_eq!(screen.cursor_row(), BUFFER_HEIGHT - 1);
    assert_eq!(screen.cursor_col(), 0);
}

#[test]
fn printable_overflow_of_the_last_cell_scrolls_and_pins_the_row() {
    let mut screen = VgaScreen::new();
    let fill: String = "m".repeat(BUFFER_WIDTH * BUFFER_HEIGHT);
    screen.write_str(&fill);
    assert_eq!(screen.cursor_row(), BUFFER_HEIGHT - 1);
    assert_eq!(screen.cursor_col(), 0);
    assert_eq!(screen.char_at(0, 0).codepoint, b'm');
    for col in 0..BUFFER_WIDTH {
        assert_blank(&screen, BUFFER_HEIGHT - 1, col);
    }
}

#[test]
fn backspace_at_origin_changes_nothing() {
    let mut screen = VgaScreen::new();
    screen.write_str("\u{8}");
    assert_eq!(screen.cursor_col(), 0);
    assert_eq!(screen.cursor_row(), 0);
    for row in 0..BUFFER_HEIGHT {
        for col in 0..BUFFER_WIDTH {
            assert_blank(&screen, row, col);
        }
    }
}

#[test]
fn backspace_deletes_the_previous_character() {
    let mut screen = VgaScreen::new();
    screen.write_str("ok\u{8}");
    assert_eq!(screen.cursor_col(), 1);
    assert_eq!(screen.char_at(0, 0).codepoint, b'o');
    assert_blank(&screen, 0, 1);
}

#[test]
fn backspace_at_column_zero_wraps_to_previous_row_end() {
    let mut screen = VgaScreen::new();
    let line: String = "y".repeat(BUFFER_WIDTH);
    screen.write_str(&line);
    assert_eq!(screen.cursor_row(), 1);
    assert_eq!(screen.cursor_col(), 0);
    screen.write_str("\u{8}");
    assert_eq!(screen.cursor_row(), 0);
    assert_eq!(screen.cursor_col(), BUFFER_WIDTH - 1);
    assert_blank(&screen, 0, BUFFER_WIDTH - 1);
    assert_eq!(screen.char_at(0, BUFFER_WIDTH - 2).codepoint, b'y');
}

#[test]
fn tab_aligns_to_four_column_stops_and_blanks_skipped_cells() {
    let mut screen = VgaScreen::new();
    screen.write_str("ab\tZ");
    assert_eq!(screen.char_at(0, 4).codepoint, b'Z');
    assert_blank(&screen, 0, 2);
    assert_blank(&screen, 0, 3);
    assert_eq!(screen.cursor_col(), 5);
}

#[test]
fn tab_near_row_end_clamps_to_last_column() {
    let mut screen = VgaScreen::new();
    let prefix: String = "z".repeat(77);
    screen.write_str(&prefix);
    assert_eq!(screen.cursor_col(), 77);
    screen.write_str("\t");
    // clamped to 79, not the four-column stop at 80
    assert_eq!(screen.cursor_col(), BUFFER_WIDTH - 1);
    assert_eq!(screen.cursor_row(), 0);
    assert_blank(&screen, 0, 77);
    assert_blank(&screen, 0, 78);
}

#[test]
fn carriage_return_resets_only_the_column() {
    let mut screen = VgaScreen::new();
    screen.write_str("ab\rc");
    assert_eq!(screen.char_at(0, 0).codepoint, b'c');
    assert_eq!(screen.char_at(0, 1).codepoint, b'b');
    assert_eq!(screen.cursor_col(), 1);
    assert_eq!(screen.cursor_row(), 0);
}

#[test]
fn unrecognized_characters_are_ignored() {
    let mut screen = VgaScreen::new();
    screen.write_str("\u{1}\u{7f}é\u{1F600}");
    assert_eq!(screen.cursor_col(), 0);
    assert_eq!(screen.cursor_row(), 0);
    for col in 0..BUFFER_WIDTH {
        assert_blank(&screen, 0, col);
    }
}
