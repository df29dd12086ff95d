use maschine_library::display::{render_screen_text, render_scroll_frame, scroll_frame_count};
use maschine_library::font::{glyph_index_of, Font};
use maschine_library::screen::{Screen, HEIGHT, WIDTH};

fn lit_count(s: &Screen) -> usize {
    let mut n = 0;
    for r in 0..HEIGHT {
        for c in 0..WIDTH {
            if s.get(r, c) {
                n += 1;
            }
        }
    }
    n
}

#[test]
fn new_screen_is_blank() {
    let s = Screen::new();
    assert_eq!(lit_count(&s), 0);
    let (hi, lo) = s.transactions();
    assert_eq!(hi.len(), 265);
    assert_eq!(lo.len(), 265);
    assert!(hi[9..].iter().all(|b| *b == 0xff));
}

#[test]
fn set_and_get_pixel() {
    let mut s = Screen::new();
    s.set(13, 70, true);
    assert!(s.get(13, 70));
    assert!(!s.get(12, 70));
    assert!(!s.get(13, 71));
    assert_eq!(lit_count(&s), 1);
    s.set(13, 70, false);
    assert_eq!(lit_count(&s), 0);
}

#[test]
fn pixel_is_a_clear_bit_in_its_byte() {
    let mut s = Screen::new();
    // row 9 is bit 1 of chunk 1; column 3 -> byte 128 + 3, in the upper half
    s.set(9, 3, true);
    let (hi, lo) = s.transactions();
    assert_eq!(hi[9 + 131], 0xff & !0x02);
    assert!(lo[9..].iter().all(|b| *b == 0xff));
    // row 20 is in chunk 2, the lower half
    s.set(20, 0, true);
    let (_, lo) = s.transactions();
    assert_eq!(lo[9], 0xff & !(1 << 4));
}

#[test]
fn transaction_headers() {
    let s = Screen::new();
    let (hi, lo) = s.transactions();
    assert_eq!(&hi[..9], &[0xe0, 0x00, 0x00, 0x00, 0x00, 0x80, 0x00, 0x02, 0x00]);
    assert_eq!(&lo[..9], &[0xe0, 0x00, 0x00, 0x02, 0x00, 0x80, 0x00, 0x02, 0x00]);
}

#[test]
fn reset_blanks_screen() {
    let mut s = Screen::new();
    Font::write_str(&mut s, 0, 0, "LAVA", 4);
    assert!(lit_count(&s) > 0);
    s.reset();
    assert_eq!(lit_count(&s), 0);
}

#[test]
fn digit_one_glyph_bits() {
    let mut s = Screen::new();
    Font::write_digit(&mut s, 0, 0, 1, 1);
    // "     xx " then "  xxxxxx" on the last row
    let row0: Vec<bool> = (0..8).map(|c| s.get(0, c)).collect();
    assert_eq!(row0, vec![false, false, false, false, false, true, true, false]);
    let row7: Vec<bool> = (0..8).map(|c| s.get(7, c)).collect();
    assert_eq!(row7, vec![false, false, true, true, true, true, true, true]);
    assert!(!s.get(8, 5));
}

#[test]
fn glyph_scales_to_squares() {
    let mut s = Screen::new();
    Font::write_digit(&mut s, 0, 0, 1, 2);
    // glyph pixel (0, 5) becomes the square rows 0..2, columns 10..12
    assert!(s.get(0, 10) && s.get(0, 11) && s.get(1, 10) && s.get(1, 11));
    assert!(!s.get(0, 9));
    assert!(!s.get(0, 14));
}

#[test]
fn letters_ignore_case_and_unknown_chars_are_skipped() {
    let mut a = Screen::new();
    let mut b = Screen::new();
    Font::write_char(&mut a, 0, 0, 'k', 1);
    Font::write_char(&mut b, 0, 0, 'K', 1);
    assert_eq!(a.transactions(), b.transactions());
    let mut c = Screen::new();
    Font::write_char(&mut c, 0, 0, '#', 1);
    assert_eq!(lit_count(&c), 0);
    assert_eq!(glyph_index_of('0'), Some(0));
    assert_eq!(glyph_index_of('z'), Some(35));
    assert_eq!(glyph_index_of(' '), None);
}

#[test]
fn text_cells_are_eight_columns_apart() {
    let mut a = Screen::new();
    Font::write_str(&mut a, 0, 0, "11", 1);
    assert!(a.get(0, 5) && a.get(0, 13));
    let mut b = Screen::new();
    Font::write_str(&mut b, 0, 0, "1 1", 1);
    assert!(b.get(0, 5) && !b.get(0, 13) && b.get(0, 21));
}

#[test]
fn drawing_is_clipped_at_the_edges() {
    let mut s = Screen::new();
    Font::write_str(&mut s, 28, 124, "88888888888888888888888888888888888", 1);
    let mut t = Screen::new();
    Font::write_char(&mut t, 28, 124, '8', 1);
    assert_eq!(s.transactions(), t.transactions());
    Font::write_str(&mut s, 40, 0, "8", 1);
    assert_eq!(s.transactions(), t.transactions());
}

#[test]
fn short_text_is_centred_glyph_for_glyph() {
    let mut s = Screen::new();
    render_screen_text(&mut s, "1");
    // one cell of 8 columns centred on 128 starts at column 60
    let mut expect = Screen::new();
    Font::write_digit(&mut expect, 12, 60, 1, 1);
    assert_eq!(s.transactions(), expect.transactions());
    assert!(s.get(12, 65) && s.get(12, 66) && !s.get(12, 64));

    let mut t = Screen::new();
    render_screen_text(&mut t, "AB12");
    let mut expect = Screen::new();
    Font::write_str(&mut expect, 12, 48, "AB12", 1);
    assert_eq!(t.transactions(), expect.transactions());
}

#[test]
fn render_clears_what_was_there() {
    let mut s = Screen::new();
    s.set(0, 0, true);
    render_screen_text(&mut s, "");
    assert_eq!(lit_count(&s), 0);
}

#[test]
fn long_text_starts_at_column_zero() {
    let mut s = Screen::new();
    render_screen_text(&mut s, "ABCDEFGHIJKLMNOPQ");
    let mut expect = Screen::new();
    Font::write_str(&mut expect, 12, 0, "ABCDEFGHIJKLMNOP", 1);
    assert_eq!(s.transactions(), expect.transactions());
}

#[test]
fn scroll_frames_move_left_one_column_each() {
    assert_eq!(scroll_frame_count(5), 168);
    let mut s = Screen::new();
    render_scroll_frame(&mut s, "HELLO", 0);
    assert_eq!(lit_count(&s), 0);
    render_scroll_frame(&mut s, "HELLO", 10);
    // 'H' starts at column 118, 'E' at 126 and shows its first two columns
    let mut expect = Screen::new();
    Font::write_str(&mut expect, 12, 118, "HELLO", 1);
    assert_eq!(s.transactions(), expect.transactions());
    render_scroll_frame(&mut s, "HELLO", 130);
    // 'H' starts at column -2 and shows its last six columns; 'E' starts at 6
    let mut expect = Screen::new();
    Font::write_char_left(&mut expect, 12, 2, 'H');
    Font::write_str(&mut expect, 12, 6, "ELLO", 1);
    assert_eq!(s.transactions(), expect.transactions());
    render_scroll_frame(&mut s, "HELLO", 168);
    assert_eq!(lit_count(&s), 0);
}

#[test]
fn glyph_partly_off_the_left_edge_is_drawn() {
    let mut s = Screen::new();
    // '1' starts at column -1: its inked glyph column 5 lands on column 4
    render_scroll_frame(&mut s, "12345", 129);
    assert!(s.get(12, 4));
    assert!(s.get(12, 5));
    assert!(!s.get(12, 3));
    let mut t = Screen::new();
    Font::write_char_left(&mut t, 0, 5, '1');
    // "     xx " without its first five columns
    assert!(t.get(0, 0) && t.get(0, 1) && !t.get(0, 2));
}
