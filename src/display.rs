use vstd::prelude::*;
use vstd::string::*;
use crate::font::{char_drawn, glyph_index, glyph_pixel, text_drawn, Font};
use crate::screen::{on_screen, Screen, WIDTH};

verus! {

/// Row of the top of rendered text.
pub const TEXT_ROW: usize = 12;

/// Width of one character cell at scale 1.
pub const CHAR_WIDTH: usize = 8;

/// Longest text that is shown still; longer text scrolls.
pub const STATIC_TEXT_MAX: usize = 4;

/// First column of a text of `n` characters centred on the display; a text
/// as wide as the display or wider starts at column 0.
pub open spec fn centered_start(n: int) -> int {
    if 8 * n < WIDTH {
        (WIDTH - 8 * n) / 2
    } else {
        0
    }
}

/// Pixel `(r, c)` of a blank display with `text` drawn centred on it.
pub open spec fn rendered_pixel(text: Seq<char>, r: int, c: int) -> bool {
    text_drawn(text, TEXT_ROW as int, centered_start(text.len() as int), 1, r, c, false)
}

/// Clears the display and draws `text` centred at scale 1.
pub fn render_screen_text(screen: &mut Screen, text: &str)
    requires
        old(screen).wf(),
    ensures
        final(screen).wf(),
        forall|r: int, c: int|
            on_screen(r, c) ==> #[trigger] final(screen).lit(r, c) == rendered_pixel(text@, r, c),
{
    screen.reset();
    let n = text.unicode_len();
    let x_start: usize = if n < WIDTH / CHAR_WIDTH {
        (WIDTH - n * CHAR_WIDTH) / 2
    } else {
        0
    };
    Font::write_str(screen, TEXT_ROW, x_start, text, 1);
}

/// Number of frames of a scrolling text of `n` characters: from just off the
/// right edge until just off the left edge, one column per frame.
pub open spec fn scroll_frames(n: int) -> int {
    WIDTH + 8 * n
}

/// Number of frames of a scrolling text of `n` characters.
pub fn scroll_frame_count(n: usize) -> (r: usize)
    requires
        n <= (usize::MAX - WIDTH) / 8,
    ensures
        r == scroll_frames(n as int),
{
    WIDTH + CHAR_WIDTH * n
}

/// Cell of the scrolling text that holds column `c` in frame `offset`.
pub open spec fn scroll_cell(offset: int, c: int) -> int {
    (c - (WIDTH - offset)) / 8
}

/// Pixel `(r, c)` of frame `offset` of a scrolling text: every character
/// whose cell overlaps the display is drawn, clipped at both edges.
pub open spec fn scroll_pixel(text: Seq<char>, offset: int, r: int, c: int) -> bool {
    let k = scroll_cell(offset, c);
    let cx = WIDTH - offset + 8 * k;
    if 0 <= k < text.len() {
        char_drawn(text[k], TEXT_ROW as int, cx, 1, r, c, false)
    } else {
        false
    }
}

proof fn lemma_scroll_cell(c: int, base: int, i: int)
    ensures
        ((c - base) / 8 == i) <==> (base + 8 * i <= c < base + 8 * i + 8),
{
    let q = (c - base) / 8;
    assert(8 * q <= c - base < 8 * q + 8);
    if q < i {
        assert(8 * q + 8 <= 8 * i);
    }
    if q > i {
        assert(8 * i + 8 <= 8 * q);
    }
}

/// Clears the display and draws frame `offset` of `text` scrolling right to
/// left: character `i` starts at column `128 - offset + 8 * i`, and each
/// character is drawn in the columns where it is on the display.
pub fn render_scroll_frame(screen: &mut Screen, text: &str, offset: usize)
    requires
        old(screen).wf(),
    ensures
        final(screen).wf(),
        forall|r: int, c: int|
            on_screen(r, c) ==> #[trigger] final(screen).lit(r, c) == scroll_pixel(
                text@,
                offset as int,
                r,
                c,
            ),
{
    screen.reset();
    let n = text.unicode_len();
    let mut i: usize = 0;
    let mut left: usize = 0;
    while i < n
        invariant_except_break
            left == 8 * i,
        invariant
            n == text@.len(),
            i <= n,
            screen.wf(),
            forall|r: int, c: int|
                on_screen(r, c) ==> #[trigger] screen.lit(r, c) == (scroll_cell(offset as int, c)
                    < i && scroll_pixel(text@, offset as int, r, c)),
        ensures
            screen.wf(),
            forall|r: int, c: int|
                on_screen(r, c) ==> #[trigger] screen.lit(r, c) == scroll_pixel(
                    text@,
                    offset as int,
                    r,
                    c,
                ),
        decreases n - i,
    {
        if left >= offset {
            proof {
                assert forall|r: int, c: int|
                    on_screen(r, c) && scroll_pixel(text@, offset as int, r, c) implies scroll_cell(
                    offset as int,
                    c,
                ) < i by {
                    lemma_scroll_cell(c, WIDTH - offset, i as int);
                }
            }
            break;
        }
        let ch = text.get_char(i);
        if offset - left <= WIDTH {
            let x: usize = WIDTH - (offset - left);
            Font::write_char(screen, TEXT_ROW, x, ch, 1);
        } else if offset - left < WIDTH + CHAR_WIDTH {
            let skip: usize = offset - left - WIDTH;
            Font::write_char_left(screen, TEXT_ROW, skip, ch);
        }
        proof {
            assert forall|r: int, c: int| on_screen(r, c) implies #[trigger] screen.lit(r, c) == (
            scroll_cell(offset as int, c) < i + 1 && scroll_pixel(text@, offset as int, r, c)) by {
                lemma_scroll_cell(c, WIDTH - offset, i as int);
                let base = WIDTH - offset + 8 * i;
                if base <= c < base + 8 {
                    assert(scroll_cell(offset as int, c) == i);
                }
            }
        }
        if offset - left <= CHAR_WIDTH {
            proof {
                assert forall|r: int, c: int|
                    on_screen(r, c) && scroll_pixel(text@, offset as int, r, c) implies scroll_cell(
                    offset as int,
                    c,
                ) < i + 1 by {
                    lemma_scroll_cell(c, WIDTH - offset, i + 1);
                }
            }
            i = i + 1;
            break;
        }
        left = left + CHAR_WIDTH;
        i = i + 1;
    }
}

/// Text of at most four characters, rendered and read back pixel by pixel,
/// is its glyphs side by side, centred: inside the block each pixel is the
/// glyph table's bit for its character (nothing for a character without a
/// glyph), and outside the block nothing is lit.
pub proof fn lemma_short_text_round_trip(text: Seq<char>, r: int, c: int)
    requires
        text.len() <= STATIC_TEXT_MAX,
        on_screen(r, c),
    ensures
        ({
            let x0 = (WIDTH - 8 * text.len()) / 2;
            rendered_pixel(text, r, c) == (TEXT_ROW <= r < TEXT_ROW + 8 && x0 <= c < x0 + 8
                * text.len() && match glyph_index(text[(c - x0) / 8]) {
                Some(g) => glyph_pixel(g, r - TEXT_ROW, (c - x0) % 8),
                None => false,
            })
        }),
{
    let n = text.len() as int;
    let x0 = (WIDTH - 8 * n) / 2;
    assert(centered_start(n) == x0);
    if x0 <= c {
        let k = (c - x0) / 8;
        let m = (c - x0) % 8;
        assert(c - x0 == 8 * k + m && 0 <= m < 8 && k >= 0) by (nonlinear_arith)
            requires
                k == (c - x0) / 8,
                m == (c - x0) % 8,
                c - x0 >= 0,
        ;
        assert((c - x0) / (8 * 1int) == k);
        assert(k < n <==> c < x0 + 8 * n);
        assert((r - TEXT_ROW) / 1int == r - TEXT_ROW);
        assert((c - (x0 + 8 * 1int * k)) / 1int == m);
    }
}

} // verus!
