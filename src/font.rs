use vstd::prelude::*;
use vstd::string::*;
use crate::screen::{Screen, on_screen, HEIGHT, WIDTH};

verus! {

/// Number of glyphs in the table: ten digits, then the letters A to Z.
pub const GLYPH_COUNT: usize = 36;

/// Side of a glyph in pixels, before scaling.
pub const GLYPH_SIZE: usize = 8;

/// The glyph table. Each glyph is an 8x8 bit matrix packed row by row into a
/// word, the top-left pixel in the most significant bit.
pub open spec fn glyph_word(g: int) -> u64 {
    if g == 0 {
        0x1c2241414141221cu64  // 0
    } else if g == 1 {
        0x06060a320202023fu64  // 1
    } else if g == 2 {
        0x1e4141020820407fu64  // 2
    } else if g == 3 {
        0x3e41021e0101423cu64  // 3
    } else if g == 4 {
        0x414141433d010101u64  // 4
    } else if g == 5 {
        0x7f40407e0101017eu64  // 5
    } else if g == 6 {
        0x3e41405c6341413eu64  // 6
    } else if g == 7 {
        0x7f01010204081020u64  // 7
    } else if g == 8 {
        0x3e41413e4141413eu64  // 8
    } else if g == 9 {
        0x3e4141413f01413eu64  // 9
    } else if g == 10 {
        0x182442427e424242u64  // A
    } else if g == 11 {
        0x7c42427c4242427cu64  // B
    } else if g == 12 {
        0x3c4240404040423cu64  // C
    } else if g == 13 {
        0x7844424242424478u64  // D
    } else if g == 14 {
        0x7e40407c4040407eu64  // E
    } else if g == 15 {
        0x7e40407c40404040u64  // F
    } else if g == 16 {
        0x3c4240404e42423cu64  // G
    } else if g == 17 {
        0x4242427e42424242u64  // H
    } else if g == 18 {
        0x3e0808080808083eu64  // I
    } else if g == 19 {
        0x1e04040404444438u64  // J
    } else if g == 20 {
        0x4244487048444242u64  // K
    } else if g == 21 {
        0x404040404040407eu64  // L
    } else if g == 22 {
        0x42665a4242424242u64  // M
    } else if g == 23 {
        0x4262524a46424242u64  // N
    } else if g == 24 {
        0x3c4242424242423cu64  // O
    } else if g == 25 {
        0x7c42427c40404040u64  // P
    } else if g == 26 {
        0x3c424242424a443au64  // Q
    } else if g == 27 {
        0x7c42427c48444242u64  // R
    } else if g == 28 {
        0x3c42403c0202423cu64  // S
    } else if g == 29 {
        0x7e10101010101010u64  // T
    } else if g == 30 {
        0x424242424242423cu64  // U
    } else if g == 31 {
        0x4242424242242418u64  // V
    } else if g == 32 {
        0x42424242425a6642u64  // W
    } else if g == 33 {
        0x4242241818244242u64  // X
    } else if g == 34 {
        0x4242241810101010u64  // Y
    } else if g == 35 {
        0x7e0204081020407eu64  // Z
    } else {
        0
    }
}

/// Whether row `r`, column `c` of glyph `g` is inked.
pub open spec fn glyph_pixel(g: int, r: int, c: int) -> bool {
    (glyph_word(g) >> ((63 - (8 * r + c)) as u64)) & 1u64 == 1u64
}

/// The glyph that draws `ch`, if any: digits, and letters of either case.
pub open spec fn glyph_index(ch: char) -> Option<int> {
    if '0' <= ch <= '9' {
        Some(ch as int - '0' as int)
    } else if 'A' <= ch <= 'Z' {
        Some(10 + ch as int - 'A' as int)
    } else if 'a' <= ch <= 'z' {
        Some(10 + ch as int - 'a' as int)
    } else {
        None
    }
}

/// Whether pixel `(r, c)` falls in the square of a glyph drawn at `(y, x)`.
pub open spec fn glyph_box(y: int, x: int, scale: int, r: int, c: int) -> bool {
    y <= r < y + 8 * scale && x <= c < x + 8 * scale
}

/// Pixel `(r, c)` after glyph `g` is drawn at `(y, x)`, each glyph pixel
/// becoming a `scale` x `scale` square; `prev` is its state before.
pub open spec fn glyph_drawn(g: int, y: int, x: int, scale: int, r: int, c: int, prev: bool) -> bool {
    if glyph_box(y, x, scale, r, c) {
        glyph_pixel(g, (r - y) / scale, (c - x) / scale)
    } else {
        prev
    }
}

/// Pixel `(r, c)` after `ch` is drawn at `(y, x)`: a character without a glyph
/// draws nothing.
pub open spec fn char_drawn(ch: char, y: int, x: int, scale: int, r: int, c: int, prev: bool) -> bool {
    match glyph_index(ch) {
        Some(g) => glyph_drawn(g, y, x, scale, r, c, prev),
        None => prev,
    }
}

/// Index of the character cell that holds column `c` of a text drawn from
/// column `x`.
pub open spec fn cell_of(x: int, scale: int, c: int) -> int {
    (c - x) / (8 * scale)
}

/// Pixel `(r, c)` after `text` is drawn from `(y, x)`: character `k` fills the
/// cell that starts at column `x + 8 * scale * k`.
pub open spec fn text_drawn(text: Seq<char>, y: int, x: int, scale: int, r: int, c: int, prev: bool) -> bool {
    if scale > 0 && x <= c && cell_of(x, scale, c) < text.len() {
        let k = cell_of(x, scale, c);
        char_drawn(text[k], y, x + 8 * scale * k, scale, r, c, prev)
    } else {
        prev
    }
}

fn glyph_word_of(g: usize) -> (w: u64)
    requires
        g < GLYPH_COUNT,
    ensures
        w == glyph_word(g as int),
{
    match g {
        0 => 0x1c2241414141221cu64,
        1 => 0x06060a320202023fu64,
        2 => 0x1e4141020820407fu64,
        3 => 0x3e41021e0101423cu64,
        4 => 0x414141433d010101u64,
        5 => 0x7f40407e0101017eu64,
        6 => 0x3e41405c6341413eu64,
        7 => 0x7f01010204081020u64,
        8 => 0x3e41413e4141413eu64,
        9 => 0x3e4141413f01413eu64,
        10 => 0x182442427e424242u64,
        11 => 0x7c42427c4242427cu64,
        12 => 0x3c4240404040423cu64,
        13 => 0x7844424242424478u64,
        14 => 0x7e40407c4040407eu64,
        15 => 0x7e40407c40404040u64,
        16 => 0x3c4240404e42423cu64,
        17 => 0x4242427e42424242u64,
        18 => 0x3e0808080808083eu64,
        19 => 0x1e04040404444438u64,
        20 => 0x4244487048444242u64,
        21 => 0x404040404040407eu64,
        22 => 0x42665a4242424242u64,
        23 => 0x4262524a46424242u64,
        24 => 0x3c4242424242423cu64,
        25 => 0x7c42427c40404040u64,
        26 => 0x3c424242424a443au64,
        27 => 0x7c42427c48444242u64,
        28 => 0x3c42403c0202423cu64,
        29 => 0x7e10101010101010u64,
        30 => 0x424242424242423cu64,
        31 => 0x4242424242242418u64,
        32 => 0x42424242425a6642u64,
        33 => 0x4242241818244242u64,
        34 => 0x4242241810101010u64,
        35 => 0x7e0204081020407eu64,
        _ => 0,
    }
}

fn glyph_bit(g: usize, r: usize, c: usize) -> (b: bool)
    requires
        g < GLYPH_COUNT,
        r < GLYPH_SIZE,
        c < GLYPH_SIZE,
    ensures
        b == glyph_pixel(g as int, r as int, c as int),
{
    let w = glyph_word_of(g);
    let sh: u64 = (63 - (8 * r + c)) as u64;
    (w >> sh) & 1u64 == 1u64
}

/// Glyph of `ch`, if the table has one.
pub fn glyph_index_of(ch: char) -> (r: Option<usize>)
    ensures
        match glyph_index(ch) {
            Some(g) => r == Some(g as usize) && g < GLYPH_COUNT,
            None => r is None,
        },
{
    if '0' <= ch && ch <= '9' {
        Some((ch as u32 - '0' as u32) as usize)
    } else if 'A' <= ch && ch <= 'Z' {
        Some((10 + (ch as u32 - 'A' as u32)) as usize)
    } else if 'a' <= ch && ch <= 'z' {
        Some((10 + (ch as u32 - 'a' as u32)) as usize)
    } else {
        None
    }
}

proof fn lemma_cell(c: int, x: int, w: int, i: int)
    requires
        w > 0,
        x <= c,
        i >= 0,
    ensures
        ((c - x) / w == i) <==> (x + w * i <= c < x + w * i + w),
        ((c - x) / w < i) <==> (c < x + w * i),
{
    let q = (c - x) / w;
    assert(w * q <= c - x < w * q + w) by (nonlinear_arith)
        requires
            w > 0,
            q == (c - x) / w,
            c - x >= 0,
    ;
    assert(q < i ==> w * q + w <= w * i) by (nonlinear_arith)
        requires
            w > 0,
    ;
    assert(q > i ==> w * i + w <= w * q) by (nonlinear_arith)
        requires
            w > 0,
    ;
    assert(q >= 0) by (nonlinear_arith)
        requires
            w > 0,
            q == (c - x) / w,
            c - x >= 0,
    ;
}

pub struct Font {}

impl Font {
    fn write_glyph(s: &mut Screen, y: usize, x: usize, g: usize, scale: usize)
        requires
            old(s).wf(),
            g < GLYPH_COUNT,
        ensures
            final(s).wf(),
            forall|r: int, c: int|
                on_screen(r, c) ==> #[trigger] final(s).lit(r, c) == glyph_drawn(
                    g as int,
                    y as int,
                    x as int,
                    scale as int,
                    r,
                    c,
                    old(s).lit(r, c),
                ),
    {
        if scale == 0 || y >= HEIGHT || x >= WIDTH {
            return;
        }
        let r_end: usize = if scale >= 4 {
            HEIGHT
        } else if y + 8 * scale >= HEIGHT {
            HEIGHT
        } else {
            y + 8 * scale
        };
        let c_end: usize = if scale >= 16 {
            WIDTH
        } else if x + 8 * scale >= WIDTH {
            WIDTH
        } else {
            x + 8 * scale
        };
        let ghost s0 = *s;
        let mut r: usize = y;
        while r < r_end
            invariant
                y <= r <= r_end <= HEIGHT,
                x < c_end <= WIDTH,
                r_end <= y + 8 * scale,
                c_end <= x + 8 * scale,
                (r_end == HEIGHT && y + 8 * scale >= HEIGHT) || r_end == y + 8 * scale,
                (c_end == WIDTH && x + 8 * scale >= WIDTH) || c_end == x + 8 * scale,
                scale > 0,
                g < GLYPH_COUNT,
                s.wf(),
                s0.wf(),
                forall|r2: int, c2: int|
                    on_screen(r2, c2) ==> #[trigger] s.lit(r2, c2) == if y <= r2 < r && x <= c2
                        < c_end {
                        glyph_pixel(g as int, (r2 - y) / (scale as int), (c2 - x) / (scale as int))
                    } else {
                        s0.lit(r2, c2)
                    },
            decreases r_end - r,
        {
            let mut c: usize = x;
            while c < c_end
                invariant
                    y <= r < r_end <= HEIGHT,
                    x <= c <= c_end <= WIDTH,
                    r_end <= y + 8 * scale,
                    c_end <= x + 8 * scale,
                    scale > 0,
                    g < GLYPH_COUNT,
                    s.wf(),
                    forall|r2: int, c2: int|
                        on_screen(r2, c2) ==> #[trigger] s.lit(r2, c2) == if (y <= r2 < r && x
                            <= c2 < c_end) || (r2 == r && x <= c2 < c) {
                            glyph_pixel(
                                g as int,
                                (r2 - y) / (scale as int),
                                (c2 - x) / (scale as int),
                            )
                        } else {
                            s0.lit(r2, c2)
                        },
                decreases c_end - c,
            {
                let gr = (r - y) / scale;
                let gc = (c - x) / scale;
                assert(gr < 8 && gc < 8) by (nonlinear_arith)
                    requires
                        gr == (r - y) / (scale as int),
                        gc == (c - x) / (scale as int),
                        0 <= r - y < 8 * scale,
                        0 <= c - x < 8 * scale,
                        scale > 0,
                ;
                let bit = glyph_bit(g, gr, gc);
                s.set(r, c, bit);
                c = c + 1;
            }
            r = r + 1;
        }
    }

    fn write_glyph_left(s: &mut Screen, y: usize, skip: usize, g: usize)
        requires
            old(s).wf(),
            g < GLYPH_COUNT,
            0 < skip < GLYPH_SIZE,
        ensures
            final(s).wf(),
            forall|r: int, c: int|
                on_screen(r, c) ==> #[trigger] final(s).lit(r, c) == glyph_drawn(
                    g as int,
                    y as int,
                    -(skip as int),
                    1,
                    r,
                    c,
                    old(s).lit(r, c),
                ),
    {
        if y >= HEIGHT {
            return;
        }
        let r_end: usize = if y + 8 >= HEIGHT {
            HEIGHT
        } else {
            y + 8
        };
        let c_end: usize = GLYPH_SIZE - skip;
        let ghost s0 = *s;
        let mut r: usize = y;
        while r < r_end
            invariant
                y <= r <= r_end <= HEIGHT,
                (r_end == HEIGHT && y + 8 >= HEIGHT) || r_end == y + 8,
                c_end == 8 - skip,
                0 < skip < 8,
                g < GLYPH_COUNT,
                s.wf(),
                forall|r2: int, c2: int|
                    on_screen(r2, c2) ==> #[trigger] s.lit(r2, c2) == if y <= r2 < r && c2
                        < c_end {
                        glyph_pixel(g as int, (r2 - y) / 1int, (c2 + skip) / 1int)
                    } else {
                        s0.lit(r2, c2)
                    },
            decreases r_end - r,
        {
            let mut c: usize = 0;
            while c < c_end
                invariant
                    y <= r < r_end <= HEIGHT,
                    r_end <= y + 8,
                    c <= c_end,
                    c_end == 8 - skip,
                    0 < skip < 8,
                    g < GLYPH_COUNT,
                    s.wf(),
                    forall|r2: int, c2: int|
                        on_screen(r2, c2) ==> #[trigger] s.lit(r2, c2) == if (y <= r2 < r && c2
                            < c_end) || (r2 == r && c2 < c) {
                            glyph_pixel(g as int, (r2 - y) / 1int, (c2 + skip) / 1int)
                        } else {
                            s0.lit(r2, c2)
                        },
                decreases c_end - c,
            {
                let bit = glyph_bit(g, r - y, c + skip);
                s.set(r, c, bit);
                c = c + 1;
            }
            r = r + 1;
        }
    }

    /// Draws `ch` at scale 1 with its left edge `skip` columns off the left
    /// side of the screen: only its columns from `skip` on are drawn, from
    /// column 0.
    pub fn write_char_left(s: &mut Screen, y: usize, skip: usize, ch: char)
        requires
            old(s).wf(),
            0 < skip < GLYPH_SIZE,
        ensures
            final(s).wf(),
            forall|r: int, c: int|
                on_screen(r, c) ==> #[trigger] final(s).lit(r, c) == char_drawn(
                    ch,
                    y as int,
                    -(skip as int),
                    1,
                    r,
                    c,
                    old(s).lit(r, c),
                ),
    {
        match glyph_index_of(ch) {
            Some(g) => Self::write_glyph_left(s, y, skip, g),
            None => {},
        }
    }

    /// Draws digit `num` with its top-left corner at row `y`, column `x`.
    pub fn write_digit(s: &mut Screen, y: usize, x: usize, num: usize, scale: usize)
        requires
            old(s).wf(),
            num < 10,
        ensures
            final(s).wf(),
            forall|r: int, c: int|
                on_screen(r, c) ==> #[trigger] final(s).lit(r, c) == glyph_drawn(
                    num as int,
                    y as int,
                    x as int,
                    scale as int,
                    r,
                    c,
                    old(s).lit(r, c),
                ),
    {
        Self::write_glyph(s, y, x, num, scale);
    }

    /// Draws `ch` with its top-left corner at row `y`, column `x`; a character
    /// without a glyph leaves the screen as it is.
    pub fn write_char(s: &mut Screen, y: usize, x: usize, ch: char, scale: usize)
        requires
            old(s).wf(),
        ensures
            final(s).wf(),
            forall|r: int, c: int|
                on_screen(r, c) ==> #[trigger] final(s).lit(r, c) == char_drawn(
                    ch,
                    y as int,
                    x as int,
                    scale as int,
                    r,
                    c,
                    old(s).lit(r, c),
                ),
    {
        match glyph_index_of(ch) {
            Some(g) => Self::write_glyph(s, y, x, g, scale),
            None => {},
        }
    }

    /// Draws `text` from row `y`, column `x`, one cell of `8 * scale` columns
    /// per character; what falls off the screen is not drawn.
    pub fn write_str(s: &mut Screen, y: usize, x: usize, text: &str, scale: usize)
        requires
            old(s).wf(),
        ensures
            final(s).wf(),
            forall|r: int, c: int|
                on_screen(r, c) ==> #[trigger] final(s).lit(r, c) == text_drawn(
                    text@,
                    y as int,
                    x as int,
                    scale as int,
                    r,
                    c,
                    old(s).lit(r, c),
                ),
    {
        let ghost s0 = *s;
        let n = text.unicode_len();
        let mut i: usize = 0;
        let mut pos: usize = x;
        while i < n
            invariant
                n == text@.len(),
                i <= n,
                i == n ==> text@.subrange(0, i as int) == text@,
                pos < WIDTH ==> pos == x + 8 * scale * i,
                pos >= WIDTH ==> x + 8 * scale * i >= WIDTH,
                scale == 0 ==> pos == x,
                s.wf(),
                forall|r: int, c: int|
                    on_screen(r, c) ==> #[trigger] s.lit(r, c) == text_drawn(
                        text@.subrange(0, i as int),
                        y as int,
                        x as int,
                        scale as int,
                        r,
                        c,
                        s0.lit(r, c),
                    ),
            ensures
                s.wf(),
                forall|r: int, c: int|
                    on_screen(r, c) ==> #[trigger] s.lit(r, c) == text_drawn(
                        text@,
                        y as int,
                        x as int,
                        scale as int,
                        r,
                        c,
                        s0.lit(r, c),
                    ),
            decreases n - i,
        {
            if scale > 0 && pos >= WIDTH {
                proof {
                    assert forall|r: int, c: int| on_screen(r, c) implies #[trigger] text_drawn(
                        text@,
                        y as int,
                        x as int,
                        scale as int,
                        r,
                        c,
                        s0.lit(r, c),
                    ) == text_drawn(
                        text@.subrange(0, i as int),
                        y as int,
                        x as int,
                        scale as int,
                        r,
                        c,
                        s0.lit(r, c),
                    ) by {
                        if x <= c {
                            lemma_cell(c, x as int, 8 * scale, i as int);
                        }
                    }
                }
                break;
            }
            let ch = text.get_char(i);
            Self::write_char(s, y, pos, ch, scale);
            proof {
                let t0 = text@.subrange(0, i as int);
                let t1 = text@.subrange(0, i + 1);
                assert forall|r: int, c: int| on_screen(r, c) implies #[trigger] s.lit(r, c)
                    == text_drawn(t1, y as int, x as int, scale as int, r, c, s0.lit(r, c)) by {
                    if scale > 0 && x <= c {
                        lemma_cell(c, x as int, 8 * scale, i as int);
                        lemma_cell(c, x as int, 8 * scale, i + 1);
                        assert(t1[i as int] == ch);
                        if cell_of(x as int, scale as int, c) < i {
                            assert(t1[cell_of(x as int, scale as int, c)] == t0[cell_of(
                                x as int,
                                scale as int,
                                c,
                            )]);
                        }
                    }
                }
            }
            if scale >= WIDTH {
                proof {
                    assert(8 * scale * (i + 1) >= WIDTH) by (nonlinear_arith)
                        requires
                            scale >= WIDTH,
                            i >= 0,
                    ;
                }
                pos = WIDTH;
            } else {
                proof {
                    assert(8 * scale * i + 8 * scale == 8 * scale * (i + 1)) by (nonlinear_arith);
                    assert(scale == 0 ==> 8 * scale * (i + 1) == 0) by (nonlinear_arith);
                }
                pos = pos + 8 * scale;
            }
            i = i + 1;
            assert(text@.subrange(0, n as int) =~= text@);
        }
    }
}

} // verus!
