use vstd::prelude::*;

verus! {

/// Visible columns of the display.
pub const WIDTH: usize = 128;

/// Visible rows of the display.
pub const HEIGHT: usize = 32;

/// Size of the packed frame buffer in bytes: one bit per pixel.
pub const BUFFER_LEN: usize = 512;

/// Bytes of the frame buffer carried by one display transaction.
pub const HALF_LEN: usize = 256;

/// Length of the fixed header that opens each display transaction.
pub const HEADER_LEN: usize = 9;

/// Header of the transaction that carries the upper half of the buffer.
pub open spec fn header_hi() -> Seq<u8> {
    seq![0xe0u8, 0x00, 0x00, 0x00, 0x00, 0x80, 0x00, 0x02, 0x00]
}

/// Header of the transaction that carries the lower half of the buffer.
pub open spec fn header_lo() -> Seq<u8> {
    seq![0xe0u8, 0x00, 0x00, 0x02, 0x00, 0x80, 0x00, 0x02, 0x00]
}

/// Byte of the buffer that holds pixel `(r, c)`: rows are packed eight to a
/// byte, in chunks of one byte per column.
pub open spec fn byte_index(r: int, c: int) -> int {
    (r / 8) * 128 + c
}

/// Mask of the bit that holds pixel row `r` inside its byte.
pub open spec fn bit_mask(r: int) -> u8 {
    (1u8 << ((r % 8) as u8))
}

/// Whether pixel `(r, c)` of a packed buffer is lit: a lit pixel has its bit clear.
pub open spec fn pixel_of(buf: Seq<u8>, r: int, c: int) -> bool {
    buf[byte_index(r, c)] & bit_mask(r) == 0
}

/// Whether `(r, c)` lies on the display.
pub open spec fn on_screen(r: int, c: int) -> bool {
    0 <= r < HEIGHT && 0 <= c < WIDTH
}

/// The all-blank buffer: every bit set.
pub open spec fn blank_buffer() -> Seq<u8> {
    Seq::new(BUFFER_LEN as nat, |i: int| 0xffu8)
}

/// Monochrome frame buffer of the display.
pub struct Screen {
    buffer: Vec<u8>,
}

impl View for Screen {
    type V = Seq<u8>;

    closed spec fn view(&self) -> Seq<u8> {
        self.buffer@
    }
}

proof fn lemma_byte_index(r1: int, c1: int, r2: int, c2: int)
    requires
        on_screen(r1, c1),
        on_screen(r2, c2),
    ensures
        0 <= byte_index(r1, c1) < BUFFER_LEN,
        byte_index(r1, c1) == byte_index(r2, c2) <==> (r1 / 8 == r2 / 8 && c1 == c2),
        byte_index(r1, c1) == byte_index(r2, c2) && r1 != r2 ==> r1 % 8 != r2 % 8,
{
    assert(0 <= r1 / 8 < 4);
    assert(0 <= r2 / 8 < 4);
    if byte_index(r1, c1) == byte_index(r2, c2) {
        assert(r1 / 8 == r2 / 8 && c1 == c2) by (nonlinear_arith)
            requires
                (r1 / 8) * 128 + c1 == (r2 / 8) * 128 + c2,
                0 <= c1 < 128,
                0 <= c2 < 128,
                0 <= r1 / 8 < 4,
                0 <= r2 / 8 < 4,
        ;
    }
}

proof fn lemma_mask_bits(b: u8, k1: u8, k2: u8)
    requires
        k1 < 8,
        k2 < 8,
    ensures
        (b & !(1u8 << k1)) & (1u8 << k1) == 0,
        (b | (1u8 << k1)) & (1u8 << k1) != 0,
        k1 != k2 ==> ((b & !(1u8 << k1)) & (1u8 << k2) == 0) == (b & (1u8 << k2) == 0),
        k1 != k2 ==> ((b | (1u8 << k1)) & (1u8 << k2) == 0) == (b & (1u8 << k2) == 0),
{
    assert((b & !(1u8 << k1)) & (1u8 << k1) == 0) by (bit_vector)
        requires
            k1 < 8,
    ;
    assert((b | (1u8 << k1)) & (1u8 << k1) != 0) by (bit_vector)
        requires
            k1 < 8,
    ;
    assert(k1 != k2 ==> ((b & !(1u8 << k1)) & (1u8 << k2) == 0) == (b & (1u8 << k2) == 0))
        by (bit_vector)
        requires
            k1 < 8,
            k2 < 8,
    ;
    assert(k1 != k2 ==> ((b | (1u8 << k1)) & (1u8 << k2) == 0) == (b & (1u8 << k2) == 0))
        by (bit_vector)
        requires
            k1 < 8,
            k2 < 8,
    ;
}

proof fn lemma_full_byte(k: u8)
    requires
        k < 8,
    ensures
        0xffu8 & (1u8 << k) != 0,
{
    assert(0xffu8 & (1u8 << k) != 0) by (bit_vector)
        requires
            k < 8,
    ;
}

impl Screen {
    /// The buffer has the size of the display.
    pub open spec fn wf(&self) -> bool {
        self@.len() == BUFFER_LEN
    }

    /// Whether pixel `(r, c)` is lit.
    pub open spec fn lit(&self, r: int, c: int) -> bool {
        pixel_of(self@, r, c)
    }

    /// Every pixel is off.
    pub open spec fn is_blank(&self) -> bool {
        self@ =~= blank_buffer()
    }

    /// A blank display.
    pub fn new() -> (s: Self)
        ensures
            s.wf(),
            s.is_blank(),
            forall|r: int, c: int| on_screen(r, c) ==> !#[trigger] s.lit(r, c),
    {
        let s = Screen { buffer: vec![0xffu8; BUFFER_LEN] };
        proof {
            assert forall|r: int, c: int| on_screen(r, c) implies !#[trigger] s.lit(r, c) by {
                lemma_byte_index(r, c, r, c);
                lemma_full_byte((r % 8) as u8);
            }
        }
        s
    }

    /// Turns every pixel off.
    pub fn reset(&mut self)
        ensures
            final(self).wf(),
            final(self).is_blank(),
            forall|r: int, c: int| on_screen(r, c) ==> !#[trigger] final(self).lit(r, c),
    {
        *self = Screen::new();
    }

    /// Whether pixel `(i, j)` (row, column) is lit.
    pub fn get(&self, i: usize, j: usize) -> (r: bool)
        requires
            self.wf(),
            i < HEIGHT,
            j < WIDTH,
        ensures
            r == self.lit(i as int, j as int),
    {
        proof {
            lemma_byte_index(i as int, j as int, i as int, j as int);
        }
        let idx = (i / 8) * 128 + j;
        let mask: u8 = 1u8 << ((i % 8) as u8);
        self.buffer[idx] & mask == 0
    }

    /// Lights (`val`) or clears pixel `(i, j)`; every other pixel keeps its state.
    pub fn set(&mut self, i: usize, j: usize, val: bool)
        requires
            old(self).wf(),
            i < HEIGHT,
            j < WIDTH,
        ensures
            final(self).wf(),
            final(self).lit(i as int, j as int) == val,
            forall|r: int, c: int|
                on_screen(r, c) && (r != i || c != j) ==> #[trigger] final(self).lit(r, c)
                    == old(self).lit(r, c),
    {
        proof {
            lemma_byte_index(i as int, j as int, i as int, j as int);
        }
        let idx = (i / 8) * 128 + j;
        let k: u8 = (i % 8) as u8;
        let mask: u8 = 1u8 << k;
        let b = self.buffer[idx];
        let nb: u8 = if val {
            b & !mask
        } else {
            b | mask
        };
        self.buffer.set(idx, nb);
        proof {
            lemma_mask_bits(b, k, k);
            assert forall|r: int, c: int|
                on_screen(r, c) && (r != i || c != j) implies #[trigger] self.lit(r, c)
                == old(self).lit(r, c) by {
                lemma_byte_index(i as int, j as int, r, c);
                if byte_index(r, c) == idx {
                    lemma_mask_bits(b, k, (r % 8) as u8);
                }
            }
        }
    }

    /// The two display transactions of this frame: each a fixed header followed
    /// by one half of the buffer, the upper half first.
    pub fn transactions(&self) -> (r: (Vec<u8>, Vec<u8>))
        requires
            self.wf(),
        ensures
            r.0@ == header_hi() + self@.subrange(0, HALF_LEN as int),
            r.1@ == header_lo() + self@.subrange(HALF_LEN as int, BUFFER_LEN as int),
    {
        let mut hi: Vec<u8> = vec![0xe0u8, 0x00, 0x00, 0x00, 0x00, 0x80, 0x00, 0x02, 0x00];
        let mut lo: Vec<u8> = vec![0xe0u8, 0x00, 0x00, 0x02, 0x00, 0x80, 0x00, 0x02, 0x00];
        assert(hi@ == header_hi());
        assert(lo@ == header_lo());
        let mut k: usize = 0;
        while k < HALF_LEN
            invariant
                k <= HALF_LEN,
                self.wf(),
                hi@ == header_hi() + self@.subrange(0, k as int),
                lo@ == header_lo() + self@.subrange(HALF_LEN as int, HALF_LEN + k),
            decreases HALF_LEN - k,
        {
            hi.push(self.buffer[k]);
            lo.push(self.buffer[HALF_LEN + k]);
            k = k + 1;
            assert(hi@ =~= header_hi() + self@.subrange(0, k as int));
            assert(lo@ =~= header_lo() + self@.subrange(HALF_LEN as int, HALF_LEN + k));
        }
        (hi, lo)
    }
}

} // verus!
