//! The 64x32 monochrome framebuffer: XOR sprite compositing with collision
//! detection, with every pixel coordinate wrapping modulo the grid size.

use vstd::prelude::*;
use vstd::arithmetic::div_mod::lemma_fundamental_div_mod;

verus! {

pub const DISPLAY_WIDTH: usize = 64;

pub const DISPLAY_HEIGHT: usize = 32;

pub const DISPLAY_PIXELS: usize = 2048;

/// The row-major buffer index of the (wrapped) pixel at column `x`, row `y`.
pub open spec fn pix_index(x: int, y: int) -> int {
    (y % 32) * 64 + x % 64
}

/// Whether bit `c` (counted from the left) of a sprite row byte is set.
pub open spec fn sprite_bit(b: u8, c: int) -> bool
    recommends
        0 <= c < 8,
{
    ((b >> ((7 - c) as u8)) & 1) == 1
}

/// Sprite bits in row-major order: bit `t` is column `t % 8` of row `t / 8`.
pub open spec fn bit_of(rows: Seq<u8>, t: int) -> bool
    recommends
        0 <= t < 8 * rows.len(),
{
    sprite_bit(rows[t / 8], t % 8)
}

/// The buffer index that sprite bit `t` lands on when drawn at `(x, y)`.
pub open spec fn pix_of(x: int, y: int, t: int) -> int {
    pix_index(x + t % 8, y + t / 8)
}

/// Whether one of the first `m` sprite bits is set and lands on index `p`.
pub open spec fn covered_upto(x: int, y: int, rows: Seq<u8>, m: int, p: int) -> bool {
    exists|t: int| 0 <= t < m && bit_of(rows, t) && pix_of(x, y, t) == p
}

/// Whether a set sprite bit lands on index `p`.
pub open spec fn covered(x: int, y: int, rows: Seq<u8>, p: int) -> bool {
    covered_upto(x, y, rows, 8 * rows.len() as int, p)
}

/// The display after XOR-compositing the sprite at `(x, y)`.
pub open spec fn drawn(d: Seq<bool>, x: int, y: int, rows: Seq<u8>) -> Seq<bool> {
    Seq::new(
        d.len(),
        |p: int|
            if covered(x, y, rows, p) {
                !d[p]
            } else {
                d[p]
            },
    )
}

/// Whether one of the first `m` sprite bits is set and lands on a pixel that
/// is set in `d`.
pub open spec fn collides_upto(d: Seq<bool>, x: int, y: int, rows: Seq<u8>, m: int) -> bool {
    exists|t: int| 0 <= t < m && bit_of(rows, t) && d[pix_of(x, y, t)]
}

/// Whether drawing the sprite at `(x, y)` clears a previously set pixel.
pub open spec fn collides(d: Seq<bool>, x: int, y: int, rows: Seq<u8>) -> bool {
    collides_upto(d, x, y, rows, 8 * rows.len() as int)
}

/// A display with every pixel off.
pub open spec fn blank_display() -> Seq<bool> {
    Seq::new(DISPLAY_PIXELS as nat, |p: int| false)
}

/// The number of set pixels.
pub open spec fn count_true(s: Seq<bool>) -> int
    decreases s.len(),
{
    if s.len() == 0 {
        0
    } else {
        count_true(s.drop_last()) + if s.last() {
            1int
        } else {
            0int
        }
    }
}

proof fn lemma_mod32_inj(k: int, a: int, b: int)
    requires
        k >= 0,
        0 <= a < 32,
        0 <= b < 32,
        (k + a) % 32 == (k + b) % 32,
    ensures
        a == b,
{
    lemma_fundamental_div_mod(k + a, 32);
    lemma_fundamental_div_mod(k + b, 32);
}

proof fn lemma_mod64_inj(k: int, a: int, b: int)
    requires
        k >= 0,
        0 <= a < 64,
        0 <= b < 64,
        (k + a) % 64 == (k + b) % 64,
    ensures
        a == b,
{
    lemma_fundamental_div_mod(k + a, 64);
    lemma_fundamental_div_mod(k + b, 64);
}

/// Distinct bit positions of a sprite of at most 32 rows land on distinct
/// buffer indices.
proof fn lemma_pix_of_injective(x: int, y: int, t1: int, t2: int)
    requires
        x >= 0,
        y >= 0,
        0 <= t1 < t2 < 256,
    ensures
        pix_of(x, y, t1) != pix_of(x, y, t2),
{
    let r1 = t1 / 8;
    let c1 = t1 % 8;
    let r2 = t2 / 8;
    let c2 = t2 % 8;
    lemma_fundamental_div_mod(t1, 8);
    lemma_fundamental_div_mod(t2, 8);
    if pix_of(x, y, t1) == pix_of(x, y, t2) {
        let py1 = (y + r1) % 32;
        let px1 = (x + c1) % 64;
        let py2 = (y + r2) % 32;
        let px2 = (x + c2) % 64;
        assert(py1 * 64 + px1 == py2 * 64 + px2);
        assert(py1 == py2 && px1 == px2) by (nonlinear_arith)
            requires
                0 <= px1 < 64,
                0 <= px2 < 64,
                py1 * 64 + px1 == py2 * 64 + px2,
        ;
        lemma_mod32_inj(y, r1, r2);
        lemma_mod64_inj(x, c1, c2);
    }
}

/// Extending the processed-bit window by one covers exactly the pixels
/// covered before, plus the new bit's pixel if that bit is set.
proof fn lemma_covered_upto_step(x: int, y: int, rows: Seq<u8>, m: int, p: int)
    requires
        m >= 0,
    ensures
        covered_upto(x, y, rows, m + 1, p) == (covered_upto(x, y, rows, m, p) || (bit_of(rows, m)
            && pix_of(x, y, m) == p)),
{
    if covered_upto(x, y, rows, m + 1, p) {
        let t = choose|t: int| 0 <= t < m + 1 && bit_of(rows, t) && pix_of(x, y, t) == p;
        if t < m {
            assert(covered_upto(x, y, rows, m, p));
        }
    }
    if covered_upto(x, y, rows, m, p) {
        let t = choose|t: int| 0 <= t < m && bit_of(rows, t) && pix_of(x, y, t) == p;
        assert(0 <= t < m + 1 && bit_of(rows, t) && pix_of(x, y, t) == p);
    }
    if bit_of(rows, m) && pix_of(x, y, m) == p {
        assert(0 <= m < m + 1 && bit_of(rows, m) && pix_of(x, y, m) == p);
        assert(covered_upto(x, y, rows, m + 1, p));
    }
}

/// The same window extension for the collision predicate.
proof fn lemma_collides_upto_step(d: Seq<bool>, x: int, y: int, rows: Seq<u8>, m: int)
    requires
        m >= 0,
    ensures
        collides_upto(d, x, y, rows, m + 1) == (collides_upto(d, x, y, rows, m) || (bit_of(rows, m)
            && d[pix_of(x, y, m)])),
{
    if collides_upto(d, x, y, rows, m + 1) {
        let t = choose|t: int| 0 <= t < m + 1 && bit_of(rows, t) && d[pix_of(x, y, t)];
        if t < m {
            assert(collides_upto(d, x, y, rows, m));
        }
    }
    if collides_upto(d, x, y, rows, m) {
        let t = choose|t: int| 0 <= t < m && bit_of(rows, t) && d[pix_of(x, y, t)];
        assert(0 <= t < m + 1 && bit_of(rows, t) && d[pix_of(x, y, t)]);
    }
    if bit_of(rows, m) && d[pix_of(x, y, m)] {
        assert(0 <= m < m + 1 && bit_of(rows, m) && d[pix_of(x, y, m)]);
        assert(collides_upto(d, x, y, rows, m + 1));
    }
}

/// Law: drawing the same sprite twice at the same coordinates restores every
/// pixel to its value before the first draw.
pub proof fn lemma_draw_twice_restores(d: Seq<bool>, x: int, y: int, rows: Seq<u8>)
    requires
        d.len() == DISPLAY_PIXELS,
        x >= 0,
        y >= 0,
    ensures
        drawn(drawn(d, x, y, rows), x, y, rows) == d,
{
    assert(drawn(drawn(d, x, y, rows), x, y, rows) =~= d);
}

/// Law: a second draw of the same sprite reports a collision exactly when
/// some set sprite bit landed on a pixel that was clear before the first
/// draw, that is, exactly when the first draw set some pixel.
pub proof fn lemma_second_draw_collision(d: Seq<bool>, x: int, y: int, rows: Seq<u8>)
    requires
        d.len() == DISPLAY_PIXELS,
        x >= 0,
        y >= 0,
    ensures
        collides(drawn(d, x, y, rows), x, y, rows) == (exists|t: int|
            0 <= t < 8 * rows.len() && bit_of(rows, t) && !d[pix_of(x, y, t)]),
{
    let d1 = drawn(d, x, y, rows);
    assert forall|t: int| 0 <= t < 8 * rows.len() && bit_of(rows, t) implies d1[pix_of(x, y, t)]
        == !d[pix_of(x, y, t)] by {
        assert(covered(x, y, rows, pix_of(x, y, t)));
    }
    if collides(d1, x, y, rows) {
        let t = choose|t: int| 0 <= t < 8 * rows.len() && bit_of(rows, t) && d1[pix_of(x, y, t)];
        assert(!d[pix_of(x, y, t)]);
    }
    if exists|t: int| 0 <= t < 8 * rows.len() && bit_of(rows, t) && !d[pix_of(x, y, t)] {
        let t = choose|t: int| 0 <= t < 8 * rows.len() && bit_of(rows, t) && !d[pix_of(x, y, t)];
        assert(d1[pix_of(x, y, t)]);
        assert(collides(d1, x, y, rows));
    }
}

/// Law: a sprite whose rows are all zero changes nothing and never reports a
/// collision.
pub proof fn lemma_blank_sprite(d: Seq<bool>, x: int, y: int, rows: Seq<u8>)
    requires
        d.len() == DISPLAY_PIXELS,
        x >= 0,
        y >= 0,
        forall|r: int| 0 <= r < rows.len() ==> rows[r] == 0u8,
    ensures
        drawn(d, x, y, rows) == d,
        !collides(d, x, y, rows),
{
    assert forall|c: int| 0 <= c < 8 implies !sprite_bit(0u8, c) by {
        let k = (7 - c) as u8;
        assert(((0u8 >> k) & 1) == 0) by (bit_vector);
    }
    assert forall|t: int| 0 <= t < 8 * rows.len() implies !bit_of(rows, t) by {
        lemma_fundamental_div_mod(t, 8);
        assert(rows[t / 8] == 0u8);
    }
    assert(drawn(d, x, y, rows) =~= d);
}

/// Law: a set sprite bit at row `r`, column `c` always flips the pixel at
/// the wrapped coordinates `((x + c) % 64, (y + r) % 32)`: overflowing
/// columns and rows land on the opposite edge instead of being clipped.
pub proof fn lemma_sprite_wraps(d: Seq<bool>, x: int, y: int, rows: Seq<u8>, r: int, c: int)
    requires
        d.len() == DISPLAY_PIXELS,
        x >= 0,
        y >= 0,
        0 <= r < rows.len(),
        rows.len() <= 15,
        0 <= c < 8,
        sprite_bit(rows[r], c),
    ensures
        drawn(d, x, y, rows)[((y + r) % 32) * 64 + (x + c) % 64] == !d[((y + r) % 32) * 64 + (x
            + c) % 64],
{
    let t = 8 * r + c;
    assert(t / 8 == r && t % 8 == c) by (nonlinear_arith)
        requires
            0 <= c < 8,
            r >= 0,
            t == 8 * r + c,
    ;
    assert(bit_of(rows, t) && pix_of(x, y, t) == ((y + r) % 32) * 64 + (x + c) % 64);
    assert(covered(x, y, rows, pix_of(x, y, t)));
}

pub struct Display {
    pixels: [bool; DISPLAY_PIXELS],
}

impl View for Display {
    type V = Seq<bool>;

    closed spec fn view(&self) -> Seq<bool> {
        self.pixels@
    }
}

impl Display {
    pub fn new() -> (d: Display)
        ensures
            d@ == blank_display(),
    {
        let d = Display { pixels: [false; DISPLAY_PIXELS] };
        proof {
            assert(d@ =~= blank_display());
        }
        d
    }

    pub fn clear(&mut self)
        ensures
            final(self)@ == blank_display(),
    {
        let mut i: usize = 0;
        while i < DISPLAY_PIXELS
            invariant
                i <= DISPLAY_PIXELS,
                forall|p: int| 0 <= p < i ==> !self.pixels@[p],
            decreases DISPLAY_PIXELS - i,
        {
            self.pixels[i] = false;
            i = i + 1;
        }
        proof {
            assert(self@ =~= blank_display());
        }
    }

    /// Read one pixel; out-of-grid coordinates read as off.
    pub fn get_pixel(&self, x: usize, y: usize) -> (on: bool)
        ensures
            on == (if x < DISPLAY_WIDTH && y < DISPLAY_HEIGHT {
                self@[y * DISPLAY_WIDTH + x]
            } else {
                false
            }),
    {
        if x < DISPLAY_WIDTH && y < DISPLAY_HEIGHT {
            self.pixels[y * DISPLAY_WIDTH + x]
        } else {
            false
        }
    }

    /// Set one pixel, wrapping both coordinates modulo the grid size.
    pub fn set_pixel(&mut self, x: usize, y: usize, value: bool)
        ensures
            final(self)@ == old(self)@.update(pix_index(x as int, y as int), value),
    {
        let wrapped_x = x % DISPLAY_WIDTH;
        let wrapped_y = y % DISPLAY_HEIGHT;
        self.pixels[wrapped_y * DISPLAY_WIDTH + wrapped_x] = value;
    }

    /// Composite a sprite of up to 15 eight-bit rows at `(x, y)` by XOR,
    /// each pixel wrapping modulo the grid size independently. Returns true
    /// exactly when a previously set pixel was cleared.
    pub fn draw_sprite(&mut self, x: usize, y: usize, sprite_data: &[u8]) -> (collision: bool)
        requires
            sprite_data@.len() <= 15,
            x + 8 <= usize::MAX,
            y + 15 <= usize::MAX,
        ensures
            final(self)@ == drawn(old(self)@, x as int, y as int, sprite_data@),
            collision == collides(old(self)@, x as int, y as int, sprite_data@),
    {
        let ghost d0 = self.pixels@;
        let ghost rows = sprite_data@;
        let mut collision = false;
        let mut row: usize = 0;
        while row < sprite_data.len()
            invariant
                row <= rows.len() <= 15,
                rows == sprite_data@,
                x + 8 <= usize::MAX,
                y + 15 <= usize::MAX,
                d0 == old(self).pixels@,
                self.pixels@.len() == d0.len(),
                forall|p: int|
                    0 <= p < d0.len() ==> self.pixels@[p] == (if covered_upto(
                        x as int,
                        y as int,
                        rows,
                        8 * row,
                        p,
                    ) {
                        !d0[p]
                    } else {
                        d0[p]
                    }),
                collision == collides_upto(d0, x as int, y as int, rows, 8 * row),
            decreases rows.len() - row,
        {
            let sprite_byte = sprite_data[row];
            let mut col: usize = 0;
            while col < 8
                invariant
                    col <= 8,
                    row < rows.len() <= 15,
                    rows == sprite_data@,
                    x + 8 <= usize::MAX,
                    y + 15 <= usize::MAX,
                    sprite_byte == rows[row as int],
                    d0 == old(self).pixels@,
                    self.pixels@.len() == d0.len(),
                    forall|p: int|
                        0 <= p < d0.len() ==> self.pixels@[p] == (if covered_upto(
                            x as int,
                            y as int,
                            rows,
                            8 * row + col,
                            p,
                        ) {
                            !d0[p]
                        } else {
                            d0[p]
                        }),
                    collision == collides_upto(d0, x as int, y as int, rows, 8 * row + col),
                decreases 8 - col,
            {
                let ghost m = 8 * (row as int) + col as int;
                proof {
                    assert(m / 8 == row as int && m % 8 == col as int) by (nonlinear_arith)
                        requires
                            0 <= col < 8,
                            row >= 0,
                            m == 8 * (row as int) + col as int,
                    ;
                }
                let sprite_pixel = ((sprite_byte >> ((7 - col) as u8)) & 1) == 1;
                proof {
                    assert(sprite_pixel == bit_of(rows, m));
                }
                if sprite_pixel {
                    let pixel_x = (x + col) % DISPLAY_WIDTH;
                    let pixel_y = (y + row) % DISPLAY_HEIGHT;
                    let pixel_index = pixel_y * DISPLAY_WIDTH + pixel_x;
                    proof {
                        assert(pixel_index as int == pix_of(x as int, y as int, m));
                        assert forall|tp: int| 0 <= tp < m implies pix_of(x as int, y as int, tp)
                            != pixel_index as int by {
                            lemma_pix_of_injective(x as int, y as int, tp, m);
                        }
                        assert(!covered_upto(x as int, y as int, rows, m, pixel_index as int));
                    }
                    let old_pixel = self.pixels[pixel_index];
                    self.pixels[pixel_index] = old_pixel ^ sprite_pixel;
                    if old_pixel && !self.pixels[pixel_index] {
                        collision = true;
                    }
                    proof {
                        assert forall|p: int| 0 <= p < d0.len() implies self.pixels@[p] == (
                        if covered_upto(x as int, y as int, rows, m + 1, p) {
                            !d0[p]
                        } else {
                            d0[p]
                        }) by {
                            lemma_covered_upto_step(x as int, y as int, rows, m, p);
                        }
                        lemma_collides_upto_step(d0, x as int, y as int, rows, m);
                    }
                } else {
                    proof {
                        assert forall|p: int| 0 <= p < d0.len() implies self.pixels@[p] == (
                        if covered_upto(x as int, y as int, rows, m + 1, p) {
                            !d0[p]
                        } else {
                            d0[p]
                        }) by {
                            lemma_covered_upto_step(x as int, y as int, rows, m, p);
                        }
                        lemma_collides_upto_step(d0, x as int, y as int, rows, m);
                    }
                }
                col = col + 1;
            }
            row = row + 1;
        }
        proof {
            assert(self.pixels@ =~= drawn(d0, x as int, y as int, rows));
            assert(self@ == self.pixels@);
        }
        collision
    }

    /// Export the framebuffer as one byte per pixel, 0 for off and 255 for
    /// on, in row-major order.
    pub fn get_buffer(&self) -> (buf: Vec<u8>)
        ensures
            buf@.len() == DISPLAY_PIXELS,
            forall|p: int|
                0 <= p < DISPLAY_PIXELS ==> buf@[p] == (if self@[p] {
                    255u8
                } else {
                    0u8
                }),
    {
        let mut buf: Vec<u8> = Vec::new();
        let mut i: usize = 0;
        while i < DISPLAY_PIXELS
            invariant
                i <= DISPLAY_PIXELS,
                buf@.len() == i,
                forall|p: int|
                    0 <= p < i ==> buf@[p] == (if self.pixels@[p] {
                        255u8
                    } else {
                        0u8
                    }),
            decreases DISPLAY_PIXELS - i,
        {
            if self.pixels[i] {
                buf.push(255);
            } else {
                buf.push(0);
            }
            i = i + 1;
        }
        proof {
            assert(self@ == self.pixels@);
        }
        buf
    }

    /// The number of pixels currently set.
    pub fn count_active_pixels(&self) -> (n: usize)
        ensures
            n == count_true(self@),
    {
        let mut n: usize = 0;
        let mut i: usize = 0;
        while i < DISPLAY_PIXELS
            invariant
                i <= DISPLAY_PIXELS,
                n <= i,
                n == count_true(self.pixels@.take(i as int)),
            decreases DISPLAY_PIXELS - i,
        {
            proof {
                assert(self.pixels@.take(i + 1).drop_last() =~= self.pixels@.take(i as int));
            }
            if self.pixels[i] {
                n = n + 1;
            }
            i = i + 1;
        }
        proof {
            assert(self.pixels@.take(DISPLAY_PIXELS as int) =~= self.pixels@);
            assert(self@ == self.pixels@);
        }
        n
    }
}

} // verus!
