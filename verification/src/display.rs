//! The 64x32 monochrome framebuffer: pixel get/set, clear, and the XOR
//! sprite blit with wrapped coordinates and collision reporting.

use vstd::prelude::*;

verus! {

/// Width of the screen in pixels.
pub const SCREEN_W: usize = 64;

/// Height of the screen in pixels.
pub const SCREEN_H: usize = 32;

/// Total number of pixels.
pub const SCREEN_PIXELS: usize = 2048;

#[verifier::ext_equal]
pub ghost struct DisplayView {
    pub fb: Seq<bool>,
    pub redraw: bool,
}

pub struct Display {
    /// Row-major pixel grid: the pixel at column `x`, row `y` is at `y * 64 + x`.
    pub framebuffer: Vec<bool>,
    pub req_draw: bool,
}

impl View for Display {
    type V = DisplayView;

    open spec fn view(&self) -> DisplayView {
        DisplayView { fb: self.framebuffer@, redraw: self.req_draw }
    }
}

/// Index of the pixel at column `x`, row `y` in the row-major grid.
pub open spec fn pix(x: int, y: int) -> int {
    y * 64 + x
}

/// The all-dark framebuffer.
pub open spec fn blank_fb() -> Seq<bool> {
    Seq::new(SCREEN_PIXELS as nat, |p: int| false)
}

/// Whether sprite row `j` has its bit for column offset `i` set; bit 7 is the
/// leftmost pixel of the row.
pub open spec fn sprite_bit(sprite: Seq<u8>, j: int, i: int) -> bool {
    (sprite[j] >> ((7 - i) as u8)) & 1 == 1
}

/// A lit sprite cell: offsets `(j, i)` lie inside the sprite and the bit is set.
pub open spec fn hit_at(sprite: Seq<u8>, j: int, i: int) -> bool {
    0 <= j < sprite.len() && 0 <= i < 8 && sprite_bit(sprite, j, i)
}

/// Screen column where column offset `i` of a sprite drawn at `vx` lands.
pub open spec fn wrap_x(vx: u8, i: int) -> int {
    (vx + i) % 64
}

/// Screen row where row `j` of a sprite drawn at `vy` lands.
pub open spec fn wrap_y(vy: u8, j: int) -> int {
    (vy + j) % 32
}

/// Pixel index targeted by sprite cell `(j, i)` for a draw at `(vx, vy)`.
pub open spec fn tgt(vx: u8, vy: u8, j: int, i: int) -> int {
    pix(wrap_x(vx, i), wrap_y(vy, j))
}

/// Whether the draw toggles pixel `p`: some lit sprite cell lands on it.
pub open spec fn toggled(sprite: Seq<u8>, vx: u8, vy: u8, p: int) -> bool {
    exists|j: int, i: int| hit_at(sprite, j, i) && tgt(vx, vy, j, i) == p
}

/// The framebuffer after XOR-blitting `sprite` at `(vx, vy)`.
pub open spec fn draw_fb(fb: Seq<bool>, sprite: Seq<u8>, vx: u8, vy: u8) -> Seq<bool> {
    Seq::new(fb.len(), |p: int| if toggled(sprite, vx, vy, p) { !fb[p] } else { fb[p] })
}

/// Whether the blit reports a collision: some lit sprite cell lands on an
/// already-lit pixel.
pub open spec fn draw_collision(fb: Seq<bool>, sprite: Seq<u8>, vx: u8, vy: u8) -> bool {
    exists|j: int, i: int| hit_at(sprite, j, i) && fb[tgt(vx, vy, j, i)]
}

/// Sprite cells processed strictly before cell `(j, i)` in row-major order.
pub open spec fn cell_before(j: int, i: int, jj: int, ii: int) -> bool {
    jj < j || (jj == j && ii < i)
}

/// Whether some lit cell processed before `(j, i)` lands on pixel `p`.
pub open spec fn toggled_upto(sprite: Seq<u8>, vx: u8, vy: u8, j: int, i: int, p: int) -> bool {
    exists|jj: int, ii: int| cell_before(j, i, jj, ii) && hit_at(sprite, jj, ii) && tgt(vx, vy, jj, ii) == p
}

/// Whether some lit cell processed before `(j, i)` lands on a pixel lit in `fb`.
pub open spec fn coll_upto(fb: Seq<bool>, sprite: Seq<u8>, vx: u8, vy: u8, j: int, i: int) -> bool {
    exists|jj: int, ii: int| cell_before(j, i, jj, ii) && hit_at(sprite, jj, ii) && fb[tgt(vx, vy, jj, ii)]
}

proof fn lemma_wrap_x_inj(vx: u8, a: u8, b: u8)
    by (bit_vector)
    requires
        a < 8,
        b < 8,
        (vx + a) % 64 == (vx + b) % 64,
    ensures
        a == b,
{
}

proof fn lemma_wrap_y_inj(vy: u8, a: u8, b: u8)
    by (bit_vector)
    requires
        a < 32,
        b < 32,
        (vy + a) % 32 == (vy + b) % 32,
    ensures
        a == b,
{
}

proof fn lemma_wrap_mod_x(v: u8, a: u8)
    by (bit_vector)
    ensures
        ((v + a) % 256) % 64 == (v + a) % 64,
{
}

proof fn lemma_wrap_mod_y(v: u8, a: u8)
    by (bit_vector)
    ensures
        ((v + a) % 256) % 32 == (v + a) % 32,
{
}

/// Distinct sprite cells of a sprite of at most 32 rows land on distinct pixels.
proof fn lemma_tgt_inj(vx: u8, vy: u8, j1: int, i1: int, j2: int, i2: int)
    requires
        0 <= j1 < 32,
        0 <= i1 < 8,
        0 <= j2 < 32,
        0 <= i2 < 8,
        tgt(vx, vy, j1, i1) == tgt(vx, vy, j2, i2),
    ensures
        j1 == j2 && i1 == i2,
{
    let x1 = wrap_x(vx, i1);
    let x2 = wrap_x(vx, i2);
    let y1 = wrap_y(vy, j1);
    let y2 = wrap_y(vy, j2);
    assert(0 <= x1 < 64 && 0 <= x2 < 64);
    assert(0 <= y1 < 32 && 0 <= y2 < 32);
    assert(y1 * 64 + x1 == y2 * 64 + x2);
    assert(x1 == x2 && y1 == y2) by (nonlinear_arith)
        requires
            0 <= x1 < 64 && 0 <= x2 < 64 && 0 <= y1 < 32 && 0 <= y2 < 32,
            y1 * 64 + x1 == y2 * 64 + x2,
    ;
    lemma_wrap_x_inj(vx, i1 as u8, i2 as u8);
    lemma_wrap_y_inj(vy, j1 as u8, j2 as u8);
}

/// Drawing a sprite with at least one lit cell, which reported no
/// collision, again at the same coordinates reports a collision: the first
/// blit lit every pixel the sprite touches, so the second finds them lit.
pub proof fn lemma_redraw_collides(fb: Seq<bool>, sprite: Seq<u8>, vx: u8, vy: u8)
    requires
        fb.len() == SCREEN_PIXELS,
        sprite.len() <= 32,
        exists|j: int, i: int| hit_at(sprite, j, i),
        !draw_collision(fb, sprite, vx, vy),
    ensures
        draw_collision(draw_fb(fb, sprite, vx, vy), sprite, vx, vy),
{
    let (j, i) = choose|j: int, i: int| hit_at(sprite, j, i);
    let t = tgt(vx, vy, j, i);
    assert(0 <= wrap_x(vx, i) < 64);
    assert(0 <= wrap_y(vy, j) < 32);
    assert(0 <= t < SCREEN_PIXELS);
    if fb[t] {
        assert(hit_at(sprite, j, i) && fb[tgt(vx, vy, j, i)]);
        assert(false);
    }
    assert(hit_at(sprite, j, i) && tgt(vx, vy, j, i) == t);
    assert(toggled(sprite, vx, vy, t));
    assert(draw_fb(fb, sprite, vx, vy)[t] == !fb[t]);
    assert(hit_at(sprite, j, i) && draw_fb(fb, sprite, vx, vy)[tgt(vx, vy, j, i)]);
}

/// The XOR blit self-cancels: drawing the same sprite twice at the same
/// coordinates restores every pixel to its value before the first draw.
pub proof fn lemma_redraw_restores(fb: Seq<bool>, sprite: Seq<u8>, vx: u8, vy: u8)
    requires
        fb.len() == SCREEN_PIXELS,
    ensures
        draw_fb(draw_fb(fb, sprite, vx, vy), sprite, vx, vy) == fb,
{
    assert(draw_fb(draw_fb(fb, sprite, vx, vy), sprite, vx, vy) =~= fb);
}

/// The byte at offset `p` of the rendered RGBA frame: four bytes per frame
/// pixel, the screen scaled tenfold in both directions, lit pixels white,
/// unlit pixels black, alpha always opaque.
pub open spec fn rgba_byte(fb: Seq<bool>, p: int) -> u8 {
    if p % 4 == 3 {
        255u8
    } else if fb[pix(((p / 4) % 640) / 10, ((p / 4) / 640) / 10)] {
        255u8
    } else {
        0u8
    }
}

/// Render the framebuffer into a 640x320 RGBA byte frame, each screen pixel
/// scaled tenfold.
pub fn draw(frame: &mut Vec<u8>, display: &Display)
    requires
        display.wf(),
        old(frame)@.len() == 819200,
    ensures
        final(frame)@.len() == 819200,
        forall|p: int| 0 <= p < 819200 ==> final(frame)@[p] == rgba_byte(display@.fb, p),
{
    let mut q: usize = 0;
    while q < 204800
        invariant
            display.wf(),
            frame@.len() == 819200,
            q <= 204800,
            forall|p: int| 0 <= p < 4 * q ==> frame@[p] == rgba_byte(display@.fb, p),
        decreases 204800 - q,
    {
        let x = q % 640;
        let y = q / 640;
        proof {
            assert(y < 320) by (nonlinear_arith)
                requires
                    q < 204800,
                    y == q as int / 640,
            ;
        }
        let lit = display.get_pixel(x / 10, y / 10);
        let v: u8 = if lit {
            255
        } else {
            0
        };
        frame[4 * q] = v;
        frame[4 * q + 1] = v;
        frame[4 * q + 2] = v;
        frame[4 * q + 3] = 255;
        proof {
            assert forall|k: int| 0 <= k < 4 implies #[trigger] ((4 * q + k) / 4) == q as int && (4 * q + k) % 4 == k by {
                assert((4 * q + k) / 4 == q as int && (4 * q + k) % 4 == k) by (nonlinear_arith)
                    requires
                        0 <= k < 4,
                        0 <= q,
                ;
            };
        }
        q = q + 1;
    }
}

impl Display {
    pub open spec fn wf(self) -> bool {
        self@.fb.len() == SCREEN_PIXELS
    }

    pub fn new() -> (r: Display)
        ensures
            r.wf(),
            !r@.redraw,
            forall|p: int| 0 <= p < SCREEN_PIXELS ==> !r@.fb[p],
    {
        let mut framebuffer: Vec<bool> = Vec::new();
        let mut k: usize = 0;
        while k < SCREEN_PIXELS
            invariant
                framebuffer@.len() == k,
                k <= SCREEN_PIXELS,
                forall|p: int| 0 <= p < k ==> !framebuffer@[p],
            decreases SCREEN_PIXELS - k,
        {
            framebuffer.push(false);
            k = k + 1;
        }
        Display { framebuffer, req_draw: false }
    }

    pub fn clear_screen(&mut self)
        requires
            old(self).wf(),
        ensures
            final(self).wf(),
            final(self)@.redraw,
            final(self)@.fb == blank_fb(),
    {
        let mut k: usize = 0;
        while k < SCREEN_PIXELS
            invariant
                self.framebuffer@.len() == SCREEN_PIXELS,
                k <= SCREEN_PIXELS,
                forall|p: int| 0 <= p < k ==> !self.framebuffer@[p],
            decreases SCREEN_PIXELS - k,
        {
            self.framebuffer[k] = false;
            k = k + 1;
        }
        self.req_draw = true;
        proof {
            assert(self@.fb =~= blank_fb());
        }
    }

    pub fn set_pixel(&mut self, x: usize, y: usize, value: bool)
        requires
            old(self).wf(),
            x < SCREEN_W,
            y < SCREEN_H,
        ensures
            final(self).wf(),
            final(self)@.fb == old(self)@.fb.update(pix(x as int, y as int), value),
            final(self)@.redraw == old(self)@.redraw,
    {
        self.framebuffer[y * 64 + x] = value;
    }

    pub fn get_pixel(&self, x: usize, y: usize) -> (r: bool)
        requires
            self.wf(),
            x < SCREEN_W,
            y < SCREEN_H,
        ensures
            r == self@.fb[pix(x as int, y as int)],
    {
        self.framebuffer[y * 64 + x]
    }

    /// XOR-blit an 8-pixel-wide sprite of up to 32 rows at `(vx, vy)`, with
    /// both coordinates wrapped; reports whether any pixel that was lit
    /// before the blit is toggled off by it.
    pub fn draw_s(&mut self, vx: u8, vy: u8, bytes: &[u8]) -> (collision: bool)
        requires
            old(self).wf(),
            bytes@.len() <= 32,
        ensures
            final(self).wf(),
            final(self)@.fb == draw_fb(old(self)@.fb, bytes@, vx, vy),
            final(self)@.redraw,
            collision == draw_collision(old(self)@.fb, bytes@, vx, vy),
    {
        let ghost fb0 = self@.fb;
        let ghost s = bytes@;
        let mut collision = false;
        let mut j: usize = 0;
        while j < bytes.len()
            invariant
                self.wf(),
                bytes@ == s,
                s.len() <= 32,
                j <= s.len(),
                fb0.len() == SCREEN_PIXELS,
                forall|p: int| 0 <= p < SCREEN_PIXELS ==> self@.fb[p] == (if toggled_upto(s, vx, vy, j as int, 0, p) { !fb0[p] } else { fb0[p] }),
                collision == coll_upto(fb0, s, vx, vy, j as int, 0),
                self@.redraw == old(self)@.redraw,
            decreases s.len() - j,
        {
            let row = bytes[j];
            let mut i: usize = 0;
            while i < 8
                invariant
                    self.wf(),
                    bytes@ == s,
                    s.len() <= 32,
                    j < s.len(),
                    i <= 8,
                    row == s[j as int],
                    fb0.len() == SCREEN_PIXELS,
                    forall|p: int| 0 <= p < SCREEN_PIXELS ==> self@.fb[p] == (if toggled_upto(s, vx, vy, j as int, i as int, p) { !fb0[p] } else { fb0[p] }),
                    collision == coll_upto(fb0, s, vx, vy, j as int, i as int),
                    self@.redraw == old(self)@.redraw,
                decreases 8 - i,
            {
                let sh: u8 = (7 - i) as u8;
                let new_pixel: u8 = (row >> sh) & 0x01;
                if new_pixel == 1 {
                    assert(sprite_bit(s, j as int, i as int));
                    let xi: u8 = vx.wrapping_add(i as u8) % 64;
                    let yj: u8 = vy.wrapping_add(j as u8) % 32;
                    proof {
                        lemma_wrap_mod_x(vx, i as u8);
                        lemma_wrap_mod_y(vy, j as u8);
                        assert(xi as int == wrap_x(vx, i as int));
                        assert(yj as int == wrap_y(vy, j as int));
                    }
                    let ghost t = tgt(vx, vy, j as int, i as int);
                    let old_pixel = self.get_pixel(xi as usize, yj as usize);
                    proof {
                        // No earlier cell lands on this pixel, so it still holds
                        // its pre-blit value.
                        if toggled_upto(s, vx, vy, j as int, i as int, t) {
                            let (jj, ii) = choose|jj: int, ii: int| cell_before(j as int, i as int, jj, ii) && hit_at(s, jj, ii) && tgt(vx, vy, jj, ii) == t;
                            lemma_tgt_inj(vx, vy, jj, ii, j as int, i as int);
                            assert(false);
                        }
                        assert(old_pixel == fb0[t]);
                    }
                    if old_pixel {
                        collision = true;
                    }
                    self.set_pixel(xi as usize, yj as usize, !old_pixel);
                    proof {
                        assert forall|p: int| 0 <= p < SCREEN_PIXELS implies self@.fb[p] == (if toggled_upto(s, vx, vy, j as int, i + 1, p) { !fb0[p] } else { fb0[p] }) by {
                            if p == t {
                                assert(hit_at(s, j as int, i as int) && tgt(vx, vy, j as int, i as int) == p);
                                assert(cell_before(j as int, i + 1, j as int, i as int));
                                assert(toggled_upto(s, vx, vy, j as int, i + 1, p));
                            } else {
                                if toggled_upto(s, vx, vy, j as int, i + 1, p) {
                                    let (jj, ii) = choose|jj: int, ii: int| cell_before(j as int, i + 1, jj, ii) && hit_at(s, jj, ii) && tgt(vx, vy, jj, ii) == p;
                                    if jj == j as int && ii == i as int {
                                        assert(p == t);
                                        assert(false);
                                    }
                                    assert(cell_before(j as int, i as int, jj, ii));
                                    assert(toggled_upto(s, vx, vy, j as int, i as int, p));
                                }
                                if toggled_upto(s, vx, vy, j as int, i as int, p) {
                                    let (jj, ii) = choose|jj: int, ii: int| cell_before(j as int, i as int, jj, ii) && hit_at(s, jj, ii) && tgt(vx, vy, jj, ii) == p;
                                    assert(cell_before(j as int, i + 1, jj, ii));
                                    assert(toggled_upto(s, vx, vy, j as int, i + 1, p));
                                }
                            }
                        };
                        if collision != coll_upto(fb0, s, vx, vy, j as int, i + 1) {
                            if coll_upto(fb0, s, vx, vy, j as int, i + 1) {
                                let (jj, ii) = choose|jj: int, ii: int| cell_before(j as int, i + 1, jj, ii) && hit_at(s, jj, ii) && fb0[tgt(vx, vy, jj, ii)];
                                if jj == j as int && ii == i as int {
                                    assert(old_pixel);
                                } else {
                                    assert(cell_before(j as int, i as int, jj, ii));
                                    assert(coll_upto(fb0, s, vx, vy, j as int, i as int));
                                }
                            } else {
                                assert(!coll_upto(fb0, s, vx, vy, j as int, i as int));
                                assert(!(hit_at(s, j as int, i as int) && fb0[t]));
                            }
                            assert(false);
                        }
                    }
                } else {
                    proof {
                        assert(!sprite_bit(s, j as int, i as int));
                        assert forall|p: int| 0 <= p < SCREEN_PIXELS implies toggled_upto(s, vx, vy, j as int, i + 1, p) == toggled_upto(s, vx, vy, j as int, i as int, p) by {
                            if toggled_upto(s, vx, vy, j as int, i + 1, p) {
                                let (jj, ii) = choose|jj: int, ii: int| cell_before(j as int, i + 1, jj, ii) && hit_at(s, jj, ii) && tgt(vx, vy, jj, ii) == p;
                                assert(cell_before(j as int, i as int, jj, ii));
                            }
                            if toggled_upto(s, vx, vy, j as int, i as int, p) {
                                let (jj, ii) = choose|jj: int, ii: int| cell_before(j as int, i as int, jj, ii) && hit_at(s, jj, ii) && tgt(vx, vy, jj, ii) == p;
                                assert(cell_before(j as int, i + 1, jj, ii));
                            }
                        };
                        if coll_upto(fb0, s, vx, vy, j as int, i + 1) != coll_upto(fb0, s, vx, vy, j as int, i as int) {
                            if coll_upto(fb0, s, vx, vy, j as int, i + 1) {
                                let (jj, ii) = choose|jj: int, ii: int| cell_before(j as int, i + 1, jj, ii) && hit_at(s, jj, ii) && fb0[tgt(vx, vy, jj, ii)];
                                assert(cell_before(j as int, i as int, jj, ii));
                            } else {
                                let (jj, ii) = choose|jj: int, ii: int| cell_before(j as int, i as int, jj, ii) && hit_at(s, jj, ii) && fb0[tgt(vx, vy, jj, ii)];
                                assert(cell_before(j as int, i + 1, jj, ii));
                            }
                            assert(false);
                        }
                    }
                }
                i = i + 1;
            }
            proof {
                assert forall|p: int| 0 <= p < SCREEN_PIXELS implies toggled_upto(s, vx, vy, j + 1, 0, p) == toggled_upto(s, vx, vy, j as int, 8, p) by {
                    if toggled_upto(s, vx, vy, j + 1, 0, p) {
                        let (jj, ii) = choose|jj: int, ii: int| cell_before(j + 1, 0, jj, ii) && hit_at(s, jj, ii) && tgt(vx, vy, jj, ii) == p;
                        assert(cell_before(j as int, 8, jj, ii));
                    }
                    if toggled_upto(s, vx, vy, j as int, 8, p) {
                        let (jj, ii) = choose|jj: int, ii: int| cell_before(j as int, 8, jj, ii) && hit_at(s, jj, ii) && tgt(vx, vy, jj, ii) == p;
                        assert(cell_before(j + 1, 0, jj, ii));
                    }
                };
                if coll_upto(fb0, s, vx, vy, j + 1, 0) != coll_upto(fb0, s, vx, vy, j as int, 8) {
                    if coll_upto(fb0, s, vx, vy, j + 1, 0) {
                        let (jj, ii) = choose|jj: int, ii: int| cell_before(j + 1, 0, jj, ii) && hit_at(s, jj, ii) && fb0[tgt(vx, vy, jj, ii)];
                        assert(cell_before(j as int, 8, jj, ii));
                    } else {
                        let (jj, ii) = choose|jj: int, ii: int| cell_before(j as int, 8, jj, ii) && hit_at(s, jj, ii) && fb0[tgt(vx, vy, jj, ii)];
                        assert(cell_before(j + 1, 0, jj, ii));
                    }
                    assert(false);
                }
            }
            j = j + 1;
        }
        self.req_draw = true;
        proof {
            assert forall|p: int| 0 <= p < SCREEN_PIXELS implies toggled_upto(s, vx, vy, s.len() as int, 0, p) == toggled(s, vx, vy, p) by {
                if toggled_upto(s, vx, vy, s.len() as int, 0, p) {
                    let (jj, ii) = choose|jj: int, ii: int| cell_before(s.len() as int, 0, jj, ii) && hit_at(s, jj, ii) && tgt(vx, vy, jj, ii) == p;
                    assert(hit_at(s, jj, ii) && tgt(vx, vy, jj, ii) == p);
                }
                if toggled(s, vx, vy, p) {
                    let (jj, ii) = choose|jj: int, ii: int| hit_at(s, jj, ii) && tgt(vx, vy, jj, ii) == p;
                    assert(cell_before(s.len() as int, 0, jj, ii));
                }
            };
            if coll_upto(fb0, s, vx, vy, s.len() as int, 0) != draw_collision(fb0, s, vx, vy) {
                if coll_upto(fb0, s, vx, vy, s.len() as int, 0) {
                    let (jj, ii) = choose|jj: int, ii: int| cell_before(s.len() as int, 0, jj, ii) && hit_at(s, jj, ii) && fb0[tgt(vx, vy, jj, ii)];
                    assert(hit_at(s, jj, ii) && fb0[tgt(vx, vy, jj, ii)]);
                } else {
                    let (jj, ii) = choose|jj: int, ii: int| hit_at(s, jj, ii) && fb0[tgt(vx, vy, jj, ii)];
                    assert(cell_before(s.len() as int, 0, jj, ii));
                }
                assert(false);
            }
            assert(self@.fb =~= draw_fb(fb0, s, vx, vy));
        }
        collision
    }
}

} // verus!
