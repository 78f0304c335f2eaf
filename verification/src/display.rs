//! Video memory: a 32-row, 64-bit-per-row monochrome bitmap, mutated only by
//! clearing and by XOR-drawing sprites, plus the rasterizer that scales it
//! into a 32-bit pixel buffer for the host to present.

use vstd::prelude::*;

verus! {

/// Mathematical model of a `Display`.
#[verifier::ext_equal]
pub ghost struct DisplayView {
    /// The bitmap: one `u64` per row, bit 63 is column 0.
    pub rows: Seq<u64>,
    /// Set whenever the bitmap changed since the last rasterization.
    pub dirty: bool,
    /// The scaled pixel buffer, row-major, `width * height` entries.
    pub frame: Seq<u32>,
    pub width: int,
    pub height: int,
    pub on_color: u32,
    pub off_color: u32,
}

/// The 64 x 32 monochrome framebuffer together with the scaled pixel buffer
/// it is rasterized into. The window that presents the pixels is the host's
/// business; this type never touches a device.
pub struct Display {
    pub vram: Vec<u64>,
    draw_flag: bool,
    framebuffer: Vec<u32>,
    buf_width: usize,
    buf_height: usize,
    on_color: u32,
    off_color: u32,
}

impl View for Display {
    type V = DisplayView;

    closed spec fn view(&self) -> DisplayView {
        DisplayView {
            rows: self.vram@,
            dirty: self.draw_flag,
            frame: self.framebuffer@,
            width: self.buf_width as int,
            height: self.buf_height as int,
            on_color: self.on_color,
            off_color: self.off_color,
        }
    }
}

/// The 64-bit row pattern obtained by placing the sprite byte `b` at
/// horizontal offset `x`: bits pushed past column 63 are dropped, the sprite
/// never wraps horizontally.
pub open spec fn sprite_pattern(b: u8, x: u8) -> u64 {
    ((b as u64) << 56u64) >> x
}

/// The bitmap after XOR-compositing `sprite` with its origin at column `x`,
/// row `y` (both already reduced modulo the grid size). Rows that would fall
/// below row 31 are clipped, not wrapped.
pub open spec fn draw_rows(rows: Seq<u64>, x: u8, y: u8, sprite: Seq<u8>) -> Seq<u64> {
    Seq::new(32, |r: int|
        if y <= r < y + sprite.len() {
            rows[r] ^ sprite_pattern(sprite[r - y], x)
        } else {
            rows[r]
        })
}

/// Whether XOR-compositing `sprite` at `(x, y)` onto `rows` erases any pixel
/// that was already lit: true when the pattern of some un-clipped sprite row
/// overlaps a set bit of the row it lands on.
pub open spec fn draw_collision(rows: Seq<u64>, x: u8, y: u8, sprite: Seq<u8>) -> bool {
    exists|s: int|
        0 <= s < sprite.len() && y + s < 32
            && rows[y + s] & #[trigger] sprite_pattern(sprite[s], x) != 0
}

/// Whether the logical pixel at `(row, col)` is lit; column 0 is bit 63.
pub open spec fn pixel_on(rows: Seq<u64>, row: int, col: int) -> bool {
    (rows[row] >> ((63 - col) as u64)) & 1u64 == 1u64
}

/// The color that rasterization gives pixel `idx` of a `width`-pixels-wide
/// buffer: each logical pixel covers a 10 x 10 block, pixels beyond the
/// 640 x 320 image keep their old value.
pub open spec fn frame_color(
    rows: Seq<u64>,
    old_frame: Seq<u32>,
    on: u32,
    off: u32,
    width: int,
    idx: int,
) -> u32 {
    let px = idx % width;
    let py = idx / width;
    if px < 640 && py < 320 {
        if pixel_on(rows, py / 10, px / 10) {
            on
        } else {
            off
        }
    } else {
        old_frame[idx]
    }
}

/// The parts of a display that only rasterization may change are equal.
pub open spec fn same_presentation(a: DisplayView, b: DisplayView) -> bool {
    &&& a.frame == b.frame
    &&& a.width == b.width
    &&& a.height == b.height
    &&& a.on_color == b.on_color
    &&& a.off_color == b.off_color
}

/// A 24-bit color from its three channels.
pub open spec fn rgb_of(r: u8, g: u8, b: u8) -> u32 {
    ((r as u32) << 16u32) | ((g as u32) << 8u32) | (b as u32)
}

impl Display {
    pub open spec fn wf(&self) -> bool {
        &&& self@.rows.len() == 32
        &&& self@.frame.len() == self@.width * self@.height
        &&& self@.width >= 0
        &&& self@.height >= 0
    }

    /// A cleared display whose pixel buffer is `buf_width` by `buf_height`,
    /// lit pixels white, unlit pixels black.
    pub fn build(buf_width: usize, buf_height: usize) -> (r: Display)
        requires
            buf_width * buf_height <= usize::MAX,
        ensures
            r.wf(),
            r@.width == buf_width,
            r@.height == buf_height,
            !r@.dirty,
            forall|i: int| 0 <= i < 32 ==> r@.rows[i] == 0,
            forall|i: int| 0 <= i < r@.frame.len() ==> r@.frame[i] == 0,
            r@.on_color == rgb_of(255, 255, 255),
            r@.off_color == rgb_of(0, 0, 0),
    {
        Display {
            vram: vec![0u64; 32],
            draw_flag: false,
            framebuffer: vec![0u32; buf_width * buf_height],
            buf_width,
            buf_height,
            on_color: Display::u8_to_rgb(255, 255, 255),
            off_color: Display::u8_to_rgb(0, 0, 0),
        }
    }

    fn u8_to_rgb(r: u8, g: u8, b: u8) -> (rgb: u32)
        ensures
            rgb == rgb_of(r, g, b),
    {
        ((r as u32) << 16u32) | ((g as u32) << 8u32) | (b as u32)
    }

    /// XOR-draw `sprite` with its origin at `(x, y)`; the origin wraps on the
    /// grid, the sprite body is clipped at the right and bottom edges.
    /// Returns whether the draw erased any lit pixel.
    pub fn draw_to_vram(&mut self, x: u8, y: u8, sprite: &[u8]) -> (collision: bool)
        requires
            old(self).wf(),
        ensures
            final(self).wf(),
            final(self)@.rows == draw_rows(old(self)@.rows, x % 64, y % 32, sprite@),
            collision == draw_collision(old(self)@.rows, x % 64, y % 32, sprite@),
            final(self)@.dirty,
            same_presentation(final(self)@, old(self)@),
    {
        let x0 = x % 64;
        let y0 = y % 32;
        let ghost rows0 = self.vram@;
        let mut collision = false;
        let mut row: usize = 0;
        while row < sprite.len() && y0 as usize + row <= 31
            invariant
                old(self).wf(),
                self.wf(),
                same_presentation(self@, old(self)@),
                self.draw_flag == old(self)@.dirty,
                rows0 == old(self)@.rows,
                x0 == x % 64,
                y0 == y % 32,
                row <= sprite@.len(),
                y0 + row <= 32,
                forall|j: int| 0 <= j < 32 ==> self.vram@[j] == (
                    if y0 <= j < y0 + row {
                        rows0[j] ^ sprite_pattern(sprite@[j - y0], x0)
                    } else {
                        rows0[j]
                    }),
                collision == (exists|s: int|
                    0 <= s < row && rows0[y0 + s] & #[trigger] sprite_pattern(sprite@[s], x0)
                        != 0),
            decreases sprite@.len() - row,
        {
            let row_y = y0 as usize + row;
            let data = ((sprite[row] as u64) << 56u64) >> x0;
            let line = self.vram[row_y];
            proof {
                assert(line == rows0[row_y as int]);
                assert(data == sprite_pattern(sprite@[row as int], x0));
            }
            if line & data != 0 {
                collision = true;
                proof {
                    let s = row as int;
                    assert(rows0[y0 + s] & sprite_pattern(sprite@[s], x0) != 0);
                }
            }
            self.vram[row_y] = line ^ data;
            row = row + 1;
        }
        self.draw_flag = true;
        proof {
            let len = sprite@.len() as int;
            assert forall|j: int| 0 <= j < 32 implies
                self.vram@[j] == draw_rows(rows0, x0, y0, sprite@)[j] by {
                if row < len {
                    assert(y0 + row > 31);
                }
            };
            assert(self.vram@ =~= draw_rows(rows0, x0, y0, sprite@));
            if collision {
                let s = choose|s: int|
                    0 <= s < row && rows0[y0 + s] & #[trigger] sprite_pattern(sprite@[s], x0)
                        != 0;
                assert(0 <= s < len && y0 + s < 32
                    && rows0[y0 + s] & sprite_pattern(sprite@[s], x0) != 0);
            }
            if draw_collision(rows0, x0, y0, sprite@) {
                let s = choose|s: int|
                    0 <= s < sprite@.len() && y0 + s < 32
                        && rows0[y0 + s] & #[trigger] sprite_pattern(sprite@[s], x0) != 0;
                if row < len {
                    assert(y0 + row > 31);
                }
                assert(0 <= s < row && rows0[y0 + s] & sprite_pattern(sprite@[s], x0) != 0);
            }
            assert(collision == draw_collision(rows0, x0, y0, sprite@));
        }
        collision
    }

    /// Zero every row and mark the bitmap dirty.
    pub fn clear_vram(&mut self)
        requires
            old(self).wf(),
        ensures
            final(self).wf(),
            forall|r: int| 0 <= r < 32 ==> final(self)@.rows[r] == 0,
            final(self)@.dirty,
            same_presentation(final(self)@, old(self)@),
    {
        let mut r: usize = 0;
        while r < 32
            invariant
                old(self).wf(),
                self.wf(),
                same_presentation(self@, old(self)@),
                r <= 32,
                forall|j: int| 0 <= j < r ==> self.vram@[j] == 0,
            decreases 32 - r,
        {
            self.vram[r] = 0;
            r = r + 1;
        }
        self.draw_flag = true;
    }

    /// Rasterize the bitmap into the pixel buffer at 10x scale, lit pixels in
    /// `on_color`, unlit in `off_color`, if it changed since the last call;
    /// clears the dirty flag. Pixels outside the 640 x 320 image keep their
    /// old value.
    pub fn render(&mut self)
        requires
            old(self).wf(),
            old(self)@.width >= 640,
            old(self)@.height >= 320,
        ensures
            final(self).wf(),
            !old(self)@.dirty ==> final(self)@ == old(self)@,
            old(self)@.dirty ==> {
                &&& !final(self)@.dirty
                &&& final(self)@.rows == old(self)@.rows
                &&& final(self)@.width == old(self)@.width
                &&& final(self)@.height == old(self)@.height
                &&& final(self)@.on_color == old(self)@.on_color
                &&& final(self)@.off_color == old(self)@.off_color
                &&& final(self)@.frame.len() == old(self)@.frame.len()
                &&& forall|idx: int| 0 <= idx < final(self)@.frame.len()
                    ==> final(self)@.frame[idx] == frame_color(
                        old(self)@.rows,
                        old(self)@.frame,
                        old(self)@.on_color,
                        old(self)@.off_color,
                        old(self)@.width,
                        idx,
                    )
            },
    {
        if !self.draw_flag {
            return;
        }
        let ghost rows0 = self.vram@;
        let ghost frame0 = self.framebuffer@;
        let ghost w = self.buf_width as int;
        let mut py: usize = 0;
        while py < 320
            invariant
                old(self).wf(),
                self.wf(),
                self@.rows == rows0,
                rows0 == old(self)@.rows,
                frame0 == old(self)@.frame,
                self@.dirty == old(self)@.dirty,
                self@.width == old(self)@.width,
                self@.height == old(self)@.height,
                self@.on_color == old(self)@.on_color,
                self@.off_color == old(self)@.off_color,
                w == self@.width,
                w >= 640,
                self@.height >= 320,
                py <= 320,
                forall|idx: int| 0 <= idx < py * w
                    ==> self@.frame[idx] == frame_color(
                        rows0, frame0, self@.on_color, self@.off_color, w, idx),
                forall|idx: int| py * w <= idx < self@.frame.len()
                    ==> self@.frame[idx] == frame0[idx],
            decreases 320 - py,
        {
            let mut px: usize = 0;
            while px < 640
                invariant
                    old(self).wf(),
                    self.wf(),
                    self@.rows == rows0,
                    rows0 == old(self)@.rows,
                    frame0 == old(self)@.frame,
                    self@.dirty == old(self)@.dirty,
                    self@.width == old(self)@.width,
                    self@.height == old(self)@.height,
                    self@.on_color == old(self)@.on_color,
                    self@.off_color == old(self)@.off_color,
                    w == self@.width,
                    w >= 640,
                    self@.height >= 320,
                    py < 320,
                    px <= 640,
                    forall|idx: int| 0 <= idx < py * w + px
                        ==> self@.frame[idx] == frame_color(
                            rows0, frame0, self@.on_color, self@.off_color, w, idx),
                    forall|idx: int| py * w + px <= idx < self@.frame.len()
                        ==> self@.frame[idx] == frame0[idx],
                decreases 640 - px,
            {
                let flen = self.framebuffer.len();
                proof {
                    assert(py * w + px < w * self@.height) by (nonlinear_arith)
                        requires
                            0 <= py,
                            0 <= px,
                            py < 320,
                            320 <= self@.height,
                            px < 640,
                            640 <= w,
                    ;
                    assert(py * w + px < flen);
                    vstd::arithmetic::div_mod::lemma_fundamental_div_mod_converse(
                        py * w + px, w, py as int, px as int);
                }
                let line = self.vram[py / 10];
                let sh: u64 = 63u64 - ((px / 10) as u64);
                let bit = (line >> sh) & 1u64;
                let color = if bit == 1 { self.on_color } else { self.off_color };
                let idx = py * self.buf_width + px;
                self.framebuffer[idx] = color;
                px = px + 1;
            }
            proof {
                assert((py + 1) * w == py * w + w) by (nonlinear_arith);
                assert((py + 1) * w <= w * self@.height) by (nonlinear_arith)
                    requires
                        0 <= py,
                        py + 1 <= 320,
                        320 <= self@.height,
                        w >= 0,
                ;
                assert forall|idx: int| 0 <= idx < (py + 1) * w implies
                    self@.frame[idx] == frame_color(
                        rows0, frame0, self@.on_color, self@.off_color, w, idx) by {
                    if py * w + 640 <= idx {
                        let px2 = idx - py * w;
                        vstd::arithmetic::div_mod::lemma_fundamental_div_mod_converse(
                            idx, w, py as int, px2);
                    }
                };
            }
            py = py + 1;
        }
        self.draw_flag = false;
        proof {
            assert forall|idx: int| 0 <= idx < self@.frame.len() implies
                self@.frame[idx] == frame_color(
                    rows0, frame0, self@.on_color, self@.off_color, w, idx) by {
                if 320 * w <= idx {
                    vstd::arithmetic::div_mod::lemma_fundamental_div_mod(idx, w);
                    vstd::arithmetic::div_mod::lemma_mod_bound(idx, w);
                    let py2 = idx / w;
                    let px2 = idx % w;
                    assert(py2 >= 320) by (nonlinear_arith)
                        requires
                            idx >= 320 * w,
                            idx == w * py2 + px2,
                            0 <= px2 < w,
                            w >= 640,
                    ;
                }
            };
        }
    }

    /// Read-only access to the scaled pixel buffer, for the presenter.
    pub fn frame_buffer(&self) -> (r: &Vec<u32>)
        ensures
            r@ == self@.frame,
    {
        &self.framebuffer
    }

    pub fn width(&self) -> (r: usize)
        ensures
            r == self@.width,
    {
        self.buf_width
    }

    pub fn height(&self) -> (r: usize)
        ensures
            r == self@.height,
    {
        self.buf_height
    }
}

/// Drawing the same sprite at the same origin twice leaves every row exactly
/// as it was: XOR-compositing is its own inverse.
pub proof fn lemma_draw_twice_restores(rows: Seq<u64>, x: u8, y: u8, sprite: Seq<u8>)
    requires
        rows.len() == 32,
        x < 64,
        y < 32,
    ensures
        draw_rows(draw_rows(rows, x, y, sprite), x, y, sprite) == rows,
{
    let once = draw_rows(rows, x, y, sprite);
    let twice = draw_rows(once, x, y, sprite);
    assert forall|r: int| 0 <= r < 32 implies twice[r] == rows[r] by {
        if y <= r < y + sprite.len() {
            let a = rows[r];
            let p = sprite_pattern(sprite[r - y], x);
            assert((a ^ p) ^ p == a) by (bit_vector);
        }
    };
    assert(twice =~= rows);
}

/// A draw that hit nothing and lit at least one pixel collides when repeated
/// at the same origin: the second pass erases what the first one drew.
pub proof fn lemma_redraw_collides(rows: Seq<u64>, x: u8, y: u8, sprite: Seq<u8>)
    requires
        rows.len() == 32,
        x < 64,
        y < 32,
        !draw_collision(rows, x, y, sprite),
        exists|s: int|
            0 <= s < sprite.len() && y + s < 32 && #[trigger] sprite_pattern(sprite[s], x) != 0,
    ensures
        draw_collision(draw_rows(rows, x, y, sprite), x, y, sprite),
{
    let s = choose|s: int|
        0 <= s < sprite.len() && y + s < 32 && #[trigger] sprite_pattern(sprite[s], x) != 0;
    let r = y + s;
    let a = rows[r];
    let p = sprite_pattern(sprite[s], x);
    assert(a & p == 0);
    assert(a & p == 0 && p != 0 ==> (a ^ p) & p != 0) by (bit_vector);
    assert(draw_rows(rows, x, y, sprite)[r] == a ^ p);
    assert(draw_rows(rows, x, y, sprite)[y + s] & sprite_pattern(sprite[s], x) != 0);
}

} // verus!
