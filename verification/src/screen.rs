//! The framebuffer: a fixed-size grid of pixel values with XOR-plot and
//! collision detection, the drawing target of the sprite instruction.
use vstd::prelude::*;

verus! {

/// Mathematical model of a framebuffer: its dimensions and the flat
/// row-major sequence of pixel values.
#[verifier::ext_equal]
pub ghost struct ScreenView {
    pub width: int,
    pub height: int,
    pub scale: int,
    pub pixels: Seq<u8>,
}

impl ScreenView {
    pub open spec fn wf(self) -> bool {
        &&& self.pixels.len() == self.width * self.height
        &&& 0 < self.width <= 255
        &&& 0 < self.height <= 255
    }

    /// The pixel at (x, y), coordinates taken modulo the grid size.
    pub open spec fn at(self, x: int, y: int) -> u8 {
        self.pixels[(y % self.height) * self.width + (x % self.width)]
    }
}

/// One bit of one sprite row XOR-plotted into the pixel sequence, together
/// with whether that plot cleared a previously-set pixel. Bit `j` of `line`
/// (counted from the most significant bit) lands at column `sx + j`;
/// columns beyond the grid wrap when `wrap` holds and are skipped otherwise.
/// The remaining bits `j..8` are then plotted in turn, collisions combined
/// by logical or.
pub open spec fn spec_draw_bits(
    px: Seq<u8>,
    w: int,
    h: int,
    yy: int,
    sx: int,
    line: u8,
    j: int,
    wrap: bool,
) -> (Seq<u8>, bool)
    decreases 8 - j,
{
    if j < 0 || j >= 8 {
        (px, false)
    } else {
        let xx = sx + j;
        if xx < w || wrap {
            let x2 = xx % w;
            let idx = yy * w + x2;
            let bit = (line >> ((7 - j) as u8)) & 1;
            let hit = bit == 1 && px[idx] == 1;
            let px2 = px.update(idx, px[idx] ^ bit);
            let rest = spec_draw_bits(px2, w, h, yy, sx, line, j + 1, wrap);
            (rest.0, hit || rest.1)
        } else {
            spec_draw_bits(px, w, h, yy, sx, line, j + 1, wrap)
        }
    }
}

/// Sprite rows `i..` plotted into the pixel sequence. Row `i` lands on
/// grid row `sy + i`, wrapped or skipped at the bottom edge according to
/// `wrap`; collisions of all rows are combined by logical or.
pub open spec fn spec_draw_rows(
    px: Seq<u8>,
    w: int,
    h: int,
    sx: int,
    sy: int,
    rows: Seq<u8>,
    i: int,
    wrap: bool,
) -> (Seq<u8>, bool)
    decreases rows.len() - i,
{
    if i < 0 || i >= rows.len() {
        (px, false)
    } else {
        let yy0 = sy + i;
        if yy0 < h || wrap {
            let yy = yy0 % h;
            let row = spec_draw_bits(px, w, h, yy, sx, rows[i], 0, wrap);
            let rest = spec_draw_rows(row.0, w, h, sx, sy, rows, i + 1, wrap);
            (rest.0, row.1 || rest.1)
        } else {
            spec_draw_rows(px, w, h, sx, sy, rows, i + 1, wrap)
        }
    }
}

/// The whole sprite `rows` plotted at (sx, sy): the resulting pixel
/// sequence and the aggregated collision flag.
pub open spec fn spec_draw(
    px: Seq<u8>,
    w: int,
    h: int,
    sx: int,
    sy: int,
    rows: Seq<u8>,
    wrap: bool,
) -> (Seq<u8>, bool) {
    spec_draw_rows(px, w, h, sx, sy, rows, 0, wrap)
}

/// A fixed-size pixel grid. `xmax`/`ymax` are the logical dimensions,
/// `scale` a display magnification that only the presentation layer reads.
#[derive(Debug)]
pub struct Screen {
    pub xmax: u8,
    pub ymax: u8,
    pub scale: u8,
    pub pixels: Vec<u8>,
}

impl View for Screen {
    type V = ScreenView;

    open spec fn view(&self) -> ScreenView {
        ScreenView {
            width: self.xmax as int,
            height: self.ymax as int,
            scale: self.scale as int,
            pixels: self.pixels@,
        }
    }
}

impl Screen {
    pub open spec fn wf(&self) -> bool {
        self@.wf()
    }

    pub fn new(xmax: u8, ymax: u8, scale: u8) -> (s: Self)
        requires
            xmax > 0,
            ymax > 0,
        ensures
            s.wf(),
            s@.width == xmax,
            s@.height == ymax,
            s@.scale == scale,
            s@.pixels =~= Seq::new((xmax * ymax) as nat, |i: int| 0u8),
    {
        proof {
            lemma_small_product(xmax as int, ymax as int);
        }
        let n: usize = xmax as usize * ymax as usize;
        let mut pixels: Vec<u8> = Vec::new();
        while pixels.len() < n
            invariant
                pixels@.len() <= n,
                forall|i: int| 0 <= i < pixels@.len() ==> pixels@[i] == 0,
            decreases n - pixels@.len(),
        {
            pixels.push(0);
        }
        Screen { xmax, ymax, scale, pixels }
    }

    pub fn get_width(&self) -> (w: u16)
        ensures
            w == self@.width * self@.scale,
    {
        proof {
            lemma_small_product(self.xmax as int, self.scale as int);
        }
        self.xmax as u16 * self.scale as u16
    }

    pub fn get_height(&self) -> (h: u16)
        ensures
            h == self@.height * self@.scale,
    {
        proof {
            lemma_small_product(self.ymax as int, self.scale as int);
        }
        self.ymax as u16 * self.scale as u16
    }

    pub fn get_pixel(&self, x: u8, y: u8) -> (p: u8)
        requires
            self.wf(),
        ensures
            p == self@.at(x as int, y as int),
    {
        let xi = x as usize % self.xmax as usize;
        let yi = y as usize % self.ymax as usize;
        proof {
            lemma_small_product(yi as int, self.xmax as int);
            lemma_grid_index_in_range(self@.width, self@.height, xi as int, yi as int);
        }
        self.pixels[yi * self.xmax as usize + xi]
    }

    pub fn set_pixel(&mut self, x: u8, y: u8, color: u8)
        requires
            old(self).wf(),
        ensures
            final(self).wf(),
            final(self)@.width == old(self)@.width,
            final(self)@.height == old(self)@.height,
            final(self)@.scale == old(self)@.scale,
            final(self)@.pixels == old(self)@.pixels.update(
                (y as int % old(self)@.height) * old(self)@.width + (x as int % old(self)@.width),
                color,
            ),
    {
        let xi = x as usize % self.xmax as usize;
        let yi = y as usize % self.ymax as usize;
        proof {
            lemma_small_product(yi as int, self.xmax as int);
            lemma_grid_index_in_range(self@.width, self@.height, xi as int, yi as int);
        }
        self.pixels[yi * self.xmax as usize + xi] = color;
    }

    /// Plot an entire sprite at (sx, sy): each bit of each row byte is
    /// XOR-combined with the pixel under it, positions beyond the grid
    /// wrapping when `wrap` holds and being skipped otherwise. Returns
    /// whether any plot cleared a previously-set pixel.
    pub fn draw_sprite(&mut self, sx: u8, sy: u8, rows: &Vec<u8>, wrap: bool) -> (collided: bool)
        requires
            old(self).wf(),
            sx < old(self)@.width,
            sy < old(self)@.height,
            rows@.len() <= 255,
        ensures
            final(self).wf(),
            final(self)@.width == old(self)@.width,
            final(self)@.height == old(self)@.height,
            final(self)@.scale == old(self)@.scale,
            (final(self)@.pixels, collided) == spec_draw(
                old(self)@.pixels,
                old(self)@.width,
                old(self)@.height,
                sx as int,
                sy as int,
                rows@,
                wrap,
            ),
    {
        let ghost px0 = self@.pixels;
        let ghost gw = self@.width;
        let ghost gh = self@.height;
        let w: usize = self.xmax as usize;
        let h: usize = self.ymax as usize;
        let mut collided = false;
        let mut i: usize = 0;
        while i < rows.len()
            invariant
                self.wf(),
                self@.width == gw,
                self@.height == gh,
                self@.scale == old(self)@.scale,
                w == gw,
                h == gh,
                px0 == old(self)@.pixels,
                i <= rows@.len(),
                rows@.len() <= 255,
                sx < gw,
                sy < gh,
                spec_draw(px0, gw, gh, sx as int, sy as int, rows@, wrap).0 == spec_draw_rows(
                    self@.pixels,
                    gw,
                    gh,
                    sx as int,
                    sy as int,
                    rows@,
                    i as int,
                    wrap,
                ).0,
                spec_draw(px0, gw, gh, sx as int, sy as int, rows@, wrap).1 == (collided
                    || spec_draw_rows(
                    self@.pixels,
                    gw,
                    gh,
                    sx as int,
                    sy as int,
                    rows@,
                    i as int,
                    wrap,
                ).1),
            decreases rows@.len() - i,
        {
            let yy0: usize = sy as usize + i;
            if yy0 < h || wrap {
                let yy: usize = yy0 % h;
                let line: u8 = rows[i];
                let ghost cur0 = self@.pixels;
                let ghost coll0 = collided;
                let mut j: usize = 0;
                while j < 8
                    invariant
                        self.wf(),
                        self@.width == gw,
                        self@.height == gh,
                        self@.scale == old(self)@.scale,
                        w == gw,
                        h == gh,
                        j <= 8,
                        sx < gw,
                        yy < gh,
                        spec_draw_bits(cur0, gw, gh, yy as int, sx as int, line, 0, wrap).0
                            == spec_draw_bits(
                            self@.pixels,
                            gw,
                            gh,
                            yy as int,
                            sx as int,
                            line,
                            j as int,
                            wrap,
                        ).0,
                        (coll0 || spec_draw_bits(
                            cur0,
                            gw,
                            gh,
                            yy as int,
                            sx as int,
                            line,
                            0,
                            wrap,
                        ).1) == (collided || spec_draw_bits(
                            self@.pixels,
                            gw,
                            gh,
                            yy as int,
                            sx as int,
                            line,
                            j as int,
                            wrap,
                        ).1),
                    decreases 8 - j,
                {
                    let xx: usize = sx as usize + j;
                    if xx < w || wrap {
                        let x2: usize = xx % w;
                        let shift: u8 = (7 - j) as u8;
                        let bit: u8 = (line >> shift) & 1;
                        proof {
                            lemma_small_product(x2 as int, h as int);
                            lemma_grid_index_in_range(gw, gh, x2 as int, yy as int);
                            lemma_small_product(yy as int, w as int);
                        }
                        let idx: usize = yy * w + x2;
                        let prev: u8 = self.pixels[idx];
                        self.pixels[idx] = prev ^ bit;
                        if bit == 1 && prev == 1 {
                            collided = true;
                        }
                    }
                    j += 1;
                }
                proof {
                    assert(spec_draw_bits(
                        self@.pixels,
                        gw,
                        gh,
                        yy as int,
                        sx as int,
                        line,
                        8,
                        wrap,
                    ) == (self@.pixels, false));
                }
            }
            i += 1;
        }
        collided
    }

    pub fn clear(&mut self)
        requires
            old(self).wf(),
        ensures
            final(self).wf(),
            final(self)@.width == old(self)@.width,
            final(self)@.height == old(self)@.height,
            final(self)@.scale == old(self)@.scale,
            final(self)@.pixels =~= Seq::new(old(self)@.pixels.len(), |i: int| 0u8),
    {
        let n: usize = self.pixels.len();
        let mut i: usize = 0;
        while i < n
            invariant
                n == self.pixels@.len(),
                i <= n,
                self.xmax == old(self).xmax,
                self.ymax == old(self).ymax,
                self.scale == old(self).scale,
                forall|k: int| 0 <= k < i ==> self.pixels@[k] == 0,
            decreases n - i,
        {
            self.pixels[i] = 0;
            i += 1;
        }
    }
}

proof fn lemma_xor_self(a: u8, b: u8)
    ensures
        a ^ a == b ^ b,
{
    assert(a ^ a == b ^ b) by (bit_vector);
}

proof fn lemma_xor_strip(a: u8, b: u8, c: u8, e: u8, d: u8)
    requires
        a ^ (c ^ d) == b ^ (e ^ d),
    ensures
        a ^ c == b ^ e,
{
    assert(a ^ (c ^ d) == b ^ (e ^ d) ==> a ^ c == b ^ e) by (bit_vector);
}

proof fn lemma_xor_transfer(a: u8, b: u8, c: u8, d: u8, e: u8, f: u8)
    requires
        a ^ b == d ^ e,
        b ^ c == e ^ f,
    ensures
        a ^ c == d ^ f,
{
    assert((a ^ b == d ^ e && b ^ c == e ^ f) ==> a ^ c == d ^ f) by (bit_vector);
}

proof fn lemma_mod_bound(a: int, m: int)
    requires
        0 <= a,
        0 < m,
    ensures
        0 <= a % m < m,
{
    assert(0 <= a % m < m) by (nonlinear_arith)
        requires
            0 <= a,
            0 < m,
    ;
}

/// Plotting one sprite row changes each pixel by an XOR delta that does not
/// depend on the pixel contents the row was plotted over.
proof fn lemma_draw_bits_delta(
    px: Seq<u8>,
    q: Seq<u8>,
    w: int,
    h: int,
    yy: int,
    sx: int,
    line: u8,
    j: int,
    wrap: bool,
    k: int,
)
    requires
        px.len() == q.len(),
        px.len() == w * h,
        0 <= k < px.len(),
        0 < w,
        0 < h,
        0 <= yy < h,
        0 <= sx,
    ensures
        spec_draw_bits(px, w, h, yy, sx, line, j, wrap).0.len() == px.len(),
        spec_draw_bits(q, w, h, yy, sx, line, j, wrap).0.len() == q.len(),
        spec_draw_bits(px, w, h, yy, sx, line, j, wrap).0[k] ^ px[k] == spec_draw_bits(
            q,
            w,
            h,
            yy,
            sx,
            line,
            j,
            wrap,
        ).0[k] ^ q[k],
    decreases 8 - j,
{
    if j < 0 || j >= 8 {
        lemma_xor_self(px[k], q[k]);
    } else {
        let xx = sx + j;
        if xx < w || wrap {
            let x2 = xx % w;
            lemma_mod_bound(xx, w);
            lemma_grid_index_in_range(w, h, x2, yy);
            let idx = yy * w + x2;
            let bit = (line >> ((7 - j) as u8)) & 1;
            let px2 = px.update(idx, px[idx] ^ bit);
            let q2 = q.update(idx, q[idx] ^ bit);
            lemma_draw_bits_delta(px2, q2, w, h, yy, sx, line, j + 1, wrap, k);
            let a = spec_draw_bits(px2, w, h, yy, sx, line, j + 1, wrap).0[k];
            let b = spec_draw_bits(q2, w, h, yy, sx, line, j + 1, wrap).0[k];
            if k == idx {
                lemma_xor_strip(a, b, px[k], q[k], bit);
            } else {
                assert(px2[k] == px[k]);
                assert(q2[k] == q[k]);
            }
        } else {
            lemma_draw_bits_delta(px, q, w, h, yy, sx, line, j + 1, wrap, k);
        }
    }
}

/// Plotting a whole sprite changes each pixel by an XOR delta that does not
/// depend on the pixel contents the sprite was plotted over.
proof fn lemma_draw_rows_delta(
    px: Seq<u8>,
    q: Seq<u8>,
    w: int,
    h: int,
    sx: int,
    sy: int,
    rows: Seq<u8>,
    i: int,
    wrap: bool,
    k: int,
)
    requires
        px.len() == q.len(),
        px.len() == w * h,
        0 <= k < px.len(),
        0 < w,
        0 < h,
        0 <= sx,
        0 <= sy,
    ensures
        spec_draw_rows(px, w, h, sx, sy, rows, i, wrap).0.len() == px.len(),
        spec_draw_rows(q, w, h, sx, sy, rows, i, wrap).0.len() == q.len(),
        spec_draw_rows(px, w, h, sx, sy, rows, i, wrap).0[k] ^ px[k] == spec_draw_rows(
            q,
            w,
            h,
            sx,
            sy,
            rows,
            i,
            wrap,
        ).0[k] ^ q[k],
    decreases rows.len() - i,
{
    if i < 0 || i >= rows.len() {
        lemma_xor_self(px[k], q[k]);
    } else {
        let yy0 = sy + i;
        if yy0 < h || wrap {
            let yy = yy0 % h;
            lemma_mod_bound(yy0, h);
            lemma_draw_bits_delta(px, q, w, h, yy, sx, rows[i], 0, wrap, k);
            let px2 = spec_draw_bits(px, w, h, yy, sx, rows[i], 0, wrap).0;
            let q2 = spec_draw_bits(q, w, h, yy, sx, rows[i], 0, wrap).0;
            lemma_draw_rows_delta(px2, q2, w, h, sx, sy, rows, i + 1, wrap, k);
            let a = spec_draw_rows(px2, w, h, sx, sy, rows, i + 1, wrap).0[k];
            let b = spec_draw_rows(q2, w, h, sx, sy, rows, i + 1, wrap).0[k];
            lemma_xor_transfer(a, px2[k], px[k], b, q2[k], q[k]);
        } else {
            lemma_draw_rows_delta(px, q, w, h, sx, sy, rows, i + 1, wrap, k);
        }
    }
}

/// Sprite drawing is an involution: plotting the same rows a second time
/// at the same position, under the same wrap policy, restores every pixel
/// to its value before the first plot.
pub proof fn lemma_draw_twice_restores(
    px: Seq<u8>,
    w: int,
    h: int,
    sx: int,
    sy: int,
    rows: Seq<u8>,
    wrap: bool,
)
    requires
        px.len() == w * h,
        0 < w <= 255,
        0 < h <= 255,
        0 <= sx,
        0 <= sy,
    ensures
        spec_draw(spec_draw(px, w, h, sx, sy, rows, wrap).0, w, h, sx, sy, rows, wrap).0 == px,
{
    let p1 = spec_draw(px, w, h, sx, sy, rows, wrap).0;
    let p2 = spec_draw(p1, w, h, sx, sy, rows, wrap).0;
    assert(w * h > 0) by (nonlinear_arith)
        requires
            0 < w,
            0 < h,
    ;
    lemma_draw_rows_delta(px, px, w, h, sx, sy, rows, 0, wrap, 0);
    lemma_draw_rows_delta(px, p1, w, h, sx, sy, rows, 0, wrap, 0);
    assert forall|k: int| 0 <= k < px.len() implies p2[k] == px[k] by {
        lemma_draw_rows_delta(px, p1, w, h, sx, sy, rows, 0, wrap, k);
        let a = p1[k];
        let b = p2[k];
        let c = px[k];
        assert(a ^ c == b ^ a);
        assert(a ^ c == b ^ a ==> b == c) by (bit_vector);
    }
    assert(p2 =~= px);
}

/// The product of two byte-sized quantities stays small.
proof fn lemma_small_product(a: int, b: int)
    requires
        0 <= a <= 255,
        0 <= b <= 255,
    ensures
        0 <= a * b <= 255 * 255,
{
    assert(0 <= a * b <= 255 * 255) by (nonlinear_arith)
        requires
            0 <= a <= 255,
            0 <= b <= 255,
    ;
}

/// A row-major index built from in-range coordinates lands inside the grid.
proof fn lemma_grid_index_in_range(w: int, h: int, x: int, y: int)
    requires
        0 < w,
        0 < h,
        0 <= x < w,
        0 <= y < h,
    ensures
        0 <= y * w + x < w * h,
{
    assert(0 <= y * w + x < w * h) by (nonlinear_arith)
        requires
            0 < w,
            0 < h,
            0 <= x < w,
            0 <= y < h,
    ;
}

} // verus!
