use vstd::prelude::*;
use crate::color::{Color, clamp};
use crate::kernel::{Algorithm, Tap};
use crate::palette::{Palette, match_color, lemma_match_member};
use crate::partition::{in_rect, interior_rect};

verus! {

/// A width × height grid of colours, row-major. The working buffer and the
/// output buffer of a pass are both of this type; the engine owns them
/// exclusively for the pass's duration.
pub struct Buffer {
    width: usize,
    height: usize,
    data: Vec<Color>,
}

impl View for Buffer {
    type V = Seq<Color>;

    closed spec fn view(&self) -> Seq<Color> {
        self.data@
    }
}

impl Buffer {
    pub closed spec fn spec_width(&self) -> int {
        self.width as int
    }

    pub closed spec fn spec_height(&self) -> int {
        self.height as int
    }

    /// Row-major cell index of the pixel at `(x, y)`.
    pub open spec fn spec_index_at(&self, x: int, y: int) -> int {
        y * self.spec_width() + x
    }

    pub open spec fn wf(&self) -> bool {
        &&& self@.len() == self.spec_width() * self.spec_height()
        &&& self@.len() <= usize::MAX
        &&& self.spec_width() <= u32::MAX
        &&& self.spec_height() <= u32::MAX
    }

    /// Builds a buffer from row-major pixel data; `None` when the dimensions
    /// do not describe the data or exceed the supported frame size.
    pub fn from_pixels(width: usize, height: usize, data: Vec<Color>) -> (r: Option<Buffer>)
        ensures
            r is Some <==> (data@.len() == width * height && width <= u32::MAX && height
                <= u32::MAX),
            r matches Some(b) ==> (b.wf() && b@ == data@ && b.spec_width() == width
                && b.spec_height() == height),
    {
        if width > u32::MAX as usize || height > u32::MAX as usize {
            return None;
        }
        let n: usize = data.len();
        match width.checked_mul(height) {
            Some(p) => {
                if n == p {
                    Some(Buffer { width, height, data })
                } else {
                    None
                }
            },
            None => {
                // the frame would hold more cells than any Vec can
                None
            },
        }
    }

    pub fn width(&self) -> (w: usize)
        ensures
            w == self.spec_width(),
    {
        self.width
    }

    pub fn cell_count(&self) -> (n: usize)
        ensures
            n == self@.len(),
    {
        self.data.len()
    }

    /// Reads a cell by its row-major index.
    pub fn get_cell(&self, i: usize) -> (c: Color)
        requires
            i < self@.len(),
        ensures
            c == self@[i as int],
    {
        self.data[i]
    }

    /// Writes a cell by its row-major index.
    pub fn set_cell(&mut self, i: usize, c: Color)
        requires
            i < old(self)@.len(),
        ensures
            final(self)@ == old(self)@.update(i as int, c),
            final(self).spec_width() == old(self).spec_width(),
            final(self).spec_height() == old(self).spec_height(),
            old(self).wf() ==> final(self).wf(),
    {
        self.data.set(i, c);
    }

    pub fn height(&self) -> (h: usize)
        ensures
            h == self.spec_height(),
    {
        self.height
    }

    pub fn get(&self, x: usize, y: usize) -> (c: Color)
        requires
            self.wf(),
            x < self.spec_width(),
            y < self.spec_height(),
        ensures
            c == self@[self.spec_index_at(x as int, y as int)],
    {
        proof {
            lemma_index_in_frame(x as int, y as int, self.spec_width(), self.spec_height());
        }
        let i: usize = y * self.width + x;
        self.data[i]
    }

    pub fn set(&mut self, x: usize, y: usize, c: Color)
        requires
            old(self).wf(),
            x < old(self).spec_width(),
            y < old(self).spec_height(),
        ensures
            final(self).wf(),
            final(self).spec_width() == old(self).spec_width(),
            final(self).spec_height() == old(self).spec_height(),
            final(self)@ == old(self)@.update(old(self).spec_index_at(x as int, y as int), c),
    {
        proof {
            lemma_index_in_frame(x as int, y as int, self.spec_width(), self.spec_height());
        }
        let i: usize = y * self.width + x;
        self.data.set(i, c);
    }
}

/// A pixel inside the frame has a row-major index inside the data.
pub proof fn lemma_index_in_frame(x: int, y: int, w: int, h: int)
    requires
        0 <= x < w,
        0 <= y < h,
    ensures
        0 <= y * w + x < w * h,
{
    assert(0 <= y * w + x < w * h) by (nonlinear_arith)
        requires
            0 <= x < w,
            0 <= y < h,
    ;
}

/// The numeric policy, fixed for all kernels: a tap's share of an error
/// channel is the exact rational `e * num / den`, truncated toward zero.
pub open spec fn scaled_err(e: int, num: int, den: int) -> int
    recommends
        den >= 1,
{
    if e * num >= 0 {
        (e * num) / den
    } else {
        -((-(e * num)) / den)
    }
}

/// One channel after a share of error arrives: the scaled share is added and
/// the sum saturates to `[0, 255]`. Overflow is corrected by clamping, never
/// reported.
pub open spec fn apply_channel(c: u8, e: int, num: int, den: int) -> u8 {
    clamp(c + scaled_err(e, num, den)) as u8
}

/// A colour after one tap's share of a quantization error arrives.
pub open spec fn apply_err(c: Color, er: int, eg: int, eb: int, num: int, den: int) -> Color {
    Color {
        r: apply_channel(c.r, er, num, den),
        g: apply_channel(c.g, eg, num, den),
        b: apply_channel(c.b, eb, num, den),
    }
}

fn scaled(e: i16, num: i32, den: u32) -> (r: i64)
    requires
        den >= 1,
    ensures
        r == scaled_err(e as int, num as int, den as int),
        -0x1000000000000 <= r <= 0x1000000000000,
{
    proof {
        assert((e as int) * (num as int) < 0x1000000000000 && (e as int) * (num as int)
            > -0x1000000000000) by (nonlinear_arith)
            requires
                -0x8000 <= e as int <= 0x7fff,
                -0x80000000 <= num as int <= 0x7fffffff,
        ;
    }
    let p: i64 = (e as i64) * (num as i64);
    if p >= 0 {
        proof {
            vstd::arithmetic::div_mod::lemma_div_basics_5(p as int, den as int);
        }
        ((p as u64) / (den as u64)) as i64
    } else {
        proof {
            vstd::arithmetic::div_mod::lemma_div_basics_5(0 - p, den as int);
        }
        0i64 - ((((0i64 - p) as u64) / (den as u64)) as i64)
    }
}

/// Applies one tap's share of a quantization error to one cell, clamping each
/// channel to the storable range.
pub fn put_error(cell: &mut Color, er: i16, eg: i16, eb: i16, num: i32, den: u32)
    requires
        den >= 1,
    ensures
        *final(cell) == apply_err(
            *old(cell),
            er as int,
            eg as int,
            eb as int,
            num as int,
            den as int,
        ),
{
    let sr = scaled(er, num, den);
    let sg = scaled(eg, num, den);
    let sb = scaled(eb, num, den);
    let vr: i64 = cell.r as i64 + sr;
    let vg: i64 = cell.g as i64 + sg;
    let vb: i64 = cell.b as i64 + sb;
    let r: u8 = if vr < 0 {
        0
    } else if vr > 255 {
        255
    } else {
        vr as u8
    };
    let g: u8 = if vg < 0 {
        0
    } else if vg > 255 {
        255
    } else {
        vg as u8
    };
    let b: u8 = if vb < 0 {
        0
    } else if vb > 255 {
        255
    } else {
        vb as u8
    };
    *cell = Color { r, g, b };
}

/// The working buffer after one tap of one pixel's propagation step: the
/// target cell absorbs its share of the error if it lies inside the frame,
/// and the share is silently discarded otherwise (no wraparound, no
/// reflection).
pub open spec fn diffuse_tap(
    s: Seq<Color>,
    w: int,
    h: int,
    x: int,
    y: int,
    er: int,
    eg: int,
    eb: int,
    t: Tap,
    den: int,
) -> Seq<Color> {
    let tx = x + t.dx;
    let ty = y + t.dy;
    if 0 <= tx < w && 0 <= ty < h {
        s.update(ty * w + tx, apply_err(s[ty * w + tx], er, eg, eb, t.num as int, den))
    } else {
        s
    }
}

/// The working buffer after the first `n` taps of one pixel's propagation
/// step, applied in kernel order.
pub open spec fn diffuse_prefix(
    s: Seq<Color>,
    w: int,
    h: int,
    x: int,
    y: int,
    er: int,
    eg: int,
    eb: int,
    taps: Seq<Tap>,
    den: int,
    n: int,
) -> Seq<Color>
    decreases n,
{
    if n <= 0 {
        s
    } else {
        diffuse_tap(
            diffuse_prefix(s, w, h, x, y, er, eg, eb, taps, den, n - 1),
            w,
            h,
            x,
            y,
            er,
            eg,
            eb,
            taps[n - 1],
            den,
        )
    }
}

/// The working buffer after one pixel's whole propagation step.
pub open spec fn diffuse_all(
    s: Seq<Color>,
    w: int,
    h: int,
    x: int,
    y: int,
    er: int,
    eg: int,
    eb: int,
    taps: Seq<Tap>,
    den: int,
) -> Seq<Color> {
    diffuse_prefix(s, w, h, x, y, er, eg, eb, taps, den, taps.len() as int)
}

/// One engine step on working buffer `s`: pixel `k` (in raster order) is
/// matched against the palette and its quantization error is diffused
/// forward.
pub open spec fn step(
    pal: Seq<Color>,
    taps: Seq<Tap>,
    den: int,
    w: int,
    h: int,
    s: Seq<Color>,
    k: int,
) -> Seq<Color> {
    let x = k % w;
    let y = k / w;
    let cur = s[k];
    let m = match_color(pal, cur);
    diffuse_all(s, w, h, x, y, cur.r - m.r, cur.g - m.g, cur.b - m.b, taps, den)
}

/// The working buffer after the first `k` pixels of the pass, visited in
/// strict row-major order.
pub open spec fn work_after(
    pal: Seq<Color>,
    taps: Seq<Tap>,
    den: int,
    w: int,
    h: int,
    init: Seq<Color>,
    k: int,
) -> Seq<Color>
    decreases k,
{
    if k <= 0 {
        init
    } else {
        step(pal, taps, den, w, h, work_after(pal, taps, den, w, h, init, k - 1), k - 1)
    }
}

/// Output pixel `i`: the palette match of the working value pixel `i` carried
/// when it was visited — which reflects every share of error diffused into it
/// by earlier pixels. Once written it is never changed.
pub open spec fn out_pixel(
    pal: Seq<Color>,
    taps: Seq<Tap>,
    den: int,
    w: int,
    h: int,
    init: Seq<Color>,
    i: int,
) -> Color {
    match_color(pal, work_after(pal, taps, den, w, h, init, i)[i])
}

/// The whole output frame of one pass.
pub open spec fn engine_out(
    pal: Seq<Color>,
    taps: Seq<Tap>,
    den: int,
    w: int,
    h: int,
    init: Seq<Color>,
) -> Seq<Color> {
    Seq::new((w * h) as nat, |i: int| out_pixel(pal, taps, den, w, h, init, i))
}

/// Tap application never changes the buffer's length.
pub proof fn lemma_diffuse_prefix_len(
    s: Seq<Color>,
    w: int,
    h: int,
    x: int,
    y: int,
    er: int,
    eg: int,
    eb: int,
    taps: Seq<Tap>,
    den: int,
    n: int,
)
    requires
        s.len() == w * h,
    ensures
        diffuse_prefix(s, w, h, x, y, er, eg, eb, taps, den, n).len() == s.len(),
    decreases n,
{
    if n > 0 {
        lemma_diffuse_prefix_len(s, w, h, x, y, er, eg, eb, taps, den, n - 1);
        let t = taps[n - 1];
        let tx = x + t.dx;
        let ty = y + t.dy;
        if 0 <= tx < w && 0 <= ty < h {
            lemma_index_in_frame(tx, ty, w, h);
        }
    }
}

/// The pass never changes the buffer's length.
pub proof fn lemma_work_after_len(
    pal: Seq<Color>,
    taps: Seq<Tap>,
    den: int,
    w: int,
    h: int,
    init: Seq<Color>,
    k: int,
)
    requires
        init.len() == w * h,
    ensures
        work_after(pal, taps, den, w, h, init, k).len() == init.len(),
    decreases k,
{
    if k > 0 {
        lemma_work_after_len(pal, taps, den, w, h, init, k - 1);
        let prev = work_after(pal, taps, den, w, h, init, k - 1);
        let cur = prev[k - 1];
        let m = match_color(pal, cur);
        lemma_diffuse_prefix_len(
            prev,
            w,
            h,
            (k - 1) % w,
            (k - 1) / w,
            cur.r - m.r,
            cur.g - m.g,
            cur.b - m.b,
            taps,
            den,
            taps.len() as int,
        );
    }
}

/// One full error-diffusion pass. Pixels are visited in strict row-major
/// order; each is replaced in the output by its nearest palette colour, and
/// its quantization error is propagated through the kernel's taps into the
/// working buffer, where later pixels will see it. Inside the partitioner's
/// interior rectangle the per-offset bounds checks are skipped — safety there
/// is proved, not tested — and the output is the same as if every offset were
/// checked. A match is reused from the previous pixel of the row when the
/// working values are bit-identical; this memoization cannot alter the
/// output.
#[verifier::loop_isolation(false)]
pub fn dither(work: &mut Buffer, palette: &Palette, kernel: &Algorithm) -> (out: Buffer)
    requires
        old(work).wf(),
        palette.wf(),
        kernel.wf(),
    ensures
        final(work).wf(),
        final(work).spec_width() == old(work).spec_width(),
        final(work).spec_height() == old(work).spec_height(),
        final(work)@ == work_after(
            palette@,
            kernel.taps@,
            kernel.den as int,
            old(work).spec_width(),
            old(work).spec_height(),
            old(work)@,
            old(work).spec_width() * old(work).spec_height(),
        ),
        out.wf(),
        out.spec_width() == old(work).spec_width(),
        out.spec_height() == old(work).spec_height(),
        out@ == engine_out(
            palette@,
            kernel.taps@,
            kernel.den as int,
            old(work).spec_width(),
            old(work).spec_height(),
            old(work)@,
        ),
        forall|i: int| 0 <= i < out@.len() ==> palette@.contains(#[trigger] out@[i]),
{
    let w = work.width();
    let h = work.height();
    let ghost pal = palette@;
    let ghost taps = kernel.taps@;
    let ghost den_g = kernel.den as int;
    let ghost init = work@;
    let den = kernel.den;
    let interior = interior_rect(w, h, kernel);
    let mut out_data: Vec<Color> = Vec::new();
    let mut y: usize = 0;
    let mut k: usize = 0;
    proof {
        lemma_work_after_len(pal, taps, den_g, w as int, h as int, init, (w * h) as int);
    }
    while y < h
        invariant
            y <= h,
            k == y * w,
            k <= w * h,
            out_data@.len() == k,
            forall|j: int|
                0 <= j < k ==> out_data@[j] == out_pixel(
                    pal,
                    taps,
                    den_g,
                    w as int,
                    h as int,
                    init,
                    j,
                ),
            work.wf(),
            work.spec_width() == w,
            work.spec_height() == h,
            work@ == work_after(pal, taps, den_g, w as int, h as int, init, k as int),
        decreases h - y,
    {
        let mut x: usize = 0;
        let mut memo_valid: bool = false;
        let mut memo_val: Color = Color { r: 0, g: 0, b: 0 };
        let mut memo_match: Color = memo_val;
        let mut memo_er: i16 = 0;
        let mut memo_eg: i16 = 0;
        let mut memo_eb: i16 = 0;
        while x < w
            invariant
                x <= w,
                y < h,
                k == y * w + x,
                k <= w * h,
                out_data@.len() == k,
                forall|j: int|
                    0 <= j < k ==> out_data@[j] == out_pixel(
                        pal,
                        taps,
                        den_g,
                        w as int,
                        h as int,
                        init,
                        j,
                    ),
                work.wf(),
                work.spec_width() == w,
                work.spec_height() == h,
                work@ == work_after(pal, taps, den_g, w as int, h as int, init, k as int),
                memo_valid ==> (memo_match == match_color(pal, memo_val) && memo_er as int
                    == memo_val.r - memo_match.r && memo_eg as int == memo_val.g - memo_match.g
                    && memo_eb as int == memo_val.b - memo_match.b),
            decreases w - x,
        {
            proof {
                lemma_index_in_frame(x as int, y as int, w as int, h as int);
                lemma_work_after_len(pal, taps, den_g, w as int, h as int, init, k as int);
            }
            let cur = work.get(x, y);
            let m: Color;
            let er: i16;
            let eg: i16;
            let eb: i16;
            if memo_valid && memo_val == cur {
                m = memo_match;
                er = memo_er;
                eg = memo_eg;
                eb = memo_eb;
            } else {
                m = palette.best_match(&cur);
                er = cur.r as i16 - m.r as i16;
                eg = cur.g as i16 - m.g as i16;
                eb = cur.b as i16 - m.b as i16;
                memo_val = cur;
                memo_match = m;
                memo_er = er;
                memo_eg = eg;
                memo_eb = eb;
                memo_valid = true;
            }
            out_data.push(m);
            let ghost s0 = work@;
            let in_interior = x >= interior.x0 && x < interior.x1 && y < interior.y1;
            let mut j: usize = 0;
            while j < kernel.taps.len()
                invariant
                    j <= taps.len(),
                    work.wf(),
                    work.spec_width() == w,
                    work.spec_height() == h,
                    work@ == diffuse_prefix(
                        s0,
                        w as int,
                        h as int,
                        x as int,
                        y as int,
                        er as int,
                        eg as int,
                        eb as int,
                        taps,
                        den_g,
                        j as int,
                    ),
                decreases taps.len() - j,
            {
                let t = kernel.taps[j];
                let tx: i64 = x as i64 + t.dx as i64;
                let ty: i64 = y as i64 + t.dy as i64;
                proof {
                    lemma_diffuse_prefix_len(
                        s0,
                        w as int,
                        h as int,
                        x as int,
                        y as int,
                        er as int,
                        eg as int,
                        eb as int,
                        taps,
                        den_g,
                        j as int,
                    );
                }
                if in_interior {
                    proof {
                        assert(in_rect(interior, x as int, y as int));
                        assert(0 <= x + taps[j as int].dx < w && 0 <= y + taps[j as int].dy
                            < h);
                    }
                    apply_tap_at(work, tx as usize, ty as usize, er, eg, eb, t.num, den);
                } else {
                    if 0 <= tx && tx < w as i64 && 0 <= ty && ty < h as i64 {
                        apply_tap_at(work, tx as usize, ty as usize, er, eg, eb, t.num, den);
                    }
                }
                j = j + 1;
            }
            proof {
                assert(work@ == diffuse_all(
                    s0,
                    w as int,
                    h as int,
                    x as int,
                    y as int,
                    er as int,
                    eg as int,
                    eb as int,
                    taps,
                    den_g,
                ));
                vstd::arithmetic::div_mod::lemma_fundamental_div_mod_converse_div(
                    k as int,
                    w as int,
                    y as int,
                    x as int,
                );
                vstd::arithmetic::div_mod::lemma_fundamental_div_mod_converse_mod(
                    k as int,
                    w as int,
                    y as int,
                    x as int,
                );
                assert(work@ == step(pal, taps, den_g, w as int, h as int, s0, k as int));
                assert(work@ == work_after(
                    pal,
                    taps,
                    den_g,
                    w as int,
                    h as int,
                    init,
                    k as int + 1,
                ));
                lemma_index_in_frame(x as int, y as int, w as int, h as int);
            }
            x = x + 1;
            k = k + 1;
        }
        proof {
            assert(k == y * w + w);
            assert((y + 1) * w == y * w + w) by (nonlinear_arith);
            assert(y + 1 <= h);
            assert((y + 1) * w <= h * w) by (nonlinear_arith)
                requires
                    y + 1 <= h,
                    w >= 0,
            ;
            assert(h * w == w * h) by (nonlinear_arith);
        }
        y = y + 1;
    }
    proof {
        assert(k == h * w);
        assert(h * w == w * h) by (nonlinear_arith);
    }
    let n: usize = out_data.len();
    let out = Buffer { width: w, height: h, data: out_data };
    proof {
        assert(out@.len() == n);
        assert(out@ =~= engine_out(pal, taps, den_g, w as int, h as int, init));
        assert forall|i: int| 0 <= i < out@.len() implies palette@.contains(
            #[trigger] out@[i],
        ) by {
            lemma_work_after_len(pal, taps, den_g, w as int, h as int, init, i);
            lemma_match_member(
                pal,
                work_after(pal, taps, den_g, w as int, h as int, init, i)[i],
            );
        }
    }
    out
}

/// Delivers one tap's share of a quantization error to the working-buffer
/// cell at `(tx, ty)`.
fn apply_tap_at(work: &mut Buffer, tx: usize, ty: usize, er: i16, eg: i16, eb: i16, num: i32, den: u32)
    requires
        old(work).wf(),
        tx < old(work).spec_width(),
        ty < old(work).spec_height(),
        den >= 1,
    ensures
        final(work).wf(),
        final(work).spec_width() == old(work).spec_width(),
        final(work).spec_height() == old(work).spec_height(),
        final(work)@ == old(work)@.update(
            old(work).spec_index_at(tx as int, ty as int),
            apply_err(
                old(work)@[old(work).spec_index_at(tx as int, ty as int)],
                er as int,
                eg as int,
                eb as int,
                num as int,
                den as int,
            ),
        ),
{
    let mut c = work.get(tx, ty);
    put_error(&mut c, er, eg, eb, num, den);
    work.set(tx, ty, c);
}

} // verus!
