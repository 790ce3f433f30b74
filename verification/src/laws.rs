use vstd::prelude::*;
use crate::color::Color;
use crate::kernel::Tap;
use crate::palette::{match_color, lemma_member_matches_itself};
use crate::engine::{
    apply_err, diffuse_prefix, engine_out, lemma_index_in_frame, scaled_err, step, work_after,
};

verus! {

/// Propagating a zero error vector changes nothing: every share scales to
/// zero and every clamped sum reproduces the stored channel.
proof fn lemma_zero_diffuse_prefix(
    s: Seq<Color>,
    w: int,
    h: int,
    x: int,
    y: int,
    taps: Seq<Tap>,
    den: int,
    n: int,
)
    requires
        s.len() == w * h,
        den >= 1,
    ensures
        diffuse_prefix(s, w, h, x, y, 0, 0, 0, taps, den, n) == s,
    decreases n,
{
    if n > 0 {
        lemma_zero_diffuse_prefix(s, w, h, x, y, taps, den, n - 1);
        let t = taps[n - 1];
        let tx = x + t.dx;
        let ty = y + t.dy;
        if 0 <= tx < w && 0 <= ty < h {
            lemma_index_in_frame(tx, ty, w, h);
            let i = ty * w + tx;
            assert(scaled_err(0, t.num as int, den) == 0) by {
                assert(0 * t.num == 0);
                assert(0int / den == 0) by (nonlinear_arith)
                    requires
                        den >= 1,
                ;
            }
            assert(apply_err(s[i], 0, 0, 0, t.num as int, den) == s[i]);
            assert(s.update(i, s[i]) =~= s);
        }
    }
}

/// Zero-error fixed point: a pixel whose working value is exactly a palette
/// colour is its own best match, its quantization error is the zero vector,
/// and its propagation step leaves every cell of the working buffer — in
/// particular every neighbour — unchanged.
pub proof fn lemma_zero_error_fixed_point(
    pal: Seq<Color>,
    taps: Seq<Tap>,
    den: int,
    w: int,
    h: int,
    s: Seq<Color>,
    k: int,
)
    requires
        s.len() == w * h,
        0 <= k < s.len(),
        den >= 1,
        pal.contains(s[k]),
    ensures
        match_color(pal, s[k]) == s[k],
        step(pal, taps, den, w, h, s, k) == s,
{
    lemma_member_matches_itself(pal, s[k]);
    lemma_zero_diffuse_prefix(s, w, h, k % w, k / w, taps, den, taps.len() as int);
}

/// With the empty kernel nothing is ever propagated, so the working buffer
/// never changes during the pass.
proof fn lemma_work_after_empty(
    pal: Seq<Color>,
    den: int,
    w: int,
    h: int,
    init: Seq<Color>,
    k: int,
)
    ensures
        work_after(pal, Seq::<Tap>::empty(), den, w, h, init, k) == init,
    decreases k,
{
    if k > 0 {
        lemma_work_after_empty(pal, den, w, h, init, k - 1);
    }
}

/// No-dither degeneracy: with the empty kernel the engine's output is
/// identical, pixel for pixel, to a naive independent per-pixel
/// nearest-match pass that never mutates the working buffer.
pub proof fn lemma_no_dither_degeneracy(
    pal: Seq<Color>,
    den: int,
    w: int,
    h: int,
    init: Seq<Color>,
)
    ensures
        engine_out(pal, Seq::<Tap>::empty(), den, w, h, init) == Seq::new(
            (w * h) as nat,
            |i: int| match_color(pal, init[i]),
        ),
        work_after(pal, Seq::<Tap>::empty(), den, w, h, init, w * h) == init,
{
    lemma_work_after_empty(pal, den, w, h, init, w * h);
    let e = engine_out(pal, Seq::<Tap>::empty(), den, w, h, init);
    let naive = Seq::new((w * h) as nat, |i: int| match_color(pal, init[i]));
    assert forall|i: int| 0 <= i < e.len() implies e[i] == naive[i] by {
        lemma_work_after_empty(pal, den, w, h, init, i);
    }
    assert(e =~= naive);
}

/// Saturation bound: every channel of every working-buffer cell, after any
/// number of propagation steps, lies in `[0, 255]` — overflow is corrected by
/// clamping, never reported, and no out-of-range value is ever stored.
pub proof fn lemma_saturation(
    pal: Seq<Color>,
    taps: Seq<Tap>,
    den: int,
    w: int,
    h: int,
    init: Seq<Color>,
    k: int,
    i: int,
)
    requires
        0 <= i < work_after(pal, taps, den, w, h, init, k).len(),
    ensures
        0 <= work_after(pal, taps, den, w, h, init, k)[i].r <= 255,
        0 <= work_after(pal, taps, den, w, h, init, k)[i].g <= 255,
        0 <= work_after(pal, taps, den, w, h, init, k)[i].b <= 255,
{
}

/// Re-quantization fixed point: a frame whose every pixel already is a
/// palette colour — the engine's own output, by the palette-membership
/// guarantee — passes through the engine with the empty kernel unchanged:
/// every pixel already equals its own best match.
pub proof fn lemma_requantize_fixed_point(
    pal: Seq<Color>,
    den: int,
    w: int,
    h: int,
    b: Seq<Color>,
)
    requires
        b.len() == w * h,
        forall|i: int| 0 <= i < b.len() ==> pal.contains(#[trigger] b[i]),
    ensures
        engine_out(pal, Seq::<Tap>::empty(), den, w, h, b) == b,
{
    lemma_no_dither_degeneracy(pal, den, w, h, b);
    let e = engine_out(pal, Seq::<Tap>::empty(), den, w, h, b);
    assert forall|i: int| 0 <= i < e.len() implies e[i] == b[i] by {
        lemma_member_matches_itself(pal, b[i]);
    }
    assert(e =~= b);
}

} // verus!
