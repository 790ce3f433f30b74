use vstd::prelude::*;
use crate::kernel::{Algorithm, Tap, tap_forward};

verus! {

/// A half-open rectangle of pixel coordinates: `x` in `[x0, x1)`, `y` in
/// `[y0, y1)`.
#[derive(Clone, Copy, PartialEq, Eq, Structural, Debug)]
pub struct Rect {
    pub x0: usize,
    pub x1: usize,
    pub y0: usize,
    pub y1: usize,
}

pub open spec fn in_rect(r: Rect, x: int, y: int) -> bool {
    r.x0 <= x < r.x1 && r.y0 <= y < r.y1
}

/// Smallest tap `dx`, capped at zero.
pub open spec fn min_dx(taps: Seq<Tap>) -> int
    decreases taps.len(),
{
    if taps.len() == 0 {
        0
    } else {
        let rest = min_dx(taps.drop_last());
        if taps.last().dx < rest {
            taps.last().dx as int
        } else {
            rest
        }
    }
}

/// Largest tap `dx`, at least zero.
pub open spec fn max_dx(taps: Seq<Tap>) -> int
    decreases taps.len(),
{
    if taps.len() == 0 {
        0
    } else {
        let rest = max_dx(taps.drop_last());
        if taps.last().dx > rest {
            taps.last().dx as int
        } else {
            rest
        }
    }
}

/// Largest tap `dy`, at least zero.
pub open spec fn max_dy(taps: Seq<Tap>) -> int
    decreases taps.len(),
{
    if taps.len() == 0 {
        0
    } else {
        let rest = max_dy(taps.drop_last());
        if taps.last().dy > rest {
            taps.last().dy as int
        } else {
            rest
        }
    }
}

/// The spatial extents bound every tap of the kernel.
pub proof fn lemma_extents_bound(taps: Seq<Tap>, i: int)
    requires
        0 <= i < taps.len(),
    ensures
        min_dx(taps) <= taps[i].dx <= max_dx(taps),
        taps[i].dy <= max_dy(taps),
        min_dx(taps) <= 0 <= max_dx(taps),
        0 <= max_dy(taps),
    decreases taps.len(),
{
    if i < taps.len() - 1 {
        lemma_extents_bound(taps.drop_last(), i);
        assert(taps.drop_last()[i] == taps[i]);
    } else {
        lemma_extents_nonneg(taps.drop_last());
    }
}

pub proof fn lemma_extents_nonneg(taps: Seq<Tap>)
    ensures
        min_dx(taps) <= 0 <= max_dx(taps),
        0 <= max_dy(taps),
    decreases taps.len(),
{
    if taps.len() > 0 {
        lemma_extents_nonneg(taps.drop_last());
    }
}

/// The kernel's spatial extents, computed by one scan of the taps.
pub fn extents(k: &Algorithm) -> (e: (i32, i32, i32))
    ensures
        e.0 == min_dx(k.taps@),
        e.1 == max_dx(k.taps@),
        e.2 == max_dy(k.taps@),
{
    let mut lo: i32 = 0;
    let mut hi: i32 = 0;
    let mut down: i32 = 0;
    let mut i: usize = 0;
    while i < k.taps.len()
        invariant
            i <= k.taps@.len(),
            lo == min_dx(k.taps@.subrange(0, i as int)),
            hi == max_dx(k.taps@.subrange(0, i as int)),
            down == max_dy(k.taps@.subrange(0, i as int)),
        decreases k.taps@.len() - i,
    {
        let t = k.taps[i];
        proof {
            assert(k.taps@.subrange(0, i + 1).drop_last() =~= k.taps@.subrange(0, i as int));
            assert(k.taps@.subrange(0, i + 1).last() == t);
        }
        if t.dx < lo {
            lo = t.dx;
        }
        if t.dx > hi {
            hi = t.dx;
        }
        if t.dy > down {
            down = t.dy;
        }
        i = i + 1;
    }
    proof {
        assert(k.taps@.subrange(0, k.taps@.len() as int) =~= k.taps@);
    }
    (lo, hi, down)
}

/// Every tap applied from a pixel inside `r` lands inside the `w` × `h`
/// frame, so no per-offset bounds test is needed there.
pub open spec fn rect_safe(r: Rect, w: int, h: int, taps: Seq<Tap>) -> bool {
    forall|x: int, y: int, i: int|
        #![trigger in_rect(r, x, y), taps[i]]
        in_rect(r, x, y) && 0 <= i < taps.len() ==> 0 <= x + taps[i].dx < w && 0 <= y + taps[i].dy
            < h
}

/// The interior rectangle for a `w` × `h` frame and a kernel: with extents
/// `m` = min dx, `M` = max dx and `D` = max dy it is `[-m, w - M) × [0, h - D)`,
/// each bound clipped to the frame, so offset application from any pixel
/// inside it is unconditionally in bounds. The rectangle is a performance
/// device only; pixels outside it merely need per-offset bounds checks, and
/// outputs do not depend on the partition.
pub fn interior_rect(w: usize, h: usize, k: &Algorithm) -> (r: Rect)
    requires
        k.wf(),
        w <= u32::MAX,
        h <= u32::MAX,
    ensures
        rect_safe(r, w as int, h as int, k.taps@),
        r.x0 <= r.x1 <= w,
        r.y0 == 0,
        r.y1 <= h,
        r.x0 as int == if 0 - min_dx(k.taps@) > w as int {
            w as int
        } else {
            0 - min_dx(k.taps@)
        },
        r.x1 as int == if w - max_dx(k.taps@) < r.x0 as int {
            r.x0 as int
        } else {
            w - max_dx(k.taps@)
        },
        r.y1 as int == if h - max_dy(k.taps@) < 0 {
            0int
        } else {
            h - max_dy(k.taps@)
        },
{
    let (lo, hi, down) = extents(k);
    proof {
        lemma_extents_nonneg(k.taps@);
    }
    let neg_lo: i64 = 0i64 - (lo as i64);
    let x0: usize = if neg_lo > w as i64 {
        w
    } else {
        neg_lo as usize
    };
    let x1: usize = if (w as i64) - (hi as i64) < x0 as i64 {
        x0
    } else {
        ((w as i64) - (hi as i64)) as usize
    };
    let y1: usize = if (h as i64) - (down as i64) < 0 {
        0
    } else {
        ((h as i64) - (down as i64)) as usize
    };
    let r = Rect { x0, x1, y0: 0, y1 };
    proof {
        assert forall|x: int, y: int, i: int|
            #![trigger in_rect(r, x, y), k.taps@[i]]
            in_rect(r, x, y) && 0 <= i < k.taps@.len() implies 0 <= x + k.taps@[i].dx < w && 0 <= y
            + k.taps@[i].dy < h by {
            lemma_extents_bound(k.taps@, i);
            assert(tap_forward(k.taps@[i]));
        }
    }
    r
}

/// Every pixel of the `w` × `h` frame lies in the interior rectangle or in
/// one of the border rectangles.
pub open spec fn covered(interior: Rect, borders: Seq<Rect>, w: int, h: int) -> bool {
    forall|x: int, y: int|
        #![trigger in_rect(interior, x, y)]
        0 <= x < w && 0 <= y < h ==> (in_rect(interior, x, y) || exists|j: int|
            0 <= j < borders.len() && #[trigger] in_rect(borders[j], x, y))
}

/// The surrounding border regions for an interior rectangle inside a `w` × `h`
/// frame: the left strip, the right strip, the bottom strip between them, and
/// the two bottom corner intersections. Together with the interior they cover
/// the frame exactly; inside them at least one kernel offset may fall outside
/// the buffer, so each application there is individually bounds-checked.
pub fn border_rects(w: usize, h: usize, interior: Rect) -> (rs: Vec<Rect>)
    requires
        interior.x0 <= interior.x1 <= w,
        interior.y0 == 0,
        interior.y1 <= h,
    ensures
        covered(interior, rs@, w as int, h as int),
        forall|j: int, x: int, y: int|
            0 <= j < rs@.len() && #[trigger] in_rect(rs@[j], x, y) ==> (0 <= x < w && 0 <= y < h
                && !in_rect(interior, x, y)),
        forall|j1: int, j2: int, x: int, y: int|
            #![trigger in_rect(rs@[j1], x, y), in_rect(rs@[j2], x, y)]
            0 <= j1 < j2 < rs@.len() ==> !(in_rect(rs@[j1], x, y) && in_rect(rs@[j2], x, y)),
{
    let left = Rect { x0: 0, x1: interior.x0, y0: 0, y1: interior.y1 };
    let right = Rect { x0: interior.x1, x1: w, y0: 0, y1: interior.y1 };
    let bottom = Rect { x0: interior.x0, x1: interior.x1, y0: interior.y1, y1: h };
    let bottom_left = Rect { x0: 0, x1: interior.x0, y0: interior.y1, y1: h };
    let bottom_right = Rect { x0: interior.x1, x1: w, y0: interior.y1, y1: h };
    let mut rs: Vec<Rect> = Vec::new();
    rs.push(left);
    rs.push(right);
    rs.push(bottom);
    rs.push(bottom_left);
    rs.push(bottom_right);
    proof {
        assert forall|x: int, y: int|
            0 <= x < w && 0 <= y < h && !in_rect(interior, x, y) implies exists|j: int|
            0 <= j < rs@.len() && #[trigger] in_rect(rs@[j], x, y) by {
            if x < interior.x0 {
                if y < interior.y1 {
                    assert(in_rect(rs@[0], x, y));
                } else {
                    assert(in_rect(rs@[3], x, y));
                }
            } else if x >= interior.x1 {
                if y < interior.y1 {
                    assert(in_rect(rs@[1], x, y));
                } else {
                    assert(in_rect(rs@[4], x, y));
                }
            } else {
                assert(in_rect(rs@[2], x, y));
            }
        }
    }
    rs
}

} // verus!
