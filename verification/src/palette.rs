use vstd::prelude::*;
use crate::color::{Color, ConfigurationError, dist, distance};

verus! {

/// Index chosen by a left-to-right scan of the first `n` palette entries that
/// keeps the first entry of strictly smallest L1 distance to `c` (a strict
/// `<` against the running minimum, never `<=`).
pub open spec fn match_idx_upto(pal: Seq<Color>, c: Color, n: int) -> int
    decreases n,
{
    if n <= 1 {
        0
    } else {
        let j = match_idx_upto(pal, c, n - 1);
        if dist(pal[n - 1], c) < dist(pal[j], c) {
            n - 1
        } else {
            j
        }
    }
}

/// Index of the palette entry the matcher chooses for `c`: the lowest index
/// among those minimizing the L1 distance.
pub open spec fn match_idx(pal: Seq<Color>, c: Color) -> int {
    match_idx_upto(pal, c, pal.len() as int)
}

/// The palette colour the matcher chooses for `c`.
pub open spec fn match_color(pal: Seq<Color>, c: Color) -> Color {
    pal[match_idx(pal, c)]
}

proof fn lemma_match_idx_upto_props(pal: Seq<Color>, c: Color, n: int)
    requires
        1 <= n <= pal.len(),
    ensures
        0 <= match_idx_upto(pal, c, n) < n,
        forall|i: int| 0 <= i < n ==> dist(pal[match_idx_upto(pal, c, n)], c) <= #[trigger] dist(pal[i], c),
        forall|i: int|
            0 <= i < match_idx_upto(pal, c, n) ==> #[trigger] dist(pal[i], c) > dist(
                pal[match_idx_upto(pal, c, n)],
                c,
            ),
    decreases n,
{
    if n > 1 {
        lemma_match_idx_upto_props(pal, c, n - 1);
    }
}

/// Matcher optimality: the chosen entry's L1 distance is at most that of every
/// other palette entry, and every entry before the chosen index is strictly
/// farther away (so exact ties go to the lowest index).
pub proof fn lemma_match_optimal(pal: Seq<Color>, c: Color)
    requires
        pal.len() >= 1,
    ensures
        0 <= match_idx(pal, c) < pal.len(),
        forall|i: int| 0 <= i < pal.len() ==> dist(match_color(pal, c), c) <= #[trigger] dist(pal[i], c),
        forall|i: int| 0 <= i < match_idx(pal, c) ==> #[trigger] dist(pal[i], c) > dist(match_color(pal, c), c),
{
    lemma_match_idx_upto_props(pal, c, pal.len() as int);
}

/// The chosen match is always an exact, unmodified member of the palette.
pub proof fn lemma_match_member(pal: Seq<Color>, c: Color)
    requires
        pal.len() >= 1,
    ensures
        pal.contains(match_color(pal, c)),
{
    lemma_match_optimal(pal, c);
}

/// A colour that already occurs in the palette is its own best match, so its
/// quantization error is the zero vector.
pub proof fn lemma_member_matches_itself(pal: Seq<Color>, c: Color)
    requires
        pal.contains(c),
    ensures
        match_color(pal, c) == c,
{
    lemma_match_optimal(pal, c);
    let j = choose|j: int| 0 <= j < pal.len() && pal[j] == c;
    assert(dist(pal[j], c) == 0) by {
        crate::color::lemma_dist_zero(pal[j], c);
    }
    crate::color::lemma_dist_zero(match_color(pal, c), c);
}

/// An immutable, ordered, non-empty list of reference colours. Index order is
/// significant only as the matcher's tie-break key.
pub struct Palette {
    colors: Vec<Color>,
}

impl View for Palette {
    type V = Seq<Color>;

    closed spec fn view(&self) -> Seq<Color> {
        self.colors@
    }
}

impl Palette {
    /// A palette is well-formed when it holds at least one colour.
    pub open spec fn wf(&self) -> bool {
        self@.len() >= 1
    }

    /// Builds a palette from a colour list; an empty list is a configuration
    /// error, reported before any pixel processing can begin.
    pub fn new(colors: Vec<Color>) -> (r: Result<Palette, ConfigurationError>)
        ensures
            colors@.len() == 0 ==> (r matches Err(e) && e is EmptyPalette),
            colors@.len() >= 1 ==> (r matches Ok(p) && p@ == colors@ && p.wf()),
    {
        if colors.len() == 0 {
            Err(ConfigurationError::EmptyPalette)
        } else {
            Ok(Palette { colors })
        }
    }

    pub fn len(&self) -> (n: usize)
        ensures
            n == self@.len(),
    {
        self.colors.len()
    }

    pub fn get(&self, i: usize) -> (c: Color)
        requires
            i < self@.len(),
        ensures
            c == self@[i as int],
    {
        self.colors[i]
    }

    /// The palette entry minimizing the L1 distance to `c`, found by a linear
    /// left-to-right scan; on ties the lowest palette index wins.
    pub fn best_match(&self, c: &Color) -> (m: Color)
        requires
            self.wf(),
        ensures
            m == match_color(self@, *c),
    {
        let mut best: Color = self.colors[0];
        let mut best_d: u16 = distance(&best, c);
        let mut i: usize = 1;
        while i < self.colors.len()
            invariant
                self.wf(),
                1 <= i <= self@.len(),
                best == self@[match_idx_upto(self@, *c, i as int)],
                best_d as int == dist(best, *c),
            decreases self@.len() - i,
        {
            let d = distance(&self.colors[i], c);
            if d < best_d {
                best = self.colors[i];
                best_d = d;
            }
            i = i + 1;
        }
        best
    }
}

} // verus!
