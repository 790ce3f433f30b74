use vstd::prelude::*;
use crate::color::Color;
use crate::engine::Buffer;

verus! {

/// The channels of a colour after luminance inversion: lightness is flipped
/// while hue and saturation are preserved. A pure function of the input
/// channels alone, whose exact value the outside colour library defines.
pub uninterp spec fn luma_inverted(r: u8, g: u8, b: u8) -> (u8, u8, u8);

/// Relies on color_processing::Color::invert_luminescence: inverts a
/// colour's lightness in HSL space, preserving hue and saturation. The result
/// depends on the input channels alone.
#[verifier::external_body]
fn invert_luma_channels(r: u8, g: u8, b: u8) -> (out: (u8, u8, u8))
    ensures
        out == luma_inverted(r, g, b),
{
    let c = color_processing::Color::new_rgb(r, g, b).invert_luminescence();
    (c.red, c.green, c.blue)
}

/// The luma-inverted counterpart of a colour.
pub open spec fn inverted_color(c: Color) -> Color {
    let t = luma_inverted(c.r, c.g, c.b);
    Color { r: t.0, g: t.1, b: t.2 }
}

/// Inverts the brightness of every pixel, preserving hue and saturation: a
/// pixel-independent transform with no ordering dependency and no shared
/// state across pixels, applied on request before a frame seeds the working
/// buffer.
#[verifier::loop_isolation(false)]
pub fn swap_luma(buf: &mut Buffer)
    requires
        old(buf).wf(),
    ensures
        final(buf).wf(),
        final(buf).spec_width() == old(buf).spec_width(),
        final(buf).spec_height() == old(buf).spec_height(),
        final(buf)@.len() == old(buf)@.len(),
        forall|i: int|
            0 <= i < final(buf)@.len() ==> final(buf)@[i] == inverted_color(old(buf)@[i]),
{
    let n = buf.cell_count();
    let mut i: usize = 0;
    while i < n
        invariant
            i <= n,
            buf.wf(),
            buf@.len() == n,
            buf.spec_width() == old(buf).spec_width(),
            buf.spec_height() == old(buf).spec_height(),
            forall|j: int| 0 <= j < i ==> buf@[j] == inverted_color(old(buf)@[j]),
            forall|j: int| i <= j < n ==> buf@[j] == old(buf)@[j],
        decreases n - i,
    {
        let c = buf.get_cell(i);
        let t = invert_luma_channels(c.r, c.g, c.b);
        buf.set_cell(i, Color { r: t.0, g: t.1, b: t.2 });
        i = i + 1;
    }
}

} // verus!
