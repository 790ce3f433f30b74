use vstd::prelude::*;
use crate::color::ConfigurationError;

verus! {

/// One diffusion target: a spatial offset `(dx, dy)` relative to the pixel
/// being quantized, and the numerator of the fraction of the quantization
/// error that flows there. The denominator is shared by the whole kernel.
#[derive(Clone, Copy, PartialEq, Eq, Structural, Debug)]
pub struct Tap {
    pub dx: i32,
    pub dy: i32,
    pub num: i32,
}

/// Every target must lie strictly later in raster scan order than the source
/// pixel: on a later row, or to the right within the same row. This is what
/// guarantees that the pass never rewrites a pixel already written to the
/// output buffer and never propagates error in a cycle.
pub open spec fn tap_forward(t: Tap) -> bool {
    t.dy > 0 || (t.dy == 0 && t.dx > 0)
}

/// A named error-diffusion kernel: an ordered list of taps and the common
/// denominator of their weights. Weights are exact rationals `num/den`; they
/// need not sum to one (partial diffusion, as in the Atkinson kernel, is a
/// deliberate per-kernel choice).
#[derive(Debug)]
pub struct Algorithm {
    pub taps: Vec<Tap>,
    pub den: u32,
}

impl Algorithm {
    /// Well-formed kernels have a positive denominator and only
    /// forward-pointing taps.
    pub open spec fn wf(&self) -> bool {
        &&& self.den >= 1
        &&& forall|i: int| 0 <= i < self.taps@.len() ==> tap_forward(#[trigger] self.taps@[i])
    }

    /// Decides well-formedness at run time, for callers outside the verified
    /// world that must test it before starting a pass.
    pub fn is_wf(&self) -> (r: bool)
        ensures
            r == self.wf(),
    {
        if self.den < 1 {
            return false;
        }
        let mut i: usize = 0;
        while i < self.taps.len()
            invariant
                i <= self.taps@.len(),
                self.den >= 1,
                forall|j: int| 0 <= j < i ==> tap_forward(#[trigger] self.taps@[j]),
            decreases self.taps@.len() - i,
        {
            let t = self.taps[i];
            if !(t.dy > 0 || (t.dy == 0 && t.dx > 0)) {
                return false;
            }
            i = i + 1;
        }
        true
    }
}

pub open spec fn floyd_steinberg_taps() -> Seq<Tap> {
    seq![
        (Tap { dx: 1, dy: 0, num: 7 }),
        (Tap { dx: -1i32, dy: 1, num: 3 }),
        (Tap { dx: 0, dy: 1, num: 5 }),
        (Tap { dx: 1, dy: 1, num: 1 }),
    ]
}

pub open spec fn atkinson_taps() -> Seq<Tap> {
    seq![
        (Tap { dx: 1, dy: 0, num: 1 }),
        (Tap { dx: 2, dy: 0, num: 1 }),
        (Tap { dx: -1i32, dy: 1, num: 1 }),
        (Tap { dx: 0, dy: 1, num: 1 }),
        (Tap { dx: 1, dy: 1, num: 1 }),
        (Tap { dx: 0, dy: 2, num: 1 }),
    ]
}

pub open spec fn jarvis_judice_ninke_taps() -> Seq<Tap> {
    seq![
        (Tap { dx: 1, dy: 0, num: 7 }),
        (Tap { dx: 2, dy: 0, num: 5 }),
        (Tap { dx: -2i32, dy: 1, num: 3 }),
        (Tap { dx: -1i32, dy: 1, num: 5 }),
        (Tap { dx: 0, dy: 1, num: 7 }),
        (Tap { dx: 1, dy: 1, num: 5 }),
        (Tap { dx: 2, dy: 1, num: 3 }),
        (Tap { dx: -2i32, dy: 2, num: 1 }),
        (Tap { dx: -1i32, dy: 2, num: 3 }),
        (Tap { dx: 0, dy: 2, num: 5 }),
        (Tap { dx: 1, dy: 2, num: 3 }),
        (Tap { dx: 2, dy: 2, num: 1 }),
    ]
}

pub open spec fn burkes_taps() -> Seq<Tap> {
    seq![
        (Tap { dx: 1, dy: 0, num: 8 }),
        (Tap { dx: 2, dy: 0, num: 4 }),
        (Tap { dx: -2i32, dy: 1, num: 2 }),
        (Tap { dx: -1i32, dy: 1, num: 4 }),
        (Tap { dx: 0, dy: 1, num: 8 }),
        (Tap { dx: 1, dy: 1, num: 4 }),
        (Tap { dx: 2, dy: 1, num: 2 }),
    ]
}

pub open spec fn sierra_lite_taps() -> Seq<Tap> {
    seq![
        (Tap { dx: 1, dy: 0, num: 2 }),
        (Tap { dx: -1i32, dy: 1, num: 1 }),
        (Tap { dx: 0, dy: 1, num: 1 }),
    ]
}

/// Pushes one tap while maintaining the forward-offset invariant over the
/// whole list.
fn push_tap(taps: &mut Vec<Tap>, dx: i32, dy: i32, num: i32)
    requires
        dy > 0 || (dy == 0 && dx > 0),
        forall|j: int| 0 <= j < old(taps)@.len() ==> tap_forward(#[trigger] old(taps)@[j]),
    ensures
        final(taps)@ == old(taps)@.push((Tap { dx, dy, num })),
        forall|j: int| 0 <= j < final(taps)@.len() ==> tap_forward(#[trigger] final(taps)@[j]),
{
    taps.push(Tap { dx, dy, num });
}

/// The empty kernel: quantization only, no propagation.
pub fn none_kernel() -> (k: Algorithm)
    ensures
        k.wf(),
        k.taps@ == Seq::<Tap>::empty(),
        k.den == 1,
{
    Algorithm { taps: Vec::new(), den: 1 }
}

pub fn floyd_steinberg() -> (k: Algorithm)
    ensures
        k.wf(),
        k.taps@ == floyd_steinberg_taps(),
        k.den == 16,
{
    let mut taps: Vec<Tap> = Vec::new();
    push_tap(&mut taps, 1, 0, 7);
    push_tap(&mut taps, -1, 1, 3);
    push_tap(&mut taps, 0, 1, 5);
    push_tap(&mut taps, 1, 1, 1);
    Algorithm { taps, den: 16 }
}

pub fn atkinson() -> (k: Algorithm)
    ensures
        k.wf(),
        k.taps@ == atkinson_taps(),
        k.den == 8,
{
    let mut taps: Vec<Tap> = Vec::new();
    push_tap(&mut taps, 1, 0, 1);
    push_tap(&mut taps, 2, 0, 1);
    push_tap(&mut taps, -1, 1, 1);
    push_tap(&mut taps, 0, 1, 1);
    push_tap(&mut taps, 1, 1, 1);
    push_tap(&mut taps, 0, 2, 1);
    Algorithm { taps, den: 8 }
}

pub fn jarvis_judice_ninke() -> (k: Algorithm)
    ensures
        k.wf(),
        k.taps@ == jarvis_judice_ninke_taps(),
        k.den == 48,
{
    let mut taps: Vec<Tap> = Vec::new();
    push_tap(&mut taps, 1, 0, 7);
    push_tap(&mut taps, 2, 0, 5);
    push_tap(&mut taps, -2, 1, 3);
    push_tap(&mut taps, -1, 1, 5);
    push_tap(&mut taps, 0, 1, 7);
    push_tap(&mut taps, 1, 1, 5);
    push_tap(&mut taps, 2, 1, 3);
    push_tap(&mut taps, -2, 2, 1);
    push_tap(&mut taps, -1, 2, 3);
    push_tap(&mut taps, 0, 2, 5);
    push_tap(&mut taps, 1, 2, 3);
    push_tap(&mut taps, 2, 2, 1);
    Algorithm { taps, den: 48 }
}

pub fn burkes() -> (k: Algorithm)
    ensures
        k.wf(),
        k.taps@ == burkes_taps(),
        k.den == 32,
{
    let mut taps: Vec<Tap> = Vec::new();
    push_tap(&mut taps, 1, 0, 8);
    push_tap(&mut taps, 2, 0, 4);
    push_tap(&mut taps, -2, 1, 2);
    push_tap(&mut taps, -1, 1, 4);
    push_tap(&mut taps, 0, 1, 8);
    push_tap(&mut taps, 1, 1, 4);
    push_tap(&mut taps, 2, 1, 2);
    Algorithm { taps, den: 32 }
}

pub fn sierra_lite() -> (k: Algorithm)
    ensures
        k.wf(),
        k.taps@ == sierra_lite_taps(),
        k.den == 4,
{
    let mut taps: Vec<Tap> = Vec::new();
    push_tap(&mut taps, 1, 0, 2);
    push_tap(&mut taps, -1, 1, 1);
    push_tap(&mut taps, 0, 1, 1);
    Algorithm { taps, den: 4 }
}

/// The ASCII-lowercased scalar value of a character: the key under which
/// kernel names are compared, making the registry lookup case-insensitive.
pub open spec fn lower_code(c: char) -> u32 {
    if 65 <= c as u32 && c as u32 <= 90 {
        (c as u32 + 32) as u32
    } else {
        c as u32
    }
}

pub open spec fn lower_codes(s: Seq<char>) -> Seq<u32> {
    Seq::new(s.len(), |i: int| lower_code(s[i]))
}

/// Two names denote the same kernel when they agree after ASCII case folding.
pub open spec fn name_matches(s: Seq<char>, t: Seq<char>) -> bool {
    lower_codes(s) == lower_codes(t)
}

fn lower_code_exec(c: char) -> (u: u32)
    ensures
        u == lower_code(c),
{
    let v = c as u32;
    if 65 <= v && v <= 90 {
        v + 32
    } else {
        v
    }
}

fn eq_ignore_ascii_case(s: &str, t: &str) -> (r: bool)
    ensures
        r == name_matches(s@, t@),
{
    let n = s.unicode_len();
    let m = t.unicode_len();
    if n != m {
        proof {
            assert(lower_codes(s@).len() != lower_codes(t@).len());
        }
        return false;
    }
    let mut i: usize = 0;
    while i < n
        invariant
            n == s@.len() && n == t@.len(),
            i <= n,
            forall|j: int| 0 <= j < i ==> lower_codes(s@)[j] == lower_codes(t@)[j],
        decreases n - i,
    {
        let a = lower_code_exec(s.get_char(i));
        let b = lower_code_exec(t.get_char(i));
        if a != b {
            proof {
                assert(lower_codes(s@)[i as int] != lower_codes(t@)[i as int]);
            }
            return false;
        }
        i = i + 1;
    }
    proof {
        assert(lower_codes(s@) =~= lower_codes(t@));
    }
    true
}

/// The kernel registered under a name, if any: the named, immutable set of
/// diffusion kernels, resolved by case-insensitive lookup.
pub open spec fn kernel_spec(name: Seq<char>) -> Option<(Seq<Tap>, int)> {
    if name_matches(name, "none"@) {
        Some((Seq::<Tap>::empty(), 1int))
    } else if name_matches(name, "floyd-steinberg"@) {
        Some((floyd_steinberg_taps(), 16int))
    } else if name_matches(name, "atkinson"@) {
        Some((atkinson_taps(), 8int))
    } else if name_matches(name, "jarvis-judice-ninke"@) {
        Some((jarvis_judice_ninke_taps(), 48int))
    } else if name_matches(name, "burkes"@) {
        Some((burkes_taps(), 32int))
    } else if name_matches(name, "sierra-lite"@) {
        Some((sierra_lite_taps(), 4int))
    } else {
        None
    }
}

/// Resolves a kernel by case-insensitive name, once, at configuration time.
/// Unknown names fail with a `ConfigurationError` carrying the offending
/// string, before any pixel processing can begin.
pub fn kernel_by_name(name: &str) -> (r: Result<Algorithm, ConfigurationError>)
    ensures
        r matches Ok(k) ==> (k.wf() && kernel_spec(name@) == Some((k.taps@, k.den as int))),
        r matches Err(e) ==> (kernel_spec(name@) is None && (e matches
        ConfigurationError::UnknownKernel(s) && s@ == name@)),
        r is Ok <==> kernel_spec(name@) is Some,
{
    if eq_ignore_ascii_case(name, "none") {
        Ok(none_kernel())
    } else if eq_ignore_ascii_case(name, "floyd-steinberg") {
        Ok(floyd_steinberg())
    } else if eq_ignore_ascii_case(name, "atkinson") {
        Ok(atkinson())
    } else if eq_ignore_ascii_case(name, "jarvis-judice-ninke") {
        Ok(jarvis_judice_ninke())
    } else if eq_ignore_ascii_case(name, "burkes") {
        Ok(burkes())
    } else if eq_ignore_ascii_case(name, "sierra-lite") {
        Ok(sierra_lite())
    } else {
        Err(ConfigurationError::UnknownKernel(name.to_owned()))
    }
}

} // verus!
