//! Short-time spectral analysis: a window function applied in fixed point,
//! an external real-to-complex transform behind the [`ComputeSpectrum`]
//! trait, per-tick memoization, and frequency-range slicing.

use vstd::prelude::*;

use crate::fixed::{div_round, is_isqrt, isqrt, rounded_div, SCALE};
use crate::util::FrameId;

verus! {

/// Largest supported transform window, in samples.
pub const MAX_WINDOW: usize = 1048576;

/// Magnitude bound every returned frequency-bin component respects.
pub const BIN_LIMIT: i64 = 0x8000_0000;

/// Number of frequency bins a real-input transform of `window_len` samples
/// produces.
pub open spec fn spectrum_len(window_len: int) -> int {
    window_len / 2 + 1
}

/// One complex frequency bin, both components in fixed point.
#[derive(Debug, Clone, Copy, PartialEq, Eq, Structural)]
pub struct Bin {
    pub re: i64,
    pub im: i64,
}

impl Bin {
    pub open spec fn in_range(self) -> bool {
        -BIN_LIMIT <= self.re <= BIN_LIMIT && -BIN_LIMIT <= self.im <= BIN_LIMIT
    }

    /// The bin's magnitude: the integer square root of `re^2 + im^2`.
    pub fn norm(&self) -> (r: u64)
        requires
            self.in_range(),
        ensures
            is_isqrt(self.re * self.re + self.im * self.im, r as int),
            r <= 0x1_0000_0000u64,
    {
        let re_mag: u64 = if self.re >= 0 {
            self.re as u64
        } else {
            (-self.re) as u64
        };
        let im_mag: u64 = if self.im >= 0 {
            self.im as u64
        } else {
            (-self.im) as u64
        };
        assert(re_mag * re_mag + im_mag * im_mag <= u64::MAX && re_mag * re_mag == self.re
            * self.re && im_mag * im_mag == self.im * self.im) by (nonlinear_arith)
            requires
                re_mag <= 0x8000_0000u64,
                im_mag <= 0x8000_0000u64,
                re_mag == if self.re >= 0 {
                    self.re as int
                } else {
                    -(self.re as int)
                },
                im_mag == if self.im >= 0 {
                    self.im as int
                } else {
                    -(self.im as int)
                },
        ;
        let r = isqrt(re_mag * re_mag + im_mag * im_mag);
        assert(r <= 0x1_0000_0000u64) by (nonlinear_arith)
            requires
                r * r <= re_mag * re_mag + im_mag * im_mag,
                re_mag <= 0x8000_0000u64,
                im_mag <= 0x8000_0000u64,
        ;
        r
    }
}

/// The windowing functions the engine can apply before a transform.
#[derive(Debug, Clone, Copy)]
pub enum Window {
    Hann,
}

/// `SCALE * (v^2 - 4u^2) / (v^2 + u^2)`: the rational quarter-turn cosine
/// approximation, exact at both ends, for `0 <= 2u <= v`.
pub open spec fn cos_quarter_q(u: int, v: int) -> int {
    (SCALE * (v * v - 4 * u * u)) / (v * v + u * u)
}

/// Fixed-point cosine of the angle `2*pi*n/len`, for `0 <= n < len`,
/// exactly `SCALE` at `n == 0` and exactly `-SCALE` at `n == len/2`.
pub open spec fn cos_turn_q(n: int, len: int) -> int {
    let m = if 2 * n <= len {
        n
    } else {
        len - n
    };
    if 4 * m <= len {
        cos_quarter_q(2 * m, len)
    } else {
        -cos_quarter_q(len - 2 * m, len)
    }
}

/// The Hann window coefficient at position `n` of `len`, in fixed point:
/// `0.5 * (1 - cos(2*pi*n/len))`, exactly 0 at the edges and exactly 1.0 at
/// the center of an even-length window.
pub open spec fn hann_q(n: int, len: int) -> int {
    (SCALE as int - cos_turn_q(n, len)) / 2
}

/// A sample scaled by a nonnegative fixed-point factor, truncating toward
/// zero.
pub open spec fn scale_sample(x: int, h: int) -> int {
    if x >= 0 {
        (x * h) / (SCALE as int)
    } else {
        -(((-x) * h) / (SCALE as int))
    }
}

proof fn lemma_cos_quarter_range(u: int, v: int)
    requires
        0 <= 2 * u <= v,
        v >= 1,
    ensures
        0 <= cos_quarter_q(u, v) <= SCALE,
{
    assert(0 <= v * v - 4 * u * u && v * v - 4 * u * u <= v * v + u * u && v * v + u * u >= 1)
        by (nonlinear_arith)
        requires
            0 <= 2 * u <= v,
            v >= 1,
    ;
    let num = SCALE * (v * v - 4 * u * u);
    let den = v * v + u * u;
    assert(0 <= num <= SCALE * den) by (nonlinear_arith)
        requires
            0 <= v * v - 4 * u * u <= v * v + u * u,
            den == v * v + u * u,
            num == SCALE * (v * v - 4 * u * u),
    ;
    assert(0 <= num / den <= SCALE) by (nonlinear_arith)
        requires
            0 <= num <= SCALE * den,
            den >= 1,
    ;
}

/// Every cosine value lies within one fixed-point unit of magnitude.
pub proof fn lemma_cos_turn_range(n: int, len: int)
    requires
        0 <= n < len,
        len >= 1,
    ensures
        -SCALE <= cos_turn_q(n, len) <= SCALE,
{
    let m = if 2 * n <= len {
        n
    } else {
        len - n
    };
    if 4 * m <= len {
        lemma_cos_quarter_range(2 * m, len);
    } else {
        lemma_cos_quarter_range(len - 2 * m, len);
    }
}

/// Every window coefficient lies between 0 and exactly 1.0.
pub proof fn lemma_hann_range(n: int, len: int)
    requires
        0 <= n < len,
        len >= 1,
    ensures
        0 <= hann_q(n, len) <= SCALE,
{
    lemma_cos_turn_range(n, len);
}

/// The Hann window coefficient at position `n` of a window of length `len`.
pub fn hann(n: usize, len: usize) -> (h: u64)
    requires
        n < len,
        len <= MAX_WINDOW,
    ensures
        h == hann_q(n as int, len as int),
        h <= SCALE,
{
    proof {
        lemma_hann_range(n as int, len as int);
    }
    let m: u64 = if 2 * (n as u64) <= (len as u64) {
        n as u64
    } else {
        (len as u64) - (n as u64)
    };
    let v: u64 = len as u64;
    let (neg, u): (bool, u64) = if 4 * m <= v {
        (false, 2 * m)
    } else {
        (true, v - 2 * m)
    };
    assert(v * v <= MAX_WINDOW as u64 * MAX_WINDOW as u64 && u * u <= v * v && 4 * u * u <= v * v)
        by (nonlinear_arith)
        requires
            2 * u <= v,
            1 <= v <= MAX_WINDOW as u64,
    ;
    let num: u64 = SCALE * (v * v - 4 * u * u);
    let den: u64 = v * v + u * u;
    assert(den >= 1) by (nonlinear_arith)
        requires
            v >= 1,
            den == v * v + u * u,
    ;
    assert(num <= u64::MAX && v * v - 4 * u * u <= v * v) by (nonlinear_arith)
        requires
            2 * u <= v,
            1 <= v <= MAX_WINDOW as u64,
    ;
    let c_mag: u64 = num / den;
    proof {
        lemma_cos_quarter_range(u as int, v as int);
        assert(c_mag == cos_quarter_q(u as int, v as int));
    }
    let numerator: u64 = if neg {
        SCALE + c_mag
    } else {
        SCALE - c_mag
    };
    proof {
        let c = cos_turn_q(n as int, len as int);
        if neg {
            assert(c == -(c_mag as int));
        } else {
            assert(c == c_mag as int);
        }
        assert(numerator == SCALE as int - c);
    }
    numerator / 2
}

impl Window {
    /// Apply the window coefficients to a sample block in place.
    pub fn apply(&self, data: &mut Vec<i32>)
        requires
            old(data)@.len() <= MAX_WINDOW,
        ensures
            final(data)@.len() == old(data)@.len(),
            forall|i: int|
                0 <= i < old(data)@.len() ==> final(data)@[i] == scale_sample(
                    old(data)@[i] as int,
                    hann_q(i, old(data)@.len() as int),
                ),
    {
        let len = data.len();
        let mut i: usize = 0;
        while i < len
            invariant
                i <= len,
                len == data@.len() <= MAX_WINDOW,
                forall|k: int|
                    0 <= k < i ==> data@[k] == scale_sample(
                        old(data)@[k] as int,
                        hann_q(k, len as int),
                    ),
                forall|k: int| i <= k < len ==> data@[k] == old(data)@[k],
            decreases len - i,
        {
            let x = data[i];
            let h = hann(i, len);
            let scaled = scale_by(x, h);
            data[i] = scaled;
            i = i + 1;
        }
    }
}

/// Scale a signed sample by a fixed-point factor of at most 1.0.
fn scale_by(x: i32, h: u64) -> (r: i32)
    requires
        h <= SCALE,
    ensures
        r == scale_sample(x as int, h as int),
{
    if x >= 0 {
        let mag = x as u64;
        assert(mag * h <= u64::MAX && (mag * h) / (SCALE as int) <= mag) by (nonlinear_arith)
            requires
                h <= SCALE,
                mag <= 0x8000_0000u64,
        ;
        let scaled = mag * h / SCALE;
        scaled as i32
    } else {
        let mag = (-(x as i64)) as u64;
        assert(mag * h <= u64::MAX && (mag * h) / (SCALE as int) <= mag) by (nonlinear_arith)
            requires
                h <= SCALE,
                mag <= 0x8000_0000u64,
        ;
        let scaled = mag * h / SCALE;
        let back = -(scaled as i64);
        back as i32
    }
}

/// The external real-input forward transform: windowed fixed-point samples
/// in, amplitude-normalized frequency bins out.
///
/// Implementations live outside the verified library (they wrap a floating
/// point FFT), so nothing here is proved about the bin values themselves:
/// only their number and their bounded magnitude are relied on, and an
/// implementation must honor both.
pub trait ComputeSpectrum: Sized {
    /// A transform for blocks of `window_len` samples.
    fn create(window_len: usize) -> (s: Self)
        requires
            2 <= window_len <= MAX_WINDOW,
    ;

    /// The block length this transform was created for.
    fn window_len(&self) -> usize;

    /// Transform one block; the result has one bin per non-negative
    /// frequency of the block and each component within [`BIN_LIMIT`].
    fn compute(&mut self, data: &Vec<i32>) -> (bins: Vec<Bin>)
        ensures
            bins@.len() == spectrum_len(data@.len() as int),
            forall|i: int| 0 <= i < bins@.len() ==> (#[trigger] bins@[i]).in_range(),
    ;
}

/// The frequency bin a fixed-point frequency falls into, before slicing:
/// `round(f * window_len / sample_rate)`.
pub open spec fn spec_bin_for(window_len: int, f: int, sample_rate: int) -> int {
    rounded_div(f * window_len, sample_rate * (SCALE as int))
}

/// The absolute fixed-point frequency of a full-spectrum bin:
/// `round(bin * sample_rate / window_len)`, in `SCALE`ths of one hertz.
pub open spec fn spec_freq(window_len: int, bin: int, sample_rate: int) -> int {
    rounded_div(bin * sample_rate * SCALE, window_len)
}

/// Unsliced bin index for a frequency, as a saturating machine computation.
fn bin_for_full(window_len: usize, f: u64, sample_rate: usize) -> (r: u64)
    requires
        1 <= sample_rate <= 1_000_000,
        window_len <= MAX_WINDOW,
        f <= 0x1_0000_0000u64,
    ensures
        r == spec_bin_for(window_len as int, f as int, sample_rate as int),
{
    assert(f * (window_len as u64) <= 0x1_0000_0000u64 * (MAX_WINDOW as u64) && (
    sample_rate as u64) * SCALE <= 1_000_000u64 * SCALE) by (nonlinear_arith)
        requires
            f <= 0x1_0000_0000u64,
            window_len <= MAX_WINDOW,
            1 <= sample_rate <= 1_000_000,
    ;
    div_round(f * (window_len as u64), (sample_rate as u64) * SCALE)
}

/// An immutable snapshot of frequency bins for one tick, together with the
/// slice offset and original window length, so that bin and frequency
/// conversions stay consistent with the full-resolution transform.
#[derive(Debug)]
pub struct Spectrum {
    bins: Vec<Bin>,
    bin0: usize,
    window_len: usize,
    f_min: u64,
    f_max: u64,
}

impl Spectrum {
    pub closed spec fn spec_bins(self) -> Seq<Bin> {
        self.bins@
    }

    pub closed spec fn spec_bin0(self) -> nat {
        self.bin0 as nat
    }

    pub closed spec fn spec_window_len(self) -> nat {
        self.window_len as nat
    }

    pub closed spec fn spec_f_min(self) -> nat {
        self.f_min as nat
    }

    pub closed spec fn spec_f_max(self) -> nat {
        self.f_max as nat
    }

    pub open spec fn wf(self) -> bool {
        &&& 2 <= self.spec_window_len() <= MAX_WINDOW
        &&& self.spec_bin0() + self.spec_bins().len() <= spectrum_len(
            self.spec_window_len() as int,
        )
        &&& forall|i: int|
            0 <= i < self.spec_bins().len() ==> (#[trigger] self.spec_bins()[i]).in_range()
    }

    pub fn from_parts(bins: Vec<Bin>, bin0: usize, window_len: usize, f_min: u64, f_max: u64) -> (s:
        Spectrum)
        requires
            2 <= window_len <= MAX_WINDOW,
            bin0 + bins@.len() <= spectrum_len(window_len as int),
            forall|i: int| 0 <= i < bins@.len() ==> (#[trigger] bins@[i]).in_range(),
        ensures
            s.wf(),
            s.spec_bins() == bins@,
            s.spec_bin0() == bin0,
            s.spec_window_len() == window_len,
            s.spec_f_min() == f_min,
            s.spec_f_max() == f_max,
    {
        Spectrum { bins, bin0, window_len, f_min, f_max }
    }

    /// Number of bins in the sliced view.
    pub fn len(&self) -> (n: usize)
        ensures
            n == self.spec_bins().len(),
    {
        self.bins.len()
    }

    /// One bin of the sliced view.
    pub fn bin(&self, i: usize) -> (b: Bin)
        requires
            i < self.spec_bins().len(),
        ensures
            b == self.spec_bins()[i as int],
    {
        self.bins[i]
    }

    /// The sliced-view index for an absolute frequency inside the slice's
    /// range: the full-resolution bin, shifted down by the slice offset and
    /// clamped to zero.
    pub fn bin_for(&self, f: u64, sample_rate: usize) -> (r: usize)
        requires
            self.wf(),
            self.spec_f_min() <= f <= self.spec_f_max(),
            f <= 0x1_0000_0000u64,
            1 <= sample_rate <= 1_000_000,
        ensures
            ({
                let full = spec_bin_for(self.spec_window_len() as int, f as int, sample_rate as int);
                let d = if full >= self.spec_bin0() + 1 {
                    full - self.spec_bin0()
                } else {
                    0
                };
                r == if d > 0xffff_ffffu64 {
                    0xffff_ffffu64 as int
                } else {
                    d
                }
            }),
    {
        let full = bin_for_full(self.window_len, f, sample_rate);
        if full >= (self.bin0 as u64) + 1 {
            let d = full - (self.bin0 as u64);
            if d > 0xffff_ffffu64 {
                0xffff_ffffu64 as usize
            } else {
                d as usize
            }
        } else {
            0
        }
    }

    /// The absolute fixed-point frequency of a sliced-view bin.
    pub fn freq(&self, bin: usize, sample_rate: usize) -> (r: u64)
        requires
            self.wf(),
            bin <= spectrum_len(self.spec_window_len() as int),
            1 <= sample_rate <= 1_000_000,
        ensures
            r == spec_freq(
                self.spec_window_len() as int,
                self.spec_bin0() + bin,
                sample_rate as int,
            ),
    {
        let b = (self.bin0 as u64) + (bin as u64);
        assert(b * (sample_rate as u64) * SCALE <= 0x200_0000_0000_0000u64 && b * (
        sample_rate as u64) * SCALE == (b * (sample_rate as u64)) * SCALE) by (nonlinear_arith)
            requires
                b <= 2 * (MAX_WINDOW as u64),
                sample_rate <= 1_000_000,
        ;
        div_round(b * (sample_rate as u64) * SCALE, self.window_len as u64)
    }
}

/// The first and one-past-last full-spectrum bins a frequency range selects,
/// clamped to the available bins.
pub open spec fn slice_bounds(
    window_len: int,
    range: Option<(u64, u64)>,
    full_len: int,
    sample_rate: int,
) -> (int, int) {
    match range {
        Option::None => (0, full_len),
        Option::Some((lo, hi)) => {
            let b0 = if spec_bin_for(window_len, lo as int, sample_rate) <= full_len {
                spec_bin_for(window_len, lo as int, sample_rate)
            } else {
                full_len
            };
            let e0 = if spec_bin_for(window_len, hi as int, sample_rate) <= full_len {
                spec_bin_for(window_len, hi as int, sample_rate)
            } else {
                full_len
            };
            let e = if e0 >= b0 {
                e0
            } else {
                b0
            };
            (b0, e)
        },
    }
}

/// Owns one external transform and serves sliced spectra from it, computing
/// at most once per tick: a pull that carries the last computed tick's
/// identity is answered from the cache without touching the transform.
#[derive(Debug)]
pub struct SpectrumStore<S> {
    transform: S,
    window: Window,
    window_len: usize,
    last_id: FrameId,
    cached: Vec<Bin>,
    frequency_range: Option<(u64, u64)>,
}

impl<S: ComputeSpectrum> SpectrumStore<S> {
    pub closed spec fn spec_window_len(self) -> nat {
        self.window_len as nat
    }

    pub closed spec fn spec_last_id(self) -> FrameId {
        self.last_id
    }

    /// The full (unsliced) bins computed for the last tick.
    pub closed spec fn spec_cached(self) -> Seq<Bin> {
        self.cached@
    }

    pub closed spec fn spec_range(self) -> Option<(u64, u64)> {
        self.frequency_range
    }

    pub open spec fn same_config(self, other: SpectrumStore<S>) -> bool {
        &&& self.spec_window_len() == other.spec_window_len()
        &&& self.spec_range() == other.spec_range()
    }

    pub open spec fn wf(self) -> bool {
        &&& 2 <= self.spec_window_len() <= MAX_WINDOW
        &&& self.spec_cached().len() == 0 || self.spec_cached().len() == spectrum_len(
            self.spec_window_len() as int,
        )
        &&& self.spec_last_id().id_val() != 0 ==> self.spec_cached().len() == spectrum_len(
            self.spec_window_len() as int,
        )
        &&& forall|i: int|
            0 <= i < self.spec_cached().len() ==> (#[trigger] self.spec_cached()[i]).in_range()
        &&& match self.spec_range() {
            Option::None => true,
            Option::Some((lo, hi)) => 1 <= lo < hi <= 0x1_0000_0000u64,
        }
    }

    /// A store that serves the full spectrum of `window_len`-sample blocks.
    pub fn new(transform: S, window: Window, window_len: usize) -> (s: SpectrumStore<S>)
        requires
            2 <= window_len <= MAX_WINDOW,
        ensures
            s.wf(),
            s.spec_window_len() == window_len,
            s.spec_last_id().id_val() == 0,
            s.spec_range() is None,
    {
        SpectrumStore {
            transform,
            window,
            window_len,
            last_id: FrameId::default(),
            cached: Vec::new(),
            frequency_range: None,
        }
    }

    /// A store restricted to the bins between two absolute frequencies.
    pub fn with_frequency_range(
        transform: S,
        window: Window,
        window_len: usize,
        frequency_range: (u64, u64),
    ) -> (s: SpectrumStore<S>)
        requires
            2 <= window_len <= MAX_WINDOW,
            1 <= frequency_range.0 < frequency_range.1 <= 0x1_0000_0000u64,
        ensures
            s.wf(),
            s.spec_window_len() == window_len,
            s.spec_last_id().id_val() == 0,
            s.spec_range() == Option::Some(frequency_range),
    {
        SpectrumStore {
            transform,
            window,
            window_len,
            last_id: FrameId::default(),
            cached: Vec::new(),
            frequency_range: Some(frequency_range),
        }
    }

    pub fn window_len(&self) -> (n: usize)
        ensures
            n == self.spec_window_len(),
    {
        self.window_len
    }

    /// Serve the spectrum for one tick: recompute through the window and the
    /// external transform only when the tick is new, then slice the cached
    /// bins to the configured frequency range.
    pub fn compute(&mut self, id: FrameId, data: &Vec<i32>, sample_rate: usize) -> (s: Spectrum)
        requires
            old(self).wf(),
            id.id_val() != 0,
            data@.len() == old(self).spec_window_len(),
            1 <= sample_rate <= 1_000_000,
        ensures
            final(self).wf(),
            final(self).same_config(*old(self)),
            final(self).spec_last_id() == id,
            old(self).spec_last_id() == id ==> *final(self) == *old(self),
            final(self).spec_cached().len() == spectrum_len(final(self).spec_window_len() as int),
            s.wf(),
            s.spec_window_len() == old(self).spec_window_len(),
            ({
                let full_len = spectrum_len(final(self).spec_window_len() as int);
                let (b0, e) = slice_bounds(
                    final(self).spec_window_len() as int,
                    final(self).spec_range(),
                    full_len,
                    sample_rate as int,
                );
                &&& s.spec_bin0() == b0
                &&& s.spec_bins() == final(self).spec_cached().subrange(b0, e)
                &&& match final(self).spec_range() {
                    Option::None => s.spec_f_min() == 0 && s.spec_f_max() == u64::MAX,
                    Option::Some((lo, hi)) => s.spec_f_min() == lo && s.spec_f_max() == hi,
                }
            }),
    {
        let changed = self.last_id.update(id);
        if changed {
            let mut windowed = data.clone();
            assert(windowed@ =~= data@);
            self.window.apply(&mut windowed);
            let bins = self.transform.compute(&windowed);
            self.cached = bins;
        }
        let full_len = self.cached.len();
        let (bin0, end, f_lo, f_hi): (usize, usize, u64, u64) = match self.frequency_range {
            None => (0, full_len, 0u64, u64::MAX),
            Some((lo, hi)) => {
                let b0u = bin_for_full(self.window_len, lo, sample_rate);
                let b0: usize = if b0u <= full_len as u64 {
                    b0u as usize
                } else {
                    full_len
                };
                let eu = bin_for_full(self.window_len, hi, sample_rate);
                let e0: usize = if eu <= full_len as u64 {
                    eu as usize
                } else {
                    full_len
                };
                let e: usize = if e0 >= b0 {
                    e0
                } else {
                    b0
                };
                (b0, e, lo, hi)
            },
        };
        let mut bins: Vec<Bin> = Vec::new();
        let mut i = bin0;
        while i < end
            invariant
                bin0 <= i <= end,
                end <= self.cached@.len(),
                bins@ == self.cached@.subrange(bin0 as int, i as int),
            decreases end - i,
        {
            let b = self.cached[i];
            bins.push(b);
            i = i + 1;
            proof {
                assert(bins@ =~= self.cached@.subrange(bin0 as int, i as int));
            }
        }
        proof {
            assert(bins@ =~= self.cached@.subrange(bin0 as int, end as int));
        }
        Spectrum::from_parts(bins, bin0, self.window_len, f_lo, f_hi)
    }
}

} // verus!
