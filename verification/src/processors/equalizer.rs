//! A spectrum rendered as vertical bars.

use vstd::prelude::*;
use vstd::string::StringExecFns;

use crate::fixed::{lemma_sqrt_floor, rounded_div, sqrt_floor, SCALE};
use crate::pipeline::{Capability, Node, NodeId};
use crate::util::inputs::validate_inputs;
use crate::util::spectrum::{spectrum_len, Bin, ComputeSpectrum, Spectrum, MAX_WINDOW};
use crate::util::video::{Pixel, VideoFrame};
use crate::util::Error;

verus! {

/// Bars shorter than this many pixels are suppressed entirely.
pub const MIN_BAR: usize = 5;

/// Renders its spectrum input as vertical bars growing from the bottom of
/// the frame.
#[derive(Debug)]
pub struct Equalizer {
    pub input: usize,
}

/// The pixel height of the bar for one frequency bin on a frame of height
/// `h`: the rounded product of the bin's magnitude and the frame height,
/// capped at the frame height and suppressed entirely below [`MIN_BAR`].
pub open spec fn bar_height(b: Bin, h: int) -> int {
    let amp = sqrt_floor(b.re * b.re + b.im * b.im);
    let ht = rounded_div(amp * h, SCALE as int);
    let capped = if ht > h {
        h
    } else {
        ht
    };
    if capped < MIN_BAR {
        0
    } else {
        capped
    }
}

/// What the pixel at `(x, y)` holds after the bars are drawn over `p`:
/// white inside a bar, untouched elsewhere. The bar under `x` is chosen by
/// dividing the width into ceil-rounded equal columns.
pub open spec fn equalizer_pixel(
    p: Pixel,
    x: int,
    y: int,
    h: int,
    bins: Seq<Bin>,
    bin_width: int,
) -> Pixel {
    let b = x / bin_width;
    if y >= h - bar_height(bins[b], h) {
        Pixel { blue: 255u8, green: 255u8, red: 255u8, pad: p.pad }
    } else {
        p
    }
}

/// Pixel height of the bar for one bin.
fn bar_height_exec(b: Bin, h: usize) -> (r: usize)
    requires
        b.in_range(),
        h <= 0x4000,
    ensures
        r == bar_height(b, h as int),
{
    let amp = b.norm();
    proof {
        lemma_sqrt_floor(b.re * b.re + b.im * b.im, amp as int);
        assert(amp * h <= 0x1_0000_0000u64 * 0x4000u64) by (nonlinear_arith)
            requires
                amp <= 0x1_0000_0000u64,
                h <= 0x4000,
        ;
    }
    let ht64 = div_round_u64(amp * (h as u64), SCALE);
    let ht: usize = if ht64 > (h as u64) {
        h
    } else {
        ht64 as usize
    };
    if ht < MIN_BAR {
        0
    } else {
        ht
    }
}

/// Rounded division on machine words.
fn div_round_u64(a: u64, b: u64) -> (r: u64)
    requires
        b > 0,
        a <= 0x8000_0000_0000_0000u64,
    ensures
        r == rounded_div(a as int, b as int),
{
    crate::fixed::div_round(a, b)
}

/// Draw the bars over a frame in place. A spectrum with no bins leaves the
/// frame untouched.
pub fn render(frame: &mut VideoFrame, spectrum: &Spectrum)
    requires
        old(frame).wf(),
        old(frame).spec_width() >= 1,
        old(frame).spec_width() <= 0x4000,
        old(frame).spec_height() <= 0x4000,
        spectrum.wf(),
    ensures
        final(frame).wf(),
        final(frame).same_dims(*old(frame)),
        final(frame)@.len() == old(frame)@.len(),
        spectrum.spec_bins().len() == 0 ==> final(frame)@ == old(frame)@,
        spectrum.spec_bins().len() >= 1 ==> ({
            let bin_width = ((old(frame).spec_width() + spectrum.spec_bins().len() - 1) as int) / (
            spectrum.spec_bins().len() as int);
            forall|x: int, y: int|
                0 <= x < final(frame).spec_width() && 0 <= y < final(frame).spec_height()
                    ==> final(frame).pixel_at(x, y) == equalizer_pixel(
                    old(frame).pixel_at(x, y),
                    x,
                    y,
                    old(frame).spec_height() as int,
                    spectrum.spec_bins(),
                    bin_width,
                )
        }),
{
    let n_bins = spectrum.len();
    if n_bins == 0 {
        return ;
    }
    let w = frame.width();
    let h = frame.height();
    assert(n_bins <= spectrum_len(MAX_WINDOW as int));
    let bin_width = (w + n_bins - 1) / n_bins;
    proof {
        assert(bin_width * n_bins >= w && bin_width >= 1) by (nonlinear_arith)
            requires
                n_bins >= 1,
                w >= 1,
                bin_width == ((w + n_bins - 1) as int) / (n_bins as int),
        ;
    }
    let mut y: usize = 0;
    while y < h
        invariant
            y <= h,
            frame.wf(),
            spectrum.wf(),
            n_bins == spectrum.spec_bins().len() >= 1,
            frame.same_dims(*old(frame)),
            frame@.len() == old(frame)@.len(),
            w == frame.spec_width() >= 1,
            h == frame.spec_height() <= 0x4000,
            bin_width == ((w + n_bins - 1) as int) / (n_bins as int),
            bin_width * n_bins >= w,
            bin_width >= 1,
            forall|i: int, j: int|
                0 <= i < w && 0 <= j < y ==> frame.pixel_at(i, j) == equalizer_pixel(
                    old(frame).pixel_at(i, j),
                    i,
                    j,
                    h as int,
                    spectrum.spec_bins(),
                    bin_width as int,
                ),
            forall|i: int, j: int|
                0 <= i < w && y <= j < h ==> frame.pixel_at(i, j) == old(frame).pixel_at(i, j),
        decreases h - y,
    {
        let mut x: usize = 0;
        while x < w
            invariant
                x <= w,
                y < h,
                frame.wf(),
                spectrum.wf(),
                n_bins == spectrum.spec_bins().len() >= 1,
                frame.same_dims(*old(frame)),
                frame@.len() == old(frame)@.len(),
                w == frame.spec_width() >= 1,
                h == frame.spec_height() <= 0x4000,
                bin_width == ((w + n_bins - 1) as int) / (n_bins as int),
                bin_width * n_bins >= w,
                bin_width >= 1,
                forall|i: int, j: int|
                    0 <= i < w && 0 <= j < y ==> frame.pixel_at(i, j) == equalizer_pixel(
                        old(frame).pixel_at(i, j),
                        i,
                        j,
                        h as int,
                        spectrum.spec_bins(),
                        bin_width as int,
                    ),
                forall|i: int|
                    0 <= i < x ==> frame.pixel_at(i, y as int) == equalizer_pixel(
                        old(frame).pixel_at(i, y as int),
                        i,
                        y as int,
                        h as int,
                        spectrum.spec_bins(),
                        bin_width as int,
                    ),
                forall|i: int|
                    x <= i < w ==> frame.pixel_at(i, y as int) == old(frame).pixel_at(i, y as int),
                forall|i: int, j: int|
                    0 <= i < w && y < j < h ==> frame.pixel_at(i, j) == old(frame).pixel_at(i, j),
            decreases w - x,
        {
            let b = x / bin_width;
            proof {
                assert((x as int) / (bin_width as int) < n_bins) by (nonlinear_arith)
                    requires
                        0 <= x < w,
                        bin_width >= 1,
                        bin_width * n_bins >= w,
                ;
            }
            let height = bar_height_exec(spectrum.bin(b), h);
            if y >= h - height {
                let mut p = frame.read_pixel(x, y);
                p.set_grayscale(255);
                frame.write_pixel(x, y, p);
            }
            x = x + 1;
        }
        y = y + 1;
    }
}

impl Equalizer {
    /// Construct from one spectrum-providing input.
    pub fn new<S: ComputeSpectrum>(nodes: &Vec<Node<S>>, inputs: Vec<NodeId>) -> (r: Result<
        Equalizer,
        Error,
    >)
        requires
            forall|k: int| 0 <= k < inputs@.len() ==> (#[trigger] inputs@[k]) < nodes@.len(),
        ensures
            r is Ok <==> (inputs@.len() == 1 && nodes@[inputs@[0] as int].provides(
                Capability::ProvideSpectrum,
            )),
            r matches Ok(e) ==> e.input == inputs@[0],
            r matches Err(e) ==> e is InvalidInputs,
    {
        let input = match validate_inputs(nodes, &inputs, Capability::ProvideSpectrum) {
            Ok(n) => n,
            Err(e) => {
                return Err(e);
            },
        };
        Ok(Equalizer { input })
    }
}

/// Register this node kind's constructor under its stable type name.
pub fn register(factory: &mut crate::pipeline::NodeFactory)
    requires
        forall|i: int|
            0 <= i < old(factory).spec_entries().len() ==> (#[trigger] old(
                factory,
            ).spec_entries()[i]).kind_name@ != "equalizer"@,
    ensures
        final(factory).spec_entries().len() == old(factory).spec_entries().len() + 1,
        forall|i: int|
            0 <= i < old(factory).spec_entries().len() ==> final(factory).spec_entries()[i] == old(
                factory,
            ).spec_entries()[i],
        final(factory).spec_entries().last().kind_name@ == "equalizer"@,
        final(factory).spec_entries().last().node_type == crate::pipeline::NodeType::Equalizer,
{
    factory.register(String::from_str("equalizer"), crate::pipeline::NodeType::Equalizer);
}

} // verus!
