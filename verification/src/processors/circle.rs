//! A filled circle whose radius follows a scalar input.

use vstd::prelude::*;
use vstd::string::StringExecFns;

use crate::fixed::{is_isqrt, isqrt, lemma_sqrt_floor, sqrt_floor, SCALE};
use crate::pipeline::{Capability, Node, NodeId};
use crate::util::inputs::validate_inputs;
use crate::util::spectrum::ComputeSpectrum;
use crate::util::video::{Pixel, VideoFrame};
use crate::util::Error;

verus! {

/// Largest radius, in pixels, that a scalar input can select.
pub const MAX_RADIUS: u64 = 0x2000_0000;

/// Renders a filled circle: the scalar input selects a radius as a fraction
/// of the frame's smaller dimension.
#[derive(Debug)]
pub struct Circle {
    pub input: usize,
}

/// The white intensity (0..=255) of the pixel at `(x, y)` for a circle of
/// radius `r` around `(cx, cy)`: full inside the radius, linearly fading
/// over the one-pixel boundary band, zero outside.
pub open spec fn circle_intensity(x: int, y: int, cx: int, cy: int, r: int) -> int {
    let dx = if x >= cx {
        x - cx
    } else {
        cx - x
    };
    let dy = if y >= cy {
        y - cy
    } else {
        cy - y
    };
    let d2 = dx * dx + dy * dy;
    if d2 <= r * r {
        255
    } else if d2 <= (r + 1) * (r + 1) {
        let s16 = sqrt_floor(d2 * (SCALE as int) * (SCALE as int));
        (((r + 1) * SCALE - s16) * 255) / (SCALE as int)
    } else {
        0
    }
}

/// What the pixel at `(x, y)` holds after the circle is drawn over `p`.
pub open spec fn circle_pixel(p: Pixel, x: int, y: int, cx: int, cy: int, r: int) -> Pixel {
    let inten = circle_intensity(x, y, cx, cy, r);
    if inten > 0 {
        Pixel { blue: inten as u8, green: inten as u8, red: inten as u8, pad: p.pad }
    } else {
        p
    }
}

/// Intensity of one pixel, computed with the integer square root.
fn intensity_at(x: usize, y: usize, cx: usize, cy: usize, r: u64) -> (v: u8)
    requires
        x <= 0x4000,
        y <= 0x4000,
        cx <= 0x4000,
        cy <= 0x4000,
        r <= MAX_RADIUS,
    ensures
        v == circle_intensity(x as int, y as int, cx as int, cy as int, r as int),
{
    let dx: u64 = if x >= cx {
        (x - cx) as u64
    } else {
        (cx - x) as u64
    };
    let dy: u64 = if y >= cy {
        (y - cy) as u64
    } else {
        (cy - y) as u64
    };
    assert(dx * dx + dy * dy <= 0x4000u64 * 0x4000u64 * 2 && r * r <= MAX_RADIUS * MAX_RADIUS && (r
        + 1) * (r + 1) <= (MAX_RADIUS + 1) * (MAX_RADIUS + 1)) by (nonlinear_arith)
        requires
            dx <= 0x4000,
            dy <= 0x4000,
            r <= MAX_RADIUS,
    ;
    let d2: u64 = dx * dx + dy * dy;
    if d2 <= r * r {
        255
    } else if d2 <= (r + 1) * (r + 1) {
        assert(d2 * SCALE * SCALE <= 0x8000_0000u64 * SCALE * SCALE && d2 * SCALE * SCALE == d2 * (
        SCALE * SCALE)) by (nonlinear_arith)
            requires
                d2 <= 0x8000_0000u64,
        ;
        let s16 = isqrt(d2 * SCALE * SCALE);
        proof {
            lemma_sqrt_floor(d2 as int * (SCALE as int) * (SCALE as int), s16 as int);
            assert(r * SCALE <= s16 && s16 <= (r + 1) * SCALE) by (nonlinear_arith)
                requires
                    is_isqrt(d2 as int * (SCALE as int) * (SCALE as int), s16 as int),
                    r * r < d2,
                    d2 <= (r + 1) * (r + 1),
                    r <= MAX_RADIUS,
            ;
        }
        let band: u64 = (r + 1) * SCALE - s16;
        assert(band * 255 / (SCALE as int) <= 255) by (nonlinear_arith)
            requires
                band <= SCALE,
        ;
        let v = band * 255 / SCALE;
        v as u8
    } else {
        0
    }
}

/// Draw the circle over a frame in place.
pub fn render(frame: &mut VideoFrame, radius: u64)
    requires
        old(frame).wf(),
        old(frame).spec_width() <= 0x4000,
        old(frame).spec_height() <= 0x4000,
        radius <= MAX_RADIUS,
    ensures
        final(frame).wf(),
        final(frame).same_dims(*old(frame)),
        final(frame)@.len() == old(frame)@.len(),
        forall|x: int, y: int|
            0 <= x < final(frame).spec_width() && 0 <= y < final(frame).spec_height()
                ==> final(frame).pixel_at(x, y) == circle_pixel(
                old(frame).pixel_at(x, y),
                x,
                y,
                old(frame).spec_width() as int / 2,
                old(frame).spec_height() as int / 2,
                radius as int,
            ),
{
    let w = frame.width();
    let h = frame.height();
    let cx = w / 2;
    let cy = h / 2;
    let mut y: usize = 0;
    while y < h
        invariant
            y <= h,
            frame.wf(),
            radius <= MAX_RADIUS,
            frame.same_dims(*old(frame)),
            frame@.len() == old(frame)@.len(),
            w == frame.spec_width() <= 0x4000,
            h == frame.spec_height() <= 0x4000,
            cx == w / 2,
            cy == h / 2,
            forall|i: int, j: int|
                0 <= i < w && 0 <= j < y ==> frame.pixel_at(i, j) == circle_pixel(
                    old(frame).pixel_at(i, j),
                    i,
                    j,
                    cx as int,
                    cy as int,
                    radius as int,
                ),
            forall|i: int, j: int|
                0 <= i < w && y <= j < h ==> frame.pixel_at(i, j) == old(frame).pixel_at(i, j),
        decreases h - y,
    {
        let mut x: usize = 0;
        while x < w
            invariant
                x <= w,
                y < h,
                frame.wf(),
                radius <= MAX_RADIUS,
                frame.same_dims(*old(frame)),
                frame@.len() == old(frame)@.len(),
                w == frame.spec_width() <= 0x4000,
                h == frame.spec_height() <= 0x4000,
                cx == w / 2,
                cy == h / 2,
                forall|i: int, j: int|
                    0 <= i < w && 0 <= j < y ==> frame.pixel_at(i, j) == circle_pixel(
                        old(frame).pixel_at(i, j),
                        i,
                        j,
                        cx as int,
                        cy as int,
                        radius as int,
                    ),
                forall|i: int|
                    0 <= i < x ==> frame.pixel_at(i, y as int) == circle_pixel(
                        old(frame).pixel_at(i, y as int),
                        i,
                        y as int,
                        cx as int,
                        cy as int,
                        radius as int,
                    ),
                forall|i: int|
                    x <= i < w ==> frame.pixel_at(i, y as int) == old(frame).pixel_at(i, y as int),
                forall|i: int, j: int|
                    0 <= i < w && y < j < h ==> frame.pixel_at(i, j) == old(frame).pixel_at(i, j),
            decreases w - x,
        {
            let inten = intensity_at(x, y, cx, cy, radius);
            if inten > 0 {
                let mut p = frame.read_pixel(x, y);
                p.set_grayscale(inten);
                frame.write_pixel(x, y, p);
            }
            x = x + 1;
        }
        y = y + 1;
    }
}

impl Circle {
    /// Construct from one number-providing input.
    pub fn new<S: ComputeSpectrum>(nodes: &Vec<Node<S>>, inputs: Vec<NodeId>) -> (r: Result<
        Circle,
        Error,
    >)
        requires
            forall|k: int| 0 <= k < inputs@.len() ==> (#[trigger] inputs@[k]) < nodes@.len(),
        ensures
            r is Ok <==> (inputs@.len() == 1 && nodes@[inputs@[0] as int].provides(
                Capability::ProvideNumber,
            )),
            r matches Ok(c) ==> c.input == inputs@[0],
            r matches Err(e) ==> e is InvalidInputs,
    {
        let input = match validate_inputs(nodes, &inputs, Capability::ProvideNumber) {
            Ok(n) => n,
            Err(e) => {
                return Err(e);
            },
        };
        Ok(Circle { input })
    }
}

/// Register this node kind's constructor under its stable type name.
pub fn register(factory: &mut crate::pipeline::NodeFactory)
    requires
        forall|i: int|
            0 <= i < old(factory).spec_entries().len() ==> (#[trigger] old(
                factory,
            ).spec_entries()[i]).kind_name@ != "circle"@,
    ensures
        final(factory).spec_entries().len() == old(factory).spec_entries().len() + 1,
        forall|i: int|
            0 <= i < old(factory).spec_entries().len() ==> final(factory).spec_entries()[i] == old(
                factory,
            ).spec_entries()[i],
        final(factory).spec_entries().last().kind_name@ == "circle"@,
        final(factory).spec_entries().last().node_type == crate::pipeline::NodeType::Circle,
{
    factory.register(String::from_str("circle"), crate::pipeline::NodeType::Circle);
}

} // verus!
