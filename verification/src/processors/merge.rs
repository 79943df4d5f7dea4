//! Weighted combination of several video-frame inputs.

use vstd::prelude::*;
use vstd::string::StringExecFns;

use crate::fixed::{NUM_MAX, SCALE};
use crate::options::{Options, Value, ValueSlice};
use crate::pipeline::{Capability, Node, NodeId};
use crate::util::inputs::validate_all_inputs;
use crate::util::spectrum::ComputeSpectrum;
use crate::util::video::{Pixel, VideoFrame};
use crate::util::Error;

verus! {

/// How two per-channel values combine: weighted add or weighted multiply.
/// Results are clamped to the byte range.
#[derive(Debug, Clone, Copy, PartialEq, Eq, Structural)]
pub enum Mode {
    Sum,
    Product,
}

/// Merges its video inputs: the first is weighted in place, each further
/// input is rendered into a cleared scratch frame, weighted, and combined
/// per channel under the configured mode.
#[derive(Debug)]
pub struct Merge {
    pub inputs: Vec<usize>,
    /// Per-input weights in fixed point.
    pub contributions: Vec<u64>,
    pub mode: Mode,
}

/// A channel value weighted by a fixed-point factor, clamped to a byte.
pub open spec fn weight_chan(c: int, v: int) -> int {
    let w = (c * v) / (SCALE as int);
    if w > 255 {
        255
    } else {
        w
    }
}

/// Channel combination: saturating add under `Sum`, normalized multiply
/// (`a * b / 255`) under `Product`.
pub open spec fn mode_apply(mode: Mode, a: int, b: int) -> int {
    match mode {
        Mode::Sum => if a + b > 255 {
            255
        } else {
            a + b
        },
        Mode::Product => (a * b) / 255,
    }
}

/// A pixel with all three color channels weighted; the padding byte stays.
pub open spec fn weighted_pixel(p: Pixel, c: int) -> Pixel {
    Pixel {
        blue: weight_chan(c, p.blue as int) as u8,
        green: weight_chan(c, p.green as int) as u8,
        red: weight_chan(c, p.red as int) as u8,
        pad: p.pad,
    }
}

/// A destination pixel combined with a weighted source pixel.
pub open spec fn combined_pixel(mode: Mode, dst: Pixel, src: Pixel, c: int) -> Pixel {
    Pixel {
        blue: mode_apply(mode, dst.blue as int, weight_chan(c, src.blue as int)) as u8,
        green: mode_apply(mode, dst.green as int, weight_chan(c, src.green as int)) as u8,
        red: mode_apply(mode, dst.red as int, weight_chan(c, src.red as int)) as u8,
        pad: dst.pad,
    }
}

/// Weight one channel value.
pub fn weight_channel(c: u64, v: u8) -> (r: u8)
    requires
        c <= NUM_MAX,
    ensures
        r == weight_chan(c as int, v as int),
{
    assert(c * (v as u64) <= NUM_MAX * 255 && (c * (v as u64)) / (SCALE as int) >= 0)
        by (nonlinear_arith)
        requires
            c <= NUM_MAX,
            v <= 255,
    ;
    let w = c * (v as u64) / SCALE;
    if w > 255 {
        255
    } else {
        w as u8
    }
}

impl Mode {
    /// Combine a destination channel with an already-weighted source
    /// channel.
    pub fn apply(&self, a: u8, b: u8) -> (r: u8)
        ensures
            r == mode_apply(*self, a as int, b as int),
    {
        match self {
            Mode::Sum => {
                let s = (a as u32) + (b as u32);
                if s > 255 {
                    255
                } else {
                    s as u8
                }
            },
            Mode::Product => {
                assert((a as int) * (b as int) <= 65025 && (a as int) * (b as int) / 255 <= 255)
                    by (nonlinear_arith)
                    requires
                        a <= 255,
                        b <= 255,
                ;
                let p = (a as u32) * (b as u32) / 255;
                p as u8
            },
        }
    }
}

/// Weight every pixel of a frame in place.
pub fn weight_frame(frame: &mut VideoFrame, c: u64)
    requires
        old(frame).wf(),
        c <= NUM_MAX,
    ensures
        final(frame).wf(),
        final(frame).same_dims(*old(frame)),
        final(frame)@.len() == old(frame)@.len(),
        forall|x: int, y: int|
            0 <= x < final(frame).spec_width() && 0 <= y < final(frame).spec_height()
                ==> final(frame).pixel_at(x, y) == weighted_pixel(
                old(frame).pixel_at(x, y),
                c as int,
            ),
{
    let w = frame.width();
    let h = frame.height();
    let mut y: usize = 0;
    while y < h
        invariant
            y <= h,
            frame.wf(),
            c <= NUM_MAX,
            frame.same_dims(*old(frame)),
            frame@.len() == old(frame)@.len(),
            w == frame.spec_width(),
            h == frame.spec_height(),
            forall|i: int, j: int|
                0 <= i < w && 0 <= j < y ==> frame.pixel_at(i, j) == weighted_pixel(
                    old(frame).pixel_at(i, j),
                    c as int,
                ),
            forall|i: int, j: int|
                0 <= i < w && y <= j < h ==> frame.pixel_at(i, j) == old(frame).pixel_at(i, j),
        decreases h - y,
    {
        let mut x: usize = 0;
        while x < w
            invariant
                x <= w,
                y < h,
                frame.wf(),
                c <= NUM_MAX,
                frame.same_dims(*old(frame)),
                frame@.len() == old(frame)@.len(),
                w == frame.spec_width(),
                h == frame.spec_height(),
                forall|i: int, j: int|
                    0 <= i < w && 0 <= j < y ==> frame.pixel_at(i, j) == weighted_pixel(
                        old(frame).pixel_at(i, j),
                        c as int,
                    ),
                forall|i: int|
                    0 <= i < x ==> frame.pixel_at(i, y as int) == weighted_pixel(
                        old(frame).pixel_at(i, y as int),
                        c as int,
                    ),
                forall|i: int|
                    x <= i < w ==> frame.pixel_at(i, y as int) == old(frame).pixel_at(i, y as int),
                forall|i: int, j: int|
                    0 <= i < w && y < j < h ==> frame.pixel_at(i, j) == old(frame).pixel_at(i, j),
            decreases w - x,
        {
            let p = frame.read_pixel(x, y);
            let q = Pixel {
                blue: weight_channel(c, p.blue),
                green: weight_channel(c, p.green),
                red: weight_channel(c, p.red),
                pad: p.pad,
            };
            frame.write_pixel(x, y, q);
            x = x + 1;
        }
        y = y + 1;
    }
}

/// Combine a destination frame with a weighted source frame, pixel by
/// pixel.
pub fn combine_frames(dst: &mut VideoFrame, src: &VideoFrame, c: u64, mode: Mode)
    requires
        old(dst).wf(),
        src.wf(),
        old(dst).same_dims(*src),
        c <= NUM_MAX,
    ensures
        final(dst).wf(),
        final(dst).same_dims(*old(dst)),
        final(dst)@.len() == old(dst)@.len(),
        forall|x: int, y: int|
            0 <= x < final(dst).spec_width() && 0 <= y < final(dst).spec_height()
                ==> final(dst).pixel_at(x, y) == combined_pixel(
                mode,
                old(dst).pixel_at(x, y),
                src.pixel_at(x, y),
                c as int,
            ),
{
    let w = dst.width();
    let h = dst.height();
    let mut y: usize = 0;
    while y < h
        invariant
            y <= h,
            dst.wf(),
            src.wf(),
            c <= NUM_MAX,
            dst.same_dims(*old(dst)),
            dst.same_dims(*src),
            dst@.len() == old(dst)@.len(),
            w == dst.spec_width(),
            h == dst.spec_height(),
            forall|i: int, j: int|
                0 <= i < w && 0 <= j < y ==> dst.pixel_at(i, j) == combined_pixel(
                    mode,
                    old(dst).pixel_at(i, j),
                    src.pixel_at(i, j),
                    c as int,
                ),
            forall|i: int, j: int|
                0 <= i < w && y <= j < h ==> dst.pixel_at(i, j) == old(dst).pixel_at(i, j),
        decreases h - y,
    {
        let mut x: usize = 0;
        while x < w
            invariant
                x <= w,
                y < h,
                dst.wf(),
                src.wf(),
                c <= NUM_MAX,
                dst.same_dims(*old(dst)),
                dst.same_dims(*src),
                dst@.len() == old(dst)@.len(),
                w == dst.spec_width(),
                h == dst.spec_height(),
                forall|i: int, j: int|
                    0 <= i < w && 0 <= j < y ==> dst.pixel_at(i, j) == combined_pixel(
                        mode,
                        old(dst).pixel_at(i, j),
                        src.pixel_at(i, j),
                        c as int,
                    ),
                forall|i: int|
                    0 <= i < x ==> dst.pixel_at(i, y as int) == combined_pixel(
                        mode,
                        old(dst).pixel_at(i, y as int),
                        src.pixel_at(i, y as int),
                        c as int,
                    ),
                forall|i: int|
                    x <= i < w ==> dst.pixel_at(i, y as int) == old(dst).pixel_at(i, y as int),
                forall|i: int, j: int|
                    0 <= i < w && y < j < h ==> dst.pixel_at(i, j) == old(dst).pixel_at(i, j),
            decreases w - x,
        {
            let p = dst.read_pixel(x, y);
            let s = src.read_pixel(x, y);
            let q = Pixel {
                blue: mode.apply(p.blue, weight_channel(c, s.blue)),
                green: mode.apply(p.green, weight_channel(c, s.green)),
                red: mode.apply(p.red, weight_channel(c, s.red)),
                pad: p.pad,
            };
            dst.write_pixel(x, y, q);
            x = x + 1;
        }
        y = y + 1;
    }
}

/// Whether the declared contribution list is usable: absent, or exactly one
/// nonnegative number of at most [`NUM_MAX`] per input.
pub open spec fn contributions_ok(o: Option<Value>, n: int) -> bool {
    match o {
        Option::None => true,
        Option::Some(v) => match v {
            Value::Sequence(vs) => vs@.len() == n && forall|i: int|
                0 <= i < vs@.len() ==> ((#[trigger] vs@[i]) matches Value::Number(num) && !num.neg
                    && num.mag <= NUM_MAX),
            Value::Number(num) => n == 1 && !num.neg && num.mag <= NUM_MAX,
            _ => false,
        },
    }
}

/// The weight of input `i` a usable option block selects: uniform `1/n`
/// when absent.
pub open spec fn contribution_at(o: Option<Value>, n: int, i: int) -> int {
    match o {
        Option::None => (SCALE as int) / n,
        Option::Some(v) => match v {
            Value::Sequence(vs) => match vs[i] {
                Value::Number(num) => num.mag as int,
                _ => 0,
            },
            Value::Number(num) => num.mag as int,
            _ => 0,
        },
    }
}

/// Whether the declared mode is usable: absent, or the text `sum` or
/// `product`.
pub open spec fn mode_ok(o: Option<Value>) -> bool {
    match o {
        Option::None => true,
        Option::Some(v) => v matches Value::Text(t) && (t@ == "sum"@ || t@ == "product"@),
    }
}

/// The mode a usable option block selects, `Sum` when absent.
pub open spec fn mode_of(o: Option<Value>) -> Mode {
    match o {
        Option::None => Mode::Sum,
        Option::Some(v) => match v {
            Value::Text(t) => if t@ == "product"@ {
                Mode::Product
            } else {
                Mode::Sum
            },
            _ => Mode::Sum,
        },
    }
}

impl Merge {
    /// Construct from one or more video-providing inputs; the
    /// `contributions` option must list one weight per input (default
    /// uniform `1/n`), and `mode` selects `sum` or `product`.
    pub fn new<S: ComputeSpectrum>(
        nodes: &Vec<Node<S>>,
        inputs: Vec<NodeId>,
        options: &Options,
    ) -> (r: Result<Merge, Error>)
        requires
            forall|k: int| 0 <= k < inputs@.len() ==> (#[trigger] inputs@[k]) < nodes@.len(),
        ensures
            ({
                let inputs_ok = inputs@.len() >= 1 && forall|k: int|
                    0 <= k < inputs@.len() ==> nodes@[#[trigger] inputs@[k] as int].provides(
                        Capability::ProvideVideoFrame,
                    );
                let c_opt = options.spec_get("contributions"@);
                let m_opt = options.spec_get("mode"@);
                &&& (r is Ok <==> inputs_ok && contributions_ok(c_opt, inputs@.len() as int)
                    && mode_ok(m_opt))
                &&& (r matches Ok(m) ==> m.inputs@ == inputs@ && m.mode == mode_of(m_opt)
                    && m.contributions@.len() == inputs@.len() && forall|i: int|
                    0 <= i < inputs@.len() ==> (#[trigger] m.contributions@[i]) as int
                        == contribution_at(c_opt, inputs@.len() as int, i))
                &&& (!inputs_ok ==> (r matches Err(e) && e is InvalidInputs))
                &&& (inputs_ok && !(contributions_ok(c_opt, inputs@.len() as int) && mode_ok(
                    m_opt,
                )) ==> (r matches Err(e) && e is InvalidOptions))
            }),
    {
        match validate_all_inputs(nodes, &inputs, Capability::ProvideVideoFrame) {
            Ok(_) => (),
            Err(e) => {
                return Err(e);
            },
        }
        let n = inputs.len();
        let mut contributions: Vec<u64> = Vec::new();
        match options.get("contributions") {
            None => {
                let uniform = SCALE / (n as u64);
                assert(SCALE as int / (n as int) <= SCALE) by (nonlinear_arith)
                    requires
                        n >= 1,
                ;
                let mut i: usize = 0;
                while i < n
                    invariant
                        i <= n,
                        n == inputs@.len() >= 1,
                        contributions@.len() == i,
                        uniform <= NUM_MAX,
                        uniform == (SCALE as int) / (n as int),
                        forall|k: int| 0 <= k < i ==> (#[trigger] contributions@[k]) == uniform,
                        forall|k: int|
                            0 <= k < inputs@.len() ==> nodes@[#[trigger] inputs@[k] as int].provides(
                                Capability::ProvideVideoFrame,
                            ),
                    decreases n - i,
                {
                    contributions.push(uniform);
                    i = i + 1;
                }
            },
            Some(v) => {
                let slice = match v.as_slice() {
                    Some(s) => s,
                    None => {
                        return Err(Error::InvalidOptions);
                    },
                };
                if slice.len() != n {
                    return Err(Error::InvalidOptions);
                }
                let mut i: usize = 0;
                while i < n
                    invariant
                        i <= n,
                        n == slice.seq().len(),
                        n == inputs@.len() >= 1,
                        contributions@.len() == i,
                        forall|k: int|
                            0 <= k < inputs@.len() ==> nodes@[#[trigger] inputs@[k] as int].provides(
                                Capability::ProvideVideoFrame,
                            ),
                        options.spec_get("contributions"@) == Option::Some(*v),
                        match *v {
                            Value::Sequence(vs) => slice.seq() == vs@,
                            Value::Mapping(_) => false,
                            _ => slice.seq() == seq![*v],
                        },
                        forall|k: int|
                            0 <= k < i ==> ((#[trigger] slice.seq()[k]) matches Value::Number(num)
                                && !num.neg && num.mag <= NUM_MAX && contributions@[k] == num.mag),
                    decreases n - i,
                {
                    let item = slice.get(i);
                    proof {
                        assert(slice.seq()[i as int] == *item);
                    }
                    match item.as_number() {
                        Some(num) => {
                            if num.neg || num.mag > NUM_MAX {
                                proof {
                                    assert(!contributions_ok(
                                        options.spec_get("contributions"@),
                                        n as int,
                                    ));
                                }
                                return Err(Error::InvalidOptions);
                            }
                            contributions.push(num.mag);
                        },
                        None => {
                            proof {
                                assert(!(slice.seq()[i as int] is Number));
                                assert(!contributions_ok(
                                    options.spec_get("contributions"@),
                                    n as int,
                                ));
                            }
                            return Err(Error::InvalidOptions);
                        },
                    }
                    i = i + 1;
                }
                proof {
                    let c_opt = options.spec_get("contributions"@);
                    match v {
                        Value::Sequence(vs) => {
                            assert forall|i2: int| 0 <= i2 < vs@.len() implies ((
                            #[trigger] vs@[i2]) matches Value::Number(num) && !num.neg && num.mag
                                <= NUM_MAX) by {
                                assert(vs@[i2] == slice.seq()[i2]);
                            }
                            assert forall|i2: int|
                                0 <= i2 < n implies (#[trigger] contributions@[i2]) as int
                                == contribution_at(c_opt, n as int, i2) by {
                                assert(vs@[i2] == slice.seq()[i2]);
                            }
                        },
                        _ => {
                            assert(slice.seq()[0] == *v);
                        },
                    }
                    assert(contributions_ok(c_opt, n as int));
                    assert(forall|i2: int|
                        0 <= i2 < n ==> (#[trigger] contributions@[i2]) as int == contribution_at(
                            c_opt,
                            n as int,
                            i2,
                        ));
                }
            },
        }
        let mode = match options.get("mode") {
            None => Mode::Sum,
            Some(v) => match v.as_str() {
                Some(t) =>
                    if crate::text::str_eq(t, "sum") {
                        Mode::Sum
                    } else if crate::text::str_eq(t, "product") {
                        Mode::Product
                    } else {
                        return Err(Error::InvalidOptions);
                    },
                None => {
                    return Err(Error::InvalidOptions);
                },
            },
        };
        proof {
            // The contract's mode selection needs the two mode names to
            // denote different texts.
            reveal_strlit("sum");
            reveal_strlit("product");
            assert("sum"@.len() == 3);
            assert("product"@.len() == 7);
            assert("sum"@ != "product"@);
        }
        Ok(Merge { inputs, contributions, mode })
    }
}

/// Register this node kind's constructor under its stable type name.
pub fn register(factory: &mut crate::pipeline::NodeFactory)
    requires
        forall|i: int|
            0 <= i < old(factory).spec_entries().len() ==> (#[trigger] old(
                factory,
            ).spec_entries()[i]).kind_name@ != "merge"@,
    ensures
        final(factory).spec_entries().len() == old(factory).spec_entries().len() + 1,
        forall|i: int|
            0 <= i < old(factory).spec_entries().len() ==> final(factory).spec_entries()[i] == old(
                factory,
            ).spec_entries()[i],
        final(factory).spec_entries().last().kind_name@ == "merge"@,
        final(factory).spec_entries().last().node_type == crate::pipeline::NodeType::Merge,
{
    factory.register(String::from_str("merge"), crate::pipeline::NodeType::Merge);
}

} // verus!
