//! A video source that paints a grid of cells in random colors, refreshed
//! every so many ticks.

use vstd::prelude::*;
use vstd::string::StringExecFns;

use crate::fixed::{rounded_div, NUM_MAX, SCALE};
use crate::options::{Options, Value, ValueSlice};
use crate::pipeline::{Node, NodeId};
use crate::util::inputs::validate_no_inputs;
use crate::util::misc::FrameCounter;
use crate::util::spectrum::ComputeSpectrum;
use crate::util::video::{Pixel, VideoFrame};
use crate::util::{Error, FrameId};

verus! {

/// One grid cell: its top-left corner (inclusive) and bottom-right corner
/// (exclusive).
pub type Cell = ((usize, usize), (usize, usize));

/// Paints its cells in colors drawn at random, recoloring only on the first
/// pull of every `modulo`-th tick and serving a cached frame otherwise.
#[derive(Debug)]
pub struct RandomColor {
    pub cells: Vec<Cell>,
    pub last: FrameId,
    pub counter: FrameCounter,
    pub cache: VideoFrame,
}

pub open spec fn cell_contains(cell: Cell, x: int, y: int) -> bool {
    cell.0.0 <= x < cell.1.0 && cell.0.1 <= y < cell.1.1
}

/// Index of the first cell at or after `k` that contains `(x, y)`, or the
/// cell count if none does.
pub open spec fn first_cell_from(cells: Seq<Cell>, x: int, y: int, k: int) -> int
    decreases cells.len() - k when 0 <= k <= cells.len()
{
    if k >= cells.len() {
        cells.len() as int
    } else if cell_contains(cells[k], x, y) {
        k
    } else {
        first_cell_from(cells, x, y, k + 1)
    }
}

/// Index of the first containing cell, or the cell count when none
/// contains the pixel.
fn find_cell(cells: &Vec<Cell>, x: usize, y: usize) -> (k: usize)
    ensures
        k == first_cell_from(cells@, x as int, y as int, 0),
        k <= cells@.len(),
{
    let n = cells.len();
    let mut i: usize = 0;
    while i < n
        invariant
            i <= n,
            n == cells@.len(),
            first_cell_from(cells@, x as int, y as int, 0) == first_cell_from(
                cells@,
                x as int,
                y as int,
                i as int,
            ),
        decreases n - i,
    {
        let c = cells[i];
        if c.0.0 <= x && x < c.1.0 && c.0.1 <= y && y < c.1.1 {
            return i;
        }
        i = i + 1;
    }
    n
}

/// What a painted pixel holds: the color of the first cell containing it,
/// with the padding byte untouched; a pixel inside no cell keeps its value.
pub open spec fn cell_pixel(p: Pixel, x: int, y: int, cells: Seq<Cell>, colors: Seq<(u8, u8, u8)>) -> Pixel {
    let k = first_cell_from(cells, x, y, 0);
    if k < cells.len() {
        Pixel { blue: colors[k].2, green: colors[k].1, red: colors[k].0, pad: p.pad }
    } else {
        p
    }
}

/// Paint every pixel with its cell's color.
pub fn render_cells(frame: &mut VideoFrame, cells: &Vec<Cell>, colors: &Vec<(u8, u8, u8)>)
    requires
        old(frame).wf(),
        colors@.len() == cells@.len(),
    ensures
        final(frame).wf(),
        final(frame).same_dims(*old(frame)),
        final(frame)@.len() == old(frame)@.len(),
        forall|x: int, y: int|
            0 <= x < final(frame).spec_width() && 0 <= y < final(frame).spec_height()
                ==> final(frame).pixel_at(x, y) == cell_pixel(
                old(frame).pixel_at(x, y),
                x,
                y,
                cells@,
                colors@,
            ),
{
    let w = frame.width();
    let h = frame.height();
    let mut y: usize = 0;
    while y < h
        invariant
            y <= h,
            frame.wf(),
            frame.same_dims(*old(frame)),
            frame@.len() == old(frame)@.len(),
            w == frame.spec_width(),
            h == frame.spec_height(),
            colors@.len() == cells@.len(),
            forall|i: int, j: int|
                0 <= i < w && 0 <= j < y ==> frame.pixel_at(i, j) == cell_pixel(
                    old(frame).pixel_at(i, j),
                    i,
                    j,
                    cells@,
                    colors@,
                ),
            forall|i: int, j: int|
                0 <= i < w && y <= j < h ==> frame.pixel_at(i, j) == old(frame).pixel_at(i, j),
        decreases h - y,
    {
        let mut x: usize = 0;
        while x < w
            invariant
                x <= w,
                y < h,
                frame.wf(),
                frame.same_dims(*old(frame)),
                frame@.len() == old(frame)@.len(),
                w == frame.spec_width(),
                h == frame.spec_height(),
                colors@.len() == cells@.len(),
                forall|i: int, j: int|
                    0 <= i < w && 0 <= j < y ==> frame.pixel_at(i, j) == cell_pixel(
                        old(frame).pixel_at(i, j),
                        i,
                        j,
                        cells@,
                        colors@,
                    ),
                forall|i: int|
                    0 <= i < x ==> frame.pixel_at(i, y as int) == cell_pixel(
                        old(frame).pixel_at(i, y as int),
                        i,
                        y as int,
                        cells@,
                        colors@,
                    ),
                forall|i: int|
                    x <= i < w ==> frame.pixel_at(i, y as int) == old(frame).pixel_at(i, y as int),
                forall|i: int, j: int|
                    0 <= i < w && y < j < h ==> frame.pixel_at(i, j) == old(frame).pixel_at(i, j),
            decreases w - x,
        {
            let k = find_cell(cells, x, y);
            if k < cells.len() {
                let (red, green, blue) = colors[k];
                let mut p = frame.read_pixel(x, y);
                p = Pixel { blue, green, red, pad: p.pad };
                frame.write_pixel(x, y, p);
            }
            x = x + 1;
        }
        y = y + 1;
    }
}

/// Relies on `rand::random`: an arbitrary byte triple drawn from the thread
/// generator. Nothing is assumed about the values.
#[verifier::external_body]
pub fn random_rgb() -> (c: (u8, u8, u8)) {
    rand::random()
}

/// Default recoloring period in fixed-point milliseconds: one second.
pub const DEFAULT_UPDATE_EVERY: u64 = 65536000;

/// Largest accepted recoloring period, in fixed-point milliseconds.
pub const UPDATE_EVERY_MAX: u64 = 0x1_0000_0000_0000;

/// The border pixel a split fraction selects on an axis of `length`
/// pixels: negative fractions land on 0, fractions of one or more on
/// `length`, and everything else rounds.
pub open spec fn border_of(n: crate::options::Num, length: int) -> int {
    if n.neg {
        0
    } else if n.mag > SCALE {
        length
    } else if rounded_div(n.mag * length, SCALE as int) <= length {
        rounded_div(n.mag * length, SCALE as int)
    } else {
        length
    }
}

/// Whether the declared recoloring period is usable: absent, or a
/// nonnegative number of at most [`UPDATE_EVERY_MAX`].
pub open spec fn update_every_ok(o: Option<Value>) -> bool {
    match o {
        Option::None => true,
        Option::Some(v) => v matches Value::Number(n) && !n.neg && n.mag <= UPDATE_EVERY_MAX,
    }
}

/// The recoloring period a usable option block selects, in fixed-point
/// milliseconds.
pub open spec fn update_every_of(o: Option<Value>) -> int {
    match o {
        Option::None => DEFAULT_UPDATE_EVERY as int,
        Option::Some(v) => match v {
            Value::Number(n) => n.mag as int,
            _ => 0,
        },
    }
}

/// The recoloring period converted to whole ticks at the configured frame
/// rate.
pub open spec fn modulo_of(o: Option<Value>, fps: int) -> int {
    rounded_div(update_every_of(o) * fps, 1000 * SCALE as int)
}

/// Whether a declared split list is usable: absent, or a sequence of
/// numbers.
pub open spec fn splits_ok(o: Option<Value>) -> bool {
    match o {
        Option::None => true,
        Option::Some(v) => match v {
            Value::Sequence(vs) => forall|i: int|
                0 <= i < vs@.len() ==> (#[trigger] vs@[i]) is Number,
            Value::Number(_) => true,
            _ => false,
        },
    }
}

/// Axis borders from declared split fractions: 0 first, the fractions'
/// pixels in order, the axis length last.
pub fn get_borders(options: &Options, name: &str, length: usize) -> (r: Result<Vec<usize>, Error>)
    requires
        length <= 0x4000,
    ensures
        r is Ok <==> splits_ok(options.spec_get(name@)),
        r matches Err(e) ==> e is InvalidOptions,
        r matches Ok(b) ==> ({
            &&& b@.len() >= 2
            &&& b@[0] == 0
            &&& b@[b@.len() - 1] == length
            &&& forall|i: int| 0 <= i < b@.len() ==> (#[trigger] b@[i]) <= length
            &&& match options.spec_get(name@) {
                Option::None => b@.len() == 2,
                Option::Some(v) => match v {
                    Value::Sequence(vs) => b@.len() == vs@.len() + 2 && forall|i: int|
                        0 <= i < vs@.len() ==> b@[i + 1] == border_of(
                            (#[trigger] vs@[i])->Number_0,
                            length as int,
                        ),
                    Value::Number(num) => b@.len() == 3 && b@[1] == border_of(num, length as int),
                    _ => true,
                },
            }
        }),
{
    let mut borders: Vec<usize> = Vec::new();
    borders.push(0);
    match options.get(name) {
        None => {},
        Some(v) => {
            let slice = match v.as_slice() {
                Some(s) => s,
                None => {
                    return Err(Error::InvalidOptions);
                },
            };
            let n = slice.len();
            let mut i: usize = 0;
            while i < n
                invariant
                    i <= n,
                    n == slice.seq().len(),
                    length <= 0x4000,
                    borders@.len() == i + 1,
                    borders@[0] == 0,
                    forall|k: int| 0 <= k < borders@.len() ==> (#[trigger] borders@[k]) <= length,
                    options.spec_get(name@) == Option::Some(*v),
                    match *v {
                        Value::Sequence(vs) => slice.seq() == vs@,
                        Value::Mapping(_) => false,
                        _ => slice.seq() == seq![*v],
                    },
                    forall|k: int|
                        0 <= k < i ==> ((#[trigger] slice.seq()[k]) is Number && borders@[k + 1]
                            == border_of(slice.seq()[k]->Number_0, length as int)),
                decreases n - i,
            {
                let item = slice.get(i);
                proof {
                    assert(slice.seq()[i as int] == *item);
                }
                let num = match item.as_number() {
                    Some(num) => num,
                    None => {
                        proof {
                            assert(!((slice.seq()[i as int]) is Number));
                        }
                        return Err(Error::InvalidOptions);
                    },
                };
                let b: usize = if num.neg {
                    0
                } else if num.mag > SCALE {
                    length
                } else {
                    assert(num.mag * (length as u64) <= SCALE * 0x4000u64) by (nonlinear_arith)
                        requires
                            num.mag <= SCALE,
                            length <= 0x4000,
                    ;
                    let px = crate::fixed::div_round(num.mag * (length as u64), SCALE);
                    if px <= length as u64 {
                        px as usize
                    } else {
                        length
                    }
                };
                borders.push(b);
                i = i + 1;
            }
            proof {
                match v {
                    Value::Sequence(vs) => {
                        assert forall|k: int| 0 <= k < vs@.len() implies ((#[trigger] vs@[k])
                            is Number && borders@[k + 1] == border_of(
                            vs@[k]->Number_0,
                            length as int,
                        )) by {
                            assert(slice.seq()[k] == vs@[k]);
                        }
                    },
                    _ => {
                        assert(slice.seq()[0] == *v);
                    },
                }
            }
        },
    }
    borders.push(length);
    Ok(borders)
}

impl RandomColor {
    /// Construct a source with no inputs: a grid of cells from the
    /// `split-x` and `split-y` options, recolored every `update-every`
    /// fixed-point milliseconds (default one second, at least one tick).
    pub fn new<S: ComputeSpectrum>(
        nodes: &Vec<Node<S>>,
        inputs: Vec<NodeId>,
        options: &Options,
        config: crate::util::video::VideoConfig,
    ) -> (r: Result<RandomColor, Error>)
        requires
            config.valid(),
        ensures
            ({
                let xs = options.spec_get("split-x"@);
                let ys = options.spec_get("split-y"@);
                let ue = options.spec_get("update-every"@);
                r is Ok <==> (inputs@.len() == 0 && splits_ok(xs) && splits_ok(ys)
                    && update_every_ok(ue) && 1 <= modulo_of(ue, config.spec_fps() as int)
                    <= 0xffff_ffff)
            }),
            inputs@.len() != 0 ==> (r matches Err(e) && e is InvalidInputs),
            r matches Ok(rc) ==> ({
                &&& rc.last.id_val() == 0
                &&& rc.counter.wf()
                &&& rc.counter.counter_val() == 0
                &&& rc.counter.modulo_val() as int == modulo_of(
                    options.spec_get("update-every"@),
                    config.spec_fps() as int,
                )
                &&& rc.cache.wf()
                &&& rc.cache.spec_width() == config.spec_width()
                &&& rc.cache.spec_height() == config.spec_height()
            }),
            r matches Err(e) ==> (e is InvalidInputs || e is InvalidOptions),
    {
        let _ = nodes;
        match validate_no_inputs(&inputs) {
            Ok(_) => (),
            Err(e) => {
                return Err(e);
            },
        }
        let split_x = match get_borders(options, "split-x", config.width()) {
            Ok(b) => b,
            Err(e) => {
                return Err(e);
            },
        };
        let split_y = match get_borders(options, "split-y", config.height()) {
            Ok(b) => b,
            Err(e) => {
                return Err(e);
            },
        };
        let update_every: u64 = match options.get("update-every") {
            None => DEFAULT_UPDATE_EVERY,
            Some(v) => match v.as_number() {
                Some(num) =>
                    if !num.neg && num.mag <= UPDATE_EVERY_MAX {
                        num.mag
                    } else {
                        return Err(Error::InvalidOptions);
                    },
                None => {
                    return Err(Error::InvalidOptions);
                },
            },
        };
        let fps = config.fps() as u64;
        assert(update_every * fps <= UPDATE_EVERY_MAX * 60) by (nonlinear_arith)
            requires
                update_every <= UPDATE_EVERY_MAX,
                fps <= 60,
        ;
        let modulo64 = crate::fixed::div_round(update_every * fps, 1000 * SCALE);
        if modulo64 == 0 || modulo64 > 0xffff_ffffu64 {
            return Err(Error::InvalidOptions);
        }
        let modulo = modulo64 as usize;
        let mut cells: Vec<Cell> = Vec::new();
        let ny = split_y.len();
        let nx = split_x.len();
        let mut j: usize = 0;
        while j + 1 < ny
            invariant
                ny == split_y@.len() >= 2,
                nx == split_x@.len() >= 2,
                j < ny,
            decreases ny - j,
        {
            let mut i: usize = 0;
            while i + 1 < nx
                invariant
                    ny == split_y@.len() >= 2,
                    nx == split_x@.len() >= 2,
                    j + 1 < ny,
                    i < nx,
                decreases nx - i,
            {
                let cell: Cell = ((split_x[i], split_y[j]), (split_x[i + 1], split_y[j + 1]));
                cells.push(cell);
                i = i + 1;
            }
            j = j + 1;
        }
        let w = config.width();
        let h = config.height();
        assert(4 * w <= usize::MAX && 4 * w * h <= usize::MAX) by (nonlinear_arith)
            requires
                w <= 7680,
                h <= 4320,
        ;
        let cache = VideoFrame::new(w, h);
        Ok(
            RandomColor {
                cells,
                last: FrameId::default(),
                counter: FrameCounter::new(modulo),
                cache,
            },
        )
    }
}

/// Register this node kind's constructor under its stable type name.
pub fn register(factory: &mut crate::pipeline::NodeFactory)
    requires
        forall|i: int|
            0 <= i < old(factory).spec_entries().len() ==> (#[trigger] old(
                factory,
            ).spec_entries()[i]).kind_name@ != "random-color"@,
    ensures
        final(factory).spec_entries().len() == old(factory).spec_entries().len() + 1,
        forall|i: int|
            0 <= i < old(factory).spec_entries().len() ==> final(factory).spec_entries()[i] == old(
                factory,
            ).spec_entries()[i],
        final(factory).spec_entries().last().kind_name@ == "random-color"@,
        final(factory).spec_entries().last().node_type == crate::pipeline::NodeType::RandomColor,
{
    factory.register(String::from_str("random-color"), crate::pipeline::NodeType::RandomColor);
}

} // verus!
