//! Raw pixel-buffer model: BGRx frames with coordinate-indexed access, and
//! the validated video configuration shared by every node constructor.

use vstd::prelude::*;

verus! {

/// One BGRx pixel value: blue, green, red and a padding byte, in the order
/// the bytes sit in a frame.
#[derive(Debug, Clone, Copy, PartialEq, Eq, Structural)]
pub struct Pixel {
    pub blue: u8,
    pub green: u8,
    pub red: u8,
    pub pad: u8,
}

impl Pixel {
    pub fn new(blue: u8, green: u8, red: u8) -> (p: Pixel)
        ensures
            p == (Pixel { blue, green, red, pad: 0u8 }),
    {
        Pixel { blue, green, red, pad: 0 }
    }

    pub fn red(&self) -> (v: u8)
        ensures
            v == self.red,
    {
        self.red
    }

    pub fn green(&self) -> (v: u8)
        ensures
            v == self.green,
    {
        self.green
    }

    pub fn blue(&self) -> (v: u8)
        ensures
            v == self.blue,
    {
        self.blue
    }

    pub fn set_red(&mut self, value: u8)
        ensures
            *final(self) == (Pixel {
                blue: old(self).blue,
                green: old(self).green,
                red: value,
                pad: old(self).pad,
            }),
    {
        self.red = value;
    }

    pub fn set_green(&mut self, value: u8)
        ensures
            *final(self) == (Pixel {
                blue: old(self).blue,
                green: value,
                red: old(self).red,
                pad: old(self).pad,
            }),
    {
        self.green = value;
    }

    pub fn set_blue(&mut self, value: u8)
        ensures
            *final(self) == (Pixel {
                blue: value,
                green: old(self).green,
                red: old(self).red,
                pad: old(self).pad,
            }),
    {
        self.blue = value;
    }

    /// Set all three color channels to the same value, leaving the padding
    /// byte alone.
    pub fn set_grayscale(&mut self, value: u8)
        ensures
            *final(self) == (Pixel {
                blue: value,
                green: value,
                red: value,
                pad: old(self).pad,
            }),
    {
        self.blue = value;
        self.green = value;
        self.red = value;
    }
}

/// A fixed-size rectangular BGRx pixel buffer: `stride == 4 * width` bytes
/// per row, `height` rows. A zeroed buffer is the canonical cleared state.
#[derive(Debug, Clone)]
pub struct VideoFrame {
    buf: Vec<u8>,
    width: usize,
    height: usize,
    stride: usize,
}

impl View for VideoFrame {
    type V = Seq<u8>;

    closed spec fn view(&self) -> Seq<u8> {
        self.buf@
    }
}

impl VideoFrame {
    pub closed spec fn spec_width(self) -> nat {
        self.width as nat
    }

    pub closed spec fn spec_height(self) -> nat {
        self.height as nat
    }

    pub closed spec fn spec_stride(self) -> nat {
        self.stride as nat
    }

    /// Layout invariant: four bytes per pixel, rows packed back to back.
    pub open spec fn wf(self) -> bool {
        &&& self.spec_stride() == 4 * self.spec_width()
        &&& self@.len() == self.spec_stride() * self.spec_height()
    }

    /// Byte offset of the first byte of the pixel at `(x, y)`.
    pub open spec fn pix(self, x: int, y: int) -> int {
        y * self.spec_stride() + 4 * x
    }

    /// The pixel value stored at `(x, y)`.
    pub open spec fn pixel_at(self, x: int, y: int) -> Pixel {
        Pixel {
            blue: self@[self.pix(x, y)],
            green: self@[self.pix(x, y) + 1],
            red: self@[self.pix(x, y) + 2],
            pad: self@[self.pix(x, y) + 3],
        }
    }

    /// Two frames of equal dimensions, both well formed.
    pub open spec fn same_dims(self, other: VideoFrame) -> bool {
        self.spec_width() == other.spec_width() && self.spec_height() == other.spec_height()
            && self.spec_stride() == other.spec_stride()
    }

    /// A new frame is cleared: every byte zero.
    pub fn new(width: usize, height: usize) -> (frame: VideoFrame)
        requires
            4 * width <= usize::MAX,
            4 * width * height <= usize::MAX,
        ensures
            frame.wf(),
            frame.spec_width() == width,
            frame.spec_height() == height,
            forall|i: int| 0 <= i < frame@.len() ==> frame@[i] == 0u8,
    {
        let stride = 4 * width;
        assert(stride * height == 4 * width * height) by (nonlinear_arith)
            requires
                stride == 4 * width,
        ;
        let buf = vec![0u8; stride * height];
        assert forall|i: int| 0 <= i < buf@.len() implies buf@[i] == 0u8 by {
            assert(cloned(0u8, buf@[i]));
        }
        VideoFrame { buf, width, height, stride }
    }

    pub fn buf(&self) -> (b: &Vec<u8>)
        ensures
            b@ == self@,
    {
        &self.buf
    }

    pub fn width(&self) -> (w: usize)
        ensures
            w == self.spec_width(),
    {
        self.width
    }

    pub fn height(&self) -> (h: usize)
        ensures
            h == self.spec_height(),
    {
        self.height
    }

    pub fn stride(&self) -> (s: usize)
        ensures
            s == self.spec_stride(),
    {
        self.stride
    }

    /// Replace this frame's contents with `other`'s; dimensions must agree.
    pub fn copy_from(&mut self, other: &VideoFrame)
        requires
            old(self).wf(),
            other.wf(),
            old(self).same_dims(*other),
        ensures
            final(self).wf(),
            final(self).same_dims(*old(self)),
            final(self)@ == other@,
    {
        let buf = other.buf.clone();
        assert(buf@ =~= other.buf@);
        self.buf = buf;
    }

    /// Reset every byte to zero.
    pub fn clear(&mut self)
        requires
            old(self).wf(),
        ensures
            final(self).wf(),
            final(self).same_dims(*old(self)),
            final(self)@.len() == old(self)@.len(),
            forall|i: int| 0 <= i < final(self)@.len() ==> final(self)@[i] == 0u8,
    {
        let n = self.buf.len();
        let buf = vec![0u8; n];
        assert forall|i: int| 0 <= i < buf@.len() implies buf@[i] == 0u8 by {
            assert(cloned(0u8, buf@[i]));
        }
        self.buf = buf;
    }

    /// Pixel offsets of distinct in-range pixels never overlap.
    proof fn lemma_pix_disjoint(self, x1: int, y1: int, x2: int, y2: int)
        requires
            self.wf(),
            0 <= x1 < self.spec_width(),
            0 <= y1 < self.spec_height(),
            0 <= x2 < self.spec_width(),
            0 <= y2 < self.spec_height(),
            (x1, y1) != (x2, y2),
        ensures
            self.pix(x1, y1) + 4 <= self.pix(x2, y2) || self.pix(x2, y2) + 4 <= self.pix(x1, y1),
    {
        let s = self.spec_stride() as int;
        let w = self.spec_width() as int;
        if y1 == y2 {
            assert(x1 != x2);
        } else if y1 < y2 {
            assert(y1 * s + s <= y2 * s && 4 * x1 + 4 <= s && 0 <= 4 * x2) by (nonlinear_arith)
                requires
                    y1 < y2,
                    s == 4 * w,
                    0 <= x1 < w,
                    0 <= x2,
            ;
        } else {
            assert(y2 * s + s <= y1 * s && 4 * x2 + 4 <= s && 0 <= 4 * x1) by (nonlinear_arith)
                requires
                    y2 < y1,
                    s == 4 * w,
                    0 <= x2 < w,
                    0 <= x1,
            ;
        }
    }

    /// Every in-range pixel's bytes sit inside the buffer.
    proof fn lemma_pix_in_range(self, x: int, y: int)
        requires
            self.wf(),
            0 <= x < self.spec_width(),
            0 <= y < self.spec_height(),
        ensures
            0 <= self.pix(x, y),
            self.pix(x, y) + 4 <= self@.len(),
    {
        let s = self.spec_stride() as int;
        let w = self.spec_width() as int;
        let h = self.spec_height() as int;
        assert(0 <= y * s + 4 * x && y * s + 4 * x + 4 <= s * h) by (nonlinear_arith)
            requires
                s == 4 * w,
                0 <= x < w,
                0 <= y < h,
        ;
    }

    /// Read the pixel at `(x, y)`.
    pub fn read_pixel(&self, x: usize, y: usize) -> (p: Pixel)
        requires
            self.wf(),
            x < self.spec_width(),
            y < self.spec_height(),
        ensures
            p == self.pixel_at(x as int, y as int),
    {
        proof {
            self.lemma_pix_in_range(x as int, y as int);
        }
        let n = self.buf.len();
        let base = y * self.stride + 4 * x;
        Pixel {
            blue: self.buf[base],
            green: self.buf[base + 1],
            red: self.buf[base + 2],
            pad: self.buf[base + 3],
        }
    }


    /// Visit every pixel row-major, coordinate first, replacing each with
    /// what the function returns for it.
    pub fn apply<F: Fn(usize, usize, Pixel) -> Pixel>(&mut self, f: F)
        requires
            old(self).wf(),
            forall|x: usize, y: usize, p: Pixel|
                x < old(self).spec_width() && y < old(self).spec_height() ==> #[trigger] f.requires(
                    (x, y, p),
                ),
        ensures
            final(self).wf(),
            final(self).same_dims(*old(self)),
            final(self)@.len() == old(self)@.len(),
            forall|x: int, y: int|
                0 <= x < final(self).spec_width() && 0 <= y < final(self).spec_height()
                    ==> f.ensures(
                    (x as usize, y as usize, old(self).pixel_at(x, y)),
                    #[trigger] final(self).pixel_at(x, y),
                ),
    {
        let w = self.width();
        let h = self.height();
        let mut y: usize = 0;
        while y < h
            invariant
                y <= h,
                self.wf(),
                self.same_dims(*old(self)),
                self@.len() == old(self)@.len(),
                w == self.spec_width(),
                h == self.spec_height(),
                forall|x2: usize, y2: usize, p: Pixel|
                    x2 < w && y2 < h ==> #[trigger] f.requires((x2, y2, p)),
                forall|i: int, j: int|
                    0 <= i < w && 0 <= j < y ==> f.ensures(
                        (i as usize, j as usize, old(self).pixel_at(i, j)),
                        #[trigger] self.pixel_at(i, j),
                    ),
                forall|i: int, j: int|
                    0 <= i < w && y <= j < h ==> self.pixel_at(i, j) == old(self).pixel_at(i, j),
            decreases h - y,
        {
            let mut x: usize = 0;
            while x < w
                invariant
                    x <= w,
                    y < h,
                    self.wf(),
                    self.same_dims(*old(self)),
                    self@.len() == old(self)@.len(),
                    w == self.spec_width(),
                    h == self.spec_height(),
                    forall|x2: usize, y2: usize, p: Pixel|
                        x2 < w && y2 < h ==> #[trigger] f.requires((x2, y2, p)),
                    forall|i: int, j: int|
                        0 <= i < w && 0 <= j < y ==> f.ensures(
                            (i as usize, j as usize, old(self).pixel_at(i, j)),
                            #[trigger] self.pixel_at(i, j),
                        ),
                    forall|i: int|
                        0 <= i < x ==> f.ensures(
                            (i as usize, y, old(self).pixel_at(i, y as int)),
                            #[trigger] self.pixel_at(i, y as int),
                        ),
                    forall|i: int|
                        x <= i < w ==> self.pixel_at(i, y as int) == old(self).pixel_at(
                            i,
                            y as int,
                        ),
                    forall|i: int, j: int|
                        0 <= i < w && y < j < h ==> self.pixel_at(i, j) == old(self).pixel_at(
                            i,
                            j,
                        ),
                decreases w - x,
            {
                let p = self.read_pixel(x, y);
                let q = f(x, y, p);
                self.write_pixel(x, y, q);
                x = x + 1;
            }
            y = y + 1;
        }
    }

    /// Visit two equal-sized frames pairwise, replacing each frame's pixel
    /// with the pair the function returns.
    pub fn apply_zip<F: Fn(usize, usize, Pixel, Pixel) -> (Pixel, Pixel)>(
        &mut self,
        other: &mut VideoFrame,
        f: F,
    )
        requires
            old(self).wf(),
            old(other).wf(),
            old(self).same_dims(*old(other)),
            forall|x: usize, y: usize, p1: Pixel, p2: Pixel|
                x < old(self).spec_width() && y < old(self).spec_height() ==> #[trigger] f.requires(
                    (x, y, p1, p2),
                ),
        ensures
            final(self).wf(),
            final(other).wf(),
            final(self).same_dims(*old(self)),
            final(other).same_dims(*old(other)),
            final(self)@.len() == old(self)@.len(),
            final(other)@.len() == old(other)@.len(),
            forall|x: int, y: int|
                0 <= x < final(self).spec_width() && 0 <= y < final(self).spec_height()
                    ==> f.ensures(
                    (x as usize, y as usize, old(self).pixel_at(x, y), old(other).pixel_at(x, y)),
                    (#[trigger] final(self).pixel_at(x, y), final(other).pixel_at(x, y)),
                ),
    {
        let w = self.width();
        let h = self.height();
        let mut y: usize = 0;
        while y < h
            invariant
                y <= h,
                self.wf(),
                other.wf(),
                self.same_dims(*old(self)),
                other.same_dims(*old(other)),
                self.same_dims(*other),
                self@.len() == old(self)@.len(),
                other@.len() == old(other)@.len(),
                w == self.spec_width(),
                h == self.spec_height(),
                forall|x2: usize, y2: usize, p1: Pixel, p2: Pixel|
                    x2 < w && y2 < h ==> #[trigger] f.requires((x2, y2, p1, p2)),
                forall|i: int, j: int|
                    0 <= i < w && 0 <= j < y ==> f.ensures(
                        (i as usize, j as usize, old(self).pixel_at(i, j), old(other).pixel_at(
                            i,
                            j,
                        )),
                        (#[trigger] self.pixel_at(i, j), other.pixel_at(i, j)),
                    ),
                forall|i: int, j: int|
                    0 <= i < w && y <= j < h ==> self.pixel_at(i, j) == old(self).pixel_at(i, j)
                        && other.pixel_at(i, j) == old(other).pixel_at(i, j),
            decreases h - y,
        {
            let mut x: usize = 0;
            while x < w
                invariant
                    x <= w,
                    y < h,
                    self.wf(),
                    other.wf(),
                    self.same_dims(*old(self)),
                    other.same_dims(*old(other)),
                    self.same_dims(*other),
                    self@.len() == old(self)@.len(),
                    other@.len() == old(other)@.len(),
                    w == self.spec_width(),
                    h == self.spec_height(),
                    forall|x2: usize, y2: usize, p1: Pixel, p2: Pixel|
                        x2 < w && y2 < h ==> #[trigger] f.requires((x2, y2, p1, p2)),
                    forall|i: int, j: int|
                        0 <= i < w && 0 <= j < y ==> f.ensures(
                            (i as usize, j as usize, old(self).pixel_at(i, j), old(
                                other,
                            ).pixel_at(i, j)),
                            (#[trigger] self.pixel_at(i, j), other.pixel_at(i, j)),
                        ),
                    forall|i: int|
                        0 <= i < x ==> f.ensures(
                            (i as usize, y, old(self).pixel_at(i, y as int), old(
                                other,
                            ).pixel_at(i, y as int)),
                            (#[trigger] self.pixel_at(i, y as int), other.pixel_at(i, y as int)),
                        ),
                    forall|i: int|
                        x <= i < w ==> self.pixel_at(i, y as int) == old(self).pixel_at(
                            i,
                            y as int,
                        ) && other.pixel_at(i, y as int) == old(other).pixel_at(i, y as int),
                    forall|i: int, j: int|
                        0 <= i < w && y < j < h ==> self.pixel_at(i, j) == old(self).pixel_at(
                            i,
                            j,
                        ) && other.pixel_at(i, j) == old(other).pixel_at(i, j),
                decreases w - x,
            {
                let p1 = self.read_pixel(x, y);
                let p2 = other.read_pixel(x, y);
                let (q1, q2) = f(x, y, p1, p2);
                self.write_pixel(x, y, q1);
                other.write_pixel(x, y, q2);
                x = x + 1;
            }
            y = y + 1;
        }
    }

    /// Write the pixel at `(x, y)`; every other pixel keeps its value.
    pub fn write_pixel(&mut self, x: usize, y: usize, p: Pixel)
        requires
            old(self).wf(),
            x < old(self).spec_width(),
            y < old(self).spec_height(),
        ensures
            final(self).wf(),
            final(self).same_dims(*old(self)),
            final(self)@.len() == old(self)@.len(),
            final(self).pixel_at(x as int, y as int) == p,
            forall|i: int, j: int|
                0 <= i < final(self).spec_width() && 0 <= j < final(self).spec_height() && (i, j)
                    != (x as int, y as int) ==> final(self).pixel_at(i, j) == old(self).pixel_at(
                    i,
                    j,
                ),
    {
        let ghost pre = *self;
        proof {
            pre.lemma_pix_in_range(x as int, y as int);
        }
        let n = self.buf.len();
        let base = y * self.stride + 4 * x;
        self.buf[base] = p.blue;
        self.buf[base + 1] = p.green;
        self.buf[base + 2] = p.red;
        self.buf[base + 3] = p.pad;
        proof {
            assert forall|i: int, j: int|
                0 <= i < self.spec_width() && 0 <= j < self.spec_height() && (i, j) != (
                x as int,
                y as int,
            ) implies self.pixel_at(i, j) == pre.pixel_at(i, j) by {
                pre.lemma_pix_disjoint(i, j, x as int, y as int);
                pre.lemma_pix_in_range(i, j);
            }
        }
    }
}

/// Immutable, validated video settings shared by every node constructor.
#[derive(Debug, Clone, Copy, PartialEq, Eq, Structural)]
pub struct VideoConfig {
    width: usize,
    height: usize,
    fps: usize,
}

impl VideoConfig {
    pub closed spec fn spec_width(self) -> nat {
        self.width as nat
    }

    pub closed spec fn spec_height(self) -> nat {
        self.height as nat
    }

    pub closed spec fn spec_fps(self) -> nat {
        self.fps as nat
    }

    /// The validated ranges: even width in 352..=7680, even height in
    /// 240..=4320, fps in 1..=60.
    pub open spec fn valid(self) -> bool {
        &&& 352 <= self.spec_width() <= 7680
        &&& self.spec_width() % 2 == 0
        &&& 240 <= self.spec_height() <= 4320
        &&& self.spec_height() % 2 == 0
        &&& 1 <= self.spec_fps() <= 60
    }

    pub fn width(&self) -> (w: usize)
        ensures
            w == self.spec_width(),
    {
        self.width
    }

    pub fn height(&self) -> (h: usize)
        ensures
            h == self.spec_height(),
    {
        self.height
    }

    pub fn fps(&self) -> (f: usize)
        ensures
            f == self.spec_fps(),
    {
        self.fps
    }

    pub fn builder() -> (b: VideoConfigBuilder)
        ensures
            b.spec_config().valid(),
            b.spec_config().spec_width() == 1280,
            b.spec_config().spec_height() == 720,
            b.spec_config().spec_fps() == 24,
    {
        VideoConfigBuilder { config: VideoConfig::default() }
    }
}

impl Default for VideoConfig {
    /// The defaults: 1280x720 at 24 frames per second.
    fn default() -> (c: VideoConfig)
        ensures
            c.valid(),
            c.spec_width() == 1280,
            c.spec_height() == 720,
            c.spec_fps() == 24,
    {
        VideoConfig { width: 1280, height: 720, fps: 24 }
    }
}

/// Builds a [`VideoConfig`] starting from the defaults; each setter demands
/// an in-range value, so the built configuration is always valid.
#[derive(Debug, Clone)]
pub struct VideoConfigBuilder {
    config: VideoConfig,
}

impl VideoConfigBuilder {
    pub closed spec fn spec_config(self) -> VideoConfig {
        self.config
    }

    pub fn width(&mut self, value: usize)
        requires
            old(self).spec_config().valid(),
            352 <= value <= 7680,
            value % 2 == 0,
        ensures
            final(self).spec_config().valid(),
            final(self).spec_config().spec_width() == value,
            final(self).spec_config().spec_height() == old(self).spec_config().spec_height(),
            final(self).spec_config().spec_fps() == old(self).spec_config().spec_fps(),
    {
        self.config.width = value;
    }

    pub fn height(&mut self, value: usize)
        requires
            old(self).spec_config().valid(),
            240 <= value <= 4320,
            value % 2 == 0,
        ensures
            final(self).spec_config().valid(),
            final(self).spec_config().spec_height() == value,
            final(self).spec_config().spec_width() == old(self).spec_config().spec_width(),
            final(self).spec_config().spec_fps() == old(self).spec_config().spec_fps(),
    {
        self.config.height = value;
    }

    pub fn fps(&mut self, value: usize)
        requires
            old(self).spec_config().valid(),
            1 <= value <= 60,
        ensures
            final(self).spec_config().valid(),
            final(self).spec_config().spec_fps() == value,
            final(self).spec_config().spec_width() == old(self).spec_config().spec_width(),
            final(self).spec_config().spec_height() == old(self).spec_config().spec_height(),
    {
        self.config.fps = value;
    }

    pub fn build(&self) -> (c: VideoConfig)
        ensures
            c == self.spec_config(),
    {
        self.config
    }
}

} // verus!
