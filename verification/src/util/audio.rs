//! Bounded rolling store of captured audio samples with windowed read
//! access. Samples are signed fixed-point numbers (see [`crate::fixed`]).

use vstd::prelude::*;

use crate::fixed::spec_min;

verus! {

/// Bounded capacity of the store, counted in ticks' worth of samples.
pub const BUFFER_FRAMES: usize = 250;

/// The most recent `n` elements of `s` (all of them if `s` is shorter).
pub open spec fn tail_window(s: Seq<i32>, n: int) -> Seq<i32> {
    if n >= s.len() {
        s
    } else {
        s.subrange(s.len() - n, s.len() as int)
    }
}

/// What the store holds after pushing `data` onto `buf` with bounded
/// capacity `cap`: the chunk is appended, after the oldest excess is
/// discarded whenever the result would exceed `2 * cap`.
pub open spec fn pushed(buf: Seq<i32>, data: Seq<i32>, cap: int) -> Seq<i32> {
    if buf.len() + data.len() <= 2 * cap {
        buf + data
    } else {
        tail_window(buf, cap) + data
    }
}

/// A rolling sample store with a fixed per-tick frame size and a bounded
/// capacity of [`BUFFER_FRAMES`] ticks' worth of samples. Its length never
/// exceeds twice the bounded capacity.
///
/// Values are plain: [`AudioBuffer::snapshot`] copies, and the one live
/// store a capture callback feeds is shared through
/// [`crate::pipeline::Pipeline::push_audio`] rather than through shared
/// handles.
#[derive(Debug)]
pub struct AudioBuffer {
    buf: Vec<i32>,
    frame_size: usize,
    sample_rate: usize,
    buf_size: usize,
}

impl View for AudioBuffer {
    type V = Seq<i32>;

    closed spec fn view(&self) -> Seq<i32> {
        self.buf@
    }
}

impl AudioBuffer {
    pub closed spec fn spec_frame_size(self) -> nat {
        self.frame_size as nat
    }

    pub closed spec fn spec_sample_rate(self) -> nat {
        self.sample_rate as nat
    }

    /// The bounded capacity in samples: one frame per stored tick.
    pub closed spec fn spec_buf_size(self) -> nat {
        self.buf_size as nat
    }

    pub open spec fn wf(self) -> bool {
        &&& self.spec_buf_size() == self.spec_frame_size() * (BUFFER_FRAMES as nat)
        &&& 4 * self.spec_buf_size() <= usize::MAX
        &&& self@.len() <= 2 * self.spec_buf_size()
    }

    /// Frames of equal configuration.
    pub open spec fn same_config(self, other: AudioBuffer) -> bool {
        &&& self.spec_frame_size() == other.spec_frame_size()
        &&& self.spec_sample_rate() == other.spec_sample_rate()
        &&& self.spec_buf_size() == other.spec_buf_size()
    }

    /// An empty store whose per-tick frame size is `sample_rate / fps`.
    ///
    /// The sample-rate bound is this model's machine limit: it keeps four
    /// times the bounded capacity within a 32-bit address space and keeps
    /// every downstream frequency computation free of overflow; the device
    /// source reports a rate beyond it as a platform failure.
    pub fn new(sample_rate: usize, fps: usize) -> (b: AudioBuffer)
        requires
            fps >= 1,
            sample_rate <= 1_000_000,
        ensures
            b.wf(),
            b.spec_frame_size() == sample_rate as int / fps as int,
            b.spec_sample_rate() == sample_rate,
            b@.len() == 0,
    {
        let frame_size = sample_rate / fps;
        let buf_size = frame_size * BUFFER_FRAMES;
        AudioBuffer { buf: Vec::new(), frame_size, sample_rate, buf_size }
    }

    pub fn frame_size(&self) -> (n: usize)
        ensures
            n == self.spec_frame_size(),
    {
        self.frame_size
    }

    pub fn sample_rate(&self) -> (n: usize)
        ensures
            n == self.spec_sample_rate(),
    {
        self.sample_rate
    }

    /// A deep copy with the same contents and configuration.
    pub fn snapshot(&self) -> (b: AudioBuffer)
        ensures
            b@ == self@,
            b.same_config(*self),
    {
        let buf = self.buf.clone();
        assert(buf@ =~= self.buf@);
        AudioBuffer {
            buf,
            frame_size: self.frame_size,
            sample_rate: self.sample_rate,
            buf_size: self.buf_size,
        }
    }

    /// Append a chunk of captured samples, discarding the oldest excess
    /// first if the store would grow beyond twice its bounded capacity.
    /// A chunk larger than the bounded capacity is rejected outright.
    pub fn push(&mut self, data: &[i32]) -> (accepted: bool)
        requires
            old(self).wf(),
        ensures
            final(self).wf(),
            final(self).same_config(*old(self)),
            accepted <==> data@.len() <= old(self).spec_buf_size(),
            accepted ==> final(self)@ == pushed(
                old(self)@,
                data@,
                old(self).spec_buf_size() as int,
            ),
            !accepted ==> final(self)@ == old(self)@,
    {
        let ghost orig = *self;
        let n = slice_len(data);
        if n > self.buf_size {
            return false;
        }
        if self.buf.len() + n > 2 * self.buf_size {
            let ghost pre = self.buf@;
            let head = self.buf.len() - self.buf_size;
            let mut kept: Vec<i32> = Vec::new();
            let mut i = head;
            while i < self.buf.len()
                invariant
                    head <= i <= self.buf@.len(),
                    self.buf@ == pre,
                    self.same_config(orig),
                    orig.wf(),
                    head == pre.len() - self.spec_buf_size(),
                    self.spec_buf_size() < pre.len(),
                    kept@ == pre.subrange(head as int, i as int),
                decreases self.buf@.len() - i,
            {
                let v = self.buf[i];
                kept.push(v);
                i = i + 1;
                proof {
                    assert(kept@ =~= pre.subrange(head as int, i as int));
                }
            }
            assert(kept@ =~= tail_window(pre, self.spec_buf_size() as int));
            self.buf = kept;
        }
        let ghost base = self.buf@;
        let mut j: usize = 0;
        while j < n
            invariant
                j <= n,
                n == data@.len(),
                self.buf@ == base + data@.subrange(0, j as int),
                base.len() + n <= 2 * self.spec_buf_size(),
                self.same_config(orig),
                orig.wf(),
            decreases n - j,
        {
            let v = data[j];
            self.buf.push(v);
            j = j + 1;
            proof {
                assert(base + data@.subrange(0, j - 1) + seq![data@[j - 1]] =~= base
                    + data@.subrange(0, j as int));
            }
        }
        proof {
            assert(data@.subrange(0, n as int) =~= data@);
        }
        true
    }

    /// The most recent `frames` ticks' worth of samples, capped at the
    /// bounded capacity.
    pub fn frames(&self, frames: usize) -> (w: Vec<i32>)
        requires
            self.wf(),
        ensures
            w@ == tail_window(
                self@,
                spec_min(self.spec_frame_size() * frames, self.spec_buf_size() as int),
            ),
    {
        let len = match self.frame_size.checked_mul(frames) {
            Some(v) =>
                if v < self.buf_size {
                    v
                } else {
                    self.buf_size
                },
            None => self.buf_size,
        };
        self.window(len)
    }

    /// The most recent `n` samples, capped at the bounded capacity.
    pub fn exact(&self, n: usize) -> (w: Vec<i32>)
        requires
            self.wf(),
        ensures
            w@ == tail_window(self@, spec_min(n as int, self.spec_buf_size() as int)),
    {
        let len = if n < self.buf_size {
            n
        } else {
            self.buf_size
        };
        self.window(len)
    }

    /// The most recent `len` samples (all of them if fewer are stored).
    fn window(&self, len: usize) -> (w: Vec<i32>)
        ensures
            w@ == tail_window(self@, len as int),
    {
        let head = if self.buf.len() >= len {
            self.buf.len() - len
        } else {
            0
        };
        let mut w: Vec<i32> = Vec::new();
        let mut i = head;
        while i < self.buf.len()
            invariant
                head <= i <= self.buf@.len(),
                w@ == self.buf@.subrange(head as int, i as int),
            decreases self.buf@.len() - i,
        {
            let v = self.buf[i];
            w.push(v);
            i = i + 1;
            proof {
                assert(w@ =~= self.buf@.subrange(head as int, i as int));
            }
        }
        proof {
            assert(w@ =~= tail_window(self@, len as int));
        }
        w
    }
}

/// Length of a sample slice.
fn slice_len(s: &[i32]) -> (n: usize)
    ensures
        n == s@.len(),
{
    s.len()
}

/// What a push keeps is exactly the most recent samples of everything ever
/// pushed: the store's contents after a push are the tail of the old
/// contents followed by the chunk, and they never exceed twice the bounded
/// capacity.
pub proof fn lemma_pushed_keeps_recent(buf: Seq<i32>, data: Seq<i32>, cap: int)
    requires
        0 <= cap,
        buf.len() <= 2 * cap,
        data.len() <= cap,
    ensures
        pushed(buf, data, cap).len() <= 2 * cap,
        pushed(buf, data, cap) == tail_window(buf + data, pushed(buf, data, cap).len() as int),
{
    let out = pushed(buf, data, cap);
    if buf.len() + data.len() <= 2 * cap {
        assert(out =~= tail_window(buf + data, out.len() as int));
    } else {
        assert(out.len() == cap + data.len());
        assert(out =~= (buf + data).subrange(
            buf.len() as int - cap,
            (buf + data).len() as int,
        ));
        assert(tail_window(buf + data, out.len() as int) =~= (buf + data).subrange(
            buf.len() as int - cap,
            (buf + data).len() as int,
        ));
    }
}

} // verus!
