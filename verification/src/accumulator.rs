//! The frame accumulator: buffers raw interleaved samples until exactly
//! one codec frame's worth is available, consuming strictly in capture
//! order.  Partial trailing data at stream end is left buffered, never
//! padded.

use vstd::prelude::*;

verus! {

/// A FIFO buffer of interleaved signed 16-bit samples that hands out
/// fixed-size frames.
pub struct FrameAccumulator {
    buf: Vec<i16>,
    frame_len: usize,
}

impl FrameAccumulator {
    /// The samples currently buffered, in capture order.
    pub closed spec fn buffered(&self) -> Seq<i16> {
        self.buf@
    }

    /// The number of samples in one frame: samples per channel times
    /// channel count.
    pub closed spec fn frame_len(&self) -> usize {
        self.frame_len
    }

    /// Create an accumulator handing out frames of `frame_len` samples.
    pub fn new(frame_len: usize) -> (r: Self)
        requires
            frame_len > 0,
        ensures
            r.buffered() == Seq::<i16>::empty(),
            r.frame_len() == frame_len,
    {
        let r = FrameAccumulator { buf: Vec::new(), frame_len };
        proof {
            assert(r.buffered() =~= Seq::<i16>::empty());
        }
        r
    }

    /// Append newly captured samples behind everything already buffered.
    pub fn push(&mut self, samples: &[i16])
        ensures
            final(self).buffered() == old(self).buffered() + samples@,
            final(self).frame_len() == old(self).frame_len(),
    {
        self.buf.extend_from_slice(samples);
    }

    /// Remove and return exactly one frame from the front of the buffer
    /// if enough samples are buffered, else return nothing and change
    /// nothing.
    pub fn try_take_frame(&mut self) -> (r: Option<Vec<i16>>)
        ensures
            final(self).frame_len() == old(self).frame_len(),
            r is Some <==> old(self).buffered().len() >= old(self).frame_len(),
            r is Some ==> r.unwrap()@ == old(self).buffered().take(old(self).frame_len() as int)
                && final(self).buffered() == old(self).buffered().skip(
                old(self).frame_len() as int,
            ),
            r is None ==> final(self).buffered() == old(self).buffered(),
    {
        if self.buf.len() < self.frame_len {
            return None;
        }
        let mut rest = self.buf.split_off(self.frame_len);
        core::mem::swap(&mut self.buf, &mut rest);
        Some(rest)
    }
}

} // verus!
