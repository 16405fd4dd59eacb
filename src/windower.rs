use vstd::prelude::*;

verus! {

/// Groups a stream of samples into consecutive, non-overlapping frames of a
/// fixed length; samples that do not fill a frame wait for the next ones.
pub struct FrameWindower {
    pending: Vec<i16>,
    frame_len: usize,
}

impl FrameWindower {
    pub closed spec fn spec_frame_len(&self) -> nat {
        self.frame_len as nat
    }

    /// The samples received since the last complete frame.
    pub closed spec fn spec_pending(&self) -> Seq<i16> {
        self.pending@
    }

    pub open spec fn wf(&self) -> bool {
        &&& self.spec_frame_len() > 0
        &&& self.spec_pending().len() < self.spec_frame_len()
    }

    /// A windower for frames of `frame_len` samples, with nothing pending.
    pub fn new(frame_len: usize) -> (r: FrameWindower)
        requires
            frame_len > 0,
        ensures
            r.wf(),
            r.spec_frame_len() == frame_len,
            r.spec_pending() == Seq::<i16>::empty(),
    {
        FrameWindower { pending: Vec::new(), frame_len }
    }

    pub fn frame_len(&self) -> (r: usize)
        ensures
            r as nat == self.spec_frame_len(),
    {
        self.frame_len
    }

    /// Number of samples waiting for a frame to fill; at the end of the
    /// stream they are discarded.
    pub fn pending_len(&self) -> (r: usize)
        ensures
            r as nat == self.spec_pending().len(),
    {
        self.pending.len()
    }

    /// Takes the next sample; returns the frame that it completes, if any.
    pub fn push_sample(&mut self, sample: i16) -> (r: Option<Vec<i16>>)
        requires
            old(self).wf(),
        ensures
            final(self).wf(),
            final(self).spec_frame_len() == old(self).spec_frame_len(),
            old(self).spec_pending().len() + 1 == old(self).spec_frame_len() ==> {
                &&& r is Some
                &&& r.unwrap()@ == old(self).spec_pending().push(sample)
                &&& final(self).spec_pending() == Seq::<i16>::empty()
            },
            old(self).spec_pending().len() + 1 < old(self).spec_frame_len() ==> {
                &&& r is None
                &&& final(self).spec_pending() == old(self).spec_pending().push(sample)
            },
            r is Some ==> r.unwrap()@.len() == old(self).spec_frame_len(),
    {
        self.pending.push(sample);
        if self.pending.len() == self.frame_len {
            let frame = self.pending.split_off(0);
            proof {
                assert(self.pending@ =~= Seq::<i16>::empty());
                assert(frame@ =~= old(self).pending@.push(sample));
            }
            Some(frame)
        } else {
            None
        }
    }
}

/// The `i`-th frame of `n` samples of `samples`.
pub open spec fn frame_at(samples: Seq<i16>, n: nat, i: int) -> Seq<i16> {
    samples.subrange(i * n, (i + 1) * n)
}

/// Splits `samples` into the whole frames of `frame_len` samples that it
/// holds, in order; a final partial frame is left out.
pub fn split_frames(samples: &[i16], frame_len: usize) -> (frames: Vec<Vec<i16>>)
    requires
        frame_len > 0,
    ensures
        frames@.len() == samples@.len() / (frame_len as nat),
        forall|i: int|
            0 <= i < frames@.len() ==> #[trigger] frames@[i]@ == frame_at(
                samples@,
                frame_len as nat,
                i,
            ),
        forall|i: int| 0 <= i < frames@.len() ==> #[trigger] frames@[i]@.len() == frame_len,
{
    let ghost n = frame_len as nat;
    let total = samples.len();
    let count = total / frame_len;
    let mut frames: Vec<Vec<i16>> = Vec::new();
    let mut k: usize = 0;
    while k < count
        invariant
            n == frame_len,
            n > 0,
            total == samples@.len(),
            count == samples@.len() / n,
            k <= count,
            frames@.len() == k,
            forall|i: int| 0 <= i < k ==> #[trigger] frames@[i]@ == frame_at(samples@, n, i),
        decreases count - k,
    {
        proof {
            assert((k + 1) * n <= count * n) by (nonlinear_arith)
                requires k < count;
            assert(count * n <= samples@.len()) by (nonlinear_arith)
                requires count == samples@.len() / n, n > 0;
            assert(k * n + n == (k + 1) * n) by (nonlinear_arith);
        }
        let start = k * frame_len;
        let mut frame: Vec<i16> = Vec::new();
        let mut j: usize = 0;
        while j < frame_len
            invariant
                n == frame_len,
                start == k * n,
                start + n <= samples@.len(),
                total == samples@.len(),
                j <= frame_len,
                frame@ =~= samples@.subrange(start as int, start + j),
            decreases frame_len - j,
        {
            frame.push(samples[start + j]);
            j = j + 1;
            proof {
                assert(frame@ =~= samples@.subrange(start as int, start + j));
            }
        }
        proof {
            assert(frame@ == frame_at(samples@, n, k as int));
        }
        frames.push(frame);
        k = k + 1;
    }
    proof {
        assert forall|i: int| 0 <= i < frames@.len() implies #[trigger] frames@[i]@.len() == frame_len by {
            assert(frames@[i]@ == frame_at(samples@, n, i));
            assert(i * n + n == (i + 1) * n) by (nonlinear_arith);
            assert((i + 1) * n <= count * n) by (nonlinear_arith)
                requires i < count, i >= 0;
            assert(count * n <= samples@.len()) by (nonlinear_arith)
                requires count == samples@.len() / n, n > 0;
            assert(0 <= i * n) by (nonlinear_arith)
                requires i >= 0;
        }
    }
    frames
}

} // verus!
