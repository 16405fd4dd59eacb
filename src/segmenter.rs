use vstd::prelude::*;

verus! {

/// Frames of silence that close an utterance, and frames of silence kept
/// before one.
pub const SILENCE_PADDING: usize = 20;

/// A frame that could not be classified; the run cannot go on past it.
#[derive(Debug, Clone, Copy, PartialEq, Eq, Structural)]
pub enum ClassificationError {
    /// The frame does not hold the configured number of samples.
    WrongFrameLength { expected: usize, found: usize },
    /// The classifier gave no verdict on the frame.
    NoVerdict,
}

/// The accumulator's state as mathematical values.
pub struct SegmentState {
    pub buffer: Seq<i16>,
    pub silence_frames: nat,
    pub speech_frames: nat,
}

impl SegmentState {
    pub open spec fn initial() -> SegmentState {
        SegmentState { buffer: Seq::empty(), silence_frames: 0, speech_frames: 0 }
    }

    /// The invariant of the accumulator for frames of `n` samples: while no
    /// speech was seen the buffer holds exactly the trailing silence, at most
    /// the padding; once speech was seen, a short pause at most, and every
    /// speech and pause frame is in the buffer.
    pub open spec fn wf(self, n: nat) -> bool {
        &&& n > 0
        &&& self.speech_frames == 0 ==> self.silence_frames <= SILENCE_PADDING
            && self.buffer.len() == self.silence_frames * n
        &&& self.speech_frames > 0 ==> self.silence_frames < SILENCE_PADDING
            && self.buffer.len() >= (self.speech_frames + self.silence_frames) * n
    }
}

/// One frame of `n` samples classified as voice or not: the next state, and
/// the utterance emitted on this frame, if any.
pub open spec fn step(s: SegmentState, frame: Seq<i16>, is_voice: bool, n: nat) -> (SegmentState, Option<Seq<i16>>) {
    let buffer = s.buffer + frame;
    if is_voice {
        (SegmentState { buffer, silence_frames: 0, speech_frames: s.speech_frames + 1 }, None)
    } else {
        let silence = s.silence_frames + 1;
        if s.speech_frames == 0 {
            if silence > SILENCE_PADDING {
                let keep = (SILENCE_PADDING * n) as int;
                (
                    SegmentState {
                        buffer: buffer.subrange(buffer.len() - keep, buffer.len() as int),
                        silence_frames: SILENCE_PADDING as nat,
                        speech_frames: 0,
                    },
                    None,
                )
            } else {
                (SegmentState { buffer, silence_frames: silence, speech_frames: 0 }, None)
            }
        } else if silence < SILENCE_PADDING {
            (SegmentState { buffer, silence_frames: silence, speech_frames: s.speech_frames }, None)
        } else {
            (SegmentState::initial(), Some(buffer))
        }
    }
}

/// Cuts a stream of classified frames into utterances: each one keeps up to
/// `SILENCE_PADDING` frames of silence before its speech, and ends after
/// `SILENCE_PADDING` frames of silence in a row.
pub struct Segmenter {
    buffer: Vec<i16>,
    silence_frames: usize,
    speech_frames: usize,
    frame_sample_count: usize,
}

impl View for Segmenter {
    type V = SegmentState;

    closed spec fn view(&self) -> SegmentState {
        SegmentState {
            buffer: self.buffer@,
            silence_frames: self.silence_frames as nat,
            speech_frames: self.speech_frames as nat,
        }
    }
}

impl Segmenter {
    pub closed spec fn spec_frame_sample_count(&self) -> nat {
        self.frame_sample_count as nat
    }

    pub open spec fn wf(&self) -> bool {
        self@.wf(self.spec_frame_sample_count())
    }

    /// An empty accumulator for frames of `frame_sample_count` samples.
    pub fn new(frame_sample_count: usize) -> (r: Segmenter)
        requires
            frame_sample_count > 0,
        ensures
            r.wf(),
            r@ == SegmentState::initial(),
            r.spec_frame_sample_count() == frame_sample_count,
    {
        Segmenter { buffer: Vec::new(), silence_frames: 0, speech_frames: 0, frame_sample_count }
    }

    pub fn frame_sample_count(&self) -> (r: usize)
        ensures
            r as nat == self.spec_frame_sample_count(),
    {
        self.frame_sample_count
    }

    /// The samples retained so far for the next utterance.
    pub fn buffer(&self) -> (r: &Vec<i16>)
        ensures
            r@ == self@.buffer,
    {
        &self.buffer
    }

    pub fn silence_frames(&self) -> (r: usize)
        ensures
            r as nat == self@.silence_frames,
    {
        self.silence_frames
    }

    pub fn speech_frames(&self) -> (r: usize)
        ensures
            r as nat == self@.speech_frames,
    {
        self.speech_frames
    }

    /// Takes one frame and its classification; returns the utterance that
    /// this frame completes, if any, and then starts afresh.
    pub fn push_frame(&mut self, frame: Vec<i16>, is_voice: bool) -> (r: Option<Vec<i16>>)
        requires
            old(self).wf(),
            frame@.len() == old(self).spec_frame_sample_count(),
        ensures
            final(self).wf(),
            final(self).spec_frame_sample_count() == old(self).spec_frame_sample_count(),
            final(self)@ == step(old(self)@, frame@, is_voice, old(self).spec_frame_sample_count()).0,
            r.is_some() == step(old(self)@, frame@, is_voice, old(self).spec_frame_sample_count()).1.is_some(),
            r.is_some() ==> r.unwrap()@ == step(
                old(self)@,
                frame@,
                is_voice,
                old(self).spec_frame_sample_count(),
            ).1.unwrap(),
            r.is_some() ==> final(self)@ == SegmentState::initial(),
    {
        let ghost n = self.frame_sample_count as nat;
        let ghost s0 = self@;
        let ghost f0 = frame@;
        let mut frame = frame;
        self.buffer.append(&mut frame);
        let total = self.buffer.len();
        if is_voice {
            proof {
                assert(total as int == s0.buffer.len() + n);
                assert((s0.speech_frames + s0.silence_frames) * n + n == (s0.speech_frames + 1
                    + s0.silence_frames) * n) by (nonlinear_arith);
                assert((s0.speech_frames + 1) * n >= s0.speech_frames + 1) by (nonlinear_arith)
                    requires n > 0;
                assert((s0.speech_frames + 1 + s0.silence_frames) * n >= (s0.speech_frames + 1) * n)
                    by (nonlinear_arith);
            }
            self.speech_frames = self.speech_frames + 1;
            self.silence_frames = 0;
            return None;
        }
        self.silence_frames = self.silence_frames + 1;
        if self.speech_frames == 0 {
            if self.silence_frames > SILENCE_PADDING {
                proof {
                    assert(s0.silence_frames == SILENCE_PADDING);
                    assert(s0.silence_frames * n + n == (SILENCE_PADDING + 1) * n) by (nonlinear_arith)
                        requires s0.silence_frames == SILENCE_PADDING;
                    assert((SILENCE_PADDING + 1) * n >= SILENCE_PADDING * n) by (nonlinear_arith);
                }
                let start = self.buffer.len() - self.frame_sample_count * SILENCE_PADDING;
                let kept = self.buffer.split_off(start);
                self.buffer = kept;
                self.silence_frames = SILENCE_PADDING;
                proof {
                    assert(self@ == step(s0, f0, is_voice, n).0);
                }
            } else {
                proof {
                    assert(s0.silence_frames * n + n == (s0.silence_frames + 1) * n) by (nonlinear_arith);
                }
            }
            return None;
        }
        if self.silence_frames < SILENCE_PADDING {
            proof {
                assert((s0.speech_frames + s0.silence_frames) * n + n == (s0.speech_frames
                    + s0.silence_frames + 1) * n) by (nonlinear_arith);
            }
            return None;
        }
        let segment = self.buffer.split_off(0);
        self.silence_frames = 0;
        self.speech_frames = 0;
        proof {
            assert(self@.buffer =~= Seq::<i16>::empty());
            assert(0 * n == 0);
            assert(self@ == SegmentState::initial());
            assert(segment@ =~= s0.buffer + f0);
        }
        Some(segment)
    }

    /// Takes one frame with the classifier's verdict on it (`None` where the
    /// classifier refused the frame). A frame of the wrong length or without
    /// a verdict is an error and leaves the state as it was; otherwise this
    /// is `push_frame`.
    pub fn push_classified(&mut self, frame: Vec<i16>, verdict: Option<bool>) -> (r: Result<
        Option<Vec<i16>>,
        ClassificationError,
    >)
        requires
            old(self).wf(),
        ensures
            final(self).wf(),
            final(self).spec_frame_sample_count() == old(self).spec_frame_sample_count(),
            frame@.len() != old(self).spec_frame_sample_count() ==> final(self)@ == old(self)@
                && r == Err::<Option<Vec<i16>>, ClassificationError>(
                ClassificationError::WrongFrameLength {
                    expected: old(self).spec_frame_sample_count() as usize,
                    found: frame@.len() as usize,
                },
            ),
            frame@.len() == old(self).spec_frame_sample_count() && verdict is None ==> final(self)@
                == old(self)@ && r == Err::<Option<Vec<i16>>, ClassificationError>(
                ClassificationError::NoVerdict,
            ),
            frame@.len() == old(self).spec_frame_sample_count() && verdict is Some ==> {
                let (next, out) = step(
                    old(self)@,
                    frame@,
                    verdict.unwrap(),
                    old(self).spec_frame_sample_count(),
                );
                &&& r is Ok
                &&& final(self)@ == next
                &&& r.unwrap().is_some() == out.is_some()
                &&& r.unwrap().is_some() ==> r.unwrap().unwrap()@ == out.unwrap()
            },
    {
        let found = frame.len();
        if found != self.frame_sample_count {
            return Err(
                ClassificationError::WrongFrameLength { expected: self.frame_sample_count, found },
            );
        }
        match verdict {
            None => Err(ClassificationError::NoVerdict),
            Some(is_voice) => Ok(self.push_frame(frame, is_voice)),
        }
    }
}

} // verus!
