use vstd::prelude::*;
use crate::segmenter::{step, SegmentState, SILENCE_PADDING};

verus! {

/// What one step emits, as a sequence of zero or one utterances.
pub open spec fn emitted(out: Option<Seq<i16>>) -> Seq<Seq<i16>> {
    match out {
        Some(segment) => seq![segment],
        None => Seq::empty(),
    }
}

/// Frames fed in order, each with its classification, starting from `s`:
/// the final state and every utterance emitted on the way, in order.
pub open spec fn feed(s: SegmentState, input: Seq<(Seq<i16>, bool)>, n: nat) -> (SegmentState, Seq<Seq<i16>>)
    decreases input.len(),
{
    if input.len() == 0 {
        (s, Seq::empty())
    } else {
        let prev = feed(s, input.drop_last(), n);
        let next = step(prev.0, input.last().0, input.last().1, n);
        (next.0, prev.1 + emitted(next.1))
    }
}

/// Every frame of `input` has `n` samples and is classified as `voice`.
pub open spec fn uniform(input: Seq<(Seq<i16>, bool)>, n: nat, voice: bool) -> bool {
    forall|i: int| 0 <= i < input.len() ==> (#[trigger] input[i]).0.len() == n && input[i].1 == voice
}

pub open spec fn min_padding(k: nat) -> nat {
    if k < SILENCE_PADDING {
        k
    } else {
        SILENCE_PADDING as nat
    }
}

/// Feeding `a` and then `b` is feeding `a + b`.
pub proof fn lemma_feed_concat(s: SegmentState, a: Seq<(Seq<i16>, bool)>, b: Seq<(Seq<i16>, bool)>, n: nat)
    ensures
        feed(s, a + b, n) == ({
            let (mid, first) = feed(s, a, n);
            let (end, second) = feed(mid, b, n);
            (end, first + second)
        }),
    decreases b.len(),
{
    let mid = feed(s, a, n);
    if b.len() == 0 {
        assert(a + b =~= a);
        assert(mid.1 + Seq::<Seq<i16>>::empty() =~= mid.1);
    } else {
        assert((a + b).drop_last() =~= a + b.drop_last());
        assert((a + b).last() == b.last());
        lemma_feed_concat(s, a, b.drop_last(), n);
        let prev = feed(mid.0, b.drop_last(), n);
        let next = step(prev.0, b.last().0, b.last().1, n);
        assert(mid.1 + prev.1 + emitted(next.1) =~= mid.1 + (prev.1 + emitted(next.1)));
    }
}

proof fn lemma_uniform_drop_last(input: Seq<(Seq<i16>, bool)>, n: nat, voice: bool)
    requires
        uniform(input, n, voice),
        input.len() > 0,
    ensures
        uniform(input.drop_last(), n, voice),
        input.last().0.len() == n,
        input.last().1 == voice,
{
    assert forall|i: int| 0 <= i < input.drop_last().len() implies (#[trigger] input.drop_last()[i]).0.len()
        == n && input.drop_last()[i].1 == voice by {
        assert(input.drop_last()[i] == input[i]);
    }
}

/// From the empty state, `k` silent frames leave the last `min(k, SILENCE_PADDING)`
/// of them in the buffer and emit nothing.
pub proof fn lemma_leading_silence(input: Seq<(Seq<i16>, bool)>, n: nat)
    requires
        n > 0,
        uniform(input, n, false),
    ensures
        ({
            let (st, out) = feed(SegmentState::initial(), input, n);
            let k = min_padding(input.len());
            &&& st.speech_frames == 0
            &&& st.silence_frames == k
            &&& st.buffer.len() == k * n
            &&& out.len() == 0
        }),
    decreases input.len(),
{
    if input.len() > 0 {
        lemma_uniform_drop_last(input, n, false);
        lemma_leading_silence(input.drop_last(), n);
        let k = min_padding((input.len() - 1) as nat);
        assert(k * n + n == (k + 1) * n) by (nonlinear_arith);
        if k + 1 > SILENCE_PADDING {
            assert((k + 1) * n >= SILENCE_PADDING * n) by (nonlinear_arith)
                requires k + 1 > SILENCE_PADDING;
        }
    }
}

/// A run of voice frames adds each to the buffer and to the speech count,
/// clears the silence count, and emits nothing.
pub proof fn lemma_voice_run(s: SegmentState, input: Seq<(Seq<i16>, bool)>, n: nat)
    requires
        uniform(input, n, true),
    ensures
        ({
            let (st, out) = feed(s, input, n);
            &&& st.speech_frames == s.speech_frames + input.len()
            &&& st.buffer.len() == s.buffer.len() + input.len() * n
            &&& input.len() > 0 ==> st.silence_frames == 0
            &&& input.len() == 0 ==> st == s
            &&& out.len() == 0
        }),
    decreases input.len(),
{
    if input.len() > 0 {
        lemma_uniform_drop_last(input, n, true);
        lemma_voice_run(s, input.drop_last(), n);
        let k = (input.len() - 1) as nat;
        assert(k * n + n == (k + 1) * n) by (nonlinear_arith);
    }
}

/// After speech, fewer than `SILENCE_PADDING` silent frames are kept in the
/// buffer and counted, and emit nothing.
pub proof fn lemma_short_pause(s: SegmentState, input: Seq<(Seq<i16>, bool)>, n: nat)
    requires
        uniform(input, n, false),
        s.speech_frames > 0,
        s.silence_frames == 0,
        input.len() < SILENCE_PADDING,
    ensures
        ({
            let (st, out) = feed(s, input, n);
            &&& st.speech_frames == s.speech_frames
            &&& st.silence_frames == input.len()
            &&& st.buffer.len() == s.buffer.len() + input.len() * n
            &&& out.len() == 0
        }),
    decreases input.len(),
{
    if input.len() > 0 {
        lemma_uniform_drop_last(input, n, false);
        lemma_short_pause(s, input.drop_last(), n);
        let k = (input.len() - 1) as nat;
        assert(k * n + n == (k + 1) * n) by (nonlinear_arith);
    }
}

/// After speech, exactly `SILENCE_PADDING` silent frames emit the buffer with
/// all of them appended, and return to the empty state.
pub proof fn lemma_closing_pause(s: SegmentState, input: Seq<(Seq<i16>, bool)>, n: nat)
    requires
        uniform(input, n, false),
        s.speech_frames > 0,
        s.silence_frames == 0,
        input.len() == SILENCE_PADDING,
    ensures
        ({
            let (st, out) = feed(s, input, n);
            &&& st == SegmentState::initial()
            &&& out.len() == 1
            &&& out[0].len() == s.buffer.len() + SILENCE_PADDING * n
        }),
{
    lemma_uniform_drop_last(input, n, false);
    lemma_short_pause(s, input.drop_last(), n);
    let k = (input.len() - 1) as nat;
    assert(k * n + n == (k + 1) * n) by (nonlinear_arith);
}

/// Without any voice frame, the buffer never holds more than
/// `SILENCE_PADDING` frames, however long the silence lasts, and nothing is
/// emitted.
pub proof fn lemma_leading_silence_bound(input: Seq<(Seq<i16>, bool)>, n: nat)
    requires
        n > 0,
        uniform(input, n, false),
    ensures
        forall|k: int|
            0 <= k <= input.len() ==> (#[trigger] feed(SegmentState::initial(), input.take(k), n)).0.buffer.len()
                <= SILENCE_PADDING * n && feed(SegmentState::initial(), input.take(k), n).1.len() == 0,
{
    assert forall|k: int| 0 <= k <= input.len() implies (#[trigger] feed(
        SegmentState::initial(),
        input.take(k),
        n,
    )).0.buffer.len() <= SILENCE_PADDING * n && feed(SegmentState::initial(), input.take(k), n).1.len()
        == 0 by {
        assert forall|i: int| 0 <= i < input.take(k).len() implies (#[trigger] input.take(k)[i]).0.len()
            == n && input.take(k)[i].1 == false by {
            assert(input.take(k)[i] == input[i]);
        }
        lemma_leading_silence(input.take(k), n);
        let m = min_padding(input.take(k).len());
        assert(m * n <= SILENCE_PADDING * n) by (nonlinear_arith)
            requires m <= SILENCE_PADDING;
    }
}

/// Silence, a run of speech, then exactly `SILENCE_PADDING` silent frames:
/// one utterance is emitted, holding the retained leading silence (at most
/// `SILENCE_PADDING` frames), the speech and the closing silence, and the
/// accumulator is empty again.
pub proof fn lemma_emission_trigger(
    lead: Seq<(Seq<i16>, bool)>,
    speech: Seq<(Seq<i16>, bool)>,
    trail: Seq<(Seq<i16>, bool)>,
    n: nat,
)
    requires
        n > 0,
        uniform(lead, n, false),
        uniform(speech, n, true),
        speech.len() > 0,
        uniform(trail, n, false),
        trail.len() == SILENCE_PADDING,
    ensures
        ({
            let (st, out) = feed(SegmentState::initial(), lead + speech + trail, n);
            &&& out.len() == 1
            &&& out[0].len() == (min_padding(lead.len()) + speech.len() + SILENCE_PADDING) * n
            &&& st == SegmentState::initial()
        }),
{
    let s0 = SegmentState::initial();
    lemma_feed_concat(s0, lead + speech, trail, n);
    lemma_feed_concat(s0, lead, speech, n);
    lemma_leading_silence(lead, n);
    let s1 = feed(s0, lead, n).0;
    lemma_voice_run(s1, speech, n);
    let s2 = feed(s1, speech, n).0;
    lemma_closing_pause(s2, trail, n);
    let k = min_padding(lead.len());
    let j = speech.len();
    assert(k * n + j * n + SILENCE_PADDING * n == (k + j + SILENCE_PADDING) * n) by (nonlinear_arith);
    assert(feed(s0, lead, n).1 + feed(s1, speech, n).1 =~= Seq::<Seq<i16>>::empty());
}

/// Two runs of speech separated by fewer than `SILENCE_PADDING` silent
/// frames, then closed by `SILENCE_PADDING` silent frames, form one utterance
/// that spans both runs and the pause between them.
pub proof fn lemma_no_premature_split(
    lead: Seq<(Seq<i16>, bool)>,
    first: Seq<(Seq<i16>, bool)>,
    pause: Seq<(Seq<i16>, bool)>,
    second: Seq<(Seq<i16>, bool)>,
    trail: Seq<(Seq<i16>, bool)>,
    n: nat,
)
    requires
        n > 0,
        uniform(lead, n, false),
        uniform(first, n, true),
        first.len() > 0,
        uniform(pause, n, false),
        pause.len() < SILENCE_PADDING,
        uniform(second, n, true),
        second.len() > 0,
        uniform(trail, n, false),
        trail.len() == SILENCE_PADDING,
    ensures
        ({
            let (st, out) = feed(SegmentState::initial(), lead + first + pause + second + trail, n);
            &&& out.len() == 1
            &&& out[0].len() == (min_padding(lead.len()) + first.len() + pause.len() + second.len()
                + SILENCE_PADDING) * n
            &&& st == SegmentState::initial()
        }),
{
    let s0 = SegmentState::initial();
    lemma_feed_concat(s0, lead + first + pause + second, trail, n);
    lemma_feed_concat(s0, lead + first + pause, second, n);
    lemma_feed_concat(s0, lead + first, pause, n);
    lemma_feed_concat(s0, lead, first, n);
    lemma_leading_silence(lead, n);
    let s1 = feed(s0, lead, n).0;
    lemma_voice_run(s1, first, n);
    let s2 = feed(s1, first, n).0;
    lemma_short_pause(s2, pause, n);
    let s3 = feed(s2, pause, n).0;
    lemma_voice_run(s3, second, n);
    let s4 = feed(s3, second, n).0;
    lemma_closing_pause(s4, trail, n);
    let k = min_padding(lead.len());
    let a = first.len();
    let g = pause.len();
    let b = second.len();
    assert(k * n + a * n + g * n + b * n + SILENCE_PADDING * n == (k + a + g + b + SILENCE_PADDING)
        * n) by (nonlinear_arith);
    assert(feed(s0, lead, n).1 + feed(s1, first, n).1 + feed(s2, pause, n).1 + feed(s3, second, n).1
        =~= Seq::<Seq<i16>>::empty());
}

/// A step that emits an utterance leaves both counters at zero and the
/// buffer empty.
pub proof fn lemma_reset_after_emission(s: SegmentState, frame: Seq<i16>, is_voice: bool, n: nat)
    requires
        step(s, frame, is_voice, n).1 is Some,
    ensures
        step(s, frame, is_voice, n).0.speech_frames == 0,
        step(s, frame, is_voice, n).0.silence_frames == 0,
        step(s, frame, is_voice, n).0.buffer.len() == 0,
{
}

} // verus!
