use speech2text::{frame_sample_count, ClassificationError, FvadSampleLength, SampleTier, Segmenter, SILENCE_PADDING};

fn frame(n: usize, value: i16) -> Vec<i16> {
    vec![value; n]
}

#[test]
fn scenario_leading_silence_speech_and_hangover() {
    let n = frame_sample_count(FvadSampleLength::Length10ms, SampleTier::Rate16kHz);
    assert_eq!(n, 160);
    let mut seg = Segmenter::new(n);
    let mut emitted = Vec::new();
    for i in 0..25 {
        assert!(seg.push_frame(frame(n, i), false).is_none());
    }
    assert_eq!(seg.buffer().len(), 3200);
    assert_eq!(seg.buffer()[0], 5);
    for _ in 0..5 {
        assert!(seg.push_frame(frame(n, 1000), true).is_none());
    }
    for i in 0..25 {
        if let Some(s) = seg.push_frame(frame(n, -i), false) {
            assert_eq!(i, 19);
            emitted.push(s);
        }
    }
    assert_eq!(emitted.len(), 1);
    assert_eq!(emitted[0].len(), 7200);
    assert_eq!(emitted[0][0], 5);
    assert_eq!(emitted[0][20 * 160], 1000);
    assert_eq!(*emitted[0].last().unwrap(), -19);
    assert_eq!(seg.buffer().len(), 5 * 160);
    assert_eq!(seg.buffer()[0], -20);
    assert_eq!(seg.silence_frames(), 5);
    assert_eq!(seg.speech_frames(), 0);
}

#[test]
fn long_leading_silence_stays_bounded() {
    let n = 80;
    let mut seg = Segmenter::new(n);
    for _ in 0..10_000 {
        assert!(seg.push_frame(frame(n, 0), false).is_none());
        assert!(seg.buffer().len() <= SILENCE_PADDING * n);
        assert!(seg.silence_frames() <= SILENCE_PADDING);
    }
    assert_eq!(seg.buffer().len(), SILENCE_PADDING * n);
}

#[test]
fn short_pause_does_not_split() {
    let n = 10;
    let mut seg = Segmenter::new(n);
    let mut emitted = Vec::new();
    let pattern: Vec<bool> = std::iter::repeat(true)
        .take(3)
        .chain(std::iter::repeat(false).take(SILENCE_PADDING - 1))
        .chain(std::iter::repeat(true).take(4))
        .chain(std::iter::repeat(false).take(SILENCE_PADDING))
        .collect();
    for v in pattern {
        if let Some(s) = seg.push_frame(frame(n, 1), v) {
            emitted.push(s);
        }
    }
    assert_eq!(emitted.len(), 1);
    assert_eq!(emitted[0].len(), (3 + SILENCE_PADDING - 1 + 4 + SILENCE_PADDING) * n);
}

#[test]
fn emission_length_counts_padding_speech_and_hangover() {
    for lead in [0usize, 3, 20, 50] {
        let n = 16;
        let mut seg = Segmenter::new(n);
        let mut emitted = Vec::new();
        for _ in 0..lead {
            assert!(seg.push_frame(frame(n, 0), false).is_none());
        }
        for _ in 0..7 {
            assert!(seg.push_frame(frame(n, 9), true).is_none());
        }
        for _ in 0..SILENCE_PADDING {
            if let Some(s) = seg.push_frame(frame(n, 0), false) {
                emitted.push(s);
            }
        }
        assert_eq!(emitted.len(), 1);
        assert_eq!(emitted[0].len(), (lead.min(SILENCE_PADDING) + 7 + SILENCE_PADDING) * n);
    }
}

#[test]
fn state_resets_after_emission() {
    let n = 4;
    let mut seg = Segmenter::new(n);
    assert!(seg.push_frame(frame(n, 3), true).is_none());
    assert_eq!(seg.speech_frames(), 1);
    for _ in 0..SILENCE_PADDING - 1 {
        assert!(seg.push_frame(frame(n, 0), false).is_none());
    }
    assert_eq!(seg.silence_frames(), SILENCE_PADDING - 1);
    let out = seg.push_frame(frame(n, 0), false);
    assert_eq!(out.map(|s| s.len()), Some((1 + SILENCE_PADDING) * n));
    assert_eq!(seg.speech_frames(), 0);
    assert_eq!(seg.silence_frames(), 0);
    assert!(seg.buffer().is_empty());
    assert_eq!(seg.frame_sample_count(), n);
}

#[test]
fn voice_frame_clears_silence_count() {
    let mut seg = Segmenter::new(2);
    seg.push_frame(vec![1, 1], true);
    for _ in 0..5 {
        seg.push_frame(vec![0, 0], false);
    }
    assert_eq!(seg.silence_frames(), 5);
    seg.push_frame(vec![1, 1], true);
    assert_eq!(seg.silence_frames(), 0);
    assert_eq!(seg.speech_frames(), 2);
    assert_eq!(seg.buffer().len(), 14);
}

#[test]
fn wrong_frame_length_is_rejected() {
    let mut seg = Segmenter::new(160);
    let r = seg.push_classified(vec![0; 159], Some(true));
    assert_eq!(r, Err(ClassificationError::WrongFrameLength { expected: 160, found: 159 }));
    assert!(seg.buffer().is_empty());
    assert_eq!(seg.speech_frames(), 0);
}

#[test]
fn missing_verdict_is_rejected() {
    let mut seg = Segmenter::new(8);
    let r = seg.push_classified(vec![0; 8], None);
    assert_eq!(r, Err(ClassificationError::NoVerdict));
    assert!(seg.buffer().is_empty());
}

#[test]
fn classified_frame_goes_through() {
    let mut seg = Segmenter::new(8);
    assert_eq!(seg.push_classified(vec![2; 8], Some(true)), Ok(None));
    assert_eq!(seg.speech_frames(), 1);
    assert_eq!(seg.buffer().len(), 8);
    let mut last = Ok(None);
    for _ in 0..SILENCE_PADDING {
        last = seg.push_classified(vec![0; 8], Some(false));
    }
    assert_eq!(last.map(|o| o.map(|s| s.len())), Ok(Some((1 + SILENCE_PADDING) * 8)));
}
