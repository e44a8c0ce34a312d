use voice_segmenter::config::SegmenterConfig;
use voice_segmenter::segmenter::{FinalizedSegment, Input, Segmenter};

fn config() -> SegmenterConfig {
    SegmenterConfig {
        threshold: 100,
        min_speech_samples: 4,
        silence_samples: 3,
        max_samples: 10,
        tick_samples: 2,
    }
}

fn machine() -> Segmenter {
    Segmenter::new(config(), 1, 16000).unwrap()
}

fn loud(n: usize) -> Vec<i16> {
    vec![1000; n]
}

fn quiet(n: usize) -> Vec<i16> {
    vec![5; n]
}

fn lengths(v: &[FinalizedSegment]) -> Vec<usize> {
    v.iter().map(|s| s.samples.len()).collect()
}

#[test]
fn new_refuses_malformed_configuration() {
    let bad = SegmenterConfig { min_speech_samples: 11, ..config() };
    assert!(Segmenter::new(bad, 1, 16000).is_err());
}

#[test]
fn quiet_block_in_idle_is_discarded() {
    let mut m = machine();
    assert!(m.push_block(&quiet(5)).is_empty());
    assert!(!m.is_accumulating());
    assert_eq!(m.pending_len(), 0);
}

#[test]
fn loud_block_starts_a_segment() {
    let mut m = machine();
    assert!(m.push_block(&loud(3)).is_empty());
    assert!(m.is_accumulating());
    assert_eq!(m.pending_len(), 3);
}

#[test]
fn idle_ticks_change_nothing() {
    let mut m = machine();
    for _ in 0..100 {
        assert!(m.tick().is_none());
        assert!(!m.is_accumulating());
    }
}

#[test]
fn loud_blocks_filling_the_maximum_flush_once() {
    let mut m = machine();
    assert!(m.push_block(&loud(4)).is_empty());
    assert!(m.push_block(&loud(3)).is_empty());
    let out = m.push_block(&loud(3));
    assert_eq!(lengths(&out), vec![10]);
    assert_eq!(out[0].channels, 1);
    assert_eq!(out[0].sample_rate, 16000);
    assert!(!m.is_accumulating());
}

#[test]
fn short_speech_then_ticks_is_dropped() {
    let mut m = machine();
    assert!(m.push_block(&loud(2)).is_empty());
    assert!(m.tick().is_none());
    assert!(m.is_accumulating());
    assert!(m.tick().is_none());
    assert!(!m.is_accumulating());
    assert_eq!(m.pending_len(), 0);
}

#[test]
fn speech_then_silence_boundary_emits_one_segment() {
    let mut m = machine();
    let first = loud(5);
    assert!(m.push_block(&first).is_empty());
    assert!(m.push_block(&quiet(1)).is_empty());
    let out = m.push_block(&quiet(2));
    assert_eq!(lengths(&out), vec![8]);
    let mut expected = first.clone();
    expected.extend(quiet(3));
    assert_eq!(out[0].samples, expected);
    assert!(!m.is_accumulating());
}

#[test]
fn speech_then_ticks_emits_segment() {
    let mut m = machine();
    assert!(m.push_block(&loud(6)).is_empty());
    assert!(m.tick().is_none());
    let seg = m.tick().unwrap();
    assert_eq!(seg.samples, loud(6));
}

#[test]
fn loud_block_resets_quiet_run() {
    let mut m = machine();
    assert!(m.push_block(&loud(2)).is_empty());
    assert!(m.push_block(&quiet(2)).is_empty());
    assert!(m.push_block(&loud(1)).is_empty());
    assert!(m.push_block(&quiet(2)).is_empty());
    assert!(m.is_accumulating());
    assert_eq!(m.pending_len(), 7);
}

#[test]
fn long_block_is_cut_at_the_maximum() {
    let mut m = machine();
    let out = m.push_block(&loud(25));
    assert_eq!(lengths(&out), vec![10, 10]);
    assert!(m.is_accumulating());
    assert_eq!(m.pending_len(), 5);
}

#[test]
fn segments_stay_within_bounds() {
    let mut m = machine();
    let mut all = Vec::new();
    let pattern = [7usize, 1, 3, 12, 2, 9, 4, 30, 1];
    for (k, &n) in pattern.iter().enumerate() {
        let block = if k % 2 == 0 { loud(n) } else { quiet(n) };
        all.extend(m.push_block(&block));
        if k % 3 == 0 {
            all.extend(m.tick());
        }
    }
    assert!(!all.is_empty());
    for s in &all {
        assert!(s.samples.len() >= 4 && s.samples.len() <= 10);
    }
}

#[test]
fn closing_discards_pending_segment() {
    let mut m = machine();
    let step = m.handle(Input::Block(loud(6)));
    assert!(!step.stop);
    assert!(step.segments.is_empty());
    let step = m.handle(Input::Closed);
    assert!(step.stop);
    assert!(step.segments.is_empty());
    assert!(!m.is_accumulating());
    assert_eq!(m.pending_len(), 0);
}

#[test]
fn handle_tick_goes_through_the_automaton() {
    let mut m = machine();
    assert!(m.handle(Input::Block(loud(5))).segments.is_empty());
    assert!(m.handle(Input::Tick).segments.is_empty());
    let step = m.handle(Input::Tick);
    assert!(!step.stop);
    assert_eq!(lengths(&step.segments), vec![5]);
}
