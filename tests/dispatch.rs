use voice_segmenter::dispatch::{Dispatcher, ExportOutcome};
use voice_segmenter::segmenter::FinalizedSegment;

fn segment(v: i16) -> FinalizedSegment {
    FinalizedSegment { samples: vec![v; 4], channels: 1, sample_rate: 16000 }
}

#[test]
fn zero_limit_is_refused() {
    assert!(Dispatcher::new(0).is_none());
}

#[test]
fn segments_start_while_slots_are_free() {
    let mut d = Dispatcher::new(2).unwrap();
    assert!(d.submit(segment(1)).is_some());
    assert!(d.submit(segment(2)).is_some());
    assert!(d.submit(segment(3)).is_none());
    assert_eq!(d.in_flight(), 2);
    assert_eq!(d.waiting_len(), 1);
}

#[test]
fn failure_of_first_export_does_not_hold_back_second() {
    let mut d = Dispatcher::new(1).unwrap();
    assert_eq!(d.submit(segment(1)).unwrap().samples, vec![1; 4]);
    assert!(d.submit(segment(2)).is_none());
    let next = d.finish(ExportOutcome::Failed).unwrap();
    assert_eq!(next.samples, vec![2; 4]);
    assert!(d.finish(ExportOutcome::Delivered).is_none());
    assert_eq!(d.in_flight(), 0);
    assert_eq!(d.counts(), (1, 0, 1));
}

#[test]
fn waiting_segments_start_in_arrival_order() {
    let mut d = Dispatcher::new(1).unwrap();
    assert!(d.submit(segment(1)).is_some());
    assert!(d.submit(segment(2)).is_none());
    assert!(d.submit(segment(3)).is_none());
    assert_eq!(d.finish(ExportOutcome::Filtered).unwrap().samples, vec![2; 4]);
    assert_eq!(d.finish(ExportOutcome::Delivered).unwrap().samples, vec![3; 4]);
    assert!(d.finish(ExportOutcome::Delivered).is_none());
    assert_eq!(d.counts(), (2, 1, 0));
}
