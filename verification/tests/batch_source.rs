use station_shell::batch_source::{Progress, SimBatchSource};
use station_shell::contract::{BatchInfo, TapVerdict};

fn batch(id: &str, completed: u32, failed: u32) -> BatchInfo {
    BatchInfo { id: id.into(), name: "B ONE".into(), total: 10, completed, failed }
}

fn source() -> SimBatchSource {
    SimBatchSource::new(vec![batch("b1", 4, 1)], Vec::new())
}

#[test]
fn record_success_increments_completed() {
    let mut s = source();
    let updated = s.record_outcome("b1", TapVerdict::Success).unwrap();
    assert_eq!(updated.completed, 5);
    assert_eq!(updated.failed, 1);
}

#[test]
fn record_dead_increments_failed() {
    let mut s = source();
    let updated = s.record_outcome("b1", TapVerdict::Dead).unwrap();
    assert_eq!(updated.failed, 2);
}

#[test]
fn unknown_batch_rejects() {
    let mut s = source();
    let error = s.record_outcome("nope", TapVerdict::Success).unwrap_err();
    assert_eq!(error.message(), "unknown batch: nope");
}

#[test]
fn list_returns_fresh_merged_copies() {
    let mut s = source();
    s.record_outcome("b1", TapVerdict::Success).unwrap();
    let a = s.list();
    let b = s.list();
    assert_eq!(a, b);
    assert_eq!(a[0].completed, 5);
}

#[test]
fn recorded_progress_is_resumed_and_reset() {
    let progress = vec![
        ("b1".to_string(), Progress { completed: 9, failed: 9 }),
        ("b1".to_string(), Progress { completed: 7, failed: 2 }),
        ("gone".to_string(), Progress { completed: 1, failed: 1 }),
    ];
    let mut s = SimBatchSource::new(vec![batch("b1", 4, 1), batch("b2", 0, 0)], progress);
    assert_eq!(s.entries().len(), 2);
    let b1 = s.get("b1").unwrap();
    assert_eq!((b1.completed, b1.failed), (11, 3), "numbers are not clamped at the total");
    assert!(s.get("gone").is_none());
    s.record_outcome("b2", TapVerdict::Retry).unwrap();
    assert_eq!(s.get("b2").unwrap(), batch("b2", 0, 0));
    assert!(s.fits() && s.has_room("b1", TapVerdict::Success));
    s.reset();
    assert_eq!(s.get("b1").unwrap(), batch("b1", 4, 1));
    assert_eq!(s.entries().len(), 0);
}

#[test]
fn an_outcome_touches_one_batch() {
    let mut s = SimBatchSource::new(vec![batch("b1", 4, 1), batch("b2", 6, 2)], Vec::new());
    s.record_outcome("b1", TapVerdict::Dead).unwrap();
    s.record_outcome("b1", TapVerdict::Success).unwrap();
    assert_eq!(s.get("b1").unwrap(), batch("b1", 5, 2));
    assert_eq!(s.get("b2").unwrap(), batch("b2", 6, 2));
    assert_eq!(s.merged(&batch("b1", 0, 0)).completed, 1);
}

#[test]
fn a_full_batch_has_no_room() {
    let s = SimBatchSource::new(vec![batch("b1", u32::MAX, 0)], Vec::new());
    assert!(s.fits());
    assert!(!s.has_room("b1", TapVerdict::Success));
    assert!(s.has_room("b1", TapVerdict::Dead) && s.has_room("b1", TapVerdict::Retry));
    assert!(s.has_room("gone", TapVerdict::Success));
    let progress = vec![("b1".to_string(), Progress { completed: 1, failed: 0 })];
    let over = SimBatchSource::new(vec![batch("b1", u32::MAX, 0), batch("b2", 0, 0)], progress);
    assert!(!over.fits() && !over.has_room("b1", TapVerdict::Retry));
    assert!(over.has_room("b2", TapVerdict::Success));
    assert_eq!(over.get("b2").unwrap(), batch("b2", 0, 0));
}
