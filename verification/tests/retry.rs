use station_shell::retry::{RetryLedger, ESCALATION_THRESHOLD};

#[test]
fn third_consecutive_failure_reaches_threshold() {
    let mut ledger = RetryLedger::default();
    assert_eq!(ledger.record_failure("chip-a"), 1);
    assert_eq!(ledger.record_failure("chip-a"), 2);
    assert_eq!(ledger.record_failure("chip-a"), 3);
    assert!(ledger.attempts("chip-a") >= ESCALATION_THRESHOLD);
}

#[test]
fn chips_are_counted_independently() {
    let mut ledger = RetryLedger::default();
    ledger.record_failure("chip-a");
    ledger.record_failure("chip-a");
    assert_eq!(ledger.record_failure("chip-b"), 1);
    assert_eq!(ledger.attempts("chip-a"), 2);
}

#[test]
fn success_clears_only_that_chip() {
    let mut ledger = RetryLedger::default();
    ledger.record_failure("chip-a");
    ledger.record_failure("chip-b");
    ledger.clear_chip("chip-a");
    assert_eq!(ledger.attempts("chip-a"), 0);
    assert_eq!(ledger.attempts("chip-b"), 1);
}

#[test]
fn shift_begin_clears_everything() {
    let mut ledger = RetryLedger::default();
    ledger.record_failure("chip-a");
    ledger.record_failure("chip-b");
    ledger.clear_all();
    assert_eq!(ledger.attempts("chip-a"), 0);
    assert_eq!(ledger.attempts("chip-b"), 0);
}

#[test]
fn the_ledger_stops_counting_at_its_limit() {
    let mut ledger = RetryLedger::default();
    for _ in 0..300 {
        ledger.record_failure("chip-a");
    }
    assert_eq!(ledger.attempts("chip-a"), 255);
    ledger.clear_chip("never-seen");
    assert_eq!(ledger.attempts("never-seen"), 0);
}
