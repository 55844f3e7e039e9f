use serde_json::Value;
use station_shell::contract::{
    BatchInfo, ConnectionState, FailBinSide, SessionCounts, StationUiConfig, TapVerdict, WireEvent,
};
use station_shell::state::{
    PersistedSession, PersistedShift, ShiftBeginKind, ShiftMeta, StationState, SESSION_SCHEMA,
};

fn cfg() -> StationUiConfig {
    StationUiConfig { fail_bin_side: FailBinSide::Right }
}

fn batch(id: &str, completed: u32, failed: u32) -> BatchInfo {
    BatchInfo { id: id.into(), name: id.to_uppercase(), total: 100, completed, failed }
}

fn fresh_connected() -> StationState {
    let mut s = StationState::new(cfg(), None);
    s.set_connection_inputs(Some(true), Some(true)).unwrap();
    s
}

#[test]
fn boot_is_disconnected_until_inputs_arrive() {
    let s = StationState::new(cfg(), None);
    assert_eq!(s.snapshot.connection, ConnectionState::Disconnected);
}

#[test]
fn crash_recovery_restores_batch_and_counts() {
    let persisted = PersistedSession {
        schema: SESSION_SCHEMA,
        shift: Some(PersistedShift {
            meta: ShiftMeta { shift_id: "s1".into(), started_at_ms: 1, ended: false },
            batch: batch("b1", 12, 1),
            counts: SessionCounts { done: 12, failed: 1 },
        }),
        pending_end_shift: false,
    };
    let s = StationState::new(cfg(), Some(persisted));
    assert_eq!(s.snapshot.current_batch.as_ref().unwrap().id, "b1");
    assert_eq!(s.snapshot.session_counts, SessionCounts { done: 12, failed: 1 });
}

#[test]
fn begin_shift_resets_counts_and_picks_the_event_kind() {
    let mut s = fresh_connected();
    s.record_verdict(TapVerdict::Success, Some(batch("b1", 1, 0)));
    let p = s.begin_shift(batch("b2", 0, 0), ShiftBeginKind::Select, "s2".into(), 0);
    assert_eq!(s.snapshot.session_counts, SessionCounts::default());
    assert_eq!(p.events, vec![WireEvent::Data]);
    assert!(p.snapshot.is_some());

    let p = s.begin_shift(batch("b3", 0, 0), ShiftBeginKind::Apply, "s3".into(), 0);
    assert_eq!(p.events, vec![WireEvent::ApplyBatch]);
    assert_eq!(
        p.snapshot.unwrap().current_batch.unwrap().id,
        "b3",
        "the apply-batch payload snapshot must already carry the batch"
    );
}

#[test]
fn swap_keeps_counts() {
    let mut s = fresh_connected();
    s.begin_shift(batch("b1", 0, 0), ShiftBeginKind::Select, "s1".into(), 0);
    s.record_verdict(TapVerdict::Success, Some(batch("b1", 1, 0)));
    let p = s.swap_batch(batch("b2", 50, 2));
    assert_eq!(s.snapshot.session_counts.done, 1, "counts are shift-scoped, not batch-scoped");
    assert_eq!(p.events, vec![WireEvent::Data]);
}

#[test]
fn success_verdict_moves_done_and_orders_events() {
    let mut s = fresh_connected();
    s.begin_shift(batch("b1", 10, 0), ShiftBeginKind::Select, "s1".into(), 0);
    let p = s.record_verdict(TapVerdict::Success, Some(batch("b1", 11, 0)));
    assert_eq!(s.snapshot.session_counts, SessionCounts { done: 1, failed: 0 });
    assert_eq!(s.snapshot.current_batch.as_ref().unwrap().completed, 11);
    assert_eq!(
        p.events,
        vec![WireEvent::TapResult { result: TapVerdict::Success }, WireEvent::Data],
        "tap-result must precede data"
    );
    assert!(p.snapshot.is_some());
}

#[test]
fn dead_verdict_moves_failed() {
    let mut s = fresh_connected();
    s.begin_shift(batch("b1", 10, 1), ShiftBeginKind::Select, "s1".into(), 0);
    let p = s.record_verdict(TapVerdict::Dead, Some(batch("b1", 10, 2)));
    assert_eq!(s.snapshot.session_counts, SessionCounts { done: 0, failed: 1 });
    assert_eq!(s.snapshot.current_batch.as_ref().unwrap().failed, 2);
    assert!(p.snapshot.is_some());
}

#[test]
fn retry_verdict_moves_nothing_and_emits_no_data() {
    let mut s = fresh_connected();
    s.begin_shift(batch("b1", 10, 0), ShiftBeginKind::Select, "s1".into(), 0);
    let before = s.snapshot.clone();
    let p = s.record_verdict(TapVerdict::Retry, None);
    assert_eq!(s.snapshot, before, "retry is not a verdict — nothing moves");
    assert_eq!(p.events, vec![WireEvent::TapResult { result: TapVerdict::Retry }]);
    assert!(p.snapshot.is_none(), "no snapshot on the wire when nothing changed");
}

#[test]
fn reconnect_carries_catch_up_data_but_disconnect_does_not() {
    let mut s = fresh_connected();
    let p = s.set_connection_inputs(Some(false), None).unwrap();
    assert_eq!(p.events, vec![WireEvent::Connection { state: ConnectionState::Disconnected }]);
    let p = s.set_connection_inputs(Some(true), None).unwrap();
    assert_eq!(
        p.events,
        vec![WireEvent::Connection { state: ConnectionState::Connected }, WireEvent::Data]
    );
    assert!(s.set_connection_inputs(Some(true), None).is_none(), "redundant input is silent");
}

#[test]
fn end_shift_resets_nothing() {
    let mut s = fresh_connected();
    s.begin_shift(batch("b1", 0, 0), ShiftBeginKind::Select, "s1".into(), 0);
    s.record_verdict(TapVerdict::Success, Some(batch("b1", 1, 0)));
    let seq_before = s.seq;
    let counts = s.mark_shift_ended();
    assert_eq!(counts, SessionCounts { done: 1, failed: 0 });
    assert_eq!(s.snapshot.session_counts, counts, "endShift must not reset the session");
    assert!(s.snapshot.current_batch.is_some(), "snapshot untouched until next shift begin");
    assert_eq!(s.seq, seq_before, "endShift pushes nothing");
}

#[test]
fn counts_grow_by_the_rulings_of_a_run() {
    let mut s = fresh_connected();
    s.begin_shift(batch("b-1", 0, 0), ShiftBeginKind::Select, "shift-1".to_string(), 1);
    let start = s.seq;
    let mut numbers = Vec::new();
    numbers.push(s.record_verdict(TapVerdict::Success, None).seq);
    numbers.push(s.swap_batch(batch("b-2", 0, 0)).seq);
    numbers.push(s.record_verdict(TapVerdict::Retry, None).seq);
    numbers.push(s.record_verdict(TapVerdict::Dead, None).seq);
    s.arm_end_shift();
    numbers.push(s.emit_end_shift().seq);
    numbers.push(s.set_connection_inputs(Some(false), None).unwrap().seq);
    assert!(s.set_connection_inputs(Some(false), None).is_none());
    assert!(s.set_persist_ok(false).is_none());
    numbers.push(s.record_verdict(TapVerdict::Success, None).seq);
    s.mark_shift_ended();
    numbers.push(s.catch_up().seq);
    assert_eq!((s.counts().done, s.counts().failed), (2, 1));
    let expected: Vec<u64> = (1..=8).map(|i| start + i).collect();
    assert_eq!(numbers, expected);
    assert_eq!(s.seq, start + 8);
}

#[test]
fn seq_is_strictly_monotonic() {
    let mut s = fresh_connected();
    let a = s.begin_shift(batch("b1", 0, 0), ShiftBeginKind::Select, "s1".into(), 0).seq;
    let b = s.record_verdict(TapVerdict::Retry, None).seq;
    let c = s.emit_end_shift().seq;
    assert!(a < b && b < c);
}

fn to_json(p: &PersistedSession) -> Value {
    let mut session = serde_json::Map::new();
    session.insert("schema".into(), Value::from(p.schema));
    session.insert("pendingEndShift".into(), Value::from(p.pending_end_shift));
    let shift = match &p.shift {
        None => Value::Null,
        Some(s) => {
            let mut shift = serde_json::Map::new();
            shift.insert("shiftId".into(), Value::from(s.meta.shift_id.clone()));
            shift.insert("startedAtMs".into(), Value::from(s.meta.started_at_ms));
            shift.insert("ended".into(), Value::from(s.meta.ended));
            let mut batch = serde_json::Map::new();
            batch.insert("id".into(), Value::from(s.batch.id.clone()));
            batch.insert("name".into(), Value::from(s.batch.name.clone()));
            batch.insert("total".into(), Value::from(s.batch.total));
            batch.insert("completed".into(), Value::from(s.batch.completed));
            batch.insert("failed".into(), Value::from(s.batch.failed));
            shift.insert("batch".into(), Value::Object(batch));
            shift.insert("done".into(), Value::from(s.counts.done));
            shift.insert("failed".into(), Value::from(s.counts.failed));
            Value::Object(shift)
        }
    };
    session.insert("shift".into(), shift);
    Value::Object(session)
}

fn from_json(v: &Value) -> PersistedSession {
    let text = |v: &Value| v.as_str().unwrap().to_string();
    let number = |v: &Value| v.as_u64().unwrap() as u32;
    let s = &v["shift"];
    PersistedSession {
        schema: number(&v["schema"]),
        shift: if s.is_null() {
            None
        } else {
            Some(PersistedShift {
                meta: ShiftMeta {
                    shift_id: text(&s["shiftId"]),
                    started_at_ms: s["startedAtMs"].as_u64().unwrap(),
                    ended: s["ended"].as_bool().unwrap(),
                },
                batch: BatchInfo {
                    id: text(&s["batch"]["id"]),
                    name: text(&s["batch"]["name"]),
                    total: number(&s["batch"]["total"]),
                    completed: number(&s["batch"]["completed"]),
                    failed: number(&s["batch"]["failed"]),
                },
                counts: SessionCounts { done: number(&s["done"]), failed: number(&s["failed"]) },
            })
        },
        pending_end_shift: v["pendingEndShift"].as_bool().unwrap(),
    }
}

#[test]
fn persistence_round_trip() {
    let mut s = fresh_connected();
    s.begin_shift(batch("b1", 5, 1), ShiftBeginKind::Select, "s1".into(), 42);
    s.record_verdict(TapVerdict::Success, Some(batch("b1", 6, 1)));
    s.arm_end_shift();
    let p = s.to_persisted();
    let text = serde_json::to_string(&to_json(&p)).unwrap();
    let back: Value = serde_json::from_str(&text).unwrap();
    let restored = StationState::new(cfg(), Some(from_json(&back)));
    assert_eq!(restored.snapshot.current_batch, s.snapshot.current_batch);
    assert_eq!(restored.snapshot.session_counts, s.snapshot.session_counts);
    assert!(restored.pending_end_shift);
    assert_eq!(restored.shift.unwrap().started_at_ms, 42);
}

#[test]
fn a_failing_disk_counts_as_disconnected() {
    let mut s = fresh_connected();
    let p = s.set_persist_ok(false).unwrap();
    assert_eq!(p.events, vec![WireEvent::Connection { state: ConnectionState::Disconnected }]);
    assert!(s.set_persist_ok(false).is_none());
    assert!(!s.connected());
    assert!(s.set_persist_ok(true).is_some() && s.connected());
    assert_eq!(s.counts(), SessionCounts { done: 0, failed: 0 });
}

#[test]
fn a_batch_without_a_shift_is_not_persisted() {
    let mut s = fresh_connected();
    s.swap_batch(batch("b1", 3, 0));
    let p = s.to_persisted();
    assert_eq!(p.schema, 1);
    assert!(p.shift.is_none() && !p.pending_end_shift);
    let restored = StationState::new(cfg(), Some(p));
    assert!(restored.snapshot.current_batch.is_none());
}

#[test]
fn a_failed_record_keeps_the_batch_numbers() {
    let mut s = fresh_connected();
    s.begin_shift(batch("b1", 10, 0), ShiftBeginKind::Select, "s1".into(), 0);
    let p = s.record_verdict(TapVerdict::Success, None);
    assert_eq!(s.snapshot.current_batch.as_ref().unwrap().completed, 10);
    assert_eq!(s.snapshot.session_counts.done, 1);
    assert_eq!(p.snapshot.unwrap().session_counts.done, 1);
}

#[test]
fn clearing_the_session_keeps_the_connection() {
    let mut s = fresh_connected();
    s.begin_shift(batch("b1", 10, 0), ShiftBeginKind::Apply, "s1".into(), 0);
    let seq = s.seq;
    s.clear_session();
    assert!(s.connected() && s.snapshot.current_batch.is_none() && s.shift.is_none());
    assert_eq!(s.seq, seq + 1);
}

#[test]
fn the_boot_payload_is_the_state() {
    let mut s = fresh_connected();
    s.begin_shift(batch("b1", 10, 0), ShiftBeginKind::Select, "s1".into(), 0);
    let strings = Value::from("READY");
    let boot = s.boot_payload(Some(strings.clone()));
    assert_eq!(boot.seq, s.seq);
    assert_eq!(boot.snapshot, s.snapshot);
    assert_eq!(boot.strings, Some(strings));
    let caught_up = s.catch_up();
    assert_eq!(caught_up.seq, boot.seq + 1);
    assert_eq!(caught_up.snapshot, Some(boot.snapshot));
}
