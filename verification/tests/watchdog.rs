use station_shell::watchdog::{Heartbeat, Recovery, StormGate, Watchdog, WatchdogEvent};

const SECOND: u64 = 1_000_000_000;

#[test]
fn storm_gate_allows_up_to_limit_then_refuses() {
    let mut gate = StormGate::new(60 * SECOND, 3);
    let t0 = 1000 * SECOND;
    assert_eq!(gate.admit_at(t0), (1, true));
    assert_eq!(gate.admit_at(t0 + 5 * SECOND), (2, true));
    assert_eq!(gate.admit_at(t0 + 10 * SECOND), (3, true));
    let (n, allowed) = gate.admit_at(t0 + 15 * SECOND);
    assert_eq!((n, allowed), (4, false), "4th recovery inside 60s must refuse");
}

#[test]
fn storm_gate_forgets_old_events_outside_the_window() {
    let mut gate = StormGate::new(60 * SECOND, 3);
    let t0 = 1000 * SECOND;
    gate.admit_at(t0);
    gate.admit_at(t0 + SECOND);
    gate.admit_at(t0 + 2 * SECOND);
    // 61s later the burst has aged out — recovery is allowed again.
    let (n, allowed) = gate.admit_at(t0 + 63 * SECOND);
    assert!(allowed, "old failures must not poison future recovery");
    assert_eq!(n, 1);
}

#[test]
fn the_window_is_open_at_its_far_end() {
    let mut gate = StormGate::new(60 * SECOND, 1);
    assert_eq!(gate.admit_at(0), (1, true));
    assert_eq!(gate.admit_at(60 * SECOND - 1), (2, false));
    assert_eq!(gate.admit_at(60 * SECOND), (2, false));
    let mut closed = StormGate::new(0, 1);
    assert_eq!(closed.admit_at(5), (0, true));
}

#[test]
fn refused_attempts_count_and_no_span_holds_more_than_the_limit() {
    let mut gate = StormGate::new(10, 2);
    let times: Vec<u64> = vec![0, 1, 2, 9, 10, 11, 12, 19, 20, 31, 31, 31, 42];
    let mut allowed_at: Vec<u64> = Vec::new();
    for (i, now) in times.iter().enumerate() {
        let recent = times[..=i].iter().filter(|t| now - **t < 10).count();
        let (n, allowed) = gate.admit_at(*now);
        assert_eq!((n, allowed), (recent, recent <= 2));
        if allowed {
            allowed_at.push(*now);
        }
    }
    assert_eq!(allowed_at, vec![0, 1, 31, 31, 42]);
    for from in 0..50u64 {
        assert!(allowed_at.iter().filter(|t| from <= **t && **t < from + 10).count() <= 2);
    }
}

#[test]
fn age_is_monotonic_elapsed_since_touch_not_wall_clock() {
    let mut hb = Heartbeat::new();
    hb.touch(1_000);
    assert!(hb.age_ms(1_000) < 250, "fresh touch reads near-zero age");
    let age = hb.age_ms(1_060);
    assert!((40..5_000).contains(&age), "age tracks monotonic elapsed, got {age}ms");
    hb.touch(1_060);
    assert!(hb.age_ms(1_060) < 250, "touch resets age");
    assert_eq!(hb.age_ms(10), 0);
}

#[test]
fn only_a_lost_browser_process_takes_the_window() {
    let mut dog = Watchdog::new();
    assert_eq!(
        dog.on_event(WatchdogEvent::ProcessFailed(0), 0),
        Some(Recovery::Recreate { attempt: 1, reason: "browser process exited (kind 0)".into() })
    );
    assert_eq!(
        dog.on_event(WatchdogEvent::ProcessFailed(1), SECOND),
        Some(Recovery::Reload { attempt: 2, reason: "render process exited (kind 1)".into() })
    );
    assert_eq!(
        dog.on_event(WatchdogEvent::ProcessFailed(-12), 2 * SECOND),
        Some(Recovery::Reload { attempt: 3, reason: "unknown process failure (kind -12)".into() })
    );
    assert_eq!(
        dog.on_event(WatchdogEvent::ProcessFailed(6), 3 * SECOND),
        Some(Recovery::Fault { attempt: 4, reason: "gpu process exited (kind 6)".into() })
    );
    // The fault state is final, however much time passes.
    assert_eq!(dog.on_event(WatchdogEvent::ProcessFailed(1), 900 * SECOND), None);
    assert_eq!(dog.on_check(&mut Heartbeat::new(), 99_999, 901 * SECOND), None);
}

#[test]
fn every_kind_has_a_name() {
    let names = [
        "browser process exited",
        "render process exited",
        "render process unresponsive",
        "frame render process exited",
        "utility process exited",
        "sandbox helper exited",
        "gpu process exited",
        "unknown process failure",
    ];
    for (kind, name) in names.iter().enumerate() {
        let reason = match Watchdog::new().on_event(WatchdogEvent::ProcessFailed(kind as i32), 0) {
            Some(Recovery::Reload { reason, .. }) | Some(Recovery::Recreate { reason, .. }) => reason,
            other => panic!("unexpected {other:?}"),
        };
        assert_eq!(reason, format!("{name} (kind {kind})"));
    }
}

#[test]
fn a_silent_page_is_reloaded_and_given_time() {
    let mut dog = Watchdog::new();
    let mut hb = Heartbeat::new();
    assert_eq!(dog.on_check(&mut hb, 30_000, 0), None);
    assert_eq!(
        dog.on_check(&mut hb, 30_001, SECOND),
        Some(Recovery::Reload {
            attempt: 1,
            reason: "page heartbeat silent for 30001ms".into()
        })
    );
    assert_eq!(dog.on_check(&mut hb, 40_000, 2 * SECOND), None);
}
