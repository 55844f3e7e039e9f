use station_shell::conformance::{conformance_report, ConformanceResult};
use station_shell::devexit::{
    arm_verified, probe_delivered, probe_held, probe_start, Hold, HoldOutcome, Poll, Polled, EXIT_UNVERIFIED,
};
use station_shell::probe::{Probe, ProbeNext, ProbeStep, Seen};

fn judged(run: &[Seen]) -> (Vec<String>, ProbeNext) {
    let (mut judge, first) = Probe::new();
    let mut lines: Vec<String> = first.lines.iter().map(|l| l.text()).collect();
    let mut next = first.next;
    for seen in run {
        let step: ProbeStep = judge.judge(*seen);
        lines.extend(step.lines.iter().map(|l| l.text()));
        next = step.next;
    }
    (lines, next)
}

const VISIBLE: Seen = Seen::Presence { present: true };
const GONE: Seen = Seen::Presence { present: false };
const CARD: Seen = Seen::Presentation { atr_len: 20 };
const QUIET: Seen = Seen::Timeout;

#[test]
fn a_reader_that_behaves_passes() {
    let (lines, next) =
        judged(&[VISIBLE, QUIET, CARD, QUIET, QUIET, CARD, QUIET, CARD, GONE, CARD, VISIBLE]);
    assert_eq!(next, ProbeNext::Exit { code: 0 });
    assert_eq!(lines.last().unwrap(), "\nPROBE: PASS (0 failures)");
    assert_eq!(lines.iter().filter(|l| l.starts_with("  PASS  ")).count(), 6);
    assert!(lines.contains(
        &"       presentation observed (atr 20 bytes — length only, bytes stay internal)".to_string()
    ));
    assert!(lines.contains(
        &"  PASS  no card → idle — reader visible, no phantom presentations in 5s".to_string()
    ));
}

#[test]
fn a_reader_that_is_not_there_ends_the_probe() {
    for seen in [GONE, QUIET] {
        let (lines, next) = judged(&[seen]);
        assert_eq!(next, ProbeNext::Exit { code: 1 });
        assert_eq!(lines.last().unwrap(), "\nPROBE: FAIL (1 case, 3 not attempted)");
    }
}

#[test]
fn each_case_can_fail_on_its_own() {
    let good = [VISIBLE, QUIET, CARD, QUIET, QUIET, CARD, QUIET, GONE, VISIBLE];
    let with = |at: usize, seen: &[Seen]| {
        let mut run = good[..at].to_vec();
        run.extend_from_slice(seen);
        run.extend_from_slice(&good[at + 1..]);
        judged(&run)
    };
    let cases: [(&str, (Vec<String>, ProbeNext)); 7] = [
        ("phantom presentation with no card", with(1, &[CARD, QUIET])),
        ("re-fired while held", with(3, &[CARD, QUIET])),
        ("card removed → clean idle", with(4, &[CARD, QUIET])),
        ("card removed → clean idle", with(4, &[GONE, QUIET])),
        ("edge re-arms after removal", with(6, &[CARD, QUIET])),
        ("no recovery within 60s", with(8, &[QUIET])),
        ("presentation before presence", judged(&[
            CARD, CARD, QUIET, QUIET, CARD, QUIET, GONE, VISIBLE,
        ])),
    ];
    for (what, (lines, next)) in cases {
        assert_eq!(next, ProbeNext::Exit { code: 1 }, "{what}");
        let failed: Vec<&String> = lines.iter().filter(|l| l.starts_with("  FAIL  ")).collect();
        assert_eq!(failed.len(), 1, "{what}");
        assert!(failed[0].contains(what), "{what}");
        assert_eq!(lines.last().unwrap(), "\nPROBE: FAIL (1 failure)");
    }
}

#[test]
fn a_watched_reader_may_come_back_in_time() {
    // A presence that flaps back before the watch is over is the last one seen.
    let (_, next) =
        judged(&[VISIBLE, QUIET, CARD, QUIET, GONE, VISIBLE, QUIET, CARD, QUIET, GONE, VISIBLE]);
    assert_eq!(next, ProbeNext::Exit { code: 0 });
    let (_, next) = judged(&[VISIBLE]);
    assert_eq!(next, ProbeNext::Watch { ms: 5000 });
    let (_, next) = judged(&[VISIBLE, GONE]);
    assert_eq!(next, ProbeNext::WatchOn);
}

#[test]
fn several_failures_add_up() {
    let (lines, next) = judged(&[VISIBLE, QUIET, QUIET, QUIET, QUIET, QUIET]);
    assert_eq!(next, ProbeNext::Exit { code: 1 });
    assert_eq!(lines.last().unwrap(), "\nPROBE: FAIL (3 failures)");
    assert!(lines.contains(
        &"  FAIL  unplug → graceful degrade — no reader-absent signal within 30s".to_string()
    ));
}

#[test]
fn only_a_full_hold_exits() {
    let mut hold = Hold::new(false);
    let press = hold.press().unwrap();
    assert!(hold.flags.delivery_seen);
    assert_eq!(hold.press(), None, "a repeat keeps the deadline");
    hold.release();
    assert_eq!(hold.timer_over(press, true), HoldOutcome::Nothing);
    let again = hold.press().unwrap();
    assert_eq!(hold.timer_over(press, true), HoldOutcome::Nothing, "an old timer is void");
    assert_eq!(hold.timer_over(again, false), HoldOutcome::Nothing, "the keys are up");
    assert_eq!(hold.timer_over(again, true), HoldOutcome::Exit);
}

#[test]
fn a_probed_hold_is_reported() {
    let mut hold = Hold::new(true);
    let press = hold.press().unwrap();
    assert_eq!(hold.timer_over(press, true), HoldOutcome::Reported);
    assert!(hold.flags.chord_held);
}

#[test]
fn polls_give_up_in_the_end() {
    let mut poll = Poll::delivery();
    for _ in 0..40 {
        assert_eq!(poll.look(false), Polled::Wait { ms: 50 });
    }
    assert_eq!(poll.look(true), Polled::GaveUp);
    let mut poll = Poll::physical_hold();
    assert_eq!(poll.look(false), Polled::Wait { ms: 100 });
    assert_eq!(poll.look(true), Polled::Seen);
    assert_eq!(arm_verified(true), None);
    assert_eq!(arm_verified(false), Some(EXIT_UNVERIFIED));
    assert_eq!(EXIT_UNVERIFIED, 71);
}

#[test]
fn the_exit_probe_needs_both_steps() {
    assert_eq!(probe_start().exit, None);
    let delivered = probe_delivered(true);
    assert_eq!((delivered.exit, delivered.lines.len()), (None, 6));
    let lost = probe_delivered(false);
    assert_eq!(lost.exit, Some(1));
    assert!(lost.lines[0].starts_with("EXIT PROBE: FAIL"));
    assert_eq!(probe_held(true).exit, Some(0));
    assert!(probe_held(true).lines[0].starts_with("EXIT PROBE: PASS"));
    let unheld = probe_held(false);
    assert_eq!((unheld.exit, unheld.lines.len()), (Some(1), 4));
}

fn result(name: &str, status: &str, detail: Option<&str>) -> ConformanceResult {
    ConformanceResult {
        name: name.into(),
        status: status.into(),
        detail: detail.map(|d| d.to_string()),
    }
}

#[test]
fn a_whole_run_passes() {
    let report = conformance_report(&vec![
        result("one", "passed", None),
        result("two", "passed", Some("not shown")),
    ]);
    assert!(report.gate_pass);
    assert_eq!((report.passed, report.failed, report.skipped, report.exit_code), (2, 0, 0, 0));
    assert_eq!(
        report.lines,
        vec![
            "\nstation-shell conformance — real webview, real backend",
            "  PASS  one",
            "  PASS  two",
            "  2 passed, 0 failed, 0 skipped",
            "  GATE: PASS",
        ]
    );
}

#[test]
fn failures_and_skips_fail_the_run() {
    let failed = conformance_report(&vec![
        result("one", "passed", None),
        result("two", "failed", Some("why")),
    ]);
    assert_eq!(failed.exit_code, 1);
    assert_eq!(failed.lines[3], "        why");
    assert_eq!(failed.lines.last().unwrap(), "  GATE: FAIL");
    let skipped = conformance_report(&vec![result("one", "pending", None)]);
    assert_eq!((skipped.skipped, skipped.exit_code), (1, 1));
    assert_eq!(skipped.lines[1], "  SKIP  one");
    let last = skipped.lines.last().unwrap();
    assert!(last.starts_with("  GATE: FAIL (skips count as failures "));
    assert!(last.ends_with(" — wire both triggers)"));
    assert!(conformance_report(&Vec::new()).gate_pass);
}
