use station_shell::actor::Timing;
use station_shell::cli::Cli;
use station_shell::config::{config_file, OverrunPolicy, SimConfig, StationConfig};
use station_shell::contract::FailBinSide;
use station_shell::launch::{
    fresh_session, on_second_launch, plan, prevents_close, quit_exit_code, resume, session_file,
    ChordPlan, LaunchPlan, SecondLaunch,
};
use station_shell::spike::{spike_batch, spike_exit_code, Spike, SpikeAction, SpikeEvent};
use station_shell::text::{contains, decimal, parse_u32, replace_all, signed_decimal};

fn cli(args: &[&str]) -> Cli {
    Cli::parse(args.iter().map(|s| s.to_string()).collect(), false)
}

#[test]
fn a_session_is_resumed_only_if_it_fits() {
    assert!(resume(None, false).is_none());
    assert!(resume(Some(fresh_session()), false).is_some());
    assert!(resume(Some(fresh_session()), true).is_none());
    let mut other = fresh_session();
    other.schema = 2;
    assert!(resume(Some(other), false).is_none());
    assert_eq!(session_file(false), "session.json");
    assert_eq!(session_file(true), "conformance-session.json");
}

#[test]
fn launches_start_what_they_ask_for() {
    assert_eq!(plan(&cli(&["--reader-probe", "--quit"])), LaunchPlan::ReaderProbe);
    assert_eq!(plan(&cli(&["--quit"])), LaunchPlan::Quit);
    assert_eq!(
        plan(&cli(&[])),
        LaunchPlan::Station {
            sim_window: false,
            chord: ChordPlan::Locked,
            spike: None,
            monitored: true
        }
    );
    assert_eq!(
        plan(&cli(&["--dev-exit", "--sim"])),
        LaunchPlan::Station {
            sim_window: true,
            chord: ChordPlan::Armed,
            spike: None,
            monitored: true
        }
    );
    assert_eq!(
        plan(&cli(&["--exit-probe", "--dev-exit"])),
        LaunchPlan::Station {
            sim_window: false,
            chord: ChordPlan::Probed,
            spike: None,
            monitored: true
        }
    );
    assert_eq!(
        plan(&cli(&["--conformance", "--dev-exit", "--spike", "3"])),
        LaunchPlan::Station {
            sim_window: false,
            chord: ChordPlan::Locked,
            spike: Some(3),
            monitored: false
        }
    );
}

#[test]
fn a_locked_station_refuses_to_quit() {
    let args = |list: &[&str]| list.iter().map(|s| s.to_string()).collect::<Vec<String>>();
    assert_eq!(on_second_launch(args(&[]), true), SecondLaunch::Focus);
    assert_eq!(on_second_launch(args(&["--sim"]), false), SecondLaunch::Focus);
    assert_eq!(on_second_launch(args(&["--quit"]), true), SecondLaunch::Exit);
    assert_eq!(on_second_launch(args(&["--quit"]), false), SecondLaunch::Refuse);
    assert_eq!(quit_exit_code(true, true), 0);
    assert_eq!(quit_exit_code(false, false), 3);
    assert_eq!(quit_exit_code(false, true), 4);
    assert!(prevents_close(true, "main"));
    assert!(!prevents_close(true, "sim") && !prevents_close(false, "main"));
}

#[test]
fn the_spike_changes_state_every_cycle() {
    let ids: Vec<&str> = (0..4).map(spike_batch).collect();
    assert_eq!(ids, vec!["b-tee-navy", "b-hoodie", "b-tee-navy", "b-hoodie"]);
    assert_eq!(spike_exit_code(0), 0);
    assert_eq!(spike_exit_code(1), 1);
}

#[test]
fn the_spike_keeps_its_schedule() {
    let mut spike = Spike::new(2);
    let mut actions = vec![spike.due()];
    while *actions.last().unwrap() != SpikeAction::ReadState {
        actions.push(spike.next(SpikeEvent::Done));
    }
    assert_eq!(
        actions,
        vec![
            SpikeAction::Wait { ms: 2500 },
            SpikeAction::Apply { cycle: 0 },
            SpikeAction::Wait { ms: 400 },
            SpikeAction::Reload,
            SpikeAction::Wait { ms: 900 },
            SpikeAction::Apply { cycle: 1 },
            SpikeAction::Wait { ms: 400 },
            SpikeAction::Reload,
            SpikeAction::Wait { ms: 900 },
            SpikeAction::ReadState,
        ]
    );
    let passed = spike.next(SpikeEvent::State { stale_attaches: 0 });
    assert_eq!(passed, SpikeAction::Exit { code: 0 });
    assert_eq!(spike.next(SpikeEvent::Done), SpikeAction::Exit { code: 0 });
}

#[test]
fn a_spike_without_cycles_only_asks() {
    let mut spike = Spike::new(0);
    assert_eq!(spike.next(SpikeEvent::Done), SpikeAction::ReadState);
    let stale = spike.next(SpikeEvent::State { stale_attaches: 2 });
    assert_eq!(stale, SpikeAction::Exit { code: 1 });
}

#[test]
fn a_failure_ends_the_spike() {
    let mut refused = Spike::new(3);
    assert_eq!(refused.next(SpikeEvent::Done), SpikeAction::Apply { cycle: 0 });
    assert_eq!(refused.next(SpikeEvent::Failed), SpikeAction::Exit { code: 1 });
    let mut unread = Spike::new(0);
    unread.next(SpikeEvent::Done);
    assert_eq!(unread.next(SpikeEvent::Failed), SpikeAction::Exit { code: 1 });
    assert_eq!(unread.next(SpikeEvent::State { stale_attaches: 0 }), SpikeAction::Exit { code: 1 });
    let mut unasked = Spike::new(1);
    assert_eq!(
        unasked.next(SpikeEvent::State { stale_attaches: 0 }),
        SpikeAction::Exit { code: 1 }
    );
}

#[test]
fn configuration_falls_back_in_order() {
    let some = |s: &str| Some(s.to_string());
    assert_eq!(config_file(some("a"), some("b"), some("c")).as_deref(), Some("a"));
    assert_eq!(config_file(None, some("b"), some("c")).as_deref(), Some("b"));
    assert_eq!(config_file(None, None, some("c")).as_deref(), Some("c"));
    assert_eq!(config_file(None, None, None), None);
    let built_in = StationConfig::load(None);
    assert_eq!(built_in.fail_bin_side, FailBinSide::Right);
    assert_eq!(built_in.reader_match, "uTrust 3700");
    assert_eq!(built_in.overrun_policy, OverrunPolicy::Allow);
    assert!(built_in.strings.is_none());
    let read = StationConfig {
        overrun_policy: OverrunPolicy::Block,
        strings: Some(serde_json::Value::from("x")),
        ..StationConfig::default()
    };
    let loaded = StationConfig::load(Some(read));
    assert_eq!(loaded.overrun_policy, OverrunPolicy::Block);
    assert!(loaded.strings.is_some());
    let sim = SimConfig { latency_ms: 40, weight_keyed: 1, ..SimConfig::default() };
    assert_eq!(sim.policy(false).latency_ms, 40);
    let policy = sim.policy(true);
    assert_eq!((policy.latency_ms, policy.weight_keyed, policy.weight_recoverable), (0, 1, 12));
    assert_eq!(
        Timing::default(),
        Timing { verdict_quiet_ms: 2600, boot_quiet_ms: 3000, emit_spacing_ms: 1000, tick_ms: 250 }
    );
}

#[test]
fn text_is_what_it_says() {
    assert_eq!(decimal(0), "0");
    assert_eq!(decimal(u64::MAX), "18446744073709551615");
    assert_eq!(signed_decimal(i32::MIN), "-2147483648");
    assert_eq!(signed_decimal(10), "10");
    assert_eq!(parse_u32("042"), Some(42));
    assert_eq!(parse_u32("-1"), None);
    assert_eq!(parse_u32("++1"), None);
    assert!(contains("abc", "") && contains("abc", "bc") && !contains("abc", "cb"));
    assert_eq!(replace_all("aaaa", "aa", "b"), "bb");
    assert_eq!(replace_all("abab a", "ab", ""), " a");
}
