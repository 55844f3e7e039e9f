use station_shell::cli::Cli;

fn parse_in(args: &[&str], debug_build: bool) -> Cli {
    Cli::parse(args.iter().map(|s| s.to_string()).collect(), debug_build)
}

#[test]
fn parses_flags() {
    let cli = parse_in(&["--sim", "--windowed", "--config", "c.toml"], true);
    assert!(cli.sim && cli.windowed && !cli.conformance);
    assert_eq!(cli.config.as_deref(), Some("c.toml"));
    assert!(!cli.kiosk());
}

#[test]
fn default_is_kiosk() {
    assert!(parse_in(&[], true).kiosk());
    assert!(parse_in(&[], false).kiosk());
}

#[test]
fn dev_exit_defaults_follow_build_profile() {
    assert_eq!(
        parse_in(&[], true).dev_exit,
        true,
        "debug builds must arm the exit chord by default; release must not"
    );
    assert_eq!(
        parse_in(&[], false).dev_exit,
        false,
        "debug builds must arm the exit chord by default; release must not"
    );
    for debug_build in [true, false] {
        assert!(parse_in(&["--dev-exit"], debug_build).dev_exit);
        assert!(!parse_in(&["--no-dev-exit"], debug_build).dev_exit);
    }
}

#[test]
fn verification_and_service_modes_never_arm_the_chord() {
    for debug_build in [true, false] {
        let parse = |args: &[&str]| parse_in(args, debug_build);
        assert!(parse(&["--dev-exit"]).chord_armed());
        assert!(parse(&["--dev-exit", "--sim"]).chord_armed());
        assert!(!parse(&["--dev-exit", "--conformance"]).chord_armed());
        assert!(!parse(&["--dev-exit", "--spike", "5"]).chord_armed());
        assert!(!parse(&["--dev-exit", "--reader-probe"]).chord_armed());
        assert!(!parse(&["--dev-exit", "--quit"]).chord_armed());
        assert!(!parse(&["--dev-exit", "--exit-probe"]).chord_armed());
        assert!(!parse(&["--no-dev-exit"]).chord_armed());
    }
}

#[test]
fn quit_and_probe_modes_are_not_kiosk() {
    let parse = |args: &[&str]| parse_in(args, true);
    assert!(parse(&["--quit"]).quit && !parse(&["--quit"]).kiosk());
    assert!(parse(&["--exit-probe"]).exit_probe && !parse(&["--exit-probe"]).kiosk());
    assert!(!parse(&["--reader-probe"]).kiosk());
}

#[test]
fn spike_takes_its_number_or_falls_back() {
    let parse = |args: &[&str]| parse_in(args, false);
    assert_eq!(parse(&["--spike", "7"]).spike, Some(7));
    assert_eq!(parse(&["--spike", "+7"]).spike, Some(7));
    assert_eq!(parse(&["--spike", "4294967295"]).spike, Some(4294967295));
    assert_eq!(parse(&["--spike", "4294967296"]).spike, Some(20));
    assert_eq!(parse(&["--spike", "many"]).spike, Some(20));
    assert_eq!(parse(&["--spike", ""]).spike, Some(20));
    assert_eq!(parse(&["--spike", "+"]).spike, Some(20));
    assert_eq!(parse(&["--spike"]).spike, Some(20));
    assert_eq!(parse(&[]).spike, None);
}

#[test]
fn spike_and_config_swallow_the_next_argument() {
    let cli = parse_in(&["--spike", "--sim", "--windowed"], false);
    assert_eq!(cli.spike, Some(20));
    assert!(!cli.sim && cli.windowed);
    let cli = parse_in(&["--config", "--sim"], false);
    assert_eq!(cli.config.as_deref(), Some("--sim"));
    assert!(!cli.sim);
    assert_eq!(parse_in(&["--config", "a", "--config"], false).config, None);
}

#[test]
fn unknown_arguments_are_passed_over_and_later_flags_win() {
    let cli = parse_in(&["--verbose", "x", "--dev-exit", "--no-dev-exit"], false);
    assert!(!cli.dev_exit && cli.kiosk());
    assert!(parse_in(&["--no-dev-exit", "--dev-exit"], false).chord_armed());
    let copy = parse_in(&["--sim", "--config", "c"], false).clone();
    assert!(copy.sim && copy.config.as_deref() == Some("c"));
}
