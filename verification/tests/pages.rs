use station_shell::boot::{boot_response, fault_page, not_found, route, Route};
use station_shell::cli::Cli;
use station_shell::commands::{
    blip_ms, ensure_apply_batch, ensure_conformance, ensure_sim, Modes,
};
use station_shell::logging::{log_ui_console, sweep_old_logs, LogFile, LogLevel};
use station_shell::windows::{
    bake, fault_window, main_window, push_script, render_init_script, sim_window,
};

fn cli(args: &[&str]) -> Cli {
    Cli::parse(args.iter().map(|s| s.to_string()).collect(), false)
}

#[test]
fn paths_have_their_pages() {
    assert_eq!(route("/boot"), Route::Boot);
    assert_eq!(route("/fault"), Route::Fault);
    assert_eq!(route("/"), Route::NotFound);
    assert_eq!(route("/boot/"), Route::NotFound);
    let boot = boot_response("{\"seq\":1}".into());
    assert_eq!((boot.status, boot.body.as_str()), (200, "{\"seq\":1}"));
    assert!(boot.headers.contains(&("Cache-Control", "no-store")));
    assert!(boot.headers.contains(&("Access-Control-Allow-Origin", "*")));
    let missing = not_found();
    assert_eq!((missing.status, missing.body.as_str()), (404, ""));
    let fault = fault_page();
    assert_eq!(fault.status, 200);
    assert!(fault.body.contains("LINE PAUSED") && !fault.body.contains("<script"));
    assert_eq!(fault.headers, vec![("Content-Type", "text/html; charset=utf-8")]);
}

#[test]
fn pushes_ride_in_a_string_literal() {
    assert_eq!(
        push_script("{\"name\":\"A\\B\"}"),
        "window.__STATION_PUSH__(JSON.parse(\"{\\\"name\\\":\\\"A\\\\B\\\"}\"))"
    );
    assert_eq!(
        push_script("a\nb\u{1}\u{1f}\t\r\u{8}\u{c}é\u{2028}\u{7f}/"),
        "window.__STATION_PUSH__(JSON.parse(\"a\\nb\\u0001\\u001f\\t\\r\\b\\fé\u{2028}\u{7f}/\"))"
    );
}

#[test]
fn the_boot_payload_is_baked_over_every_mark() {
    let template = "var a = \"__BAKED_BOOT_JSON__\"; var b = \"__BAKED_BOOT_JSON__\";";
    assert_eq!(
        render_init_script(template, "{\"seq\":2}"),
        "var a = \"{\\\"seq\\\":2}\"; var b = \"{\\\"seq\\\":2}\";"
    );
    assert_eq!(render_init_script("no mark", "x"), "no mark");
    assert_eq!(bake("[\"__BAKED_BOOT_JSON__\"]", "7"), "[7]");
}

#[test]
fn windows_stand_as_the_launch_asks() {
    let kiosk = main_window(&cli(&[]));
    assert_eq!((kiosk.label, kiosk.url, kiosk.bridge), ("main", "index.html?shell=1", true));
    assert!(kiosk.posture.fullscreen && kiosk.posture.skip_taskbar && !kiosk.posture.decorations);
    let windowed = main_window(&cli(&["--windowed"]));
    assert_eq!(windowed.posture.inner_size, Some((1280, 720)));
    assert!(!windowed.posture.fullscreen && windowed.posture.decorations);
    let harness = main_window(&cli(&["--conformance"]));
    assert_eq!(harness.url, "harness/conformance.html?harness=1");
    let fault = fault_window(&cli(&[]));
    assert_eq!((fault.label, fault.bridge), ("fault", false));
    assert!(fault.posture.fullscreen && !fault.posture.skip_taskbar);
    let sim = sim_window();
    assert_eq!((sim.label, sim.posture.inner_size), ("sim", Some((430, 720))));
    assert!(sim.posture.always_on_top && !sim.bridge);
}

#[test]
fn command_families_are_gated_by_launch_and_window() {
    let modes = |sim: bool, conformance: bool| Modes { sim, conformance };
    assert_eq!(ensure_sim("sim", &modes(true, false)), Ok(()));
    assert_eq!(ensure_sim("main", &modes(true, true)), Err("not available".to_string()));
    assert_eq!(ensure_sim("sim", &modes(false, true)), Err("not available".to_string()));
    assert_eq!(ensure_conformance("main", &modes(false, true)), Ok(()));
    assert!(ensure_conformance("sim", &modes(true, true)).is_err());
    assert!(ensure_conformance("main", &modes(true, false)).is_err());
    assert_eq!(ensure_apply_batch("main", &modes(false, true)), Ok(()));
    assert_eq!(ensure_apply_batch("sim", &modes(true, false)), Ok(()));
    assert!(ensure_apply_batch("main", &modes(true, false)).is_err());
    assert!(ensure_apply_batch("fault", &modes(true, true)).is_err());
}

#[test]
fn blips_are_held_to_their_bounds() {
    assert_eq!(blip_ms(0), 100);
    assert_eq!(blip_ms(100), 100);
    assert_eq!(blip_ms(2_500), 2_500);
    assert_eq!(blip_ms(60_000), 60_000);
    assert_eq!(blip_ms(u64::MAX), 60_000);
}

#[test]
fn page_faults_are_errors_at_any_level() {
    assert_eq!(log_ui_console("error", "x"), LogLevel::Error);
    assert_eq!(log_ui_console("info", "a station-ui fault: y"), LogLevel::Error);
    assert_eq!(log_ui_console("warn", "x"), LogLevel::Warn);
    assert_eq!(log_ui_console("log", "warn"), LogLevel::Info);
}

const DAY_NS: i128 = 24 * 60 * 60 * 1_000_000_000;

#[test]
fn sweep_removes_old_shell_logs_and_keeps_everything_else() {
    let now: i128 = 2_000_000 * DAY_NS / 100;
    let file = |name: &str, modified_ns: Option<i128>| LogFile { name: name.into(), modified_ns };
    let files = vec![
        file("shell.log.2026-01-01", Some(now - 20 * DAY_NS)),
        file("shell.log.2026-08-01", Some(now)),
        file("failures.jsonl", Some(now - 20 * DAY_NS)),
        file("shell.log.unreadable", None),
        file("shell.log.edge", Some(now - 14 * DAY_NS)),
        file("shell.log.over", Some(now - 14 * DAY_NS - 1)),
        file("old-shell.log", Some(now - 20 * DAY_NS)),
    ];
    let remove = sweep_old_logs(&files, now, 14);
    assert!(remove.contains(&0), "old shell.log must be swept");
    assert!(!remove.contains(&1), "recent shell.log must be kept");
    assert!(!remove.contains(&2), "supervisor-feed JSONL is never swept");
    assert_eq!(remove, vec![0, 5]);
}
