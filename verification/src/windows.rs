//! Windows and the scripts that reach their pages.
//!
//! Exactly one window carries the bridge. What goes into its script goes in as
//! a JSON string literal, so that nothing in a payload, batch names included,
//! can step out of the literal.

use crate::cli::Cli;
use crate::outside::json_literal;
use crate::text::replace_all;
use vstd::prelude::*;

verus! {

/// Launch arguments of the webview, the same for every window.
pub const BROWSER_ARGS: &'static str =
    "--disable-features=msWebOOUI,msPdfOOUI,msSmartScreenProtection,CalculateNativeWinOcclusion --autoplay-policy=no-user-gesture-required --force-device-scale-factor=1";

/// Where the init script's template holds the baked boot payload.
pub const BAKED_MARK: &'static str = "\"__BAKED_BOOT_JSON__\"";

/// The template with the literal of the boot payload in place of every mark.
pub open spec fn init_script(template: Seq<char>, boot_json: Seq<char>) -> Seq<char> {
    crate::text::replaced(template, BAKED_MARK@, crate::outside::json_literal_of(boot_json))
}

/// Bakes the current boot payload into the init script. The baked copy is only
/// the fallback of a document that cannot pull.
pub fn render_init_script(template: &str, boot_json: &str) -> (script: String)
    ensures
        script@ == init_script(template@, boot_json@),
{
    proof {
        reveal_strlit("\"__BAKED_BOOT_JSON__\"");
    }
    bake(template, json_literal(boot_json).as_str())
}

/// The template with a literal in place of every mark.
pub fn bake(template: &str, literal: &str) -> (script: String)
    ensures
        script@ == crate::text::replaced(template@, BAKED_MARK@, literal@),
{
    proof {
        reveal_strlit("\"__BAKED_BOOT_JSON__\"");
    }
    replace_all(template, BAKED_MARK, literal)
}

/// The script that hands a serialized push to the page.
pub fn push_script(json: &str) -> (script: String)
    ensures
        script@ == "window.__STATION_PUSH__(JSON.parse("@ + crate::outside::json_literal_of(json@)
            + "))"@,
{
    "window.__STATION_PUSH__(JSON.parse(".to_owned().concat(json_literal(json).as_str()).concat(
        "))",
    )
}

/// How a window stands on the screen.
#[derive(Debug, Clone, Copy, PartialEq, Eq)]
pub struct Posture {
    pub fullscreen: bool,
    pub decorations: bool,
    pub always_on_top: bool,
    pub skip_taskbar: bool,
    pub resizable: bool,
    /// Width and height of a window that is not fullscreen.
    pub inner_size: Option<(u32, u32)>,
}

/// The posture of the main window, and of the fault screen, which stays in the
/// taskbar.
pub open spec fn posture_of(kiosk: bool, skip_taskbar: bool) -> Posture {
    if kiosk {
        Posture {
            fullscreen: true,
            decorations: false,
            always_on_top: true,
            skip_taskbar,
            resizable: false,
            inner_size: None,
        }
    } else {
        Posture {
            fullscreen: false,
            decorations: true,
            always_on_top: false,
            skip_taskbar: false,
            resizable: true,
            inner_size: Some((1280, 720)),
        }
    }
}

fn posture(kiosk: bool, skip_taskbar: bool) -> (posture: Posture)
    ensures
        posture == posture_of(kiosk, skip_taskbar),
{
    if kiosk {
        Posture {
            fullscreen: true,
            decorations: false,
            always_on_top: true,
            skip_taskbar,
            resizable: false,
            inner_size: None,
        }
    } else {
        Posture {
            fullscreen: false,
            decorations: true,
            always_on_top: false,
            skip_taskbar: false,
            resizable: true,
            inner_size: Some((1280, 720)),
        }
    }
}

/// A window to create.
#[derive(Debug)]
pub struct WindowPlan {
    pub label: &'static str,
    pub title: &'static str,
    pub url: &'static str,
    /// Whether the page gets the init script, and with it the bridge.
    pub bridge: bool,
    pub posture: Posture,
}

/// The main window: the operator's page, or the harness under conformance.
pub fn main_window(cli: &Cli) -> (plan: WindowPlan)
    ensures
        plan.label@ == "main"@,
        plan.title@ == "Station"@,
        plan.url@ == (if cli.conformance {
            "harness/conformance.html?harness=1"@
        } else {
            "index.html?shell=1"@
        }),
        plan.bridge,
        plan.posture == posture_of(cli@.kiosk(), true),
{
    WindowPlan {
        label: "main",
        title: "Station",
        url: if cli.conformance {
            "harness/conformance.html?harness=1"
        } else {
            "index.html?shell=1"
        },
        bridge: true,
        posture: posture(cli.kiosk(), true),
    }
}

/// The fault screen: no init script, no bridge, nothing left to fail.
pub fn fault_window(cli: &Cli) -> (plan: WindowPlan)
    ensures
        plan.label@ == "fault"@,
        plan.title@ == "Station"@,
        plan.url@ == "http://station.localhost/fault"@,
        !plan.bridge,
        plan.posture == posture_of(cli@.kiosk(), false),
{
    WindowPlan {
        label: "fault",
        title: "Station",
        url: "http://station.localhost/fault",
        bridge: false,
        posture: posture(cli.kiosk(), false),
    }
}

/// The sim console.
pub fn sim_window() -> (plan: WindowPlan)
    ensures
        plan.label@ == "sim"@,
        plan.title@ == "Station Sim Console"@,
        plan.url@ == "sim/sim.html"@,
        !plan.bridge,
        plan.posture == (Posture {
            always_on_top: true,
            inner_size: Some((430, 720)),
            ..posture_of(false, false)
        }),
{
    WindowPlan {
        label: "sim",
        title: "Station Sim Console",
        url: "sim/sim.html",
        bridge: false,
        posture: Posture {
            fullscreen: false,
            decorations: true,
            always_on_top: true,
            skip_taskbar: false,
            resizable: true,
            inner_size: Some((430, 720)),
        },
    }
}

/// The text between the quotes of a string literal does not end it: every
/// quote in it belongs to an escape, and no escape is cut off at the end.
pub open spec fn sealed(t: Seq<char>) -> bool
    decreases t.len(),
{
    if t.len() == 0 {
        true
    } else if t[0] == '"' {
        false
    } else if t[0] == '\\' {
        t.len() >= 2 && sealed(t.skip(2))
    } else {
        sealed(t.skip(1))
    }
}

/// No character below the space stands in the text as itself.
pub open spec fn printable(t: Seq<char>) -> bool {
    forall|i: int| 0 <= i < t.len() ==> #[trigger] t[i] as u32 >= 32
}

proof fn lemma_plain_is_sealed(t: Seq<char>, rest: Seq<char>)
    requires
        sealed(rest),
        forall|i: int| 0 <= i < t.len() ==> #[trigger] t[i] != '"' && t[i] != '\\',
    ensures
        sealed(t + rest),
    decreases t.len(),
{
    if t.len() == 0 {
        assert(t + rest =~= rest);
    } else {
        lemma_plain_is_sealed(t.skip(1), rest);
        assert((t + rest).skip(1) =~= t.skip(1) + rest);
    }
}

proof fn lemma_escaped_is_sealed(c: char, rest: Seq<char>)
    requires
        sealed(rest),
    ensures
        sealed(crate::outside::json_escaped(c) + rest),
        printable(crate::outside::json_escaped(c)),
{
    let t = crate::outside::json_escaped(c);
    reveal_strlit("0123456789abcdef");
    if t[0] == '\\' {
        let tail = t.skip(2);
        lemma_plain_is_sealed(tail, rest);
        assert((t + rest).skip(2) =~= tail + rest);
    } else {
        lemma_plain_is_sealed(t, rest);
    }
}

/// Whatever a payload holds, its literal ends where it is meant to end and
/// breaks no line: nothing in it can reach the script around it.
pub proof fn law_a_payload_cannot_leave_its_literal(payload: Seq<char>)
    ensures
        sealed(crate::outside::json_escapes(payload)),
        printable(crate::outside::json_escapes(payload)),
    decreases payload.len(),
{
    if payload.len() > 0 {
        let rest = crate::outside::json_escapes(payload.skip(1));
        law_a_payload_cannot_leave_its_literal(payload.skip(1));
        lemma_escaped_is_sealed(payload[0], rest);
    }
}

/// A kiosk's windows cannot be left, moved or covered: they fill the screen,
/// have no frame and stay on top. Any other launch has an ordinary window.
pub proof fn law_a_kiosk_fills_the_screen(kiosk: bool, skip_taskbar: bool)
    ensures
        ({
            let posture = posture_of(kiosk, skip_taskbar);
            &&& posture.fullscreen == kiosk
            &&& posture.always_on_top == kiosk
            &&& posture.decorations == !kiosk
            &&& posture.resizable == !kiosk
            &&& posture.skip_taskbar == (kiosk && skip_taskbar)
            &&& posture.inner_size == (if kiosk {
                None::<(u32, u32)>
            } else {
                Some((1280u32, 720u32))
            })
        }),
{
}

/// Exactly the main window has the bridge. It shows the harness under
/// conformance and the operator's page otherwise; the fault screen shows the
/// page that the station serves itself; and the sim console never takes the
/// screen. The main and the fault window are a kiosk's exactly in a kiosk
/// launch.
pub proof fn law_one_window_has_the_bridge(
    cli: &Cli,
    main: WindowPlan,
    fault: WindowPlan,
    sim: WindowPlan,
)
    requires
        call_ensures(main_window, (cli,), main),
        call_ensures(fault_window, (cli,), fault),
        call_ensures(sim_window, (), sim),
    ensures
        main.bridge && !fault.bridge && !sim.bridge,
        main.label@ == "main"@ && fault.label@ == "fault"@ && sim.label@ == "sim"@,
        cli.conformance ==> main.url@ == "harness/conformance.html?harness=1"@,
        !cli.conformance ==> main.url@ == "index.html?shell=1"@,
        fault.url@ == "http://station.localhost/fault"@,
        sim.url@ == "sim/sim.html"@,
        ({
            let kiosk = !cli.windowed && !cli.conformance && cli.spike is None
                && !cli.reader_probe && !cli.quit && !cli.exit_probe;
            &&& main.posture.fullscreen == kiosk && fault.posture.fullscreen == kiosk
            &&& main.posture.skip_taskbar == kiosk && !fault.posture.skip_taskbar
        }),
        !sim.posture.fullscreen && sim.posture.decorations && sim.posture.always_on_top,
{
}

/// The init script is its template with the boot payload's literal in the place
/// that is marked for it, and nothing else changed.
pub proof fn law_the_payload_is_baked_where_it_is_marked(
    before: Seq<char>,
    behind: Seq<char>,
    boot_json: Seq<char>,
)
    requires
        forall|i: int|
            0 <= i < before.len() ==> !crate::text::occurs_at(
                before + "\"__BAKED_BOOT_JSON__\""@ + behind,
                "\"__BAKED_BOOT_JSON__\""@,
                i,
            ),
        !crate::text::contains_text(behind, "\"__BAKED_BOOT_JSON__\""@),
    ensures
        init_script(before + "\"__BAKED_BOOT_JSON__\""@ + behind, boot_json) == before
            + crate::outside::json_literal_of(boot_json) + behind,
{
    let mark = "\"__BAKED_BOOT_JSON__\""@;
    reveal_strlit("\"__BAKED_BOOT_JSON__\"");
    crate::text::law_replacement_goes_from_left_to_right(
        before,
        mark,
        behind,
        crate::outside::json_literal_of(boot_json),
        behind,
    );
}

/// A push reaches the page as one call with one argument, parsed from the
/// payload's literal.
pub proof fn law_a_push_is_one_call(json: &str, script: String)
    requires
        call_ensures(push_script, (json,), script),
    ensures
        script@ == "window.__STATION_PUSH__(JSON.parse("@ + seq!['"']
            + crate::outside::json_escapes(json@) + seq!['"'] + "))"@,
{
    assert(script@ =~= "window.__STATION_PUSH__(JSON.parse("@ + seq!['"']
        + crate::outside::json_escapes(json@) + seq!['"'] + "))"@);
}

}
