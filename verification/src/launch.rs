//! What a launch does: which session it resumes, what it starts, how it exits.

use crate::cli::{Cli, CliView};
use crate::contract::StationUiConfig;
use crate::state::{PersistedSession, PersistedView, StationView, SESSION_SCHEMA};
use crate::text::same_text;
use vstd::prelude::*;

verus! {

/// The name of the station's data directory.
pub const IDENTIFIER: &'static str = "com.chainw3ar.station";

/// A conformance run keeps its session in a file of its own, so that it never
/// touches a real shift.
pub fn session_file(conformance: bool) -> (name: &'static str)
    ensures
        name@ == (if conformance {
            "conformance-session.json"@
        } else {
            "session.json"@
        }),
{
    if conformance {
        "conformance-session.json"
    } else {
        "session.json"
    }
}

/// The session that a launch resumes: the one on disk, if its schema is the
/// current one. Anything else is a fresh start, and so is a conformance run.
pub open spec fn resumed(loaded: Option<PersistedSession>, conformance: bool) -> Option<
    PersistedSession,
> {
    match loaded {
        Some(s) => if s.schema == SESSION_SCHEMA && !conformance {
            Some(s)
        } else {
            None
        },
        None => None,
    }
}

/// The session to resume. `loaded` is `None` where the file is missing or
/// cannot be read or parsed.
pub fn resume(loaded: Option<PersistedSession>, conformance: bool) -> (session: Option<
    PersistedSession,
>)
    ensures
        session == resumed(loaded, conformance),
{
    match loaded {
        Some(s) => if s.schema == SESSION_SCHEMA && !conformance {
            Some(s)
        } else {
            None
        },
        None => None,
    }
}

/// What a station writes, the next launch resumes: the session of any state,
/// read back as it was written, is taken up in every field, and the station
/// that boots from it would write the same.
pub proof fn law_a_written_session_is_resumed(
    state: StationView,
    written: PersistedSession,
    config: StationUiConfig,
)
    requires
        written@ == state.image(),
    ensures
        resumed(Some(written), false) == Some(written),
        StationView::boot(config, Some(written@)).image() == state.image(),
{
}

/// The session of a station on which no shift has begun.
pub fn fresh_session() -> (session: PersistedSession)
    ensures
        session@ == PersistedView::fresh(),
{
    PersistedSession { schema: SESSION_SCHEMA, shift: None, pending_end_shift: false }
}

/// How the exit chord takes part in a launch.
#[derive(Debug, Clone, Copy, PartialEq, Eq, Structural)]
pub enum ChordPlan {
    /// Not registered.
    Locked,
    /// Registered, and proved before the launch is trusted.
    Armed,
    /// Under guided verification.
    Probed,
}

/// What a launch starts.
#[derive(Debug, Clone, Copy, PartialEq, Eq, Structural)]
pub enum LaunchPlan {
    /// Judge the reader and exit.
    ReaderProbe,
    /// Ask the running instance to exit, and exit.
    Quit,
    Station {
        sim_window: bool,
        chord: ChordPlan,
        spike: Option<u32>,
        /// The reader monitor and the page watchdog run; otherwise the harness
        /// has to report in time.
        monitored: bool,
    },
}

pub open spec fn plan_of(cli: CliView) -> LaunchPlan {
    if cli.reader_probe {
        LaunchPlan::ReaderProbe
    } else if cli.quit {
        LaunchPlan::Quit
    } else {
        LaunchPlan::Station {
            sim_window: cli.sim,
            chord: if cli.exit_probe {
                ChordPlan::Probed
            } else if cli.chord_armed() {
                ChordPlan::Armed
            } else {
                ChordPlan::Locked
            },
            spike: cli.spike,
            monitored: !cli.conformance,
        }
    }
}

/// What the command line starts.
pub fn plan(cli: &Cli) -> (plan: LaunchPlan)
    ensures
        plan == plan_of(cli@),
{
    if cli.reader_probe {
        LaunchPlan::ReaderProbe
    } else if cli.quit {
        LaunchPlan::Quit
    } else {
        LaunchPlan::Station {
            sim_window: cli.sim,
            chord: if cli.exit_probe {
                ChordPlan::Probed
            } else if cli.chord_armed() {
                ChordPlan::Armed
            } else {
                ChordPlan::Locked
            },
            spike: cli.spike,
            monitored: !cli.conformance,
        }
    }
}

/// Whether a request to close a window is turned down: a kiosk's main window
/// stays.
pub fn prevents_close(kiosk: bool, label: &str) -> (prevented: bool)
    ensures
        prevented == (kiosk && label@ == "main"@),
{
    kiosk && same_text(label, "main")
}

/// What a running instance does about a second launch.
#[derive(Debug, Clone, Copy, PartialEq, Eq, Structural)]
pub enum SecondLaunch {
    /// Bring the main window to the front.
    Focus,
    /// Exit cleanly, as asked.
    Exit,
    /// Refuse to exit: this instance is locked down.
    Refuse,
}

/// Answers a second launch. An instance exits on `--quit` only if it armed its
/// own exit chord; a production kiosk refuses.
pub fn on_second_launch(args: Vec<String>, chord_armed: bool) -> (answer: SecondLaunch)
    ensures
        answer == (if !CliView::bare(false).with_args(args.deep_view()).quit {
            SecondLaunch::Focus
        } else if chord_armed {
            SecondLaunch::Exit
        } else {
            SecondLaunch::Refuse
        }),
{
    let second = Cli::parse(args, false);
    if !second.quit {
        SecondLaunch::Focus
    } else if chord_armed {
        SecondLaunch::Exit
    } else {
        SecondLaunch::Refuse
    }
}

/// No station process on the machine.
pub const EXIT_NO_STATION: i32 = 3;

/// A station process by name that cannot be reached from here.
pub const EXIT_UNREACHABLE: i32 = 4;

/// The exit code of a launch that asks another to quit: whether the request
/// was delivered and, if not, whether any process of that name is there.
pub fn quit_exit_code(delivered: bool, process_found: bool) -> (code: i32)
    ensures
        code == (if delivered {
            0i32
        } else if process_found {
            EXIT_UNREACHABLE
        } else {
            EXIT_NO_STATION
        }),
{
    if delivered {
        0
    } else if process_found {
        EXIT_UNREACHABLE
    } else {
        EXIT_NO_STATION
    }
}

/// Production lockdown: a release launch that does not ask for the chord never
/// registers it, and never exits on `--quit`.
pub proof fn law_lockdown_holds_unless_asked(args: Seq<Seq<char>>)
    requires
        forall|i: int| 0 <= i < args.len() ==> #[trigger] args[i] != "--dev-exit"@,
        forall|i: int| 0 <= i < args.len() ==> #[trigger] args[i] != "--exit-probe"@,
    ensures
        ({
            let cli = CliView::bare(false).with_args(args);
            &&& !cli.chord_armed()
            &&& plan_of(cli) matches LaunchPlan::Station { chord, .. } ==> chord
                == ChordPlan::Locked
        }),
{
    crate::cli::law_release_never_arms_the_chord_unasked(CliView::bare(false), args);
    lemma_no_probe_unasked(CliView::bare(false), args);
}

proof fn lemma_no_probe_unasked(cli: CliView, args: Seq<Seq<char>>)
    requires
        !cli.exit_probe,
        forall|i: int| 0 <= i < args.len() ==> #[trigger] args[i] != "--exit-probe"@,
    ensures
        !cli.with_args(args).exit_probe,
    decreases args.len(),
{
    if args.len() > 0 {
        assert(args[0] != "--exit-probe"@);
        let one = crate::cli::behind(args, 1);
        let two = crate::cli::behind(args, 2);
        if args[0] == "--spike"@ {
            let next = CliView {
                spike: Some(
                    if args.len() > 1 && crate::text::u32_of(args[1]) is Some {
                        crate::text::u32_of(args[1])->0
                    } else {
                        crate::cli::DEFAULT_SPIKE_CYCLES
                    },
                ),
                ..cli
            };
            lemma_no_probe_unasked(next, two);
        } else if args[0] == "--config"@ {
            let next = CliView {
                config: if args.len() > 1 {
                    Some(args[1])
                } else {
                    None
                },
                ..cli
            };
            lemma_no_probe_unasked(next, two);
        } else {
            lemma_no_probe_unasked(cli.with_flag(args[0]), one);
        }
    }
}

/// What a launch starts follows from what was asked: the reader probe before
/// anything else, then a request to quit, and otherwise a station. The sim
/// console comes with the sim flag, the reader monitor and the watchdog run
/// except under conformance, and the exit chord is probed where that is asked,
/// armed where it is armed, and locked otherwise.
pub proof fn law_a_launch_starts_what_was_asked(cli: CliView)
    ensures
        plan_of(cli) is ReaderProbe <==> cli.reader_probe,
        plan_of(cli) is Quit <==> cli.quit && !cli.reader_probe,
        plan_of(cli) matches LaunchPlan::Station { sim_window, chord, spike, monitored } ==> {
            &&& sim_window == cli.sim
            &&& spike == cli.spike
            &&& monitored == !cli.conformance
            &&& chord == ChordPlan::Probed <==> cli.exit_probe
            &&& chord == ChordPlan::Armed <==> cli.dev_exit && !cli.exit_probe && !cli.conformance
                && cli.spike is None
        },
{
}

/// A session is resumed exactly if one could be read, it is of the current
/// schema, and this is no conformance run; it is resumed as it was read.
pub proof fn law_only_a_session_of_this_schema_is_resumed(
    loaded: Option<PersistedSession>,
    conformance: bool,
    session: Option<PersistedSession>,
)
    requires
        call_ensures(resume, (loaded, conformance), session),
    ensures
        session is Some <==> (loaded matches Some(read) && read.schema == 1) && !conformance,
        session is Some ==> session == loaded,
{
}

/// Conformance keeps its session apart from the station's.
pub proof fn law_conformance_has_a_file_of_its_own(
    conformance: bool,
    name: &'static str,
    usual: &'static str,
)
    requires
        call_ensures(session_file, (conformance,), name),
        call_ensures(session_file, (false,), usual),
    ensures
        name@ == usual@ <==> !conformance,
        usual@ == "session.json"@,
{
    reveal_strlit("session.json");
    reveal_strlit("conformance-session.json");
    assert("session.json"@.len() != "conformance-session.json"@.len());
}

/// Only a kiosk's main window cannot be closed.
pub proof fn law_only_the_kiosk_window_stays(kiosk: bool, label: &str, prevented: bool)
    requires
        call_ensures(prevents_close, (kiosk, label), prevented),
    ensures
        prevented <==> kiosk && label@ == "main"@,
{
}

/// A running station exits on a second launch only if that one says `--quit`
/// and this one has its exit chord armed; a second launch that does not say it
/// brings the window to the front.
pub proof fn law_a_station_quits_only_when_asked_and_armed(
    args: Vec<String>,
    chord_armed: bool,
    answer: SecondLaunch,
)
    requires
        call_ensures(on_second_launch, (args, chord_armed), answer),
        forall|i: int|
            0 <= i < args.len() ==> (#[trigger] args[i])@ != "--spike"@ && args[i]@
                != "--config"@,
    ensures
        ({
            let asked = exists|i: int| 0 <= i < args.len() && (#[trigger] args[i])@ == "--quit"@;
            &&& answer == SecondLaunch::Focus <==> !asked
            &&& answer == SecondLaunch::Exit <==> asked && chord_armed
            &&& answer == SecondLaunch::Refuse <==> asked && !chord_armed
        }),
{
    let texts = args.deep_view();
    assert forall|i: int| 0 <= i < texts.len() implies #[trigger] texts[i] != "--spike"@
        && texts[i] != "--config"@ by {
        assert(texts[i] == args[i]@);
    }
    crate::cli::law_a_flag_turns_its_mode_on(CliView::bare(false), texts);
    if texts.contains("--quit"@) {
        let i = choose|i: int| 0 <= i < texts.len() && texts[i] == "--quit"@;
        assert(args[i]@ == "--quit"@);
    }
    if exists|i: int| 0 <= i < args.len() && (#[trigger] args[i])@ == "--quit"@ {
        let i = choose|i: int| 0 <= i < args.len() && (#[trigger] args[i])@ == "--quit"@;
        assert(texts[i] == "--quit"@);
    }
}

/// A launch that asks another to quit exits with 0 if the request arrived, with
/// 4 if there is a station that it could not reach, and with 3 if there is
/// none.
pub proof fn law_a_quit_says_how_it_went(delivered: bool, process_found: bool, code: i32)
    requires
        call_ensures(quit_exit_code, (delivered, process_found), code),
    ensures
        code == 0 <==> delivered,
        code == 4 <==> !delivered && process_found,
        code == 3 <==> !delivered && !process_found,
{
}

/// A station on which nothing has begun writes no shift and nothing pending.
pub proof fn law_a_fresh_session_is_empty(session: PersistedSession)
    requires
        call_ensures(fresh_session, (), session),
    ensures
        session.schema == 1,
        session@.shift is None,
        !session.pending_end_shift,
        resumed(Some(session), false) == Some(session),
{
}

}
