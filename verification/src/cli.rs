//! Launch modes.

use crate::text::{parse_u32, same_text};
use vstd::prelude::*;

verus! {

#[derive(Debug)]
pub struct Cli {
    /// Sim console window and its commands enabled.
    pub sim: bool,
    /// Development posture: a window instead of kiosk fullscreen.
    pub windowed: bool,
    /// Load the conformance harness instead of the page and exit with results.
    pub conformance: bool,
    /// Reload-freshness spike: this many cycles of change and reload.
    pub spike: Option<u32>,
    /// Guided hardware verification of the detection path.
    pub reader_probe: bool,
    /// Arms the exit chord of this launch.
    pub dev_exit: bool,
    /// Ask a running instance to exit. Never launches a station itself.
    pub quit: bool,
    /// Guided verification of the exit chord.
    pub exit_probe: bool,
    pub config: Option<String>,
}

/// The number of spike cycles when none, or no number, is given.
pub const DEFAULT_SPIKE_CYCLES: u32 = 20;

#[verifier::ext_equal]
pub ghost struct CliView {
    pub sim: bool,
    pub windowed: bool,
    pub conformance: bool,
    pub spike: Option<u32>,
    pub reader_probe: bool,
    pub dev_exit: bool,
    pub quit: bool,
    pub exit_probe: bool,
    pub config: Option<Seq<char>>,
}

impl View for Cli {
    type V = CliView;

    open spec fn view(&self) -> CliView {
        CliView {
            sim: self.sim,
            windowed: self.windowed,
            conformance: self.conformance,
            spike: self.spike,
            reader_probe: self.reader_probe,
            dev_exit: self.dev_exit,
            quit: self.quit,
            exit_probe: self.exit_probe,
            config: self.config.deep_view(),
        }
    }
}

impl Clone for Cli {
    fn clone(&self) -> (copy: Cli)
        ensures
            copy@ == self@,
    {
        Cli {
            sim: self.sim,
            windowed: self.windowed,
            conformance: self.conformance,
            spike: self.spike,
            reader_probe: self.reader_probe,
            dev_exit: self.dev_exit,
            quit: self.quit,
            exit_probe: self.exit_probe,
            config: self.config.clone(),
        }
    }
}

/// What stands behind the first `n` arguments: nothing, where there are fewer.
pub open spec fn behind(args: Seq<Seq<char>>, n: int) -> Seq<Seq<char>> {
    if n <= args.len() {
        args.skip(n)
    } else {
        Seq::empty()
    }
}

impl CliView {
    /// No flag given. A debug build arms the exit chord by default, a release
    /// build does not.
    pub open spec fn bare(debug_build: bool) -> CliView {
        CliView {
            sim: false,
            windowed: false,
            conformance: false,
            spike: None,
            reader_probe: false,
            dev_exit: debug_build,
            quit: false,
            exit_probe: false,
            config: None,
        }
    }

    /// The flags `args` on top of this: `--spike` and `--config` take the
    /// argument behind them, whatever it is, and what is not a flag is passed
    /// over.
    pub open spec fn with_args(self, args: Seq<Seq<char>>) -> CliView
        decreases args.len(),
    {
        if args.len() == 0 {
            self
        } else if args[0] == "--spike"@ {
            CliView {
                spike: Some(
                    if args.len() > 1 && crate::text::u32_of(args[1]) is Some {
                        crate::text::u32_of(args[1])->0
                    } else {
                        DEFAULT_SPIKE_CYCLES
                    },
                ),
                ..self
            }.with_args(behind(args, 2))
        } else if args[0] == "--config"@ {
            CliView {
                config: if args.len() > 1 {
                    Some(args[1])
                } else {
                    None
                },
                ..self
            }.with_args(behind(args, 2))
        } else {
            self.with_flag(args[0]).with_args(behind(args, 1))
        }
    }

    /// One flag that stands alone.
    pub open spec fn with_flag(self, arg: Seq<char>) -> CliView {
        if arg == "--sim"@ {
            CliView { sim: true, ..self }
        } else if arg == "--windowed"@ {
            CliView { windowed: true, ..self }
        } else if arg == "--conformance"@ {
            CliView { conformance: true, ..self }
        } else if arg == "--reader-probe"@ {
            CliView { reader_probe: true, ..self }
        } else if arg == "--dev-exit"@ {
            CliView { dev_exit: true, ..self }
        } else if arg == "--no-dev-exit"@ {
            CliView { dev_exit: false, ..self }
        } else if arg == "--quit"@ {
            CliView { quit: true, ..self }
        } else if arg == "--exit-probe"@ {
            CliView { exit_probe: true, ..self }
        } else {
            self
        }
    }

    /// A launch that verifies or asks something and then exits by itself.
    pub open spec fn serves(self) -> bool {
        self.conformance || self.spike is Some || self.reader_probe || self.quit || self.exit_probe
    }

    pub open spec fn kiosk(self) -> bool {
        !self.windowed && !self.serves()
    }

    pub open spec fn chord_armed(self) -> bool {
        self.dev_exit && !self.serves()
    }
}

impl Cli {
    /// Reads the command line. `debug_build` is the build profile's default
    /// for the exit chord: a debug build must never be a reboot trap, and a
    /// release build stays locked down unless asked.
    pub fn parse(args: Vec<String>, debug_build: bool) -> (cli: Cli)
        ensures
            cli@ == CliView::bare(debug_build).with_args(args.deep_view()),
    {
        let mut cli = Cli {
            sim: false,
            windowed: false,
            conformance: false,
            spike: None,
            reader_probe: false,
            dev_exit: debug_build,
            quit: false,
            exit_probe: false,
            config: None,
        };
        let ghost all = args.deep_view();
        let ghost goal = CliView::bare(debug_build).with_args(all);
        let mut i: usize = 0;
        assert(all.skip(0) =~= all);
        while i < args.len()
            invariant
                i <= args.len(),
                all == args.deep_view(),
                cli@.with_args(all.skip(i as int)) == goal,
            decreases args.len() - i,
        {
            let ghost rest = all.skip(i as int);
            assert(rest[0] == args[i as int]@);
            let arg = args[i].as_str();
            if same_text(arg, "--spike") {
                let given = if i + 1 < args.len() {
                    assert(rest[1] == args[i + 1]@);
                    parse_u32(args[i + 1].as_str())
                } else {
                    None
                };
                cli.spike = match given {
                    Some(n) => Some(n),
                    None => Some(DEFAULT_SPIKE_CYCLES),
                };
                if i + 1 < args.len() {
                    assert(behind(rest, 2) =~= all.skip(i + 2));
                    i = i + 2;
                } else {
                    assert(behind(rest, 2) =~= all.skip(i + 1));
                    i = i + 1;
                }
            } else if same_text(arg, "--config") {
                if i + 1 < args.len() {
                    assert(rest[1] == args[i + 1]@);
                    cli.config = Some(args[i + 1].clone());
                    assert(behind(rest, 2) =~= all.skip(i + 2));
                    i = i + 2;
                } else {
                    cli.config = None;
                    assert(behind(rest, 2) =~= all.skip(i + 1));
                    i = i + 1;
                }
            } else {
                cli.set_flag(arg);
                assert(behind(rest, 1) =~= all.skip(i + 1));
                i = i + 1;
            }
        }
        assert(all.skip(i as int).len() == 0);
        cli
    }

    fn set_flag(&mut self, arg: &str)
        ensures
            final(self)@ == old(self)@.with_flag(arg@),
    {
        if same_text(arg, "--sim") {
            self.sim = true;
        } else if same_text(arg, "--windowed") {
            self.windowed = true;
        } else if same_text(arg, "--conformance") {
            self.conformance = true;
        } else if same_text(arg, "--reader-probe") {
            self.reader_probe = true;
        } else if same_text(arg, "--dev-exit") {
            self.dev_exit = true;
        } else if same_text(arg, "--no-dev-exit") {
            self.dev_exit = false;
        } else if same_text(arg, "--quit") {
            self.quit = true;
        } else if same_text(arg, "--exit-probe") {
            self.exit_probe = true;
        }
    }

    pub fn kiosk(&self) -> (kiosk: bool)
        ensures
            kiosk == self@.kiosk(),
    {
        !self.windowed && !self.conformance && self.spike.is_none() && !self.reader_probe
            && !self.quit && !self.exit_probe
    }

    /// Whether this launch registers the global exit chord. Launches that exit
    /// by themselves never take a system-wide hotkey; `--exit-probe` arms on
    /// its own path.
    pub fn chord_armed(&self) -> (armed: bool)
        ensures
            armed == self@.chord_armed(),
    {
        self.dev_exit && !self.conformance && self.spike.is_none() && !self.reader_probe
            && !self.quit && !self.exit_probe
    }
}

proof fn lemma_flags_only_add(cli: CliView, args: Seq<Seq<char>>)
    ensures
        cli.serves() ==> cli.with_args(args).serves(),
        cli.windowed ==> cli.with_args(args).windowed,
    decreases args.len(),
{
    if args.len() > 0 {
        if args[0] == "--spike"@ {
            let next = CliView {
                spike: Some(
                    if args.len() > 1 && crate::text::u32_of(args[1]) is Some {
                        crate::text::u32_of(args[1])->0
                    } else {
                        DEFAULT_SPIKE_CYCLES
                    },
                ),
                ..cli
            };
            lemma_flags_only_add(next, behind(args, 2));
        } else if args[0] == "--config"@ {
            let next = CliView {
                config: if args.len() > 1 {
                    Some(args[1])
                } else {
                    None
                },
                ..cli
            };
            lemma_flags_only_add(next, behind(args, 2));
        } else {
            lemma_flags_only_add(cli.with_flag(args[0]), behind(args, 1));
        }
    }
}

/// A release launch locks down unless it says otherwise: without `--dev-exit`
/// among its arguments the exit chord is never armed.
pub proof fn law_release_never_arms_the_chord_unasked(cli: CliView, args: Seq<Seq<char>>)
    requires
        !cli.dev_exit,
        forall|i: int| 0 <= i < args.len() ==> #[trigger] args[i] != "--dev-exit"@,
    ensures
        !cli.with_args(args).dev_exit,
        !cli.with_args(args).chord_armed(),
    decreases args.len(),
{
    if args.len() > 0 {
        if args[0] == "--spike"@ {
            let next = CliView {
                spike: Some(
                    if args.len() > 1 && crate::text::u32_of(args[1]) is Some {
                        crate::text::u32_of(args[1])->0
                    } else {
                        DEFAULT_SPIKE_CYCLES
                    },
                ),
                ..cli
            };
            law_release_never_arms_the_chord_unasked(next, behind(args, 2));
        } else if args[0] == "--config"@ {
            let next = CliView {
                config: if args.len() > 1 {
                    Some(args[1])
                } else {
                    None
                },
                ..cli
            };
            law_release_never_arms_the_chord_unasked(next, behind(args, 2));
        } else {
            assert(args[0] != "--dev-exit"@);
            law_release_never_arms_the_chord_unasked(cli.with_flag(args[0]), behind(args, 1));
        }
    }
}

/// Verification and service modes never arm the chord and are never kiosk
/// launches, whatever stands behind the flag that asks for them.
pub proof fn law_service_modes_are_neither_armed_nor_kiosk(
    cli: CliView,
    flag: Seq<char>,
    args: Seq<Seq<char>>,
)
    requires
        flag == "--conformance"@ || flag == "--spike"@ || flag == "--reader-probe"@ || flag
            == "--quit"@ || flag == "--exit-probe"@,
    ensures
        !cli.with_args(seq![flag] + args).chord_armed(),
        !cli.with_args(seq![flag] + args).kiosk(),
{
    let all = seq![flag] + args;
    reveal_strlit("--spike");
    reveal_strlit("--config");
    reveal_strlit("--conformance");
    reveal_strlit("--reader-probe");
    reveal_strlit("--quit");
    reveal_strlit("--exit-probe");
    reveal_strlit("--sim");
    reveal_strlit("--windowed");
    reveal_strlit("--dev-exit");
    reveal_strlit("--no-dev-exit");
    assert(all[0] == flag);
    if flag == "--spike"@ {
        let next = CliView {
            spike: Some(
                if all.len() > 1 && crate::text::u32_of(all[1]) is Some {
                    crate::text::u32_of(all[1])->0
                } else {
                    DEFAULT_SPIKE_CYCLES
                },
            ),
            ..cli
        };
        lemma_flags_only_add(next, behind(all, 2));
    } else {
        lemma_flags_only_add(cli.with_flag(flag), behind(all, 1));
    }
}

/// What an argument stands for, it stands for wherever it is given: each flag
/// turns its own mode on, and nothing turns it off again. The exit chord goes
/// by the flags that are about it. What is no flag changes nothing.
pub proof fn law_a_flag_turns_its_mode_on(cli: CliView, args: Seq<Seq<char>>)
    requires
        forall|i: int|
            0 <= i < args.len() ==> #[trigger] args[i] != "--spike"@ && args[i] != "--config"@,
    ensures
        ({
            let read = cli.with_args(args);
            &&& read.sim == (cli.sim || args.contains("--sim"@))
            &&& read.windowed == (cli.windowed || args.contains("--windowed"@))
            &&& read.conformance == (cli.conformance || args.contains("--conformance"@))
            &&& read.reader_probe == (cli.reader_probe || args.contains("--reader-probe"@))
            &&& read.quit == (cli.quit || args.contains("--quit"@))
            &&& read.exit_probe == (cli.exit_probe || args.contains("--exit-probe"@))
            &&& !args.contains("--no-dev-exit"@) ==> read.dev_exit == (cli.dev_exit
                || args.contains("--dev-exit"@))
            &&& !args.contains("--dev-exit"@) ==> read.dev_exit == (cli.dev_exit && !args.contains(
                "--no-dev-exit"@,
            ))
            &&& read.spike == cli.spike
            &&& read.config == cli.config
        }),
    decreases args.len(),
{
    lemma_the_flags_differ();
    if args.len() > 0 {
        let first = args[0];
        let rest = args.skip(1);
        assert(behind(args, 1) == rest);
        assert forall|i: int| 0 <= i < rest.len() implies #[trigger] rest[i] != "--spike"@
            && rest[i] != "--config"@ by {
            assert(rest[i] == args[i + 1]);
        }
        law_a_flag_turns_its_mode_on(cli.with_flag(first), rest);
        assert forall|flag: Seq<char>| #[trigger] args.contains(flag) == (first == flag
            || rest.contains(flag)) by {
            if args.contains(flag) && first != flag {
                let i = choose|i: int| 0 <= i < args.len() && args[i] == flag;
                assert(rest[i - 1] == flag);
            }
            if rest.contains(flag) {
                let i = choose|i: int| 0 <= i < rest.len() && rest[i] == flag;
                assert(args[i + 1] == flag);
            }
            if first == flag {
                assert(args[0] == flag);
            }
        }
    }
}

proof fn lemma_the_flags_differ()
    ensures
        "--sim"@ != "--windowed"@,
        "--sim"@ != "--conformance"@,
        "--sim"@ != "--reader-probe"@,
        "--sim"@ != "--dev-exit"@,
        "--sim"@ != "--no-dev-exit"@,
        "--sim"@ != "--quit"@,
        "--sim"@ != "--exit-probe"@,
        "--windowed"@ != "--conformance"@,
        "--windowed"@ != "--reader-probe"@,
        "--windowed"@ != "--dev-exit"@,
        "--windowed"@ != "--no-dev-exit"@,
        "--windowed"@ != "--quit"@,
        "--windowed"@ != "--exit-probe"@,
        "--conformance"@ != "--reader-probe"@,
        "--conformance"@ != "--dev-exit"@,
        "--conformance"@ != "--no-dev-exit"@,
        "--conformance"@ != "--quit"@,
        "--conformance"@ != "--exit-probe"@,
        "--reader-probe"@ != "--dev-exit"@,
        "--reader-probe"@ != "--no-dev-exit"@,
        "--reader-probe"@ != "--quit"@,
        "--reader-probe"@ != "--exit-probe"@,
        "--dev-exit"@ != "--no-dev-exit"@,
        "--dev-exit"@ != "--quit"@,
        "--dev-exit"@ != "--exit-probe"@,
        "--no-dev-exit"@ != "--quit"@,
        "--no-dev-exit"@ != "--exit-probe"@,
        "--quit"@ != "--exit-probe"@,
{
    reveal_strlit("--conformance");
    reveal_strlit("--reader-probe");
    reveal_strlit("--quit");
    reveal_strlit("--exit-probe");
    reveal_strlit("--sim");
    reveal_strlit("--windowed");
    reveal_strlit("--dev-exit");
    reveal_strlit("--no-dev-exit");
    assert("--sim"@.len() == 5 && "--quit"@.len() == 6 && "--windowed"@.len() == 10);
    assert("--dev-exit"@.len() == 10 && "--exit-probe"@.len() == 12 && "--conformance"@.len() == 13);
    assert("--no-dev-exit"@.len() == 13 && "--reader-probe"@.len() == 14);
    assert("--windowed"@[2] != "--dev-exit"@[2]);
    assert("--conformance"@[2] != "--no-dev-exit"@[2]);
}

/// A flag with a value takes the argument behind it, whatever that says, and
/// what stands behind both is read on. A number of cycles that is none, or is
/// not there, is twenty; a path that is not there is none.
pub proof fn law_a_valued_flag_takes_the_next_argument(
    cli: CliView,
    value: Seq<char>,
    rest: Seq<Seq<char>>,
)
    ensures
        cli.with_args(seq!["--spike"@, value] + rest) == (CliView {
            spike: Some(
                match crate::text::u32_of(value) {
                    Some(n) => n,
                    None => 20,
                },
            ),
            ..cli
        }).with_args(rest),
        cli.with_args(seq!["--config"@, value] + rest) == (CliView {
            config: Some(value),
            ..cli
        }).with_args(rest),
        cli.with_args(seq!["--spike"@]) == (CliView { spike: Some(20), ..cli }),
        cli.with_args(seq!["--config"@]) == (CliView { config: None, ..cli }),
        value != "--spike"@ && value != "--config"@ ==> cli.with_args(seq![value] + rest)
            == cli.with_args(seq![value]).with_args(rest),
{
    reveal_strlit("--spike");
    reveal_strlit("--config");
    assert("--spike"@[2] != "--config"@[2]);
    reveal_with_fuel(CliView::with_args, 2);
    let spike = seq!["--spike"@, value] + rest;
    let config = seq!["--config"@, value] + rest;
    let one = seq![value] + rest;
    assert(spike[0] == "--spike"@ && spike[1] == value && behind(spike, 2) =~= rest);
    assert(config[0] == "--config"@ && config[1] == value && behind(config, 2) =~= rest);
    assert(one[0] == value && behind(one, 1) =~= rest);
    assert(behind(seq![value], 1) =~= Seq::empty());
}

/// Without arguments nothing is asked for; the exit chord is armed in a debug
/// build. A kiosk is a launch that is neither windowed nor exits by itself, and
/// of those that do not exit by themselves the chord is armed where it is asked
/// for.
pub proof fn law_a_launch_is_a_kiosk_unless_asked(cli: CliView, debug_build: bool)
    ensures
        ({
            let bare = CliView::bare(debug_build);
            &&& !bare.sim && !bare.windowed && !bare.conformance && !bare.reader_probe
            &&& !bare.quit && !bare.exit_probe && bare.spike is None && bare.config is None
            &&& bare.dev_exit == debug_build
            &&& bare.kiosk()
            &&& bare.chord_armed() == debug_build
        }),
        cli.kiosk() <==> !cli.windowed && !cli.conformance && cli.spike is None
            && !cli.reader_probe && !cli.quit && !cli.exit_probe,
        cli.chord_armed() <==> cli.dev_exit && !cli.conformance && cli.spike is None
            && !cli.reader_probe && !cli.quit && !cli.exit_probe,
{
}

/// The view of a command line shows every field as it is.
pub proof fn law_a_command_line_is_shown_as_it_is(cli: Cli)
    ensures
        cli@.sim == cli.sim && cli@.windowed == cli.windowed && cli@.conformance
            == cli.conformance && cli@.spike == cli.spike && cli@.reader_probe
            == cli.reader_probe && cli@.dev_exit == cli.dev_exit && cli@.quit == cli.quit
            && cli@.exit_probe == cli.exit_probe,
        cli@.config is Some <==> cli.config is Some,
        cli.config matches Some(path) ==> cli@.config == Some(path@),
{
}

}
