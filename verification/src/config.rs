//! Station deployment configuration. Everything here is fixed for the process
//! lifetime: the page reads it once at boot.

use crate::contract::FailBinSide;
use crate::keying::SimPolicy;
use vstd::prelude::*;

verus! {

/// What happens when a tap arrives with the batch already at or past its
/// total. Keying consumes chips, so this is a licensing and inventory policy
/// and not a display choice: the page always shows the true numbers.
#[derive(Debug, Clone, Copy, PartialEq, Eq, Structural)]
pub enum OverrunPolicy {
    /// Keep keying and counting; every overrun success leaves an overrun
    /// record.
    Allow,
    /// Presentations past the total lead to no keying call and no verdict.
    Block,
}

#[derive(Debug)]
pub struct StationConfig {
    pub fail_bin_side: FailBinSide,
    /// Substring that selects this station's reader.
    pub reader_match: String,
    pub overrun_policy: OverrunPolicy,
    /// Operator-string overrides, handed to the page as they are.
    pub strings: Option<serde_json::Value>,
    pub sim: SimConfig,
}

#[derive(Debug, Clone, Copy, PartialEq, Eq, Structural)]
pub struct SimConfig {
    pub weight_keyed: u32,
    pub weight_recoverable: u32,
    pub weight_permanent: u32,
    pub latency_ms: u64,
}

#[verifier::ext_equal]
pub ghost struct ConfigView {
    pub fail_bin_side: FailBinSide,
    pub reader_match: Seq<char>,
    pub overrun_policy: OverrunPolicy,
    pub strings: Option<serde_json::Value>,
    pub sim: SimConfig,
}

impl View for StationConfig {
    type V = ConfigView;

    open spec fn view(&self) -> ConfigView {
        ConfigView {
            fail_bin_side: self.fail_bin_side,
            reader_match: self.reader_match@,
            overrun_policy: self.overrun_policy,
            strings: self.strings,
            sim: self.sim,
        }
    }
}

impl ConfigView {
    /// The built-in configuration.
    pub open spec fn built_in() -> ConfigView {
        ConfigView {
            fail_bin_side: FailBinSide::Right,
            reader_match: "uTrust 3700"@,
            overrun_policy: OverrunPolicy::Allow,
            strings: None,
            sim: SimConfig::built_in(),
        }
    }
}

impl SimConfig {
    pub open spec fn built_in() -> SimConfig {
        SimConfig {
            weight_keyed: 85,
            weight_recoverable: 12,
            weight_permanent: 3,
            latency_ms: 250,
        }
    }

    /// The policy that the simulated keying layer starts with. Under
    /// conformance it answers at once.
    pub fn policy(&self, conformance: bool) -> (policy: SimPolicy)
        ensures
            policy == (SimPolicy {
                weight_keyed: self.weight_keyed,
                weight_recoverable: self.weight_recoverable,
                weight_permanent: self.weight_permanent,
                latency_ms: if conformance {
                    0
                } else {
                    self.latency_ms
                },
                ..SimPolicy::initial()
            }),
    {
        SimPolicy {
            weight_keyed: self.weight_keyed,
            weight_recoverable: self.weight_recoverable,
            weight_permanent: self.weight_permanent,
            latency_ms: if conformance {
                0
            } else {
                self.latency_ms
            },
            ..SimPolicy::default()
        }
    }
}

impl Default for SimConfig {
    fn default() -> (config: SimConfig)
        ensures
            config == SimConfig::built_in(),
    {
        SimConfig { weight_keyed: 85, weight_recoverable: 12, weight_permanent: 3, latency_ms: 250 }
    }
}

impl Default for StationConfig {
    fn default() -> (config: StationConfig)
        ensures
            config@ == ConfigView::built_in(),
    {
        StationConfig {
            fail_bin_side: FailBinSide::Right,
            reader_match: "uTrust 3700".to_owned(),
            overrun_policy: OverrunPolicy::Allow,
            strings: None,
            sim: SimConfig::default(),
        }
    }
}

/// The file to read the configuration from: the one that was asked for,
/// whether or not it exists; else the one beside the executable and else the
/// one in the working directory, as far as they exist. With none of them the
/// built-in configuration holds.
pub fn config_file(
    explicit: Option<String>,
    beside_exe: Option<String>,
    in_working_dir: Option<String>,
) -> (path: Option<String>)
    ensures
        path == match (explicit, beside_exe, in_working_dir) {
            (Some(p), _, _) => Some(p),
            (None, Some(p), _) => Some(p),
            (None, None, p) => p,
        },
{
    match explicit {
        Some(p) => Some(p),
        None => match beside_exe {
            Some(p) => Some(p),
            None => in_working_dir,
        },
    }
}

impl StationConfig {
    /// The configuration in force: the one that was read, or the built-in one
    /// where there was no file or it could not be read.
    pub fn load(read: Option<StationConfig>) -> (config: StationConfig)
        ensures
            match read {
                Some(c) => config == c,
                None => config@ == ConfigView::built_in(),
            },
    {
        match read {
            Some(c) => c,
            None => StationConfig::default(),
        }
    }
}

/// Without a configuration file the station fails to the right, watches the
/// usual reader, keeps keying past a total, overrides no text, and simulates
/// mostly successes.
pub proof fn law_the_built_in_configuration_is_usable(config: StationConfig)
    requires
        call_ensures(StationConfig::load, (None::<StationConfig>,), config),
    ensures
        config.fail_bin_side == FailBinSide::Right,
        config.reader_match@ == "uTrust 3700"@,
        config.overrun_policy == OverrunPolicy::Allow,
        config.strings is None,
        config.sim.weight_keyed == 85,
        config.sim.weight_recoverable == 12,
        config.sim.weight_permanent == 3,
        config.sim.latency_ms == 250,
{
}

/// A configuration that was read is in force as it is.
pub proof fn law_a_configuration_is_taken_whole(read: StationConfig, config: StationConfig)
    requires
        call_ensures(StationConfig::load, (Some(read),), config),
    ensures
        config == read,
{
}

/// The file that was asked for comes before the one beside the executable, and
/// that before the one in the working directory.
pub proof fn law_the_nearest_file_is_read(
    explicit: Option<String>,
    beside_exe: Option<String>,
    in_working_dir: Option<String>,
    path: Option<String>,
)
    requires
        call_ensures(config_file, (explicit, beside_exe, in_working_dir), path),
    ensures
        explicit is Some ==> path == explicit,
        explicit is None && beside_exe is Some ==> path == beside_exe,
        explicit is None && beside_exe is None ==> path == in_working_dir,
{
}

/// The simulated layer starts ready, with nothing forced and no chip that
/// sticks, and with the configured weights; it waits as configured, except
/// under conformance, where it answers at once.
pub proof fn law_the_first_policy_is_the_configured_one(
    config: SimConfig,
    conformance: bool,
    policy: SimPolicy,
)
    requires
        call_ensures(SimConfig::policy, (&config, conformance), policy),
    ensures
        policy.weight_keyed == config.weight_keyed,
        policy.weight_recoverable == config.weight_recoverable,
        policy.weight_permanent == config.weight_permanent,
        conformance ==> policy.latency_ms == 0,
        !conformance ==> policy.latency_ms == config.latency_ms,
        policy.forced_next is None,
        policy.sticky_chip is None,
        policy.ready,
{
}

/// The view of a configuration shows every field as it is.
pub proof fn law_a_configuration_is_shown_as_it_is(config: StationConfig)
    ensures
        config@.fail_bin_side == config.fail_bin_side && config@.reader_match
            == config.reader_match@ && config@.overrun_policy == config.overrun_policy
            && config@.strings == config.strings && config@.sim == config.sim,
{
}

}
