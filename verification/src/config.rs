//! Configuration of cause collection: profile defaults, the process-wide
//! configuration, per-report options, and how a value is resolved from them.

use vstd::prelude::*;

verus! {

/// The build profile a default depends on.
#[derive(Debug, Clone, Copy, PartialEq, Eq, Structural)]
pub enum BuildProfile {
    /// Debug assertions are enabled.
    Debug,
    /// Debug assertions are disabled.
    Release,
}

/// The depth limit every profile uses.
pub const DEFAULT_MAX_DEPTH: usize = 16;

/// Profile-dependent defaults of the configuration options.
pub struct ProfileDefaults;

impl ProfileDefaults {
    /// Source chains are accumulated by default in debug builds only.
    pub fn accumulate_source_chain(profile: BuildProfile) -> (r: bool)
        ensures
            r == (profile == BuildProfile::Debug),
    {
        match profile {
            BuildProfile::Debug => true,
            BuildProfile::Release => false,
        }
    }

    /// Cycles are detected by default in debug builds only.
    pub fn detect_cycle(profile: BuildProfile) -> (r: bool)
        ensures
            r == (profile == BuildProfile::Debug),
    {
        match profile {
            BuildProfile::Debug => true,
            BuildProfile::Release => false,
        }
    }

    /// The default depth limit, the same in every profile.
    pub fn max_depth() -> (r: usize)
        ensures
            r == DEFAULT_MAX_DEPTH,
    {
        DEFAULT_MAX_DEPTH
    }
}

/// Where a resolved configuration value came from.
#[derive(Debug, Clone, Copy, PartialEq, Eq, Structural)]
pub enum ConfigSource {
    /// Set on the report itself.
    Report,
    /// Taken from the process-wide configuration.
    Global,
    /// The profile default.
    Profile,
}

/// A resolved configuration value together with its source.
#[derive(Debug, Clone, Copy, PartialEq, Eq)]
pub struct ResolvedValue<T> {
    pub value: T,
    pub source: ConfigSource,
}

impl<T> ResolvedValue<T> {
    /// Pairs a value with its source.
    pub fn new(value: T, source: ConfigSource) -> (r: Self)
        ensures
            r.value == value,
            r.source == source,
    {
        ResolvedValue { value, source }
    }

    /// The resolved value.
    pub fn into_value(self) -> (r: T)
        ensures
            r == self.value,
    {
        self.value
    }
}

/// Process-wide defaults for the report options.
#[derive(Debug, Clone, Copy, PartialEq, Eq, Structural)]
pub struct GlobalConfig {
    pub accumulate_source_chain: bool,
    pub max_depth: usize,
    pub detect_cycle: bool,
}

impl GlobalConfig {
    /// The configuration made of the profile defaults.
    pub fn new(profile: BuildProfile) -> (r: Self)
        ensures
            r.accumulate_source_chain == (profile == BuildProfile::Debug),
            r.detect_cycle == (profile == BuildProfile::Debug),
            r.max_depth == DEFAULT_MAX_DEPTH,
    {
        GlobalConfig {
            accumulate_source_chain: ProfileDefaults::accumulate_source_chain(profile),
            max_depth: ProfileDefaults::max_depth(),
            detect_cycle: ProfileDefaults::detect_cycle(profile),
        }
    }

    /// Replaces the default for source-chain accumulation.
    pub fn with_accumulate_source_chain(self, accumulate: bool) -> (r: Self)
        ensures
            r == (GlobalConfig { accumulate_source_chain: accumulate, ..self }),
    {
        GlobalConfig { accumulate_source_chain: accumulate, ..self }
    }

    /// Replaces the default depth limit.
    pub fn with_max_depth(self, max_depth: usize) -> (r: Self)
        ensures
            r == (GlobalConfig { max_depth: max_depth, ..self }),
    {
        GlobalConfig { max_depth, ..self }
    }

    /// Replaces the default for cycle detection.
    pub fn with_cycle_detection(self, detect_cycle: bool) -> (r: Self)
        ensures
            r == (GlobalConfig { detect_cycle: detect_cycle, ..self }),
    {
        GlobalConfig { detect_cycle, ..self }
    }

    pub fn resolve_accumulate_source_chain_with_source(&self) -> (r: ResolvedValue<bool>)
        ensures
            r.value == self.accumulate_source_chain,
            r.source == ConfigSource::Global,
    {
        ResolvedValue::new(self.accumulate_source_chain, ConfigSource::Global)
    }

    pub fn resolve_max_depth_with_source(&self) -> (r: ResolvedValue<usize>)
        ensures
            r.value == self.max_depth,
            r.source == ConfigSource::Global,
    {
        ResolvedValue::new(self.max_depth, ConfigSource::Global)
    }

    pub fn resolve_detect_cycle_with_source(&self) -> (r: ResolvedValue<bool>)
        ensures
            r.value == self.detect_cycle,
            r.source == ConfigSource::Global,
    {
        ResolvedValue::new(self.detect_cycle, ConfigSource::Global)
    }

    pub fn resolve_accumulate_source_chain(&self) -> (r: bool)
        ensures
            r == self.accumulate_source_chain,
    {
        self.accumulate_source_chain
    }

    pub fn resolve_max_depth(&self) -> (r: usize)
        ensures
            r == self.max_depth,
    {
        self.max_depth
    }

    pub fn resolve_detect_cycle(&self) -> (r: bool)
        ensures
            r == self.detect_cycle,
    {
        self.detect_cycle
    }
}

/// The configuration was already set.
#[derive(Debug, Clone, Copy, PartialEq, Eq, Structural)]
pub struct SetGlobalConfigError;

/// A write-once cell holding the process-wide configuration.
#[derive(Debug, Clone, Copy, PartialEq, Eq, Structural)]
pub struct GlobalConfigCell {
    pub value: Option<GlobalConfig>,
}

impl GlobalConfigCell {
    /// A cell that has not been set.
    pub fn new() -> (r: Self)
        ensures
            r.value is None,
    {
        GlobalConfigCell { value: None }
    }

    /// The configuration in force: the one set, or else the profile
    /// defaults, which are then fixed in the cell.
    pub fn global(&mut self, profile: BuildProfile) -> (r: GlobalConfig)
        ensures
            old(self).value matches Some(c) ==> r == c && *final(self) == *old(self),
            old(self).value is None ==> r == GlobalConfig::new_spec(profile) && final(self).value == Some(r),
    {
        match self.value {
            Some(c) => c,
            None => {
                let c = GlobalConfig::new(profile);
                self.value = Some(c);
                c
            },
        }
    }

    /// Sets the configuration once; a later attempt fails and changes
    /// nothing.
    pub fn set(&mut self, config: GlobalConfig) -> (r: Result<(), SetGlobalConfigError>)
        ensures
            old(self).value is None ==> r is Ok && final(self).value == Some(config),
            old(self).value is Some ==> r is Err && *final(self) == *old(self),
    {
        match self.value {
            Some(_) => Err(SetGlobalConfigError),
            None => {
                self.value = Some(config);
                Ok(())
            },
        }
    }
}

impl GlobalConfig {
    /// The configuration made of the profile defaults.
    pub open spec fn new_spec(profile: BuildProfile) -> GlobalConfig {
        GlobalConfig {
            accumulate_source_chain: profile == BuildProfile::Debug,
            max_depth: DEFAULT_MAX_DEPTH,
            detect_cycle: profile == BuildProfile::Debug,
        }
    }
}

/// Sets the process-wide configuration held in `cell`; fails when it was
/// set before.
pub fn set_global_config(cell: &mut GlobalConfigCell, config: GlobalConfig) -> (r: Result<(), SetGlobalConfigError>)
    ensures
        old(cell).value is None ==> r is Ok && final(cell).value == Some(config),
        old(cell).value is Some ==> r is Err && *final(cell) == *old(cell),
{
    cell.set(config)
}

/// Options a report carries; unset fields are taken from the process-wide
/// configuration.
#[derive(Debug, Clone, Copy, PartialEq, Eq, Structural)]
pub struct ReportOptions {
    pub accumulate_source_chain: Option<bool>,
    pub max_depth: Option<usize>,
    pub detect_cycle: Option<bool>,
}

/// Options for collecting causes: a depth limit and whether cycles are
/// detected.
#[derive(Debug, Clone, Copy, PartialEq, Eq, Structural)]
pub struct CauseCollectOptions {
    pub max_depth: usize,
    pub detect_cycle: bool,
}

impl CauseCollectOptions {
    /// The profile defaults.
    pub fn default_for(profile: BuildProfile) -> (r: Self)
        ensures
            r.max_depth == DEFAULT_MAX_DEPTH,
            r.detect_cycle == (profile == BuildProfile::Debug),
    {
        CauseCollectOptions {
            max_depth: ProfileDefaults::max_depth(),
            detect_cycle: ProfileDefaults::detect_cycle(profile),
        }
    }
}

/// A report-level value wins over the process-wide one.
pub open spec fn resolve_option<T>(report: Option<T>, global: T) -> ResolvedValue<T> {
    match report {
        Some(v) => ResolvedValue { value: v, source: ConfigSource::Report },
        None => ResolvedValue { value: global, source: ConfigSource::Global },
    }
}

impl Default for ReportOptions {
    /// Options with every field unset, as [`ReportOptions::new`] gives.
    fn default() -> (r: Self)
        ensures
            r == (ReportOptions { accumulate_source_chain: None, max_depth: None, detect_cycle: None }),
    {
        ReportOptions::new()
    }
}

impl ReportOptions {
    /// Options with every field unset.
    pub fn new() -> (r: Self)
        ensures
            r.accumulate_source_chain is None,
            r.max_depth is None,
            r.detect_cycle is None,
    {
        ReportOptions { accumulate_source_chain: None, max_depth: None, detect_cycle: None }
    }

    pub fn with_accumulate_source_chain(self, accumulate: bool) -> (r: Self)
        ensures
            r == (ReportOptions { accumulate_source_chain: Some(accumulate), ..self }),
    {
        ReportOptions { accumulate_source_chain: Some(accumulate), ..self }
    }

    pub fn with_max_depth(self, max_depth: usize) -> (r: Self)
        ensures
            r == (ReportOptions { max_depth: Some(max_depth), ..self }),
    {
        ReportOptions { max_depth: Some(max_depth), ..self }
    }

    pub fn with_cycle_detection(self, detect_cycle: bool) -> (r: Self)
        ensures
            r == (ReportOptions { detect_cycle: Some(detect_cycle), ..self }),
    {
        ReportOptions { detect_cycle: Some(detect_cycle), ..self }
    }

    /// Source-chain accumulation: the report's own setting, else the
    /// process-wide one.
    pub fn resolve_accumulate_source_chain_with_source(&self, global: &GlobalConfig) -> (r: ResolvedValue<bool>)
        ensures
            r == resolve_option(self.accumulate_source_chain, global.accumulate_source_chain),
    {
        match self.accumulate_source_chain {
            Some(v) => ResolvedValue::new(v, ConfigSource::Report),
            None => global.resolve_accumulate_source_chain_with_source(),
        }
    }

    /// The depth limit: the report's own setting, else the process-wide one.
    pub fn resolve_max_depth_with_source(&self, global: &GlobalConfig) -> (r: ResolvedValue<usize>)
        ensures
            r == resolve_option(self.max_depth, global.max_depth),
    {
        match self.max_depth {
            Some(v) => ResolvedValue::new(v, ConfigSource::Report),
            None => global.resolve_max_depth_with_source(),
        }
    }

    /// Cycle detection: the report's own setting, else the process-wide one.
    pub fn resolve_detect_cycle_with_source(&self, global: &GlobalConfig) -> (r: ResolvedValue<bool>)
        ensures
            r == resolve_option(self.detect_cycle, global.detect_cycle),
    {
        match self.detect_cycle {
            Some(v) => ResolvedValue::new(v, ConfigSource::Report),
            None => global.resolve_detect_cycle_with_source(),
        }
    }

    pub fn resolve_accumulate_source_chain(&self, global: &GlobalConfig) -> (r: bool)
        ensures
            r == resolve_option(self.accumulate_source_chain, global.accumulate_source_chain).value,
    {
        self.resolve_accumulate_source_chain_with_source(global).value
    }

    pub fn resolve_max_depth(&self, global: &GlobalConfig) -> (r: usize)
        ensures
            r == resolve_option(self.max_depth, global.max_depth).value,
    {
        self.resolve_max_depth_with_source(global).value
    }

    pub fn resolve_detect_cycle(&self, global: &GlobalConfig) -> (r: bool)
        ensures
            r == resolve_option(self.detect_cycle, global.detect_cycle).value,
    {
        self.resolve_detect_cycle_with_source(global).value
    }

    /// The collection options these report options resolve to.
    pub fn as_cause_options(&self, global: &GlobalConfig) -> (r: CauseCollectOptions)
        ensures
            r.max_depth == resolve_option(self.max_depth, global.max_depth).value,
            r.detect_cycle == resolve_option(self.detect_cycle, global.detect_cycle).value,
    {
        CauseCollectOptions {
            max_depth: self.resolve_max_depth(global),
            detect_cycle: self.resolve_detect_cycle(global),
        }
    }
}

/// A value set on the report always wins, whatever the process-wide
/// configuration says; an unset one always follows the process-wide value.
pub proof fn lemma_report_option_priority<T>(report: Option<T>, g1: T, g2: T)
    ensures
        report is Some ==> resolve_option(report, g1) == resolve_option(report, g2),
        report is None ==> resolve_option(report, g1).value == g1 && resolve_option(report, g1).source == ConfigSource::Global,
{
}

} // verus!
