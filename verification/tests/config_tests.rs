use diagweave::config::{
    BuildProfile, CauseCollectOptions, ConfigSource, GlobalConfig, GlobalConfigCell, ProfileDefaults,
    ReportOptions, SetGlobalConfigError, set_global_config,
};

#[test]
fn test_profile_defaults() {
    assert!(ProfileDefaults::accumulate_source_chain(BuildProfile::Debug));
    assert!(ProfileDefaults::detect_cycle(BuildProfile::Debug));
    assert!(!ProfileDefaults::accumulate_source_chain(BuildProfile::Release));
    assert!(!ProfileDefaults::detect_cycle(BuildProfile::Release));
    assert_eq!(ProfileDefaults::max_depth(), 16);
}

#[test]
fn test_report_options_resolution() {
    let global = GlobalConfig::new(BuildProfile::Debug);
    let opts = ReportOptions::new();
    let resolved = opts.resolve_accumulate_source_chain_with_source(&global);
    assert_eq!(resolved.source, ConfigSource::Global);

    let opts_with_value = ReportOptions::new().with_accumulate_source_chain(true);
    let resolved = opts_with_value.resolve_accumulate_source_chain_with_source(&global);
    assert_eq!(resolved.source, ConfigSource::Report);
    assert!(resolved.value);
}

#[test]
fn test_cause_collect_options_default() {
    let opts = CauseCollectOptions::default_for(BuildProfile::Debug);
    assert_eq!(opts.max_depth, 16);
}

#[test]
fn report_options_win_over_global_values() {
    let global = GlobalConfig::new(BuildProfile::Release)
        .with_max_depth(4)
        .with_cycle_detection(true);
    let opts = ReportOptions::new().with_max_depth(9);
    assert_eq!(opts.resolve_max_depth(&global), 9);
    assert!(opts.resolve_detect_cycle(&global));
    assert!(!opts.resolve_accumulate_source_chain(&global));
    let depth = opts.resolve_max_depth_with_source(&global);
    assert_eq!(depth.source, ConfigSource::Report);
    let cycle = opts.resolve_detect_cycle_with_source(&global);
    assert_eq!(cycle.source, ConfigSource::Global);
}

#[test]
fn global_config_is_set_once() {
    let mut cell = GlobalConfigCell::new();
    let first = GlobalConfig::new(BuildProfile::Release).with_max_depth(3);
    assert_eq!(set_global_config(&mut cell, first), Ok(()));
    let second = GlobalConfig::new(BuildProfile::Release).with_max_depth(5);
    assert_eq!(set_global_config(&mut cell, second), Err(SetGlobalConfigError));
    assert_eq!(cell.global(BuildProfile::Debug).max_depth, 3);
}

#[test]
fn global_config_defaults_to_profile() {
    let mut cell = GlobalConfigCell::new();
    let g = cell.global(BuildProfile::Debug);
    assert_eq!(g, GlobalConfig::new(BuildProfile::Debug));
    assert!(g.accumulate_source_chain);
    assert_eq!(g.max_depth, 16);
}
