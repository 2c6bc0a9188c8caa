use treasure_chest::bootstrap::{plan_layers, Bootstrap, InitError, LayerPlan};
use treasure_chest::filter::{filter_admits, target_filter, Severity};
use treasure_chest::Config;

const ALL_LEVELS: [Severity; 5] = [
    Severity::Error,
    Severity::Warn,
    Severity::Info,
    Severity::Debug,
    Severity::Trace,
];

fn plan_of(config: &Config) -> LayerPlan {
    match plan_layers(config) {
        Ok(plan) => plan,
        Err(e) => panic!("unexpected planning error {:?}", e),
    }
}

#[test]
fn tests() {
    let config = Config {
        file: true,
        ..Default::default()
    };
    let mut guard = Bootstrap::new();
    let plan = match guard.begin(&config) {
        Some(Ok(plan)) => plan,
        _ => panic!("the first initialisation must plan the layers"),
    };
    assert!(plan.console);
    assert_eq!(plan.file_dir.as_deref(), Some("logs"));
    assert!(plan.filter.is_none());
    for level in ALL_LEVELS {
        assert!(plan.admits("treasure_chest", level));
    }
}

#[test]
fn default_config_values() {
    let config = Config::default();
    assert!(config.console);
    assert!(!config.file);
    assert_eq!(config.file_dir, "logs");
    assert!(config.targets.is_empty());
    assert_eq!(config.level, "info");
}

#[test]
fn no_sink_is_refused() {
    let config = Config {
        console: false,
        file: false,
        ..Default::default()
    };
    assert!(matches!(plan_layers(&config), Err(InitError::NoSink)));
}

#[test]
fn no_sink_is_refused_even_with_targets() {
    let config = Config {
        console: false,
        file: false,
        targets: vec!["moduleA".to_string()],
        ..Default::default()
    };
    assert!(matches!(plan_layers(&config), Err(InitError::NoSink)));
}

#[test]
fn file_only_plan() {
    let config = Config {
        console: false,
        file: true,
        file_dir: "/var/log/svc".to_string(),
        ..Default::default()
    };
    let plan = plan_of(&config);
    assert!(!plan.console);
    assert_eq!(plan.file_dir.as_deref(), Some("/var/log/svc"));
    assert!(plan.filter.is_none());
}

#[test]
fn console_only_plan_has_no_file() {
    let plan = plan_of(&Config::default());
    assert!(plan.console);
    assert!(plan.file_dir.is_none());
}

#[test]
fn second_initialisation_is_a_no_op() {
    let first = Config::default();
    let second = Config {
        console: false,
        file: true,
        targets: vec!["other".to_string()],
        ..Default::default()
    };
    let mut guard = Bootstrap::new();
    let plan = match guard.begin(&first) {
        Some(Ok(plan)) => plan,
        _ => panic!("the first initialisation must plan the layers"),
    };
    assert!(plan.console);
    assert!(plan.file_dir.is_none());
    assert!(guard.started);
    assert!(guard.begin(&second).is_none());
    assert!(guard.started);
}

#[test]
fn failed_first_initialisation_still_claims_the_guard() {
    let none = Config {
        console: false,
        file: false,
        ..Default::default()
    };
    let mut guard = Bootstrap::new();
    assert!(matches!(guard.begin(&none), Some(Err(InitError::NoSink))));
    assert!(guard.begin(&Config::default()).is_none());
}

#[test]
fn single_target_filter() {
    let config = Config {
        targets: vec!["moduleA".to_string()],
        ..Default::default()
    };
    let plan = plan_of(&config);
    assert!(plan.filter.is_some());
    for level in ALL_LEVELS {
        assert!(plan.admits("moduleA", level));
        assert!(plan.admits("moduleA::inner", level));
        assert!(!plan.admits("moduleB", level));
        assert!(!plan.admits("module", level));
        assert!(!plan.admits("", level));
    }
}

#[test]
fn no_targets_admit_everything() {
    let plan = plan_of(&Config::default());
    for level in ALL_LEVELS {
        assert!(plan.admits("moduleA", level));
        assert!(plan.admits("anything::else", level));
    }
}

#[test]
fn several_targets_filter() {
    let targets = vec!["alpha".to_string(), "beta::io".to_string(), "alpha".to_string()];
    let filter = target_filter(&targets);
    assert!(filter_admits(&filter, "alpha", Severity::Trace));
    assert!(filter_admits(&filter, "beta::io::tcp", Severity::Debug));
    assert!(!filter_admits(&filter, "beta", Severity::Error));
    assert!(!filter_admits(&filter, "gamma", Severity::Info));
}

#[test]
fn empty_target_list_filter_admits_nothing() {
    let filter = target_filter(&Vec::new());
    assert!(!filter_admits(&filter, "alpha", Severity::Error));
    assert!(!filter_admits(&filter, "", Severity::Trace));
}
