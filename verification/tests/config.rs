use sema::config::{
    default_disk, default_disk_io, default_temperature, Config, ConfigFile, ConfigRead,
    LogFields, MetricConfig, MetricFields, NetworkConfig, NetworkFields, Severity, TimeFields,
    MAX_INTERVAL, MIN_COOLDOWN,
    MIN_INTERVAL,
};

#[test]
fn severity_warning_for_normal_value() {
    let cfg = MetricConfig { threshold: 5000, critical: None, ..Default::default() };
    assert_eq!(cfg.severity(3000, false), Severity::Warning);
}

#[test]
fn severity_critical_when_critical_threshold_exceeded() {
    let cfg = MetricConfig { threshold: 5000, critical: Some(8000), ..Default::default() };
    assert_eq!(cfg.severity(9000, false), Severity::Critical);
}

#[test]
fn severity_warning_below_critical_threshold() {
    let cfg = MetricConfig { threshold: 5000, critical: Some(8000), ..Default::default() };
    assert_eq!(cfg.severity(7000, false), Severity::Warning);
}

#[test]
fn severity_inverted_lower_is_more_severe() {
    let cfg = MetricConfig { threshold: 8400, critical: Some(2000), ..Default::default() };
    assert_eq!(cfg.severity(1000, true), Severity::Critical);
    assert_eq!(cfg.severity(5000, true), Severity::Warning);
}

#[test]
fn severity_no_critical_falls_back_to_warning() {
    let cfg = MetricConfig { threshold: 5000, critical: None, ..Default::default() };
    // Even very high values only get Warning if no critical is set
    assert_eq!(cfg.severity(9900, false), Severity::Warning);
}

#[test]
fn validate_clamps_check_interval() {
    let mut cfg = Config { check_interval_secs: 9999, ..Config::default() };
    cfg.validate();
    assert_eq!(cfg.check_interval_secs, MAX_INTERVAL);
}

#[test]
fn validate_clamps_min_check_interval() {
    let mut cfg = Config { check_interval_secs: 0, ..Config::default() };
    cfg.validate();
    assert_eq!(cfg.check_interval_secs, MIN_INTERVAL);
}

#[test]
fn validate_clamps_metric_threshold() {
    let mut m = MetricConfig { threshold: 99900, ..Default::default() };
    Config::validate_metric("test", &mut m, 0, 10000);
    assert_eq!(m.threshold, 10000);
}

#[test]
fn validate_clamps_critical_threshold() {
    let mut m = MetricConfig { threshold: 5000, critical: Some(99900), ..Default::default() };
    Config::validate_metric("test", &mut m, 0, 10000);
    assert_eq!(m.critical, Some(10000));
}

#[test]
fn validate_clamps_cooldown_below_min() {
    let mut m = MetricConfig { cooldown_secs: 0, ..Default::default() };
    Config::validate_metric("test", &mut m, 0, 10000);
    assert_eq!(m.cooldown_secs, MIN_COOLDOWN);
}

#[test]
fn config_default_values() {
    let cfg = Config::default();
    assert_eq!(cfg.check_interval_secs, 10);
    assert!(cfg.cpu.enabled);
    assert_eq!(cfg.cpu.threshold, 5000);
    assert_eq!(cfg.cpu.cooldown_secs, 60);
    assert!(cfg.log.enabled);
    assert_eq!(cfg.time.cooldown_secs, 60);
}

#[test]
fn severity_emoji_mapping() {
    assert_eq!(Severity::Warning.emoji(), "⚠️");
    assert_eq!(Severity::Critical.emoji(), "🔴");
}

#[test]
fn metric_config_default_is_enabled() {
    let m = MetricConfig::default();
    assert!(m.enabled);
    assert_eq!(m.threshold, 5000);
    assert_eq!(m.cooldown_secs, 60);
    assert!(m.critical.is_none());
}

#[test]
fn temperature_default_has_critical() {
    let t = default_temperature();
    assert_eq!(t.critical, Some(9500));
}

#[test]
fn network_default_has_critical() {
    let n = NetworkConfig::default();
    assert_eq!(n.critical, Some(50000));
    assert!(n.exclude_loopback);
    assert!(n.include_interfaces.is_none());
}

#[test]
fn validate_clamps_negative_threshold_to_zero() {
    let mut m = MetricConfig { threshold: -500, critical: Some(-1), ..Default::default() };
    Config::validate_metric("test", &mut m, 0, 10000);
    assert_eq!(m.threshold, 0);
    assert_eq!(m.critical, Some(0));
}

#[test]
fn validate_keeps_values_in_range() {
    let mut m = MetricConfig { threshold: 4250, critical: Some(9000), cooldown_secs: 5, ..Default::default() };
    Config::validate_metric("test", &mut m, 0, 10000);
    assert_eq!(m.threshold, 4250);
    assert_eq!(m.critical, Some(9000));
    assert_eq!(m.cooldown_secs, 5);
}

#[test]
fn validate_twice_same_as_once() {
    let mut cfg = Config { check_interval_secs: 0, ..Config::default() };
    cfg.temperature.threshold = 20000;
    cfg.network.threshold = -7;
    cfg.network.cooldown_secs = 0;
    cfg.time.cooldown_secs = 0;
    cfg.validate();
    let once = (
        cfg.check_interval_secs,
        cfg.temperature.threshold,
        cfg.network.threshold,
        cfg.network.cooldown_secs,
        cfg.time.cooldown_secs,
    );
    assert_eq!(once, (1, 15000, 0, 1, 1));
    cfg.validate();
    let twice = (
        cfg.check_interval_secs,
        cfg.temperature.threshold,
        cfg.network.threshold,
        cfg.network.cooldown_secs,
        cfg.time.cooldown_secs,
    );
    assert_eq!(once, twice);
}

#[test]
fn network_clamped_to_its_own_range() {
    let mut cfg = Config::default();
    cfg.network.threshold = 200_000_000;
    cfg.network.critical = Some(300_000_000);
    cfg.validate();
    assert_eq!(cfg.network.threshold, 100_000_000);
    assert_eq!(cfg.network.critical, Some(100_000_000));
}

#[test]
fn other_metric_defaults() {
    assert_eq!(default_disk().threshold, 9000);
    assert_eq!(default_disk().critical, Some(9500));
    assert_eq!(default_disk_io().threshold, 3000);
    assert_eq!(default_disk_io().critical, Some(8000));
    let cfg = Config::default();
    assert_eq!(cfg.swap.threshold, 8000);
    assert_eq!(cfg.battery.threshold, 8400);
    assert_eq!(cfg.memory.threshold, 5000);
    assert_eq!(cfg.time.minutes, vec![0u8, 30u8]);
    assert_eq!(cfg.recovery_cooldown_secs, 60);
}

fn empty_file() -> ConfigFile {
    ConfigFile {
        check_interval_secs: None,
        disk: None,
        cpu: None,
        memory: None,
        swap: None,
        battery: None,
        time: None,
        temperature: None,
        network: None,
        disk_io: None,
        log: None,
        recovery_cooldown_secs: None,
    }
}

#[test]
fn file_sections_override_defaults_then_validated() {
    let mut raw = empty_file();
    raw.check_interval_secs = Some(5000);
    raw.cpu = Some(MetricFields { threshold: Some(12345), cooldown_secs: Some(0), ..Default::default() });
    raw.log = Some(LogFields { enabled: Some(false) });
    raw.time = Some(TimeFields { enabled: Some(false), cooldown_secs: Some(0), minutes: Some(vec![15]) });
    let cfg = Config::from_file(raw);
    assert_eq!(cfg.check_interval_secs, 3600);
    assert_eq!(cfg.cpu.threshold, 10000);
    assert_eq!(cfg.cpu.cooldown_secs, 1);
    assert!(!cfg.log.enabled);
    assert!(!cfg.time.enabled);
    assert_eq!(cfg.time.cooldown_secs, 1);
    assert_eq!(cfg.time.minutes, vec![15u8]);
    assert_eq!(cfg.swap.threshold, 8000);
    assert_eq!(cfg.disk.critical, Some(9500));
}

#[test]
fn missing_fields_take_the_section_default() {
    let mut raw = empty_file();
    raw.battery = Some(MetricFields { enabled: Some(false), ..Default::default() });
    raw.disk = Some(MetricFields { threshold: Some(8000), ..Default::default() });
    raw.network = Some(NetworkFields {
        enabled: None,
        threshold: Some(20000),
        critical: None,
        cooldown_secs: None,
        exclude_loopback: None,
        include_interfaces: None,
    });
    raw.time = Some(TimeFields { enabled: None, cooldown_secs: Some(120), minutes: None });
    raw.log = Some(LogFields { enabled: None });
    let cfg = Config::from_file(raw);
    assert!(!cfg.battery.enabled);
    assert_eq!(cfg.battery.threshold, 8400);
    assert_eq!(cfg.battery.cooldown_secs, 60);
    assert_eq!(cfg.disk.threshold, 8000);
    assert_eq!(cfg.disk.critical, Some(9500));
    assert!(cfg.disk.enabled);
    assert_eq!(cfg.network.threshold, 20000);
    assert_eq!(cfg.network.critical, Some(50000));
    assert!(cfg.network.exclude_loopback);
    assert!(cfg.time.enabled);
    assert_eq!(cfg.time.cooldown_secs, 120);
    assert_eq!(cfg.time.minutes, vec![0u8, 30u8]);
    assert!(cfg.log.enabled);
}

#[test]
fn missing_file_gives_defaults() {
    let cfg = Config::from_read(ConfigRead::Missing, true).ok().unwrap();
    assert_eq!(cfg.check_interval_secs, 10);
    assert_eq!(cfg.network.threshold, 10000);
}

#[test]
fn strict_load_refuses_bad_files() {
    match Config::from_read(ConfigRead::TooLarge(2_000_000), true) {
        Err(m) => assert_eq!(m, "config file too large (2000000 bytes, max 1048576)"),
        Ok(_) => panic!("a too large file must be refused"),
    }
    match Config::from_read(ConfigRead::Malformed("bad key".to_string()), true) {
        Err(m) => assert_eq!(m, "config parse failed: bad key"),
        Ok(_) => panic!("a malformed file must be refused"),
    }
    match Config::from_read(ConfigRead::Unreadable("denied".to_string()), true) {
        Err(m) => assert_eq!(m, "cannot read config: denied"),
        Ok(_) => panic!("an unreadable file must be refused"),
    }
}

#[test]
fn lenient_load_falls_back_to_defaults() {
    let cfg = Config::from_read(ConfigRead::Malformed("bad".to_string()), false).ok().unwrap();
    assert_eq!(cfg.cpu.threshold, 5000);
    let cfg = Config::from_read(ConfigRead::TooLarge(5), false).ok().unwrap();
    assert_eq!(cfg.check_interval_secs, 10);
}

#[test]
fn config_size_limit() {
    assert!(sema::config::config_size_acceptable(1_048_576));
    assert!(!sema::config::config_size_acceptable(1_048_577));
}

#[test]
fn default_config_text_lists_every_section() {
    let t = sema::config::default_config_text();
    let table: toml::Table = t.parse().unwrap();
    assert_eq!(table["check_interval_secs"].as_integer(), Some(10));
    for section in ["disk", "cpu", "memory", "swap", "battery", "time", "temperature", "network", "disk_io", "log"] {
        assert!(table.contains_key(section), "missing section {section}");
    }
    assert_eq!(table["battery"]["threshold"].as_float(), Some(84.0));
    assert_eq!(table["network"]["critical"].as_float(), Some(500.0));
    assert!(t.contains("threshold"));
}

fn section_matches(table: &toml::Table, name: &str, m: &MetricConfig) {
    let sec = table[name].as_table().unwrap();
    assert_eq!(sec["enabled"].as_bool(), Some(m.enabled), "{name}");
    assert_eq!((sec["threshold"].as_float().unwrap() * 100.0).round() as i64, m.threshold, "{name}");
    assert_eq!(sec.get("critical").map(|v| (v.as_float().unwrap() * 100.0).round() as i64), m.critical, "{name}");
    assert_eq!(sec["cooldown_secs"].as_integer(), Some(m.cooldown_secs as i64), "{name}");
}

#[test]
fn default_config_text_spells_out_the_defaults() {
    let table: toml::Table = sema::config::default_config_text().parse().unwrap();
    let d = Config::default();
    assert_eq!(table["check_interval_secs"].as_integer(), Some(d.check_interval_secs as i64));
    section_matches(&table, "disk", &d.disk);
    section_matches(&table, "cpu", &d.cpu);
    section_matches(&table, "memory", &d.memory);
    section_matches(&table, "swap", &d.swap);
    section_matches(&table, "battery", &d.battery);
    section_matches(&table, "temperature", &d.temperature);
    section_matches(&table, "disk_io", &d.disk_io);
    let net = table["network"].as_table().unwrap();
    assert_eq!(net["enabled"].as_bool(), Some(d.network.enabled));
    assert_eq!((net["threshold"].as_float().unwrap() * 100.0).round() as i64, d.network.threshold);
    assert_eq!(net.get("critical").map(|v| (v.as_float().unwrap() * 100.0).round() as i64), d.network.critical);
    assert_eq!(net["cooldown_secs"].as_integer(), Some(d.network.cooldown_secs as i64));
    assert_eq!(net["exclude_loopback"].as_bool(), Some(d.network.exclude_loopback));
    assert!(!net.contains_key("include_interfaces"));
    let time = table["time"].as_table().unwrap();
    assert_eq!(time["enabled"].as_bool(), Some(d.time.enabled));
    assert_eq!(time["cooldown_secs"].as_integer(), Some(d.time.cooldown_secs as i64));
    assert_eq!(table["log"]["enabled"].as_bool(), Some(d.log.enabled));
}

#[test]
fn config_paths() {
    assert_eq!(sema::config::config_dir(Some("/x/cfg"), Some("/home/u")), "/x/cfg");
    assert_eq!(sema::config::config_dir(None, Some("/home/u")), "/home/u/.config");
    assert_eq!(sema::config::config_dir(None, None), "./.config");
    assert_eq!(sema::config::config_file_in("/home/u/.config"), "/home/u/.config/sema/config.toml");
    assert_eq!(sema::config::config_file_in("/cfg/"), "/cfg/sema/config.toml");
}
