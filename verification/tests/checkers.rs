use sema::checkers::battery::Battery;
use sema::checkers::cpu::Cpu;
use sema::checkers::disk::Disk;
use sema::checkers::disk_io::{read_iowait, DiskIo};
use sema::checkers::memory::Memory;
use sema::checkers::network::Network;
use sema::checkers::swap::Swap;
use sema::checkers::temperature::{is_cpu_sensor, Temperature};
use sema::checkers::time::TimeChecker;
use sema::checkers::{
    all_checkers, AnyChecker, BatteryReading, Checker, CheckerError, DiskReading,
    InterfaceReading, ProcStat, SensorReading, SysSnapshot,
};
use sema::config::{Config, MetricConfig, NetworkConfig, Severity, TimeConfig};

const MIB: u64 = 1 << 20;
const GIB: u64 = 1 << 30;

fn snapshot() -> SysSnapshot {
    SysSnapshot {
        cpu_usage: Some(0),
        mem_used: 0,
        mem_total: 0,
        mem_available: 0,
        swap_used: 0,
        swap_total: 0,
        load_one: 0,
        load_five: 0,
        load_fifteen: 0,
        disks: Vec::new(),
        sensors: Vec::new(),
        interfaces: Vec::new(),
        batteries: Vec::new(),
        proc_stat: ProcStat::Missing,
        now_us: 0,
        local_time: Some((0, 0)),
    }
}

#[test]
fn key_returns_battery() {
    let b = Battery::new(MetricConfig::default());
    assert_eq!(b.key(), "battery");
}

#[test]
fn battery_cooldown_returns_from_config() {
    let cfg = MetricConfig { cooldown_secs: 200, ..Default::default() };
    let b = Battery::new(cfg);
    assert_eq!(b.cooldown_secs(), 200);
}

#[test]
fn check_returns_none_when_no_batteries_found() {
    // Without batteries, check returns Ok(None)
    let mut b = Battery::new(MetricConfig::default());
    let snap = snapshot();
    let result = b.check(&snap).ok().unwrap();
    assert!(result.is_none());
}

#[test]
fn key_returns_cpu() {
    let c = Cpu::new(MetricConfig::default());
    assert_eq!(c.key(), "cpu");
}

#[test]
fn cpu_cooldown_returns_from_config() {
    let cfg = MetricConfig { cooldown_secs: 300, ..Default::default() };
    let c = Cpu::new(cfg);
    assert_eq!(c.cooldown_secs(), 300);
}

#[test]
fn key_returns_disk() {
    let d = Disk::new(MetricConfig::default());
    assert_eq!(d.key(), "disk");
}

#[test]
fn disk_cooldown_returns_from_config() {
    let cfg = MetricConfig { cooldown_secs: 150, ..Default::default() };
    let d = Disk::new(cfg);
    assert_eq!(d.cooldown_secs(), 150);
}

#[test]
fn key_returns_disk_io() {
    let d = DiskIo::new(MetricConfig::default());
    assert_eq!(d.key(), "disk_io");
}

#[test]
fn disk_io_cooldown_returns_from_config() {
    let cfg = MetricConfig { cooldown_secs: 90, ..Default::default() };
    let d = DiskIo::new(cfg);
    assert_eq!(d.cooldown_secs(), 90);
}

#[test]
fn key_returns_memory() {
    let m = Memory::new(MetricConfig::default());
    assert_eq!(m.key(), "memory");
}

#[test]
fn memory_cooldown_returns_from_config() {
    let cfg = MetricConfig { cooldown_secs: 120, ..Default::default() };
    let m = Memory::new(cfg);
    assert_eq!(m.cooldown_secs(), 120);
}

#[test]
fn key_returns_swap() {
    let s = Swap::new(MetricConfig::default());
    assert_eq!(s.key(), "swap");
}

#[test]
fn swap_cooldown_returns_from_config() {
    let cfg = MetricConfig { cooldown_secs: 90, ..Default::default() };
    let s = Swap::new(cfg);
    assert_eq!(s.cooldown_secs(), 90);
}

#[test]
fn key_returns_temperature() {
    let t = Temperature::new(MetricConfig::default());
    assert_eq!(t.key(), "temperature");
}

#[test]
fn is_cpu_sensor_filters_gpu_and_nvme() {
    assert!(!is_cpu_sensor("nvme0"));
    assert!(!is_cpu_sensor("amdgpu"));
    assert!(!is_cpu_sensor("GPU"));

    assert!(is_cpu_sensor("cpu0"));
    assert!(is_cpu_sensor("core0"));
    assert!(is_cpu_sensor("Package id 0"));
    assert!(is_cpu_sensor("Tctl"));
}

#[test]
fn key_returns_time() {
    let t = TimeChecker::new(TimeConfig::default());
    assert_eq!(t.key(), "time");
}

#[test]
fn time_cooldown_returns_from_config() {
    let cfg = TimeConfig { enabled: true, cooldown_secs: 120, ..Default::default() };
    let t = TimeChecker::new(cfg);
    assert_eq!(t.cooldown_secs(), 120);
}

#[test]
fn report_contains_time_format() {
    let t = TimeChecker::new(TimeConfig::default());
    let snap = snapshot();
    let report = t.report(&snap);
    assert!(report.starts_with("  Time"));
    assert!(report.contains(":00") && report.contains(":30"));
}

#[test]
fn cpu_alert_text() {
    let mut c = Cpu::new(MetricConfig::default());
    let mut snap = snapshot();
    snap.cpu_usage = Some(9512);
    snap.load_one = 123;
    snap.load_five = 45;
    snap.load_fifteen = 6;
    let a = c.check(&snap).ok().unwrap().unwrap();
    assert_eq!(a.severity, Severity::Warning);
    assert_eq!(a.summary, "⚠️ CPU overloaded");
    assert_eq!(a.body, "CPU: 95.1%\nIdle: 4.9%\nLoad: 1.23 0.45 0.06");
    assert_eq!(c.report_line(&snap), "  CPU       95.1%  load: 1.23 0.45 0.06  ⚠️");
    snap.cpu_usage = Some(5000);
    assert!(c.check(&snap).ok().unwrap().is_none());
    snap.cpu_usage = None;
    assert!(c.check(&snap).ok().unwrap().is_none());
    assert_eq!(c.report_line(&snap), "  CPU     N/A");
}

#[test]
fn memory_alert_text() {
    let mut m = Memory::new(MetricConfig::default());
    let mut snap = snapshot();
    snap.mem_total = 8 * GIB;
    snap.mem_used = 6 * GIB;
    snap.mem_available = 2 * GIB;
    let a = m.check(&snap).ok().unwrap().unwrap();
    assert_eq!(a.summary, "⚠️ Memory usage high");
    assert_eq!(a.body, "Memory: 75.0%\nAvailable: 2048MB / 8192MB");
    assert_eq!(
        m.report_line(&snap),
        "  Memory    75.0%  threshold:  50.0%  ⚠️  (6144MB / 8192MB)"
    );
    snap.mem_total = 0;
    assert!(m.check(&snap).ok().unwrap().is_none());
    assert_eq!(m.report_line(&snap), "  Memory    N/A  threshold: N/A");
}

#[test]
fn memory_counts_unavailable_when_asked() {
    let cfg = MetricConfig { use_available: true, ..Default::default() };
    let mut m = Memory::new(cfg);
    let mut snap = snapshot();
    snap.mem_total = 100 * MIB;
    snap.mem_used = 90 * MIB;
    snap.mem_available = 60 * MIB;
    // 40% counted as used: below the 50% threshold.
    assert!(m.check(&snap).ok().unwrap().is_none());
}

#[test]
fn swap_alert_text() {
    let mut s = Swap::new(MetricConfig { threshold: 8000, ..Default::default() });
    let mut snap = snapshot();
    snap.swap_total = 1024 * MIB;
    snap.swap_used = 900 * MIB;
    let a = s.check(&snap).ok().unwrap().unwrap();
    assert_eq!(a.body, "Swap: 900MB / 1024MB (87.9%, threshold: 80%)");
    snap.swap_total = 0;
    assert!(s.check(&snap).ok().unwrap().is_none());
    assert_eq!(s.report_line(&snap), "  Swap       N/A    threshold:  80.0%  -  (disabled)");
}

fn disk(mount: &str, total: u64, available: u64, is_dir: bool) -> DiskReading {
    DiskReading { mount: mount.to_string(), total, available, is_dir }
}

#[test]
fn disk_alert_on_fullest_mount() {
    let mut d = Disk::new(sema::config::default_disk());
    let mut snap = snapshot();
    snap.disks = vec![
        disk("/home", 200 * GIB, 100 * GIB, true),
        disk("/", 100 * GIB, 3 * GIB, true),
        disk("/etc/hosts", 10 * GIB, 0, false),
        disk("/empty", 0, 0, true),
    ];
    let a = d.check(&snap).ok().unwrap().unwrap();
    assert_eq!(a.severity, Severity::Critical);
    assert_eq!(a.summary, "🔴 Disk usage high");
    assert_eq!(a.body, "/: 97.0% (97.0GiB / 100.0GiB, threshold: 90%)");
    let idx = d.report_indices(&snap.disks);
    assert_eq!(idx, vec![0usize, 1usize]);
    assert_eq!(d.report_entry_head(&snap.disks[1]), "/ 97.0% (97.0/");
    assert_eq!(d.report_mark(&snap.disks), "🔴");
    let sizes: Vec<String> = vec!["200".into(), "100".into(), "10".into(), "0".into()];
    assert_eq!(
        d.report_line(&snap.disks, &sizes),
        "  Disk    🔴  [/home 50.0% (100.0/200GiB)  / 97.0% (97.0/100GiB)]"
    );
    assert_eq!(d.report_line(&Vec::new(), &Vec::new()), "  Disk    N/A");
    let only_files = vec![disk("/etc/hosts", 10 * GIB, 0, false)];
    assert_eq!(d.report_line(&only_files, &vec!["10".to_string()]), "  Disk    N/A");
}

#[test]
fn disk_mount_filters() {
    let cfg = MetricConfig {
        exclude_mounts: Some(vec!["/snap".to_string()]),
        include_mounts: Some(vec!["/s".to_string(), "/data".to_string()]),
        ..Default::default()
    };
    let d = Disk::new(cfg);
    assert!(!d.mount_allowed("/snap/core"));
    assert!(d.mount_allowed("/srv"));
    assert!(d.mount_allowed("/data/x"));
    assert!(!d.mount_allowed("/home"));
}

#[test]
fn disk_bind_mounts_listed_once() {
    let d = Disk::new(MetricConfig::default());
    let disks = vec![disk("/a", 10, 5, true), disk("/b", 10, 5, true), disk("/c", 10, 4, true)];
    assert_eq!(d.report_indices(&disks), vec![0usize, 2usize]);
}

#[test]
fn proc_stat_reading() {
    assert_eq!(read_iowait("cpu  100 0 100 1000 50 0 0 0 0 0\n").ok(), Some((50u64, 1250u64)));
    match read_iowait("") {
        Err(CheckerError::InvalidData(m)) => assert_eq!(m, "/proc/stat is empty"),
        _ => panic!("an empty line is refused"),
    }
    match read_iowait("cpu 1 2\n") {
        Err(CheckerError::InvalidData(m)) => assert_eq!(m, "unexpected /proc/stat format: 'cpu 1 2'"),
        _ => panic!("a short line is refused"),
    }
    match read_iowait("cpu0 1 2 3 4 5 6\n") {
        Err(CheckerError::InvalidData(m)) => {
            assert_eq!(m, "unexpected /proc/stat format: 'cpu0 1 2 3 4 5 6'")
        }
        _ => panic!("a line of one CPU is refused"),
    }
    match read_iowait("cpu 1 2 3 4 x 6") {
        Err(CheckerError::InvalidData(m)) => assert_eq!(m, "parse field 5: invalid digit found in string"),
        _ => panic!("a bad iowait field is refused"),
    }
    match read_iowait("cpu 1 2 3 4 99999999999999999999 6") {
        Err(CheckerError::InvalidData(m)) => {
            assert_eq!(m, "parse field 5: number too large to fit in target type")
        }
        _ => panic!("an iowait field too large is refused"),
    }
    // Unreadable fields other than iowait are left out of the total.
    assert_eq!(read_iowait("cpu 1 2 3 4 +5 z 6").ok(), Some((5u64, 21u64)));
}

#[test]
fn disk_io_deltas() {
    let mut d = DiskIo::new(sema::config::default_disk_io());
    let mut snap = snapshot();
    snap.proc_stat = ProcStat::Line("cpu  100 0 100 1000 50 0 0 0 0 0\n".to_string());
    assert!(d.check(&snap).ok().unwrap().is_none());
    assert_eq!(d.report(&snap), "  I/O Wait     —    threshold:  30.0%  ✓");
    snap.proc_stat = ProcStat::Line("cpu  200 0 200 1100 150 0 0 0 0 0\n".to_string());
    assert!(d.check(&snap).ok().unwrap().is_none());
    snap.proc_stat = ProcStat::Line("cpu  250 0 250 1150 350 0 0 0 0 0\n".to_string());
    let a = d.check(&snap).ok().unwrap().unwrap();
    assert_eq!(a.body, "I/O wait: 57.1% (threshold: 30%)");
    assert_eq!(a.severity, Severity::Warning);
    snap.proc_stat = ProcStat::Missing;
    assert!(d.check(&snap).ok().unwrap().is_none());
    snap.proc_stat = ProcStat::Failed("boom".to_string());
    match d.check(&snap) {
        Err(CheckerError::Io(m)) => assert_eq!(m, "boom"),
        _ => panic!("a failed read is an I/O error"),
    }
}

#[test]
fn disk_io_first_report_is_baseline() {
    let d = DiskIo::new(sema::config::default_disk_io());
    let mut snap = snapshot();
    snap.proc_stat = ProcStat::Line("cpu  1 2 3 4 5\n".to_string());
    assert_eq!(d.report(&snap), "  I/O Wait     —    threshold:  30.0%  ✓  (baseline)");
    snap.proc_stat = ProcStat::Missing;
    assert_eq!(d.report(&snap), "  I/O Wait N/A");
}

fn iface(name: &str, rx: u64, tx: u64) -> InterfaceReading {
    InterfaceReading { name: name.to_string(), received: rx, transmitted: tx }
}

#[test]
fn network_rate_alert() {
    let mut n = Network::new(NetworkConfig::default());
    let mut snap = snapshot();
    snap.interfaces = vec![iface("lo", 1_000_000_000, 1_000_000_000), iface("eth0", 0, 0)];
    snap.now_us = 5_000_000;
    assert!(n.check(&snap).ok().unwrap().is_none());
    snap.interfaces = vec![iface("lo", 9_000_000_000, 9_000_000_000), iface("eth0", 150 * MIB, 10 * MIB)];
    snap.now_us = 6_000_000;
    let a = n.check(&snap).ok().unwrap().unwrap();
    assert_eq!(a.summary, "⚠️ Network traffic high");
    assert_eq!(a.body, "↓ 150.0 ↑ 10.0 MB/s (threshold: 100 MB/s)");
    // 50 MB/s is below the threshold.
    snap.interfaces = vec![iface("lo", 0, 0), iface("eth0", 200 * MIB, 10 * MIB)];
    snap.now_us = 7_000_000;
    assert!(n.check(&snap).ok().unwrap().is_none());
}

#[test]
fn network_rate_at_threshold_is_quiet() {
    let mut n = Network::new(NetworkConfig::default());
    let mut snap = snapshot();
    snap.interfaces = vec![iface("eth0", 0, 0)];
    snap.now_us = 1_000_000;
    assert!(n.check(&snap).ok().unwrap().is_none());
    // Exactly 100 MB/s: not above the threshold.
    snap.interfaces = vec![iface("eth0", 60 * MIB, 40 * MIB)];
    snap.now_us = 2_000_000;
    assert!(n.check(&snap).ok().unwrap().is_none());
    // Just above it.
    snap.interfaces = vec![iface("eth0", 120 * MIB + 1, 80 * MIB)];
    snap.now_us = 3_000_000;
    assert!(n.check(&snap).ok().unwrap().is_some());
}

#[test]
fn network_interface_whitelist() {
    let cfg = NetworkConfig { include_interfaces: Some(vec!["wlan0".to_string()]), ..Default::default() };
    let n = Network::new(cfg);
    assert!(n.counts("wlan0"));
    assert!(!n.counts("eth0"));
    assert!(!n.counts("lo"));
    let all = Network::new(NetworkConfig { include_interfaces: Some(Vec::new()), exclude_loopback: false, ..Default::default() });
    assert!(all.counts("lo"));
    assert_eq!(n.totals(&vec![iface("wlan0", 5, 6), iface("eth0", 7, 8)]), (5, 6));
}

#[test]
fn network_report_lists_interfaces() {
    let n = Network::new(NetworkConfig::default());
    let mut snap = snapshot();
    assert_eq!(n.report(&snap), "  Network N/A");
    snap.interfaces = vec![iface("lo", 512, 2048), iface("eth0", 3 * MIB / 2, 5 * GIB)];
    assert_eq!(n.report(&snap), "  Network lo ↓512B ↑2.0KiB  eth0 ↓1.5MiB ↑5.0GiB");
}

fn battery(cap: Option<&str>, status: Option<&str>) -> BatteryReading {
    BatteryReading { capacity: cap.map(|s| s.to_string()), status: status.map(|s| s.to_string()) }
}

#[test]
fn battery_low_alert() {
    let cfg = MetricConfig { threshold: 8400, critical: Some(2000), ..Default::default() };
    let mut b = Battery::new(cfg);
    let mut snap = snapshot();
    snap.batteries = vec![battery(Some("15\n"), Some("Discharging\n"))];
    let a = b.check(&snap).ok().unwrap().unwrap();
    assert_eq!(a.severity, Severity::Critical);
    assert_eq!(a.summary, "🔴 Battery low");
    assert_eq!(a.body, "Battery: 15% (threshold: 84%)");
    assert_eq!(b.report(&snap), "  Battery     15%  threshold:  84.0%  🔴");
}

#[test]
fn battery_status_read_every_seventh_check() {
    let mut b = Battery::new(MetricConfig { threshold: 8400, ..Default::default() });
    let mut snap = snapshot();
    snap.batteries = vec![battery(Some("10"), Some("Charging")), battery(Some("90"), Some("Discharging"))];
    // The first check reads the status: the charging battery is skipped.
    assert!(b.check(&snap).ok().unwrap().is_none());
    assert_eq!(b.status_skip, 6);
    // The next six do not.
    for _ in 0..6 {
        assert!(b.check(&snap).ok().unwrap().is_some());
    }
    assert_eq!(b.status_skip, 0);
    assert!(b.check(&snap).ok().unwrap().is_none());
}

#[test]
fn battery_unreadable_capacity_skipped() {
    let b = Battery::new(MetricConfig::default());
    let mut snap = snapshot();
    snap.batteries = vec![battery(Some("abc"), None), battery(None, None), battery(Some(" 70000"), None)];
    assert_eq!(b.report(&snap), "  Battery    N/A    threshold:  50.0%  -  (not detected)");
    assert!(sema::checkers::battery::is_battery_type("Battery\n"));
    assert!(!sema::checkers::battery::is_battery_type("Mains\n"));
}

fn sensor(label: &str, t: Option<i64>) -> SensorReading {
    SensorReading { label: label.to_string(), temperature: t }
}

#[test]
fn temperature_hottest_cpu_sensor() {
    let mut t = Temperature::new(sema::config::default_temperature());
    let mut snap = snapshot();
    snap.sensors = vec![
        sensor("amdgpu edge", Some(9000)),
        sensor("Package id 0", Some(8550)),
        sensor("Core 0", Some(8720)),
        sensor("Core 1", None),
        sensor("nvme Composite", Some(9900)),
    ];
    let a = t.check(&snap).ok().unwrap().unwrap();
    assert_eq!(a.severity, Severity::Warning);
    assert_eq!(a.summary, "⚠️ CPU temperature high");
    assert_eq!(a.body, "Core 0: 87°C (threshold: 80°C)");
    assert_eq!(
        t.report(&snap),
        "  Temp       87°C  threshold:  80.0°C  ⚠️  [Package id 0: 86°C, Core 0: 87°C]"
    );
    snap.sensors = vec![sensor("Core 0", Some(7000))];
    assert!(t.check(&snap).ok().unwrap().is_none());
    snap.sensors = vec![sensor("gpu", Some(7000))];
    assert_eq!(t.report(&snap), "  Temp    N/A");
}

#[test]
fn time_reminder_once_per_slot() {
    let mut t = TimeChecker::new(TimeConfig::default());
    let a = t.check_at(9, 30).unwrap();
    assert_eq!(a.summary, "⏰ Time reminder");
    assert_eq!(a.body, "It's 09:30");
    assert!(t.check_at(9, 30).is_none());
    assert!(t.check_at(9, 31).is_none());
    assert_eq!(t.check_at(10, 0).unwrap().body, "It's 10:00");
    assert_eq!(t.report_at(9, 5), "  Time     9:05       :00, :30  —");
    assert_eq!(t.report_at(23, 0), "  Time    23:00       :00, :30  will trigger");
    let many = TimeChecker::new(TimeConfig { enabled: true, cooldown_secs: 60, minutes: vec![0, 10, 20, 30, 40] });
    assert_eq!(many.report_at(1, 2), "  Time     1:02       5 slots  —");
}

#[test]
fn time_check_reads_the_snapshot_clock() {
    let mut t = TimeChecker::new(TimeConfig::default());
    let mut snap = snapshot();
    snap.local_time = Some((14, 30));
    assert_eq!(t.check(&snap).ok().unwrap().unwrap().body, "It's 14:30");
    assert!(t.check(&snap).ok().unwrap().is_none());
    assert_eq!(t.report(&snap), "  Time    14:30       :00, :30  will trigger");
    snap.local_time = None;
    match t.check(&snap) {
        Err(CheckerError::InvalidData(m)) => assert_eq!(m, "local time unavailable"),
        _ => panic!("no local time must be an error"),
    }
    assert_eq!(t.report(&snap), "  Time    N/A");
    snap.local_time = Some((24, 0));
    assert!(t.check(&snap).is_err());
}

#[test]
fn enabled_checkers_in_order() {
    let mut cfg = Config::default();
    cfg.swap.enabled = false;
    cfg.time.enabled = false;
    let v = all_checkers(cfg);
    let keys: Vec<&str> = v.iter().map(|c| c.key()).collect();
    assert_eq!(keys, vec!["disk", "cpu", "memory", "battery", "temperature", "network", "disk_io"]);
    match &v[0] {
        AnyChecker::Disk(d) => assert_eq!(d.cfg.threshold, 9000),
        _ => panic!("the disk checker comes first"),
    }
    let all = Config::default().into_checkers();
    assert_eq!(all.len(), 9);
}
