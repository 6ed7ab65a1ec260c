use sema::checkers::{ProcStat, SysSnapshot};
use sema::config::Config;
use sema::control::{
    banner, needs_single_instance, notify_socket_accepted, remaining_wait_us, sd_message,
    sd_states, wake_action, Wake,
};
use sema::monitor::Monitor;

const SEC: u64 = 1_000_000;

fn snapshot(now_us: u64) -> SysSnapshot {
    SysSnapshot {
        cpu_usage: Some(0),
        mem_used: 0,
        mem_total: 0,
        mem_available: 0,
        swap_used: 0,
        swap_total: 0,
        load_one: 0,
        load_five: 0,
        load_fifteen: 0,
        disks: Vec::new(),
        sensors: Vec::new(),
        interfaces: Vec::new(),
        batteries: Vec::new(),
        proc_stat: ProcStat::Missing,
        now_us,
        local_time: Some((12, 15)),
    }
}

fn only_cpu_and_disk_io() -> Config {
    let mut cfg = Config::default();
    cfg.disk.enabled = false;
    cfg.memory.enabled = false;
    cfg.swap.enabled = false;
    cfg.battery.enabled = false;
    cfg.time.enabled = false;
    cfg.temperature.enabled = false;
    cfg.network.enabled = false;
    cfg
}

#[test]
fn cycle_alerts_then_recovers() {
    let mut m = Monitor::new(only_cpu_and_disk_io(), false);
    assert_eq!(m.checkers().len(), 2);
    let mut snap = snapshot(100 * SEC);
    snap.cpu_usage = Some(9000);
    let rep = m.cycle(&snap);
    assert!(rep.errors.is_empty());
    assert_eq!(rep.emissions.len(), 1);
    let e = &rep.emissions[0];
    assert_eq!(e.key, "cpu");
    assert_eq!(e.body, "CPU: 90.0%\nIdle: 10.0%\nLoad: 0.00 0.00 0.00 (for 0s)");
    m.record_delivery(e, true, 100 * SEC);
    // Still high within the cooldown: nothing new.
    let mut snap = snapshot(130 * SEC);
    snap.cpu_usage = Some(9000);
    assert!(m.cycle(&snap).emissions.is_empty());
    // Back to normal: a recovery notice.
    let rep = m.cycle(&snapshot(140 * SEC));
    assert_eq!(rep.emissions.len(), 1);
    assert_eq!(rep.emissions[0].summary, "✅ cpu back to normal");
    assert!(rep.emissions[0].recovery);
}

#[test]
fn failing_checker_dropped_after_three_failures() {
    let mut m = Monitor::new(only_cpu_and_disk_io(), true);
    let mut snap = snapshot(SEC);
    snap.proc_stat = ProcStat::Failed("permission denied".to_string());
    let rep = m.cycle(&snap);
    assert_eq!(rep.errors, vec!["checker 'disk_io' I/O error: permission denied".to_string()]);
    assert!(rep.emissions.is_empty());
    m.cycle(&snap);
    assert_eq!(m.checkers().len(), 2);
    let rep = m.cycle(&snap);
    assert_eq!(m.checkers().len(), 1);
    assert_eq!(rep.emissions.len(), 1);
    let e = &rep.emissions[0];
    assert_eq!(e.key, "checker_crash:disk_io");
    assert_eq!(e.summary, "⚠️ sema: checker crashed");
    assert_eq!(e.body, "'disk_io' crashed, sema is still running");
    assert!(e.print_only);
}

#[test]
fn success_resets_failure_count() {
    let mut m = Monitor::new(only_cpu_and_disk_io(), true);
    let mut bad = snapshot(SEC);
    bad.proc_stat = ProcStat::Line("garbage\n".to_string());
    let good = snapshot(2 * SEC);
    m.cycle(&bad);
    m.cycle(&bad);
    m.cycle(&good);
    m.cycle(&bad);
    m.cycle(&bad);
    assert_eq!(m.checkers().len(), 2);
}

#[test]
fn reload_takes_new_settings() {
    let mut m = Monitor::new(Config::default(), false);
    assert_eq!(m.checkers().len(), 9);
    let mut cfg = only_cpu_and_disk_io();
    cfg.check_interval_secs = 30;
    cfg.log.enabled = false;
    m.reload(cfg);
    assert_eq!(m.checkers().len(), 2);
    assert_eq!(m.check_interval_secs(), 30);
    assert!(!m.sink().log_enabled());
    assert!(!m.dry_run());
}

#[test]
fn control_decisions() {
    assert_eq!(wake_action(true, true), Wake::Shutdown);
    assert_eq!(wake_action(false, true), Wake::Reload);
    assert_eq!(wake_action(false, false), Wake::Watchdog);
    assert_eq!(
        sd_states(Wake::Reload),
        vec!["RELOADING=1\nSTATUS=Config reloaded", "READY=1\nSTATUS=Monitoring..."]
    );
    assert_eq!(sd_message("WATCHDOG=1", 42), "WATCHDOG=1\nMAINPID=42");
    assert!(notify_socket_accepted("@/org/freedesktop/systemd1/notify"));
    assert!(notify_socket_accepted("/run/systemd/notify"));
    assert!(!notify_socket_accepted("/tmp/notify"));
    assert_eq!(remaining_wait_us(10, 3 * SEC), Some(7_000_000));
    assert_eq!(remaining_wait_us(10, 10 * SEC), Some(0));
    assert_eq!(remaining_wait_us(10, 11 * SEC), None);
    assert!(needs_single_instance(false, false, false, false));
    assert!(!needs_single_instance(false, false, true, false));
    assert_eq!(
        banner("0.1.0", true, "/c", "/l", 10),
        "🔍 sema 0.1.0 (dry-run)\n──────────────────────────────────\nconfig:  /c\nlog:     /l\ninterval: 10s\n"
    );
}

#[test]
fn log_lines() {
    assert_eq!(sema::log::log_line("2026-05-08 12:34:56", "⚠️ CPU overloaded", "CPU: 95.0%"), "[2026-05-08 12:34:56] ⚠️ CPU overloaded | CPU: 95.0%\n");
    assert_eq!(sema::log::format_timestamp(2026, 5, 8, 12, 4, 6), "2026-05-08 12:04:06");
    assert_eq!(sema::log::format_timestamp(-1, 1, 2, 3, 4, 5), "-0001-01-02 03:04:05");
    assert_eq!(sema::log::format_timestamp(12345, 12, 31, 23, 59, 60), "+12345-12-31 23:59:60");
    assert!(sema::log::rotation_due(5 * 1024 * 1024 + 1));
    assert!(!sema::log::rotation_due(5 * 1024 * 1024));
    assert_eq!(sema::log::stamped_log_line("s", "b", 2026, 5, 8, 12, 4, 6, 250), "[2026-05-08 12:04:06] s | b\n");
    assert_eq!(sema::log::stamped_log_line("s", "b", 2026, 12, 31, 23, 59, 59, 1_500_000_000), "[2026-12-31 23:59:60] s | b\n");
}
