//! The metric checkers: one per watched resource, each deciding from a
//! snapshot of readings whether an alert is due.

pub mod battery;
pub mod cpu;
pub mod disk;
pub mod disk_io;
pub mod memory;
pub mod network;
pub mod swap;
pub mod temperature;
pub mod time;

use vstd::prelude::*;
pub use crate::config::Severity;
use crate::config::Config;
use battery::{Battery, battery_alert, battery_next, battery_reading};
use cpu::{Cpu, cpu_alert};
use disk::{Disk, disk_alert};
use disk_io::{DiskIo, disk_io_next, disk_io_outcome};
use memory::{Memory, memory_alert};
use network::{Network, network_next, network_outcome};
use swap::{Swap, swap_alert};
use temperature::{Temperature, temperature_alert};
use time::{TimeChecker, time_outcome, time_state};

verus! {

/// Check result.
pub struct Alert {
    pub severity: Severity,
    pub summary: String,
    pub body: String,
}

/// The contents of an alert.
pub struct AlertView {
    pub severity: Severity,
    pub summary: Seq<char>,
    pub body: Seq<char>,
}

impl View for Alert {
    type V = AlertView;

    open spec fn view(&self) -> AlertView {
        AlertView { severity: self.severity, summary: self.summary@, body: self.body@ }
    }
}

pub open spec fn alert_opt_view(a: Option<Alert>) -> Option<AlertView> {
    match a {
        Some(x) => Some(x@),
        None => None,
    }
}

/// Checker error.
pub enum CheckerError {
    /// Reading the source failed; the message says why.
    Io(String),
    /// The source held something that could not be understood.
    InvalidData(String),
}

/// The contents of a checker error.
pub enum ErrorView {
    Io(Seq<char>),
    InvalidData(Seq<char>),
}

pub open spec fn error_view(e: CheckerError) -> ErrorView {
    match e {
        CheckerError::Io(m) => ErrorView::Io(m@),
        CheckerError::InvalidData(m) => ErrorView::InvalidData(m@),
    }
}

/// The contents of a check's result.
pub open spec fn result_view(r: Result<Option<Alert>, CheckerError>) -> Result<
    Option<AlertView>,
    ErrorView,
> {
    match r {
        Ok(a) => Ok(alert_opt_view(a)),
        Err(e) => Err(error_view(e)),
    }
}

/// Usage of one mounted filesystem.
pub struct DiskReading {
    pub mount: String,
    pub total: u64,
    pub available: u64,
    /// Whether the mount point is a directory (a real mount, not a file
    /// bind mount or a stale entry).
    pub is_dir: bool,
}

/// One temperature sensor.
pub struct SensorReading {
    pub label: String,
    /// Temperature in hundredths of a degree Celsius, when the sensor
    /// gives a number.
    pub temperature: Option<i64>,
}

/// Cumulative traffic counters of one network interface, in bytes.
pub struct InterfaceReading {
    pub name: String,
    pub received: u64,
    pub transmitted: u64,
}

/// The files of one battery, as read (absent when unreadable).
pub struct BatteryReading {
    pub capacity: Option<String>,
    pub status: Option<String>,
}

/// The first line of `/proc/stat`.
pub enum ProcStat {
    Line(String),
    /// The file does not exist (not Linux).
    Missing,
    /// Reading failed for another reason; the message says why.
    Failed(String),
}

/// Everything the checkers read in one monitoring cycle.
pub struct SysSnapshot {
    /// Global CPU usage in hundredths of a percent, when known.
    pub cpu_usage: Option<i64>,
    pub mem_used: u64,
    pub mem_total: u64,
    pub mem_available: u64,
    pub swap_used: u64,
    pub swap_total: u64,
    /// Load averages over 1, 5 and 15 minutes, in hundredths.
    pub load_one: i64,
    pub load_five: i64,
    pub load_fifteen: i64,
    pub disks: Vec<DiskReading>,
    pub sensors: Vec<SensorReading>,
    pub interfaces: Vec<InterfaceReading>,
    pub batteries: Vec<BatteryReading>,
    pub proc_stat: ProcStat,
    /// Monotonic clock reading, in microseconds.
    pub now_us: u64,
    /// Local time of day as (hour, minute); absent when the local clock
    /// could not be read.
    pub local_time: Option<(u32, u32)>,
}

/// Checker: one implementation per metric.
pub trait Checker {
    /// Metric identifier (also used as notification cooldown key).
    fn key(&self) -> &'static str;

    /// Notification cooldown in seconds.
    fn cooldown_secs(&self) -> u64;

    /// Check: returns `Some(alert)` if the threshold is exceeded.
    fn check(&mut self, sys: &SysSnapshot) -> Result<Option<Alert>, CheckerError>;
}

/// The mark shown in a report for a value over its threshold or not.
pub open spec fn flag(over: bool, sev: Severity) -> Seq<char> {
    if over {
        crate::config::severity_emoji(sev)
    } else {
        "✓"@
    }
}

pub fn push_flag(s: &mut String, over: bool, sev: Severity)
    ensures
        final(s)@ == old(s)@ + flag(over, sev),
{
    if over {
        crate::text::push_str(s, sev.emoji());
    } else {
        crate::text::push_str(s, "✓");
    }
}


/// One checker of any kind.
pub enum AnyChecker {
    Disk(Disk),
    Cpu(Cpu),
    Memory(Memory),
    Swap(Swap),
    Battery(Battery),
    Time(TimeChecker),
    Temperature(Temperature),
    Network(Network),
    DiskIo(DiskIo),
}

/// The metric identifier of a checker.
pub open spec fn checker_key(c: AnyChecker) -> Seq<char> {
    match c {
        AnyChecker::Disk(_) => "disk"@,
        AnyChecker::Cpu(_) => "cpu"@,
        AnyChecker::Memory(_) => "memory"@,
        AnyChecker::Swap(_) => "swap"@,
        AnyChecker::Battery(_) => "battery"@,
        AnyChecker::Time(_) => "time"@,
        AnyChecker::Temperature(_) => "temperature"@,
        AnyChecker::Network(_) => "network"@,
        AnyChecker::DiskIo(_) => "disk_io"@,
    }
}

/// The notification cooldown of a checker.
pub open spec fn checker_cooldown(c: AnyChecker) -> u64 {
    match c {
        AnyChecker::Disk(x) => x.cfg.cooldown_secs,
        AnyChecker::Cpu(x) => x.cfg.cooldown_secs,
        AnyChecker::Memory(x) => x.cfg.cooldown_secs,
        AnyChecker::Swap(x) => x.cfg.cooldown_secs,
        AnyChecker::Battery(x) => x.cfg.cooldown_secs,
        AnyChecker::Time(x) => x.cfg.cooldown_secs,
        AnyChecker::Temperature(x) => x.cfg.cooldown_secs,
        AnyChecker::Network(x) => x.cfg.cooldown_secs,
        AnyChecker::DiskIo(x) => x.cfg.cooldown_secs,
    }
}

/// What one check of `old` on `sys` gives: the checker after it and the
/// result.
#[verifier::opaque]
pub open spec fn check_step(
    old: AnyChecker,
    sys: SysSnapshot,
    new: AnyChecker,
    r: Result<Option<AlertView>, ErrorView>,
) -> bool {
    match old {
        AnyChecker::Disk(x) => new == old && r == Ok::<_, ErrorView>(disk_alert(x.cfg, sys)),
        AnyChecker::Cpu(x) => new == old && r == Ok::<_, ErrorView>(cpu_alert(x.cfg, sys)),
        AnyChecker::Memory(x) => new == old && r == Ok::<_, ErrorView>(memory_alert(x.cfg, sys)),
        AnyChecker::Swap(x) => new == old && r == Ok::<_, ErrorView>(swap_alert(x.cfg, sys)),
        AnyChecker::Temperature(x) => new == old && r == Ok::<_, ErrorView>(
            temperature_alert(x.cfg, sys),
        ),
        AnyChecker::Battery(x) => new == AnyChecker::Battery(battery_next(x)) && r == Ok::<
            _,
            ErrorView,
        >(battery_alert(x.cfg, battery_reading(x, sys))),
        AnyChecker::Network(x) => new == AnyChecker::Network(network_next(x, sys)) && r == Ok::<
            _,
            ErrorView,
        >(network_outcome(x, sys)),
        AnyChecker::DiskIo(x) => new == AnyChecker::DiskIo(disk_io_next(x, sys)) && r
            == disk_io_outcome(x, sys),
        AnyChecker::Time(x) => new == AnyChecker::Time(time_state(x, sys)) && r == time_outcome(
            x,
            sys,
        ),
    }
}

impl AnyChecker {
    /// Metric identifier (also used as notification cooldown key).
    pub fn key(&self) -> (k: &'static str)
        ensures
            k@ == checker_key(*self),
    {
        match self {
            AnyChecker::Disk(x) => x.key(),
            AnyChecker::Cpu(x) => x.key(),
            AnyChecker::Memory(x) => x.key(),
            AnyChecker::Swap(x) => x.key(),
            AnyChecker::Battery(x) => x.key(),
            AnyChecker::Time(x) => x.key(),
            AnyChecker::Temperature(x) => x.key(),
            AnyChecker::Network(x) => x.key(),
            AnyChecker::DiskIo(x) => x.key(),
        }
    }

    /// Notification cooldown in seconds.
    pub fn cooldown_secs(&self) -> (c: u64)
        ensures
            c == checker_cooldown(*self),
    {
        match self {
            AnyChecker::Disk(x) => x.cooldown_secs(),
            AnyChecker::Cpu(x) => x.cooldown_secs(),
            AnyChecker::Memory(x) => x.cooldown_secs(),
            AnyChecker::Swap(x) => x.cooldown_secs(),
            AnyChecker::Battery(x) => x.cooldown_secs(),
            AnyChecker::Time(x) => x.cooldown_secs(),
            AnyChecker::Temperature(x) => x.cooldown_secs(),
            AnyChecker::Network(x) => x.cooldown_secs(),
            AnyChecker::DiskIo(x) => x.cooldown_secs(),
        }
    }

    /// Runs the check of whichever kind this checker is.
    pub fn check(&mut self, sys: &SysSnapshot) -> (r: Result<Option<Alert>, CheckerError>)
        ensures
            check_step(*old(self), *sys, *final(self), result_view(r)),
    {
        reveal(check_step);
        match self {
            AnyChecker::Disk(x) => x.check(sys),
            AnyChecker::Cpu(x) => x.check(sys),
            AnyChecker::Memory(x) => x.check(sys),
            AnyChecker::Swap(x) => x.check(sys),
            AnyChecker::Battery(x) => x.check(sys),
            AnyChecker::Time(x) => x.check(sys),
            AnyChecker::Temperature(x) => x.check(sys),
            AnyChecker::Network(x) => x.check(sys),
            AnyChecker::DiskIo(x) => x.check(sys),
        }
    }

    /// Dry-run status line; absent for the disk checker, whose line takes
    /// sizes rendered outside this library (see `Disk::report_line`).
    pub fn report(&self, sys: &SysSnapshot) -> (s: Option<String>)
        ensures
            (s is None) == (*self is Disk),
            match (*self, s) {
                (AnyChecker::Cpu(x), Some(l)) => l@ == cpu::cpu_report(x.cfg, *sys),
                (AnyChecker::Memory(x), Some(l)) => l@ == memory::memory_report(x.cfg, *sys),
                (AnyChecker::Swap(x), Some(l)) => l@ == swap::swap_report(x.cfg, *sys),
                (AnyChecker::Battery(x), Some(l)) => l@ == battery::battery_report(x.cfg, *sys),
                (AnyChecker::Temperature(x), Some(l)) => l@ == temperature::temperature_report(
                    x.cfg,
                    *sys,
                ),
                (AnyChecker::Network(x), Some(l)) => l@ == network::network_report(sys.interfaces@),
                (AnyChecker::DiskIo(x), Some(l)) => l@ == disk_io::disk_io_report(x, *sys),
                (AnyChecker::Time(x), Some(l)) => l@ == time::time_report_of(x.cfg, *sys),
                _ => true,
            },
    {
        match self {
            AnyChecker::Disk(_) => None,
            AnyChecker::Cpu(x) => Some(x.report_line(sys)),
            AnyChecker::Memory(x) => Some(x.report_line(sys)),
            AnyChecker::Swap(x) => Some(x.report_line(sys)),
            AnyChecker::Battery(x) => Some(x.report(sys)),
            AnyChecker::Time(x) => Some(x.report(sys)),
            AnyChecker::Temperature(x) => Some(x.report(sys)),
            AnyChecker::Network(x) => Some(x.report(sys)),
            AnyChecker::DiskIo(x) => Some(x.report(sys)),
        }
    }
}

/// The checkers of the enabled metrics, in a fixed order: disk, CPU,
/// memory, swap, battery, time, temperature, network, disk I/O.
pub open spec fn enabled_checkers(c: Config) -> Seq<AnyChecker> {
    let s1: Seq<AnyChecker> = if c.disk.enabled {
        seq![AnyChecker::Disk(Disk { cfg: c.disk })]
    } else {
        seq![]
    };
    let s2 = if c.cpu.enabled {
        s1.push(AnyChecker::Cpu(Cpu { cfg: c.cpu }))
    } else {
        s1
    };
    let s3 = if c.memory.enabled {
        s2.push(AnyChecker::Memory(Memory { cfg: c.memory }))
    } else {
        s2
    };
    let s4 = if c.swap.enabled {
        s3.push(AnyChecker::Swap(Swap { cfg: c.swap }))
    } else {
        s3
    };
    let s5 = if c.battery.enabled {
        s4.push(AnyChecker::Battery(Battery { cfg: c.battery, status_skip: 0 }))
    } else {
        s4
    };
    let s6 = if c.time.enabled {
        s5.push(AnyChecker::Time(TimeChecker { cfg: c.time, last_fired: None }))
    } else {
        s5
    };
    let s7 = if c.temperature.enabled {
        s6.push(AnyChecker::Temperature(Temperature { cfg: c.temperature }))
    } else {
        s6
    };
    let s8 = if c.network.enabled {
        s7.push(
            AnyChecker::Network(
                Network { cfg: c.network, prev_rx: 0, prev_tx: 0, prev_time: None },
            ),
        )
    } else {
        s7
    };
    if c.disk_io.enabled {
        s8.push(
            AnyChecker::DiskIo(
                DiskIo { cfg: c.disk_io, prev_iowait: 0, prev_total: 0, prev_time: None },
            ),
        )
    } else {
        s8
    }
}

/// Consumes the configuration and creates the checkers of the enabled
/// metrics.
pub fn all_checkers(cfg: Config) -> (v: Vec<AnyChecker>)
    ensures
        v@ == enabled_checkers(cfg),
{
    let ghost c = cfg;
    let mut v: Vec<AnyChecker> = Vec::new();
    if cfg.disk.enabled {
        v.push(AnyChecker::Disk(Disk::new(cfg.disk)));
    }
    if cfg.cpu.enabled {
        v.push(AnyChecker::Cpu(Cpu::new(cfg.cpu)));
    }
    if cfg.memory.enabled {
        v.push(AnyChecker::Memory(Memory::new(cfg.memory)));
    }
    if cfg.swap.enabled {
        v.push(AnyChecker::Swap(Swap::new(cfg.swap)));
    }
    if cfg.battery.enabled {
        v.push(AnyChecker::Battery(Battery::new(cfg.battery)));
    }
    if cfg.time.enabled {
        v.push(AnyChecker::Time(TimeChecker::new(cfg.time)));
    }
    if cfg.temperature.enabled {
        v.push(AnyChecker::Temperature(Temperature::new(cfg.temperature)));
    }
    if cfg.network.enabled {
        v.push(AnyChecker::Network(Network::new(cfg.network)));
    }
    if cfg.disk_io.enabled {
        v.push(AnyChecker::DiskIo(DiskIo::new(cfg.disk_io)));
    }
    assert(v@ =~= enabled_checkers(c));
    v
}

impl Config {
    /// Consumes the configuration and creates the enabled checkers.
    pub fn into_checkers(self) -> (v: Vec<AnyChecker>)
        ensures
            v@ == enabled_checkers(self),
    {
        all_checkers(self)
    }
}

} // verus!
