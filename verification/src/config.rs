//! Configuration: metric thresholds, cooldowns, defaults and validation.
//!
//! Thresholds are held as whole hundredths of the metric's unit (percent,
//! degrees Celsius, or MB/s for the network): `5000` stands for `50.0`.

use vstd::prelude::*;

verus! {

/// Smallest accepted check interval, in seconds.
pub const MIN_INTERVAL: u64 = 1;
/// Largest accepted check interval, in seconds.
pub const MAX_INTERVAL: u64 = 3600;
/// Smallest accepted notification cooldown, in seconds.
pub const MIN_COOLDOWN: u64 = 1;
/// Largest configuration file that is read, in bytes.
pub const MAX_CONFIG_SIZE: u64 = 1048576;
/// Upper bound of percentage thresholds, in hundredths.
pub const PERCENT_MAX: i64 = 10000;
/// Upper bound of temperature thresholds, in hundredths of a degree.
pub const TEMPERATURE_MAX: i64 = 15000;
/// Upper bound of network thresholds, in hundredths of a MB/s.
pub const NETWORK_MAX: i64 = 100000000;

/// Alert severity level.
#[derive(Clone, Copy, Debug, PartialEq, Eq, Structural)]
pub enum Severity {
    Warning,
    Critical,
}

/// The emoji shown for a severity.
pub open spec fn severity_emoji(s: Severity) -> Seq<char> {
    match s {
        Severity::Warning => "⚠️"@,
        Severity::Critical => "🔴"@,
    }
}

impl Severity {
    /// Emoji for display.
    pub fn emoji(self) -> (e: &'static str)
        ensures
            e@ == severity_emoji(self),
    {
        match self {
            Severity::Warning => "⚠️",
            Severity::Critical => "🔴",
        }
    }
}

/// How a value compares with a critical threshold `crit`: above it (or,
/// `inverted`, below it) is critical, anything else a warning.
pub open spec fn severity_for(critical: Option<i64>, val: int, inverted: bool) -> Severity {
    match critical {
        Some(c) => if (if inverted { val < c } else { val > c }) {
            Severity::Critical
        } else {
            Severity::Warning
        },
        None => Severity::Warning,
    }
}

/// Whether the ratio `num / den` lies above the value `c / 100`.
pub open spec fn ratio_above(num: int, den: int, c: int) -> bool {
    num * 100 > c * den
}

/// Severity of the ratio `num / den` against a critical threshold.
pub open spec fn severity_for_ratio(critical: Option<i64>, num: int, den: int) -> Severity {
    match critical {
        Some(c) => if ratio_above(num, den, c as int) {
            Severity::Critical
        } else {
            Severity::Warning
        },
        None => Severity::Warning,
    }
}

/// Whether `num / den > c / 100`, computed without overflow.
pub fn ratio_above_exec(num: u128, den: u128, c: i64) -> (b: bool)
    requires
        den > 0,
        num <= 0x10000000000000000000000000,
    ensures
        b == ratio_above(num as int, den as int, c as int),
{
    if c < 0 {
        assert(num * 100 > c * den) by (nonlinear_arith)
            requires
                c < 0,
                den > 0,
        ;
        return true;
    }
    let n = num * 100;
    let q = n / den;
    let r = n % den;
    let cu = c as u128;
    let res = q > cu || (q == cu && r > 0);
    proof {
        assert(n == den * q + r) by (nonlinear_arith)
            requires
                q == n / den,
                r == n % den,
                den > 0,
        ;
        if q > cu {
            assert(n > cu * den) by (nonlinear_arith)
                requires
                    n == den * q + r,
                    q >= cu + 1,
                    r >= 0,
                    den > 0,
            ;
        } else if q == cu {
            assert(n == cu * den + r) by (nonlinear_arith)
                requires
                    n == den * q + r,
                    q == cu,
            ;
        } else {
            assert(n <= cu * den) by (nonlinear_arith)
                requires
                    n == den * q + r,
                    q + 1 <= cu,
                    r < den,
                    den > 0,
            ;
        }
    }
    res
}

/// Whether the ratio `num / den` lies below the value `c / 100`.
pub open spec fn ratio_below(num: int, den: int, c: int) -> bool {
    num * 100 < c * den
}

/// Whether `num / den < c / 100`, computed without overflow.
pub fn ratio_below_exec(num: u128, den: u128, c: i64) -> (b: bool)
    requires
        den > 0,
        num <= 0x10000000000000000000000000,
    ensures
        b == ratio_below(num as int, den as int, c as int),
{
    if c < 0 {
        assert(num * 100 >= c * den) by (nonlinear_arith)
            requires
                c < 0,
                den > 0,
                num >= 0,
        ;
        return false;
    }
    let n = num * 100;
    let q = n / den;
    let r = n % den;
    let cu = c as u128;
    proof {
        assert(n == den * q + r) by (nonlinear_arith)
            requires
                q == n / den,
                r == n % den,
                den > 0,
        ;
        if q < cu {
            assert(n < cu * den) by (nonlinear_arith)
                requires
                    n == den * q + r,
                    q + 1 <= cu,
                    r < den,
                    den > 0,
            ;
        } else {
            assert(n >= cu * den) by (nonlinear_arith)
                requires
                    n == den * q + r,
                    q >= cu,
                    r >= 0,
                    den > 0,
            ;
        }
    }
    q < cu
}

/// The exact product of two 64-bit numbers.
pub fn wide_mul(a: u64, b: u64) -> (r: u128)
    ensures
        r == a as int * b as int,
{
    assert(a as int * b as int <= 0xffff_ffff_ffff_ffff * 0xffff_ffff_ffff_ffff) by (nonlinear_arith)
        requires
            a <= 0xffff_ffff_ffff_ffffu64,
            b <= 0xffff_ffff_ffff_ffffu64,
    ;
    (a as u128) * (b as u128)
}

/// Generic metric configuration (disk, CPU, memory, swap, battery,
/// temperature, disk I/O).
pub struct MetricConfig {
    pub enabled: bool,
    /// Alert threshold, in hundredths of the metric's unit.
    pub threshold: i64,
    /// Critical alert threshold (optional), in hundredths. Values beyond it
    /// are critical.
    pub critical: Option<i64>,
    pub cooldown_secs: u64,
    /// Mount point prefixes whose disks are not watched.
    pub exclude_mounts: Option<Vec<String>>,
    /// When present, only mount points with one of these prefixes are watched.
    pub include_mounts: Option<Vec<String>>,
    /// Count memory as used when it is not available (total - available)
    /// rather than by the kernel's used figure.
    pub use_available: bool,
}

/// A metric configuration with the given values and no mount filters.
pub open spec fn metric_spec(threshold: i64, critical: Option<i64>) -> MetricConfig {
    MetricConfig {
        enabled: true,
        threshold,
        critical,
        cooldown_secs: 60,
        exclude_mounts: None,
        include_mounts: None,
        use_available: false,
    }
}

fn metric(threshold: i64, critical: Option<i64>) -> (m: MetricConfig)
    ensures
        m == metric_spec(threshold, critical),
{
    MetricConfig {
        enabled: true,
        threshold,
        critical,
        cooldown_secs: 60,
        exclude_mounts: None,
        include_mounts: None,
        use_available: false,
    }
}

impl Default for MetricConfig {
    fn default() -> (m: Self)
        ensures
            m == metric_spec(5000, None),
    {
        metric(5000, None)
    }
}

impl MetricConfig {
    /// Determine severity from a value in hundredths. `inverted` means
    /// lower is more severe (e.g. battery).
    pub fn severity(&self, val: i64, inverted: bool) -> (s: Severity)
        ensures
            s == severity_for(self.critical, val as int, inverted),
    {
        if let Some(crit) = self.critical {
            let severe = if inverted {
                val < crit
            } else {
                val > crit
            };
            if severe {
                return Severity::Critical;
            }
        }
        Severity::Warning
    }

    /// Severity of the ratio `num / den` (higher is more severe).
    pub fn severity_of_ratio(&self, num: u128, den: u128) -> (s: Severity)
        requires
            den > 0,
            num <= 0x10000000000000000000000000,
        ensures
            s == severity_for_ratio(self.critical, num as int, den as int),
    {
        if let Some(crit) = self.critical {
            if ratio_above_exec(num, den, crit) {
                return Severity::Critical;
            }
        }
        Severity::Warning
    }
}

/// Time reminder configuration.
pub struct TimeConfig {
    pub enabled: bool,
    pub cooldown_secs: u64,
    /// Minutes of the hour at which the reminder fires.
    pub minutes: Vec<u8>,
}

impl Default for TimeConfig {
    fn default() -> (t: Self)
        ensures
            t.enabled,
            t.cooldown_secs == 60,
            t.minutes@ == seq![0u8, 30u8],
    {
        let mut minutes: Vec<u8> = Vec::new();
        minutes.push(0);
        minutes.push(30);
        TimeConfig { enabled: true, cooldown_secs: 60, minutes }
    }
}

/// Log configuration.
#[derive(Clone, Copy, Debug, PartialEq, Eq, Structural)]
pub struct LogConfig {
    pub enabled: bool,
}

impl Default for LogConfig {
    fn default() -> (l: Self)
        ensures
            l.enabled,
    {
        LogConfig { enabled: true }
    }
}

/// Network-specific configuration with interface filtering.
pub struct NetworkConfig {
    pub enabled: bool,
    /// Threshold on total throughput, in hundredths of a MB/s.
    pub threshold: i64,
    pub critical: Option<i64>,
    pub cooldown_secs: u64,
    /// Exclude the loopback interface (`lo`) from traffic totals.
    pub exclude_loopback: bool,
    /// Only include these interfaces (absent or empty: all are included).
    pub include_interfaces: Option<Vec<String>>,
}

pub open spec fn network_default_spec() -> NetworkConfig {
    NetworkConfig {
        enabled: true,
        threshold: 10000,
        critical: Some(50000),
        cooldown_secs: 60,
        exclude_loopback: true,
        include_interfaces: None,
    }
}

impl Default for NetworkConfig {
    fn default() -> (n: Self)
        ensures
            n == network_default_spec(),
    {
        NetworkConfig {
            enabled: true,
            threshold: 10000,
            critical: Some(50000),
            cooldown_secs: 60,
            exclude_loopback: true,
            include_interfaces: None,
        }
    }
}

impl NetworkConfig {
    /// Severity of a throughput in hundredths of a MB/s.
    pub fn severity(&self, val: i64) -> (s: Severity)
        ensures
            s == severity_for(self.critical, val as int, false),
    {
        if let Some(crit) = self.critical {
            if val > crit {
                return Severity::Critical;
            }
        }
        Severity::Warning
    }

    /// Severity of the throughput `num / den` MB/s.
    pub fn severity_of_ratio(&self, num: u128, den: u128) -> (s: Severity)
        requires
            den > 0,
            num <= 0x10000000000000000000000000,
        ensures
            s == severity_for_ratio(self.critical, num as int, den as int),
    {
        if let Some(crit) = self.critical {
            if ratio_above_exec(num, den, crit) {
                return Severity::Critical;
            }
        }
        Severity::Warning
    }
}

/// The global check interval used when none is configured, in seconds.
pub fn default_check_interval() -> (s: u64)
    ensures
        s == 10,
{
    10
}

pub fn default_cpu() -> (m: MetricConfig)
    ensures
        m == metric_spec(5000, None),
{
    metric(5000, None)
}

pub fn default_memory() -> (m: MetricConfig)
    ensures
        m == metric_spec(5000, None),
{
    metric(5000, None)
}

pub fn default_swap() -> (m: MetricConfig)
    ensures
        m == metric_spec(8000, None),
{
    metric(8000, None)
}

pub fn default_battery() -> (m: MetricConfig)
    ensures
        m == metric_spec(8400, None),
{
    metric(8400, None)
}

pub fn default_disk() -> (m: MetricConfig)
    ensures
        m == metric_spec(9000, Some(9500)),
{
    metric(9000, Some(9500))
}

pub fn default_temperature() -> (m: MetricConfig)
    ensures
        m == metric_spec(8000, Some(9500)),
{
    metric(8000, Some(9500))
}

pub fn default_disk_io() -> (m: MetricConfig)
    ensures
        m == metric_spec(3000, Some(8000)),
{
    metric(3000, Some(8000))
}

pub fn default_time() -> (t: TimeConfig)
    ensures
        t.enabled,
        t.cooldown_secs == 60,
        t.minutes@ == seq![0u8, 30u8],
{
    TimeConfig::default()
}

pub fn default_log() -> (l: LogConfig)
    ensures
        l.enabled,
{
    LogConfig::default()
}


/// `v` limited to the range `[lo, hi]`.
pub open spec fn clamp(v: int, lo: int, hi: int) -> int {
    if v < lo {
        lo
    } else if v > hi {
        hi
    } else {
        v
    }
}

pub open spec fn clamp_opt(c: Option<i64>, lo: int, hi: int) -> Option<i64> {
    match c {
        Some(v) => Some(clamp(v as int, lo, hi) as i64),
        None => None,
    }
}

pub open spec fn cooldown_floor(c: u64) -> u64 {
    if c < MIN_COOLDOWN {
        MIN_COOLDOWN
    } else {
        c
    }
}

/// A metric configuration with its thresholds limited to `[lo, hi]` and
/// its cooldown raised to the minimum.
pub open spec fn metric_validated(m: MetricConfig, lo: int, hi: int) -> MetricConfig {
    MetricConfig {
        threshold: clamp(m.threshold as int, lo, hi) as i64,
        critical: clamp_opt(m.critical, lo, hi),
        cooldown_secs: cooldown_floor(m.cooldown_secs),
        ..m
    }
}

pub open spec fn network_validated(n: NetworkConfig) -> NetworkConfig {
    NetworkConfig {
        threshold: clamp(n.threshold as int, 0, NETWORK_MAX as int) as i64,
        critical: clamp_opt(n.critical, 0, NETWORK_MAX as int),
        cooldown_secs: cooldown_floor(n.cooldown_secs),
        ..n
    }
}

pub open spec fn time_validated(t: TimeConfig) -> TimeConfig {
    TimeConfig { cooldown_secs: cooldown_floor(t.cooldown_secs), ..t }
}

/// sema top-level configuration.
pub struct Config {
    pub check_interval_secs: u64,
    pub disk: MetricConfig,
    pub cpu: MetricConfig,
    pub memory: MetricConfig,
    pub swap: MetricConfig,
    pub battery: MetricConfig,
    pub time: TimeConfig,
    pub temperature: MetricConfig,
    pub network: NetworkConfig,
    pub disk_io: MetricConfig,
    pub log: LogConfig,
    /// Minimum time between two recovery notifications of one metric.
    pub recovery_cooldown_secs: u64,
}

/// The configuration with every value brought into its accepted range.
pub open spec fn config_validated(c: Config) -> Config {
    Config {
        check_interval_secs: clamp(
            c.check_interval_secs as int,
            MIN_INTERVAL as int,
            MAX_INTERVAL as int,
        ) as u64,
        disk: metric_validated(c.disk, 0, PERCENT_MAX as int),
        cpu: metric_validated(c.cpu, 0, PERCENT_MAX as int),
        memory: metric_validated(c.memory, 0, PERCENT_MAX as int),
        swap: metric_validated(c.swap, 0, PERCENT_MAX as int),
        battery: metric_validated(c.battery, 0, PERCENT_MAX as int),
        temperature: metric_validated(c.temperature, 0, TEMPERATURE_MAX as int),
        disk_io: metric_validated(c.disk_io, 0, PERCENT_MAX as int),
        network: network_validated(c.network),
        time: time_validated(c.time),
        ..c
    }
}

pub open spec fn metric_in_range(m: MetricConfig, lo: int, hi: int) -> bool {
    &&& lo <= m.threshold <= hi
    &&& (m.critical matches Some(v) ==> lo <= v <= hi)
    &&& m.cooldown_secs >= MIN_COOLDOWN
}

/// Every value of the configuration lies in its accepted range.
pub open spec fn config_valid(c: Config) -> bool {
    &&& MIN_INTERVAL <= c.check_interval_secs <= MAX_INTERVAL
    &&& metric_in_range(c.disk, 0, PERCENT_MAX as int)
    &&& metric_in_range(c.cpu, 0, PERCENT_MAX as int)
    &&& metric_in_range(c.memory, 0, PERCENT_MAX as int)
    &&& metric_in_range(c.swap, 0, PERCENT_MAX as int)
    &&& metric_in_range(c.battery, 0, PERCENT_MAX as int)
    &&& metric_in_range(c.temperature, 0, TEMPERATURE_MAX as int)
    &&& metric_in_range(c.disk_io, 0, PERCENT_MAX as int)
    &&& 0 <= c.network.threshold <= NETWORK_MAX
    &&& (c.network.critical matches Some(v) ==> 0 <= v <= NETWORK_MAX)
    &&& c.network.cooldown_secs >= MIN_COOLDOWN
    &&& c.time.cooldown_secs >= MIN_COOLDOWN
}

/// The configuration used when no file gives one.
pub open spec fn config_is_default(c: Config) -> bool {
    &&& c.check_interval_secs == 10
    &&& c.disk == metric_spec(9000, Some(9500))
    &&& c.cpu == metric_spec(5000, None)
    &&& c.memory == metric_spec(5000, None)
    &&& c.swap == metric_spec(8000, None)
    &&& c.battery == metric_spec(8400, None)
    &&& c.temperature == metric_spec(8000, Some(9500))
    &&& c.disk_io == metric_spec(3000, Some(8000))
    &&& c.network == network_default_spec()
    &&& c.time.enabled && c.time.cooldown_secs == 60 && c.time.minutes@ == seq![0u8, 30u8]
    &&& c.log.enabled
    &&& c.recovery_cooldown_secs == 60
}

fn clamp_i64(v: i64, lo: i64, hi: i64) -> (r: i64)
    requires
        lo <= hi,
    ensures
        r == clamp(v as int, lo as int, hi as int),
{
    if v < lo {
        lo
    } else if v > hi {
        hi
    } else {
        v
    }
}

impl Config {
    /// Limits a metric's thresholds to `[lo, hi]` (hundredths) and raises
    /// its cooldown to the minimum. `name` identifies the metric.
    pub fn validate_metric(name: &str, m: &mut MetricConfig, lo: i64, hi: i64)
        requires
            lo <= hi,
        ensures
            *final(m) == metric_validated(*old(m), lo as int, hi as int),
    {
        m.threshold = clamp_i64(m.threshold, lo, hi);
        m.critical = match m.critical {
            Some(c) => Some(clamp_i64(c, lo, hi)),
            None => None,
        };
        if m.cooldown_secs < MIN_COOLDOWN {
            m.cooldown_secs = MIN_COOLDOWN;
        }
    }

    /// Brings every value into its accepted range.
    pub fn validate(&mut self)
        ensures
            *final(self) == config_validated(*old(self)),
    {
        if self.check_interval_secs < MIN_INTERVAL {
            self.check_interval_secs = MIN_INTERVAL;
        } else if self.check_interval_secs > MAX_INTERVAL {
            self.check_interval_secs = MAX_INTERVAL;
        }
        Self::validate_metric("disk", &mut self.disk, 0, PERCENT_MAX);
        Self::validate_metric("cpu", &mut self.cpu, 0, PERCENT_MAX);
        Self::validate_metric("memory", &mut self.memory, 0, PERCENT_MAX);
        Self::validate_metric("swap", &mut self.swap, 0, PERCENT_MAX);
        Self::validate_metric("battery", &mut self.battery, 0, PERCENT_MAX);
        Self::validate_metric("temperature", &mut self.temperature, 0, TEMPERATURE_MAX);
        Self::validate_metric("disk_io", &mut self.disk_io, 0, PERCENT_MAX);
        self.network.threshold = clamp_i64(self.network.threshold, 0, NETWORK_MAX);
        self.network.critical = match self.network.critical {
            Some(c) => Some(clamp_i64(c, 0, NETWORK_MAX)),
            None => None,
        };
        if self.network.cooldown_secs < MIN_COOLDOWN {
            self.network.cooldown_secs = MIN_COOLDOWN;
        }
        if self.time.cooldown_secs < MIN_COOLDOWN {
            self.time.cooldown_secs = MIN_COOLDOWN;
        }
    }
}

impl Default for Config {
    fn default() -> (c: Self)
        ensures
            config_is_default(c),
            config_valid(c),
    {
        let mut cfg = Config {
            check_interval_secs: default_check_interval(),
            disk: default_disk(),
            cpu: default_cpu(),
            memory: default_memory(),
            swap: default_swap(),
            battery: default_battery(),
            time: TimeConfig::default(),
            temperature: default_temperature(),
            network: NetworkConfig::default(),
            disk_io: default_disk_io(),
            log: LogConfig::default(),
            recovery_cooldown_secs: 60,
        };
        let ghost before = cfg;
        cfg.validate();
        proof {
            lemma_validate_keeps_valid(before);
        }
        cfg
    }
}

/// The fields written in one metric section of the file; each missing
/// field takes the section's default.
pub struct MetricFields {
    pub enabled: Option<bool>,
    pub threshold: Option<i64>,
    pub critical: Option<i64>,
    pub cooldown_secs: Option<u64>,
    pub exclude_mounts: Option<Vec<String>>,
    pub include_mounts: Option<Vec<String>>,
    pub use_available: Option<bool>,
}

impl Default for MetricFields {
    /// A section that names no field.
    fn default() -> (f: Self)
        ensures
            f == (MetricFields {
                enabled: None,
                threshold: None,
                critical: None,
                cooldown_secs: None,
                exclude_mounts: None,
                include_mounts: None,
                use_available: None,
            }),
    {
        MetricFields {
            enabled: None,
            threshold: None,
            critical: None,
            cooldown_secs: None,
            exclude_mounts: None,
            include_mounts: None,
            use_available: None,
        }
    }
}

/// The fields written in the `[time]` section.
pub struct TimeFields {
    pub enabled: Option<bool>,
    pub cooldown_secs: Option<u64>,
    pub minutes: Option<Vec<u8>>,
}

/// The fields written in the `[network]` section.
pub struct NetworkFields {
    pub enabled: Option<bool>,
    pub threshold: Option<i64>,
    pub critical: Option<i64>,
    pub cooldown_secs: Option<u64>,
    pub exclude_loopback: Option<bool>,
    pub include_interfaces: Option<Vec<String>>,
}

/// The fields written in the `[log]` section.
pub struct LogFields {
    pub enabled: Option<bool>,
}

/// A configuration file as read: every section, and every field of a
/// section, may be missing.
pub struct ConfigFile {
    pub check_interval_secs: Option<u64>,
    pub disk: Option<MetricFields>,
    pub cpu: Option<MetricFields>,
    pub memory: Option<MetricFields>,
    pub swap: Option<MetricFields>,
    pub battery: Option<MetricFields>,
    pub time: Option<TimeFields>,
    pub temperature: Option<MetricFields>,
    pub network: Option<NetworkFields>,
    pub disk_io: Option<MetricFields>,
    pub log: Option<LogFields>,
    pub recovery_cooldown_secs: Option<u64>,
}

/// The written value, or the default when none was written.
pub open spec fn opt_or<T>(o: Option<T>, d: T) -> T {
    match o {
        Some(v) => v,
        None => d,
    }
}

/// The written value, or the default when none was written, for a field
/// that is itself optional.
pub open spec fn field_or<T>(o: Option<T>, d: Option<T>) -> Option<T> {
    match o {
        Some(v) => Some(v),
        None => d,
    }
}

/// A metric section with the section default `d` under its missing fields.
pub open spec fn metric_filled(f: MetricFields, d: MetricConfig) -> MetricConfig {
    MetricConfig {
        enabled: opt_or(f.enabled, d.enabled),
        threshold: opt_or(f.threshold, d.threshold),
        critical: field_or(f.critical, d.critical),
        cooldown_secs: opt_or(f.cooldown_secs, d.cooldown_secs),
        exclude_mounts: field_or(f.exclude_mounts, d.exclude_mounts),
        include_mounts: field_or(f.include_mounts, d.include_mounts),
        use_available: opt_or(f.use_available, d.use_available),
    }
}

/// A metric section as read (or missing), over the section default `d`.
pub open spec fn metric_section(o: Option<MetricFields>, d: MetricConfig) -> MetricConfig {
    match o {
        Some(f) => metric_filled(f, d),
        None => d,
    }
}

/// The network section as read (or missing), over its default.
pub open spec fn network_section(o: Option<NetworkFields>) -> NetworkConfig {
    let d = network_default_spec();
    match o {
        Some(f) => NetworkConfig {
            enabled: opt_or(f.enabled, d.enabled),
            threshold: opt_or(f.threshold, d.threshold),
            critical: field_or(f.critical, d.critical),
            cooldown_secs: opt_or(f.cooldown_secs, d.cooldown_secs),
            exclude_loopback: opt_or(f.exclude_loopback, d.exclude_loopback),
            include_interfaces: field_or(f.include_interfaces, d.include_interfaces),
        },
        None => d,
    }
}

/// The time section's fields as read (or missing), over their defaults:
/// whether it is enabled, its cooldown and its minutes.
pub open spec fn time_section(o: Option<TimeFields>) -> (bool, u64, Seq<u8>) {
    match o {
        Some(f) => (
            opt_or(f.enabled, true),
            opt_or(f.cooldown_secs, 60u64),
            match f.minutes {
                Some(m) => m@,
                None => seq![0u8, 30u8],
            },
        ),
        None => (true, 60u64, seq![0u8, 30u8]),
    }
}

/// Whether logging is enabled, as read (or missing).
pub open spec fn log_section(o: Option<LogFields>) -> bool {
    match o {
        Some(f) => opt_or(f.enabled, true),
        None => true,
    }
}

/// The configuration a file gives: each missing section, and each missing
/// field of a section, takes that section's default; then every value is
/// brought into range.
pub open spec fn config_from_file_spec(raw: ConfigFile, c: Config) -> bool {
    &&& c.check_interval_secs == clamp(
        opt_or(raw.check_interval_secs, 10u64) as int,
        MIN_INTERVAL as int,
        MAX_INTERVAL as int,
    )
    &&& c.disk == metric_validated(metric_section(raw.disk, metric_spec(9000, Some(9500))), 0, PERCENT_MAX as int)
    &&& c.cpu == metric_validated(metric_section(raw.cpu, metric_spec(5000, None)), 0, PERCENT_MAX as int)
    &&& c.memory == metric_validated(metric_section(raw.memory, metric_spec(5000, None)), 0, PERCENT_MAX as int)
    &&& c.swap == metric_validated(metric_section(raw.swap, metric_spec(8000, None)), 0, PERCENT_MAX as int)
    &&& c.battery == metric_validated(metric_section(raw.battery, metric_spec(8400, None)), 0, PERCENT_MAX as int)
    &&& c.temperature == metric_validated(
        metric_section(raw.temperature, metric_spec(8000, Some(9500))),
        0,
        TEMPERATURE_MAX as int,
    )
    &&& c.disk_io == metric_validated(metric_section(raw.disk_io, metric_spec(3000, Some(8000))), 0, PERCENT_MAX as int)
    &&& c.network == network_validated(network_section(raw.network))
    &&& c.time.enabled == time_section(raw.time).0
    &&& c.time.cooldown_secs == cooldown_floor(time_section(raw.time).1)
    &&& c.time.minutes@ == time_section(raw.time).2
    &&& c.log == (LogConfig { enabled: log_section(raw.log) })
    &&& c.recovery_cooldown_secs == opt_or(raw.recovery_cooldown_secs, 60u64)
}

impl MetricFields {
    /// The section with `d`'s values under the fields it does not name.
    pub fn fill(self, d: MetricConfig) -> (m: MetricConfig)
        ensures
            m == metric_filled(self, d),
    {
        MetricConfig {
            enabled: match self.enabled {
                Some(v) => v,
                None => d.enabled,
            },
            threshold: match self.threshold {
                Some(v) => v,
                None => d.threshold,
            },
            critical: match self.critical {
                Some(v) => Some(v),
                None => d.critical,
            },
            cooldown_secs: match self.cooldown_secs {
                Some(v) => v,
                None => d.cooldown_secs,
            },
            exclude_mounts: match self.exclude_mounts {
                Some(v) => Some(v),
                None => d.exclude_mounts,
            },
            include_mounts: match self.include_mounts {
                Some(v) => Some(v),
                None => d.include_mounts,
            },
            use_available: match self.use_available {
                Some(v) => v,
                None => d.use_available,
            },
        }
    }
}

/// A metric section as read, or the default `d` when it is missing.
fn metric_from(o: Option<MetricFields>, d: MetricConfig) -> (m: MetricConfig)
    ensures
        m == metric_section(o, d),
{
    match o {
        Some(f) => f.fill(d),
        None => d,
    }
}

impl NetworkFields {
    /// The section with the network defaults under the fields it does not
    /// name.
    pub fn fill(self) -> (n: NetworkConfig)
        ensures
            n == network_section(Some(self)),
    {
        let d = NetworkConfig::default();
        NetworkConfig {
            enabled: match self.enabled {
                Some(v) => v,
                None => d.enabled,
            },
            threshold: match self.threshold {
                Some(v) => v,
                None => d.threshold,
            },
            critical: match self.critical {
                Some(v) => Some(v),
                None => d.critical,
            },
            cooldown_secs: match self.cooldown_secs {
                Some(v) => v,
                None => d.cooldown_secs,
            },
            exclude_loopback: match self.exclude_loopback {
                Some(v) => v,
                None => d.exclude_loopback,
            },
            include_interfaces: match self.include_interfaces {
                Some(v) => Some(v),
                None => d.include_interfaces,
            },
        }
    }
}

impl TimeFields {
    /// The section with the time defaults under the fields it does not
    /// name.
    pub fn fill(self) -> (t: TimeConfig)
        ensures
            t.enabled == time_section(Some(self)).0,
            t.cooldown_secs == time_section(Some(self)).1,
            t.minutes@ == time_section(Some(self)).2,
    {
        let d = TimeConfig::default();
        TimeConfig {
            enabled: match self.enabled {
                Some(v) => v,
                None => d.enabled,
            },
            cooldown_secs: match self.cooldown_secs {
                Some(v) => v,
                None => d.cooldown_secs,
            },
            minutes: match self.minutes {
                Some(v) => v,
                None => d.minutes,
            },
        }
    }
}

impl Config {
    /// The configuration that a read file gives.
    pub fn from_file(raw: ConfigFile) -> (c: Config)
        ensures
            config_from_file_spec(raw, c),
            config_valid(c),
    {
        let ghost r = raw;
        let mut cfg = Config {
            check_interval_secs: match raw.check_interval_secs {
                Some(v) => v,
                None => default_check_interval(),
            },
            disk: metric_from(raw.disk, default_disk()),
            cpu: metric_from(raw.cpu, default_cpu()),
            memory: metric_from(raw.memory, default_memory()),
            swap: metric_from(raw.swap, default_swap()),
            battery: metric_from(raw.battery, default_battery()),
            time: match raw.time {
                Some(t) => t.fill(),
                None => default_time(),
            },
            temperature: metric_from(raw.temperature, default_temperature()),
            network: match raw.network {
                Some(n) => n.fill(),
                None => NetworkConfig::default(),
            },
            disk_io: metric_from(raw.disk_io, default_disk_io()),
            log: LogConfig {
                enabled: match raw.log {
                    Some(l) => match l.enabled {
                        Some(v) => v,
                        None => true,
                    },
                    None => true,
                },
            },
            recovery_cooldown_secs: match raw.recovery_cooldown_secs {
                Some(v) => v,
                None => 60,
            },
        };
        let ghost before = cfg;
        cfg.validate();
        proof {
            lemma_validate_establishes(before);
        }
        cfg
    }
}

/// Whether a configuration file of `len` bytes is small enough to be read.
pub fn config_size_acceptable(len: u64) -> (ok: bool)
    ensures
        ok == (len <= MAX_CONFIG_SIZE),
{
    len <= MAX_CONFIG_SIZE
}

/// Validation brings every value of any configuration into range.
pub proof fn lemma_validate_establishes(c: Config)
    ensures
        config_valid(config_validated(c)),
{
}

/// Validation changes nothing in a configuration whose values are all in
/// range.
pub proof fn lemma_validate_keeps_valid(c: Config)
    requires
        config_valid(c),
    ensures
        config_validated(c) == c,
{
    assert(config_validated(c).disk == c.disk);
    assert(config_validated(c).cpu == c.cpu);
    assert(config_validated(c).memory == c.memory);
    assert(config_validated(c).swap == c.swap);
    assert(config_validated(c).battery == c.battery);
    assert(config_validated(c).temperature == c.temperature);
    assert(config_validated(c).disk_io == c.disk_io);
    assert(config_validated(c).network == c.network);
    assert(config_validated(c).time == c.time);
}

/// Validating twice gives what validating once gives.
pub proof fn lemma_validate_idempotent(c: Config)
    ensures
        config_validated(config_validated(c)) == config_validated(c),
{
    lemma_validate_establishes(c);
    lemma_validate_keeps_valid(config_validated(c));
}


/// The configuration file that `--init` writes: every section with its
/// default values.
pub open spec fn default_config_text_spec() -> Seq<char> {
    "# sema configuration\n# See https://github.com/codethare/sema for documentation\n\ncheck_interval_secs = 10\n\n[disk]\nenabled = true\nthreshold = 90.0\ncritical = 95.0\ncooldown_secs = 60\n\n[cpu]\nenabled = true\nthreshold = 50.0\ncooldown_secs = 60\n\n[memory]\nenabled = true\nthreshold = 50.0\ncooldown_secs = 60\n\n[swap]\nenabled = true\nthreshold = 80.0\ncooldown_secs = 60\n\n[battery]\nenabled = true\nthreshold = 84.0\ncooldown_secs = 60\n\n[time]\nenabled = true\ncooldown_secs = 60\n\n[temperature]\nenabled = true\nthreshold = 80.0\ncritical = 95.0\ncooldown_secs = 60\n\n[network]\nenabled = true\nthreshold = 100.0\ncritical = 500.0\ncooldown_secs = 60\nexclude_loopback = true\n\n[disk_io]\nenabled = true\nthreshold = 30.0\ncritical = 80.0\ncooldown_secs = 60\n\n[log]\nenabled = true\n"@
}

pub fn default_config_text() -> (t: &'static str)
    ensures
        t@ == default_config_text_spec(),
{
    "# sema configuration\n# See https://github.com/codethare/sema for documentation\n\ncheck_interval_secs = 10\n\n[disk]\nenabled = true\nthreshold = 90.0\ncritical = 95.0\ncooldown_secs = 60\n\n[cpu]\nenabled = true\nthreshold = 50.0\ncooldown_secs = 60\n\n[memory]\nenabled = true\nthreshold = 50.0\ncooldown_secs = 60\n\n[swap]\nenabled = true\nthreshold = 80.0\ncooldown_secs = 60\n\n[battery]\nenabled = true\nthreshold = 84.0\ncooldown_secs = 60\n\n[time]\nenabled = true\ncooldown_secs = 60\n\n[temperature]\nenabled = true\nthreshold = 80.0\ncritical = 95.0\ncooldown_secs = 60\n\n[network]\nenabled = true\nthreshold = 100.0\ncritical = 500.0\ncooldown_secs = 60\nexclude_loopback = true\n\n[disk_io]\nenabled = true\nthreshold = 30.0\ncritical = 80.0\ncooldown_secs = 60\n\n[log]\nenabled = true\n"
}

/// What reading the configuration file gave.
pub enum ConfigRead {
    /// There is no file.
    Missing,
    /// The file is larger than `MAX_CONFIG_SIZE`; its size in bytes.
    TooLarge(u64),
    /// The file could not be opened or read; the reason.
    Unreadable(String),
    /// The file was read and understood.
    Parsed(ConfigFile),
    /// The file was read but not understood; the reason.
    Malformed(String),
}

/// Why a configuration file was refused.
pub open spec fn refusal_text(r: ConfigRead) -> Seq<char> {
    match r {
        ConfigRead::TooLarge(n) => "config file too large ("@ + crate::text::dec(n as nat)
            + " bytes, max 1048576)"@,
        ConfigRead::Unreadable(e) => "cannot read config: "@ + e@,
        ConfigRead::Malformed(e) => "config parse failed: "@ + e@,
        _ => seq![],
    }
}

impl Config {
    /// The configuration that a read of its file gives. No file gives the
    /// defaults. A file that cannot be used gives the defaults too, unless
    /// `strict`, when it is refused with the reason.
    pub fn from_read(read: ConfigRead, strict: bool) -> (r: Result<Config, String>)
        ensures
            match read {
                ConfigRead::Missing => r matches Ok(c) && config_is_default(c),
                ConfigRead::Parsed(raw) => r matches Ok(c) && config_from_file_spec(raw, c),
                _ => if strict {
                    r matches Err(m) && m@ == refusal_text(read)
                } else {
                    r matches Ok(c) && config_is_default(c)
                },
            },
            r matches Ok(c) ==> config_valid(c),
    {
        match read {
            ConfigRead::Missing => Ok(Config::default()),
            ConfigRead::Parsed(raw) => Ok(Config::from_file(raw)),
            ConfigRead::TooLarge(n) => {
                if strict {
                    let mut m = String::new();
                    crate::text::push_str(&mut m, "config file too large (");
                    crate::text::push_dec(&mut m, n as u128);
                    crate::text::push_str(&mut m, " bytes, max 1048576)");
                    Err(m)
                } else {
                    Ok(Config::default())
                }
            },
            ConfigRead::Unreadable(e) => {
                if strict {
                    let mut m = String::new();
                    crate::text::push_str(&mut m, "cannot read config: ");
                    crate::text::push_str(&mut m, e.as_str());
                    Err(m)
                } else {
                    Ok(Config::default())
                }
            },
            ConfigRead::Malformed(e) => {
                if strict {
                    let mut m = String::new();
                    crate::text::push_str(&mut m, "config parse failed: ");
                    crate::text::push_str(&mut m, e.as_str());
                    Err(m)
                } else {
                    Ok(Config::default())
                }
            },
        }
    }
}

/// The configuration directory: `$XDG_CONFIG_HOME` when set, else
/// `$HOME/.config`, with the current directory when `HOME` is not set
/// either.
pub open spec fn config_dir_spec(xdg_config_home: Option<Seq<char>>, home: Option<Seq<char>>) -> Seq<
    char,
> {
    match xdg_config_home {
        Some(d) => d,
        None => crate::log::path_join(
            match home {
                Some(h) => h,
                None => "."@,
            },
            ".config"@,
        ),
    }
}

pub fn config_dir(xdg_config_home: Option<&str>, home: Option<&str>) -> (p: String)
    ensures
        p@ == config_dir_spec(crate::log::opt_view(xdg_config_home), crate::log::opt_view(home)),
{
    match xdg_config_home {
        Some(d) => crate::text::string_of(d),
        None => {
            let mut p = match home {
                Some(h) => crate::text::string_of(h),
                None => crate::text::string_of("."),
            };
            crate::log::push_path(&mut p, ".config");
            p
        },
    }
}

/// The configuration file within a configuration directory.
pub fn config_file_in(dir: &str) -> (p: String)
    ensures
        p@ == crate::log::path_join(crate::log::path_join(dir@, "sema"@), "config.toml"@),
{
    let mut p = crate::text::string_of(dir);
    crate::log::push_path(&mut p, "sema");
    crate::log::push_path(&mut p, "config.toml");
    p
}

} // verus!
