//! Battery charge checker.

use vstd::prelude::*;
use super::{Alert, AlertView, BatteryReading, Checker, CheckerError, SysSnapshot, flag, push_flag};
use super::memory::push_threshold5;
use crate::config::{MetricConfig, Severity, severity_emoji, severity_for};
use crate::scan::{parse_uint, parse_uint_str, str_eq, trim, trim_str, lemma_parse_uint_bound};
use crate::text::{centi_display, centi_fixed, dec, pad_left, pad_left_str, push_centi_display, push_dec, push_str};

verus! {

/// Checks between two readings of the charging status.
pub const STATUS_SKIP_INTERVAL: u8 = 6;

pub struct Battery {
    pub cfg: MetricConfig,
    /// While above zero, the charging status is not consulted.
    pub status_skip: u8,
}

/// The charge level a battery's capacity file gives, when it reads as a
/// 16-bit number.
pub open spec fn capacity_of(b: BatteryReading) -> Option<nat> {
    match b.capacity {
        Some(c) => match parse_uint(trim(c@), 65535) {
            Ok(v) => Some(v),
            Err(_) => None,
        },
        None => None,
    }
}

/// Whether a battery's status file says it is charging or full.
pub open spec fn charging_or_full(b: BatteryReading) -> bool {
    match b.status {
        Some(s) => trim(s@) == "Charging"@ || trim(s@) == "Full"@,
        None => false,
    }
}

/// The charge level of the first battery from index `i` on that gives one,
/// skipping batteries that charge or are full when `by_status`.
pub open spec fn first_capacity(bs: Seq<BatteryReading>, i: int, by_status: bool) -> Option<nat>
    decreases bs.len() - i,
{
    if i < 0 || i >= bs.len() {
        None
    } else if by_status && charging_or_full(bs[i]) {
        first_capacity(bs, i + 1, by_status)
    } else {
        match capacity_of(bs[i]) {
            Some(c) => Some(c),
            None => first_capacity(bs, i + 1, by_status),
        }
    }
}

/// The charge level a check reads: the status is consulted only once
/// every few checks.
pub open spec fn battery_reading(b: Battery, sys: SysSnapshot) -> Option<nat> {
    first_capacity(sys.batteries@, 0, b.status_skip == 0)
}

pub open spec fn battery_next(b: Battery) -> Battery {
    Battery {
        status_skip: if b.status_skip > 0 {
            (b.status_skip - 1) as u8
        } else {
            STATUS_SKIP_INTERVAL
        },
        ..b
    }
}

/// The charging status is consulted on one check out of every
/// `STATUS_SKIP_INTERVAL + 1`: after a check that consults it, the next
/// `STATUS_SKIP_INTERVAL` checks do not, and the one after them does
/// (its counter is back at zero).
pub proof fn lemma_status_cadence(b: Battery)
    requires
        b.status_skip == 0,
    ensures
        battery_next(b).status_skip == STATUS_SKIP_INTERVAL,
        forall|k: nat|
            1 <= k <= STATUS_SKIP_INTERVAL + 1 ==> #[trigger] skip_after(b, k)
                == STATUS_SKIP_INTERVAL + 1 - k,
{
    assert forall|k: nat| 1 <= k <= STATUS_SKIP_INTERVAL + 1 implies #[trigger] skip_after(b, k)
        == STATUS_SKIP_INTERVAL + 1 - k by {
        lemma_skip_after(b, k);
    }
}

/// The skip counter after `k` checks.
pub open spec fn skip_after(b: Battery, k: nat) -> u8
    decreases k,
{
    if k == 0 {
        b.status_skip
    } else {
        battery_next(Battery { status_skip: skip_after(b, (k - 1) as nat), ..b }).status_skip
    }
}

proof fn lemma_skip_after(b: Battery, k: nat)
    requires
        b.status_skip == 0,
        1 <= k <= STATUS_SKIP_INTERVAL + 1,
    ensures
        skip_after(b, k) == STATUS_SKIP_INTERVAL + 1 - k,
    decreases k,
{
    if k > 1 {
        lemma_skip_after(b, (k - 1) as nat);
    } else {
        assert(skip_after(b, 0) == b.status_skip);
    }
}

/// The alert for a charge level `c` below the threshold.
pub open spec fn battery_alert(cfg: MetricConfig, cap: Option<nat>) -> Option<AlertView> {
    match cap {
        None => None,
        Some(c) => if c * 100 >= cfg.threshold {
            None
        } else {
            let sev = severity_for(cfg.critical, (c * 100) as int, true);
            Some(
                AlertView {
                    severity: sev,
                    summary: severity_emoji(sev) + " Battery low"@,
                    body: "Battery: "@ + dec(c) + "% (threshold: "@ + centi_display(
                        cfg.threshold as int,
                    ) + "%)"@,
                },
            )
        },
    }
}

/// A battery alert is given exactly when the capacity is known and below
/// the threshold (lower is worse), and is critical exactly when it is also
/// below a configured critical threshold.
pub proof fn lemma_battery_alert_law(cfg: MetricConfig, cap: Option<nat>)
    ensures
        (battery_alert(cfg, cap) is Some) <==> (cap matches Some(c) && c * 100 < cfg.threshold),
        battery_alert(cfg, cap) matches Some(a) ==> ((a.severity == Severity::Critical) <==> (
        cfg.critical matches Some(k) && cap matches Some(c) && c * 100 < k)),
{
}

/// The dry-run status line.
pub open spec fn battery_report(cfg: MetricConfig, sys: SysSnapshot) -> Seq<char> {
    let thr5 = pad_left(centi_fixed(cfg.threshold as int, 1), 5);
    match first_capacity(sys.batteries@, 0, false) {
        Some(c) => "  Battery "@ + pad_left(dec(c), 6) + "%  threshold: "@ + thr5 + "%  "@ + flag(
            c * 100 < cfg.threshold,
            severity_for(cfg.critical, (c * 100) as int, true),
        ),
        None => "  Battery    N/A    threshold: "@ + thr5 + "%  -  (not detected)"@,
    }
}

/// Whether a power supply's `type` file names a battery.
pub fn is_battery_type(content: &str) -> (b: bool)
    ensures
        b == (trim(content@) == "Battery"@),
{
    str_eq(trim_str(content), "Battery")
}

fn capacity(b: &BatteryReading) -> (r: Option<u16>)
    ensures
        match capacity_of(*b) {
            Some(c) => r == Some(c as u16) && c <= 65535,
            None => r is None,
        },
{
    match &b.capacity {
        Some(c) => {
            proof {
                lemma_parse_uint_bound(trim(c@), 65535);
            }
            match parse_uint_str(trim_str(c.as_str()), 65535) {
                Ok(v) => Some(v as u16),
                Err(_) => None,
            }
        },
        None => None,
    }
}

fn is_charging_or_full(b: &BatteryReading) -> (r: bool)
    ensures
        r == charging_or_full(*b),
{
    match &b.status {
        Some(s) => {
            let t = trim_str(s.as_str());
            str_eq(t, "Charging") || str_eq(t, "Full")
        },
        None => false,
    }
}

/// The charge level of the first battery that gives one, skipping those
/// that charge or are full when `by_status`.
pub fn read_capacity(bs: &Vec<BatteryReading>, by_status: bool) -> (r: Option<u16>)
    ensures
        match first_capacity(bs@, 0, by_status) {
            Some(c) => r == Some(c as u16) && c <= 65535,
            None => r is None,
        },
{
    let mut i: usize = 0;
    while i < bs.len()
        invariant
            i <= bs.len(),
            first_capacity(bs@, 0, by_status) == first_capacity(bs@, i as int, by_status),
        decreases bs.len() - i,
    {
        let b = &bs[i];
        if !(by_status && is_charging_or_full(b)) {
            if let Some(c) = capacity(b) {
                return Some(c);
            }
        }
        i = i + 1;
    }
    None
}

impl Battery {
    pub fn new(cfg: MetricConfig) -> (b: Self)
        ensures
            b.cfg == cfg,
            b.status_skip == 0,
    {
        Battery { cfg, status_skip: 0 }
    }

    fn alert_for(&self, c: u16) -> (r: Option<Alert>)
        ensures
            super::alert_opt_view(r) == battery_alert(self.cfg, Some(c as nat)),
    {
        let v = c as i64 * 100;
        if v >= self.cfg.threshold {
            return None;
        }
        let sev = self.cfg.severity(v, true);
        let mut summary = String::new();
        push_str(&mut summary, sev.emoji());
        push_str(&mut summary, " Battery low");
        let mut body = String::new();
        push_str(&mut body, "Battery: ");
        push_dec(&mut body, c as u128);
        push_str(&mut body, "% (threshold: ");
        push_centi_display(&mut body, self.cfg.threshold);
        push_str(&mut body, "%)");
        let a = Alert { severity: sev, summary, body };
        assert(a@ == battery_alert(self.cfg, Some(c as nat))->0);
        Some(a)
    }

    /// Dry-run status line.
    pub fn report(&self, sys: &SysSnapshot) -> (s: String)
        ensures
            s@ == battery_report(self.cfg, *sys),
    {
        let mut s = String::new();
        match read_capacity(&sys.batteries, false) {
            Some(c) => {
                let v = c as i64 * 100;
                let sev = self.cfg.severity(v, true);
                let mut num = String::new();
                push_dec(&mut num, c as u128);
                let padded = pad_left_str(num.as_str(), 6);
                push_str(&mut s, "  Battery ");
                push_str(&mut s, padded.as_str());
                push_str(&mut s, "%  threshold: ");
                push_threshold5(&mut s, self.cfg.threshold);
                push_str(&mut s, "%  ");
                push_flag(&mut s, v < self.cfg.threshold, sev);
            },
            None => {
                push_str(&mut s, "  Battery    N/A    threshold: ");
                push_threshold5(&mut s, self.cfg.threshold);
                push_str(&mut s, "%  -  (not detected)");
            },
        }
        assert(s@ =~= battery_report(self.cfg, *sys));
        s
    }
}

impl Checker for Battery {
    fn key(&self) -> (k: &'static str)
        ensures
            k@ == "battery"@,
    {
        "battery"
    }

    fn cooldown_secs(&self) -> (c: u64)
        ensures
            c == self.cfg.cooldown_secs,
    {
        self.cfg.cooldown_secs
    }

    /// Alerts when the charge level of the first battery that gives one is
    /// below the threshold. The charging status is read only once every
    /// `STATUS_SKIP_INTERVAL + 1` checks; in between, a charging battery
    /// may be reported.
    fn check(&mut self, sys: &SysSnapshot) -> (r: Result<Option<Alert>, CheckerError>)
        ensures
            *final(self) == battery_next(*old(self)),
            r matches Ok(a) && super::alert_opt_view(a) == battery_alert(
                old(self).cfg,
                battery_reading(*old(self), *sys),
            ),
    {
        let cap = if self.status_skip > 0 {
            self.status_skip = self.status_skip - 1;
            read_capacity(&sys.batteries, false)
        } else {
            self.status_skip = STATUS_SKIP_INTERVAL;
            read_capacity(&sys.batteries, true)
        };
        match cap {
            Some(c) => Ok(self.alert_for(c)),
            None => Ok(None),
        }
    }
}

} // verus!
