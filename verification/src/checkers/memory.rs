//! Memory usage checker.

use vstd::prelude::*;
use super::{Alert, AlertView, Checker, CheckerError, SysSnapshot, flag, push_flag};
use crate::config::{MetricConfig, Severity, severity_emoji, severity_for_ratio, ratio_above};
use crate::text::{
    centi_fixed, dec, pad_left, pad_left_str, push_centi_fixed, push_dec, push_ratio_fixed1,
    push_str, ratio_fixed1,
};

verus! {

pub struct Memory {
    pub cfg: MetricConfig,
}

/// Bytes in a mebibyte.
pub const MIB: u64 = 1048576;

/// Memory counted as used: total minus available, or the kernel's figure.
pub open spec fn memory_used(cfg: MetricConfig, sys: SysSnapshot) -> nat {
    if cfg.use_available {
        if sys.mem_available > sys.mem_total {
            0
        } else {
            (sys.mem_total - sys.mem_available) as nat
        }
    } else {
        sys.mem_used as nat
    }
}

/// The alert for memory usage over the threshold.
pub open spec fn memory_alert(cfg: MetricConfig, sys: SysSnapshot) -> Option<AlertView> {
    let total = sys.mem_total as int;
    let num = memory_used(cfg, sys) * 100;
    if total == 0 || !ratio_above(num as int, total, cfg.threshold as int) {
        None
    } else {
        let sev = severity_for_ratio(cfg.critical, num as int, total);
        Some(
            AlertView {
                severity: sev,
                summary: severity_emoji(sev) + " Memory usage high"@,
                body: "Memory: "@ + ratio_fixed1(num, total as nat) + "%\nAvailable: "@ + dec(
                    sys.mem_available as nat / MIB as nat,
                ) + "MB / "@ + dec(total as nat / MIB as nat) + "MB"@,
            },
        )
    }
}

/// A memory alert is given exactly when the used share of memory is above
/// the threshold, and is critical exactly when it is also above a
/// configured critical threshold. Used memory is the kernel's figure, or
/// total less available when so configured.
pub proof fn lemma_memory_alert_law(cfg: MetricConfig, sys: SysSnapshot)
    ensures
        (memory_alert(cfg, sys) is Some) <==> (sys.mem_total > 0 && memory_used(cfg, sys) * 10000
            > cfg.threshold * sys.mem_total),
        memory_alert(cfg, sys) matches Some(a) ==> ((a.severity == Severity::Critical) <==> (
        cfg.critical matches Some(c) && memory_used(cfg, sys) * 10000 > c * sys.mem_total)),
        cfg.use_available && sys.mem_available <= sys.mem_total ==> memory_used(cfg, sys)
            + sys.mem_available == sys.mem_total,
        !cfg.use_available ==> memory_used(cfg, sys) == sys.mem_used,
{
    assert((memory_used(cfg, sys) * 100) * 100 == memory_used(cfg, sys) * 10000) by (nonlinear_arith);
}

/// The dry-run status line for memory.
pub open spec fn memory_report(cfg: MetricConfig, sys: SysSnapshot) -> Seq<char> {
    let total = sys.mem_total as int;
    let used = memory_used(cfg, sys);
    if total == 0 {
        "  Memory    N/A  threshold: N/A"@
    } else {
        "  Memory  "@ + pad_left(ratio_fixed1(used * 100, total as nat), 6) + "%  threshold: "@
            + pad_left(centi_fixed(cfg.threshold as int, 1), 5) + "%  "@ + flag(
            ratio_above((used * 100) as int, total, cfg.threshold as int),
            severity_for_ratio(cfg.critical, (used * 100) as int, total),
        ) + "  ("@ + dec(used / MIB as nat) + "MB / "@ + dec(total as nat / MIB as nat) + "MB)"@
    }
}

/// Appends the threshold rounded to one decimal place in a field of 5.
pub fn push_threshold5(s: &mut String, thr: i64)
    ensures
        final(s)@ == old(s)@ + pad_left(centi_fixed(thr as int, 1), 5),
{
    let mut t = String::new();
    push_centi_fixed(&mut t, thr as i128, 1);
    let p = pad_left_str(t.as_str(), 5);
    push_str(s, p.as_str());
}

/// Appends the ratio `num / den` rounded to one decimal place in a field of 6.
pub fn push_ratio6(s: &mut String, num: u128, den: u128)
    requires
        den > 0,
        num <= crate::text::RENDER_MAX,
        den <= crate::text::RENDER_MAX,
    ensures
        final(s)@ == old(s)@ + pad_left(ratio_fixed1(num as nat, den as nat), 6),
{
    let mut t = String::new();
    push_ratio_fixed1(&mut t, num, den);
    let p = pad_left_str(t.as_str(), 6);
    push_str(s, p.as_str());
}

impl Memory {
    pub fn new(cfg: MetricConfig) -> (m: Self)
        ensures
            m.cfg == cfg,
    {
        Memory { cfg }
    }

    fn used(&self, sys: &SysSnapshot) -> (u: u64)
        ensures
            u == memory_used(self.cfg, *sys),
    {
        if self.cfg.use_available {
            sys.mem_total.saturating_sub(sys.mem_available)
        } else {
            sys.mem_used
        }
    }

    /// Alert when memory usage exceeds the threshold.
    pub fn check_usage(&self, sys: &SysSnapshot) -> (r: Option<Alert>)
        ensures
            super::alert_opt_view(r) == memory_alert(self.cfg, *sys),
    {
        let total = sys.mem_total;
        if total == 0 {
            return None;
        }
        let num = self.used(sys) as u128 * 100;
        if !crate::config::ratio_above_exec(num, total as u128, self.cfg.threshold) {
            return None;
        }
        let sev = self.cfg.severity_of_ratio(num, total as u128);
        let mut summary = String::new();
        push_str(&mut summary, sev.emoji());
        push_str(&mut summary, " Memory usage high");
        let mut body = String::new();
        push_str(&mut body, "Memory: ");
        push_ratio_fixed1(&mut body, num, total as u128);
        push_str(&mut body, "%\nAvailable: ");
        push_dec(&mut body, (sys.mem_available / MIB) as u128);
        push_str(&mut body, "MB / ");
        push_dec(&mut body, (total / MIB) as u128);
        push_str(&mut body, "MB");
        let a = Alert { severity: sev, summary, body };
        assert(a@ == memory_alert(self.cfg, *sys)->0);
        Some(a)
    }

    /// Dry-run status line.
    pub fn report_line(&self, sys: &SysSnapshot) -> (s: String)
        ensures
            s@ == memory_report(self.cfg, *sys),
    {
        let total = sys.mem_total;
        let mut s = String::new();
        if total == 0 {
            push_str(&mut s, "  Memory    N/A  threshold: N/A");
            return s;
        }
        let used = self.used(sys);
        let num = used as u128 * 100;
        let over = crate::config::ratio_above_exec(num, total as u128, self.cfg.threshold);
        let sev = self.cfg.severity_of_ratio(num, total as u128);
        push_str(&mut s, "  Memory  ");
        push_ratio6(&mut s, num, total as u128);
        push_str(&mut s, "%  threshold: ");
        push_threshold5(&mut s, self.cfg.threshold);
        push_str(&mut s, "%  ");
        push_flag(&mut s, over, sev);
        push_str(&mut s, "  (");
        push_dec(&mut s, (used / MIB) as u128);
        push_str(&mut s, "MB / ");
        push_dec(&mut s, (total / MIB) as u128);
        push_str(&mut s, "MB)");
        assert(s@ =~= memory_report(self.cfg, *sys));
        s
    }
}

impl Checker for Memory {
    fn key(&self) -> (k: &'static str)
        ensures
            k@ == "memory"@,
    {
        "memory"
    }

    fn cooldown_secs(&self) -> (c: u64)
        ensures
            c == self.cfg.cooldown_secs,
    {
        self.cfg.cooldown_secs
    }

    fn check(&mut self, sys: &SysSnapshot) -> (r: Result<Option<Alert>, CheckerError>)
        ensures
            *final(self) == *old(self),
            r matches Ok(a) && super::alert_opt_view(a) == memory_alert(old(self).cfg, *sys),
    {
        Ok(self.check_usage(sys))
    }
}

} // verus!
