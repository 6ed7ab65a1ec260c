//! Swap usage checker.

use vstd::prelude::*;
use super::{Alert, AlertView, Checker, CheckerError, SysSnapshot, flag, push_flag};
use super::memory::{MIB, push_ratio6, push_threshold5};
use crate::config::{MetricConfig, Severity, severity_emoji, severity_for_ratio, ratio_above};
use crate::text::{
    centi_display, centi_fixed, dec, pad_left, push_centi_display, push_dec, push_ratio_fixed1,
    push_str, ratio_fixed1,
};

verus! {

pub struct Swap {
    pub cfg: MetricConfig,
}

/// The alert for swap usage over the threshold.
pub open spec fn swap_alert(cfg: MetricConfig, sys: SysSnapshot) -> Option<AlertView> {
    let total = sys.swap_total as int;
    let used = sys.swap_used as nat;
    let num = used * 100;
    if total == 0 || !ratio_above(num as int, total, cfg.threshold as int) {
        None
    } else {
        let sev = severity_for_ratio(cfg.critical, num as int, total);
        Some(
            AlertView {
                severity: sev,
                summary: severity_emoji(sev) + " Swap usage high"@,
                body: "Swap: "@ + dec(used / MIB as nat) + "MB / "@ + dec(total as nat / MIB as nat)
                    + "MB ("@ + ratio_fixed1(num, total as nat) + "%, threshold: "@ + centi_display(
                    cfg.threshold as int,
                ) + "%)"@,
            },
        )
    }
}

/// A swap alert is given exactly when swap exists and its used share is
/// above the threshold, and is critical exactly when it is also above a
/// configured critical threshold.
pub proof fn lemma_swap_alert_law(cfg: MetricConfig, sys: SysSnapshot)
    ensures
        (swap_alert(cfg, sys) is Some) <==> (sys.swap_total > 0 && sys.swap_used * 10000
            > cfg.threshold * sys.swap_total),
        swap_alert(cfg, sys) matches Some(a) ==> ((a.severity == Severity::Critical) <==> (
        cfg.critical matches Some(c) && sys.swap_used * 10000 > c * sys.swap_total)),
{
    assert((sys.swap_used * 100) * 100 == sys.swap_used * 10000) by (nonlinear_arith);
}

/// The dry-run status line for swap.
pub open spec fn swap_report(cfg: MetricConfig, sys: SysSnapshot) -> Seq<char> {
    let total = sys.swap_total as int;
    let used = sys.swap_used as nat;
    if total == 0 {
        "  Swap       N/A    threshold: "@ + pad_left(centi_fixed(cfg.threshold as int, 1), 5)
            + "%  -  (disabled)"@
    } else {
        "  Swap    "@ + pad_left(ratio_fixed1(used * 100, total as nat), 6) + "%  threshold: "@
            + pad_left(centi_fixed(cfg.threshold as int, 1), 5) + "%  "@ + flag(
            ratio_above((used * 100) as int, total, cfg.threshold as int),
            severity_for_ratio(cfg.critical, (used * 100) as int, total),
        ) + "  ("@ + dec(used / MIB as nat) + "MB / "@ + dec(total as nat / MIB as nat) + "MB)"@
    }
}

impl Swap {
    pub fn new(cfg: MetricConfig) -> (s: Self)
        ensures
            s.cfg == cfg,
    {
        Swap { cfg }
    }

    /// Alert when swap usage exceeds the threshold.
    pub fn check_usage(&self, sys: &SysSnapshot) -> (r: Option<Alert>)
        ensures
            super::alert_opt_view(r) == swap_alert(self.cfg, *sys),
    {
        let total = sys.swap_total;
        if total == 0 {
            return None;
        }
        let used = sys.swap_used;
        let num = used as u128 * 100;
        if !crate::config::ratio_above_exec(num, total as u128, self.cfg.threshold) {
            return None;
        }
        let sev = self.cfg.severity_of_ratio(num, total as u128);
        let mut summary = String::new();
        push_str(&mut summary, sev.emoji());
        push_str(&mut summary, " Swap usage high");
        let mut body = String::new();
        push_str(&mut body, "Swap: ");
        push_dec(&mut body, (used / MIB) as u128);
        push_str(&mut body, "MB / ");
        push_dec(&mut body, (total / MIB) as u128);
        push_str(&mut body, "MB (");
        push_ratio_fixed1(&mut body, num, total as u128);
        push_str(&mut body, "%, threshold: ");
        push_centi_display(&mut body, self.cfg.threshold);
        push_str(&mut body, "%)");
        let a = Alert { severity: sev, summary, body };
        assert(a@ == swap_alert(self.cfg, *sys)->0);
        Some(a)
    }

    /// Dry-run status line.
    pub fn report_line(&self, sys: &SysSnapshot) -> (s: String)
        ensures
            s@ == swap_report(self.cfg, *sys),
    {
        let total = sys.swap_total;
        let mut s = String::new();
        if total == 0 {
            push_str(&mut s, "  Swap       N/A    threshold: ");
            push_threshold5(&mut s, self.cfg.threshold);
            push_str(&mut s, "%  -  (disabled)");
            assert(s@ =~= swap_report(self.cfg, *sys));
            return s;
        }
        let used = sys.swap_used;
        let num = used as u128 * 100;
        let over = crate::config::ratio_above_exec(num, total as u128, self.cfg.threshold);
        let sev = self.cfg.severity_of_ratio(num, total as u128);
        push_str(&mut s, "  Swap    ");
        push_ratio6(&mut s, num, total as u128);
        push_str(&mut s, "%  threshold: ");
        push_threshold5(&mut s, self.cfg.threshold);
        push_str(&mut s, "%  ");
        push_flag(&mut s, over, sev);
        push_str(&mut s, "  (");
        push_dec(&mut s, (used / MIB) as u128);
        push_str(&mut s, "MB / ");
        push_dec(&mut s, (total / MIB) as u128);
        push_str(&mut s, "MB)");
        assert(s@ =~= swap_report(self.cfg, *sys));
        s
    }
}

impl Checker for Swap {
    fn key(&self) -> (k: &'static str)
        ensures
            k@ == "swap"@,
    {
        "swap"
    }

    fn cooldown_secs(&self) -> (c: u64)
        ensures
            c == self.cfg.cooldown_secs,
    {
        self.cfg.cooldown_secs
    }

    fn check(&mut self, sys: &SysSnapshot) -> (r: Result<Option<Alert>, CheckerError>)
        ensures
            *final(self) == *old(self),
            r matches Ok(a) && super::alert_opt_view(a) == swap_alert(old(self).cfg, *sys),
    {
        Ok(self.check_usage(sys))
    }
}

} // verus!
