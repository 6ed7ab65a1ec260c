//! CPU usage checker.

use vstd::prelude::*;
use super::{Alert, AlertView, Checker, CheckerError, SysSnapshot, flag, push_flag};
use crate::config::{MetricConfig, Severity, severity_emoji, severity_for};
use crate::text::{centi_fixed, pad_left, pad_left_str, push_centi_fixed, push_str};

verus! {

pub struct Cpu {
    pub cfg: MetricConfig,
}

/// The alert for a CPU usage `u` (hundredths of a percent) over the
/// threshold, with the load averages of the snapshot.
pub open spec fn cpu_alert(cfg: MetricConfig, sys: SysSnapshot) -> Option<AlertView> {
    match sys.cpu_usage {
        None => None,
        Some(u) => if u <= cfg.threshold {
            None
        } else {
            let sev = severity_for(cfg.critical, u as int, false);
            Some(
                AlertView {
                    severity: sev,
                    summary: severity_emoji(sev) + " CPU overloaded"@,
                    body: "CPU: "@ + centi_fixed(u as int, 1) + "%\nIdle: "@ + centi_fixed(
                        10000 - u,
                        1,
                    ) + "%\nLoad: "@ + centi_fixed(sys.load_one as int, 2) + " "@ + centi_fixed(
                        sys.load_five as int,
                        2,
                    ) + " "@ + centi_fixed(sys.load_fifteen as int, 2),
                },
            )
        },
    }
}

/// A CPU alert is given exactly when the usage is known and above the
/// threshold, and is critical exactly when the usage is also above a
/// configured critical threshold.
pub proof fn lemma_cpu_alert_law(cfg: MetricConfig, sys: SysSnapshot)
    ensures
        (cpu_alert(cfg, sys) is Some) <==> (sys.cpu_usage matches Some(u) && u > cfg.threshold),
        cpu_alert(cfg, sys) matches Some(a) ==> ((a.severity == Severity::Critical) <==> (
        cfg.critical matches Some(c) && sys.cpu_usage matches Some(u) && u > c)),
{
}

/// The dry-run status line for the CPU.
pub open spec fn cpu_report(cfg: MetricConfig, sys: SysSnapshot) -> Seq<char> {
    match sys.cpu_usage {
        None => "  CPU     N/A"@,
        Some(u) => "  CPU     "@ + pad_left(centi_fixed(u as int, 1), 6) + "%  load: "@
            + centi_fixed(sys.load_one as int, 2) + " "@ + centi_fixed(sys.load_five as int, 2)
            + " "@ + centi_fixed(sys.load_fifteen as int, 2) + "  "@ + flag(
            u > cfg.threshold,
            severity_for(cfg.critical, u as int, false),
        ),
    }
}

fn push_loads(s: &mut String, sys: &SysSnapshot)
    ensures
        final(s)@ == old(s)@ + centi_fixed(sys.load_one as int, 2) + " "@ + centi_fixed(
            sys.load_five as int,
            2,
        ) + " "@ + centi_fixed(sys.load_fifteen as int, 2),
{
    let ghost start = s@;
    push_centi_fixed(s, sys.load_one as i128, 2);
    push_str(s, " ");
    push_centi_fixed(s, sys.load_five as i128, 2);
    push_str(s, " ");
    push_centi_fixed(s, sys.load_fifteen as i128, 2);
    assert(s@ =~= start + centi_fixed(sys.load_one as int, 2) + " "@ + centi_fixed(
        sys.load_five as int,
        2,
    ) + " "@ + centi_fixed(sys.load_fifteen as int, 2));
}

impl Cpu {
    pub fn new(cfg: MetricConfig) -> (c: Self)
        ensures
            c.cfg == cfg,
    {
        Cpu { cfg }
    }

    /// Alert when the global CPU usage exceeds the threshold.
    pub fn check_usage(&self, sys: &SysSnapshot) -> (r: Option<Alert>)
        ensures
            super::alert_opt_view(r) == cpu_alert(self.cfg, *sys),
    {
        let u = match sys.cpu_usage {
            None => return None,
            Some(u) => u,
        };
        if u <= self.cfg.threshold {
            return None;
        }
        let sev = self.cfg.severity(u, false);
        let mut summary = String::new();
        push_str(&mut summary, sev.emoji());
        push_str(&mut summary, " CPU overloaded");
        let mut body = String::new();
        push_str(&mut body, "CPU: ");
        push_centi_fixed(&mut body, u as i128, 1);
        push_str(&mut body, "%\nIdle: ");
        push_centi_fixed(&mut body, 10000i128 - u as i128, 1);
        push_str(&mut body, "%\nLoad: ");
        push_loads(&mut body, sys);
        let a = Alert { severity: sev, summary, body };
        assert(a@ == cpu_alert(self.cfg, *sys)->0);
        Some(a)
    }

    /// Dry-run status line.
    pub fn report_line(&self, sys: &SysSnapshot) -> (s: String)
        ensures
            s@ == cpu_report(self.cfg, *sys),
    {
        let u = match sys.cpu_usage {
            None => {
                let mut s = String::new();
                push_str(&mut s, "  CPU     N/A");
                return s;
            },
            Some(u) => u,
        };
        let sev = self.cfg.severity(u, false);
        let mut num = String::new();
        push_centi_fixed(&mut num, u as i128, 1);
        let padded = pad_left_str(num.as_str(), 6);
        let mut s = String::new();
        push_str(&mut s, "  CPU     ");
        push_str(&mut s, padded.as_str());
        push_str(&mut s, "%  load: ");
        push_loads(&mut s, sys);
        push_str(&mut s, "  ");
        push_flag(&mut s, u > self.cfg.threshold, sev);
        assert(s@ =~= cpu_report(self.cfg, *sys));
        s
    }
}

impl Checker for Cpu {
    fn key(&self) -> (k: &'static str)
        ensures
            k@ == "cpu"@,
    {
        "cpu"
    }

    fn cooldown_secs(&self) -> (c: u64)
        ensures
            c == self.cfg.cooldown_secs,
    {
        self.cfg.cooldown_secs
    }

    fn check(&mut self, sys: &SysSnapshot) -> (r: Result<Option<Alert>, CheckerError>)
        ensures
            *final(self) == *old(self),
            r matches Ok(a) && super::alert_opt_view(a) == cpu_alert(old(self).cfg, *sys),
    {
        Ok(self.check_usage(sys))
    }
}

} // verus!
