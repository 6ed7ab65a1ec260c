//! Time reminder: a chime at chosen minutes of every hour.

use vstd::prelude::*;
use super::{Alert, AlertView, Checker, CheckerError, ErrorView, SysSnapshot};
use crate::config::{Severity, TimeConfig};
use crate::text::{
    dec, join, lemma_join_step, pad2, pad_left, pad_left_str, push_dec, push_pad2, push_str,
};

verus! {

pub struct TimeChecker {
    pub cfg: TimeConfig,
    /// The (hour, minute) of the last reminder.
    pub last_fired: Option<(u32, u8)>,
}

/// The snapshot's local time, when it is a time of day.
pub open spec fn time_of_day(sys: SysSnapshot) -> Option<(u32, u32)> {
    match sys.local_time {
        Some((h, m)) => if h < 24 && m < 60 {
            Some((h, m))
        } else {
            None
        },
        None => None,
    }
}

/// What a check on `sys` gives: the reminder due at its local time, or an
/// error when the snapshot holds no time of day.
pub open spec fn time_outcome(t: TimeChecker, sys: SysSnapshot) -> Result<
    Option<AlertView>,
    ErrorView,
> {
    match time_of_day(sys) {
        Some((h, m)) => Ok(time_alert(t, h, m)),
        None => Err(ErrorView::InvalidData("local time unavailable"@)),
    }
}

/// The checker after a check on `sys`.
pub open spec fn time_state(t: TimeChecker, sys: SysSnapshot) -> TimeChecker {
    match time_of_day(sys) {
        Some((h, m)) => time_next(t, h, m),
        None => t,
    }
}

/// Whether `m` is one of the configured minutes.
pub open spec fn minute_listed(cfg: TimeConfig, m: u8) -> bool {
    cfg.minutes@.contains(m)
}

/// Whether a reminder is due at (`hour`, `minute`): a listed minute, not
/// already reminded of.
pub open spec fn reminder_due(t: TimeChecker, hour: u32, minute: u32) -> bool {
    minute_listed(t.cfg, minute as u8) && t.last_fired != Some((hour, minute as u8))
}

pub open spec fn time_next(t: TimeChecker, hour: u32, minute: u32) -> TimeChecker {
    if reminder_due(t, hour, minute) {
        TimeChecker { last_fired: Some((hour, minute as u8)), ..t }
    } else {
        t
    }
}

pub open spec fn time_alert(t: TimeChecker, hour: u32, minute: u32) -> Option<AlertView> {
    if reminder_due(t, hour, minute) {
        Some(
            AlertView {
                severity: Severity::Warning,
                summary: "⏰ Time reminder"@,
                body: "It's "@ + pad2(hour as nat) + ":"@ + pad2(minute as nat),
            },
        )
    } else {
        None
    }
}

/// A reminder fires at most once in a slot: right after it fired, the same
/// (hour, minute) gives none.
pub proof fn lemma_reminder_once(t: TimeChecker, hour: u32, minute: u32)
    ensures
        time_alert(time_next(t, hour, minute), hour, minute) is None,
{
}

/// A minute that is not listed never gives a reminder.
pub proof fn lemma_unlisted_minute_silent(t: TimeChecker, hour: u32, minute: u32)
    requires
        !minute_listed(t.cfg, minute as u8),
    ensures
        time_alert(t, hour, minute) is None,
        time_next(t, hour, minute) == t,
{
}

/// A fresh checker reminds at a time exactly when its minute is listed.
pub proof fn lemma_fresh_reminds_on_listed(cfg: TimeConfig, hour: u32, minute: u32)
    requires
        minute < 60,
    ensures
        (time_alert(TimeChecker { cfg, last_fired: None }, hour, minute) is Some) <==> cfg.minutes@.contains(
            minute as u8,
        ),
{
}

/// Every listed slot of an hour chimes: right after a reminder at
/// (`hour`, `m1`), another listed minute `m2` of the same hour, or the
/// same minute of another hour `h2`, gives a reminder too.
pub proof fn lemma_every_listed_slot_chimes(
    t: TimeChecker,
    hour: u32,
    m1: u32,
    h2: u32,
    m2: u32,
)
    requires
        m1 < 60,
        m2 < 60,
        time_alert(t, hour, m1) is Some,
        t.cfg.minutes@.contains(m2 as u8),
        hour != h2 || m1 != m2,
    ensures
        time_alert(time_next(t, hour, m1), h2, m2) is Some,
        time_alert(time_next(t, hour, m1), h2, m2) matches Some(a) && a.body == "It's "@ + pad2(
            h2 as nat,
        ) + ":"@ + pad2(m2 as nat),
{
}

pub open spec fn minute_label(m: u8) -> Seq<char> {
    ":"@ + pad2(m as nat)
}

/// The listed minutes, or their count when there are more than four.
pub open spec fn minutes_text(cfg: TimeConfig) -> Seq<char> {
    if cfg.minutes@.len() <= 4 {
        join(Seq::new(cfg.minutes@.len(), |k: int| minute_label(cfg.minutes@[k])), ", "@)
    } else {
        dec(cfg.minutes@.len()) + " slots"@
    }
}

/// The dry-run status line at the snapshot's local time, or `N/A` when it
/// holds no time of day.
pub open spec fn time_report_of(cfg: TimeConfig, sys: SysSnapshot) -> Seq<char> {
    match time_of_day(sys) {
        Some((h, m)) => time_report(cfg, h, m),
        None => "  Time    N/A"@,
    }
}

/// The dry-run status line at (`hour`, `minute`).
pub open spec fn time_report(cfg: TimeConfig, hour: u32, minute: u32) -> Seq<char> {
    "  Time    "@ + pad_left(dec(hour as nat), 2) + ":"@ + pad2(minute as nat) + "       "@
        + minutes_text(cfg) + "  "@ + if minute_listed(cfg, minute as u8) {
        "will trigger"@
    } else {
        "—"@
    }
}

fn listed(minutes: &Vec<u8>, m: u8) -> (b: bool)
    ensures
        b == minutes@.contains(m),
{
    let mut i: usize = 0;
    while i < minutes.len()
        invariant
            i <= minutes.len(),
            forall|k: int| 0 <= k < i ==> minutes@[k] != m,
        decreases minutes.len() - i,
    {
        if minutes[i] == m {
            assert(minutes@[i as int] == m);
            return true;
        }
        i = i + 1;
    }
    false
}

impl TimeChecker {
    pub fn new(cfg: TimeConfig) -> (t: Self)
        ensures
            t.cfg == cfg,
            t.last_fired is None,
    {
        TimeChecker { cfg, last_fired: None }
    }

    /// The reminder due at (`hour`, `minute`), at most one per slot.
    pub fn check_at(&mut self, hour: u32, minute: u32) -> (r: Option<Alert>)
        requires
            hour < 24,
            minute < 60,
        ensures
            *final(self) == time_next(*old(self), hour, minute),
            super::alert_opt_view(r) == time_alert(*old(self), hour, minute),
    {
        let m = minute as u8;
        if !listed(&self.cfg.minutes, m) {
            return None;
        }
        let slot = (hour, m);
        if self.last_fired == Some(slot) {
            return None;
        }
        self.last_fired = Some(slot);
        let mut summary = String::new();
        push_str(&mut summary, "⏰ Time reminder");
        let mut body = String::new();
        push_str(&mut body, "It's ");
        push_pad2(&mut body, hour as u128);
        push_str(&mut body, ":");
        push_pad2(&mut body, minute as u128);
        let a = Alert { severity: Severity::Warning, summary, body };
        assert(a@ == time_alert(*old(self), hour, minute)->0);
        Some(a)
    }

    /// Dry-run status line at (`hour`, `minute`).
    pub fn report_at(&self, hour: u32, minute: u32) -> (s: String)
        requires
            hour < 24,
            minute < 60,
        ensures
            s@ == time_report(self.cfg, hour, minute),
    {
        let mut s = String::new();
        push_str(&mut s, "  Time    ");
        let mut h = String::new();
        push_dec(&mut h, hour as u128);
        let hp = pad_left_str(h.as_str(), 2);
        push_str(&mut s, hp.as_str());
        push_str(&mut s, ":");
        push_pad2(&mut s, minute as u128);
        push_str(&mut s, "       ");
        let ghost before_label = s@;
        let mins = &self.cfg.minutes;
        if mins.len() <= 4 {
            let ghost entries = Seq::new(mins@.len(), |k: int| minute_label(mins@[k]));
            let mut j: usize = 0;
            while j < mins.len()
                invariant
                    j <= mins.len(),
                    entries == Seq::new(mins@.len(), |k: int| minute_label(mins@[k])),
                    s@ == before_label + join(entries.take(j as int), ", "@),
                decreases mins.len() - j,
            {
                proof {
                    lemma_join_step(entries, ", "@, j as int);
                }
                if j > 0 {
                    push_str(&mut s, ", ");
                }
                push_str(&mut s, ":");
                push_pad2(&mut s, mins[j] as u128);
                assert(entries[j as int] == minute_label(mins@[j as int]));
                if j == 0 {
                    assert(s@ =~= before_label + join(entries.take(1), ", "@));
                } else {
                    assert(s@ =~= before_label + join(entries.take(j + 1), ", "@));
                }
                j = j + 1;
            }
            assert(entries.take(mins@.len() as int) =~= entries);
        } else {
            push_dec(&mut s, mins.len() as u128);
            push_str(&mut s, " slots");
        }
        assert(s@ =~= before_label + minutes_text(self.cfg));
        push_str(&mut s, "  ");
        if listed(mins, minute as u8) {
            push_str(&mut s, "will trigger");
        } else {
            push_str(&mut s, "—");
        }
        assert(s@ =~= time_report(self.cfg, hour, minute));
        s
    }

    /// Dry-run status line at the snapshot's local time.
    pub fn report(&self, sys: &SysSnapshot) -> (s: String)
        ensures
            s@ == time_report_of(self.cfg, *sys),
    {
        match sys.local_time {
            Some((h, m)) => {
                if h < 24 && m < 60 {
                    return self.report_at(h, m);
                }
            },
            None => {},
        }
        let mut s = String::new();
        push_str(&mut s, "  Time    N/A");
        s
    }
}

impl Checker for TimeChecker {
    fn key(&self) -> (k: &'static str)
        ensures
            k@ == "time"@,
    {
        "time"
    }

    fn cooldown_secs(&self) -> (c: u64)
        ensures
            c == self.cfg.cooldown_secs,
    {
        self.cfg.cooldown_secs
    }

    /// The reminder due at the snapshot's local time.
    fn check(&mut self, sys: &SysSnapshot) -> (r: Result<Option<Alert>, CheckerError>)
        ensures
            *final(self) == time_state(*old(self), *sys),
            super::result_view(r) == time_outcome(*old(self), *sys),
    {
        match sys.local_time {
            Some((h, m)) => {
                if h < 24 && m < 60 {
                    return Ok(self.check_at(h, m));
                }
            },
            None => {},
        }
        Err(CheckerError::InvalidData(crate::text::string_of("local time unavailable")))
    }
}

} // verus!
