//! Disk I/O wait checker: the share of CPU time spent waiting for I/O
//! between two readings of `/proc/stat`.

use vstd::prelude::*;
use super::{
    Alert, AlertView, Checker, CheckerError, ErrorView, ProcStat, SysSnapshot, flag, push_flag,
};
use super::memory::{push_ratio6, push_threshold5};
use crate::config::{
    MetricConfig, Severity, severity_emoji, severity_for_ratio, ratio_above, ratio_above_exec,
};
use crate::scan::{
    IntError, int_error_text, lemma_parse_uint_bound, parse_uint, parse_uint_str, push_int_error_text, split_words,
    str_eq, trim_end, trim_end_str, views_of, words,
};
use crate::text::{centi_display, centi_fixed, pad_left, push_centi_display, push_ratio_fixed1, push_str, ratio_fixed1};

verus! {

/// `a + b` wrapped to 64 bits.
pub open spec fn wrap_add(a: nat, b: nat) -> nat {
    if a + b > u64::MAX {
        (a + b - 0x1_0000_0000_0000_0000) as nat
    } else {
        a + b
    }
}

/// Sum (wrapped to 64 bits) of the fields among the first `n` that read
/// as unsigned integers; the others are skipped.
pub open spec fn field_sum(fs: Seq<Seq<char>>, n: int) -> nat
    decreases n,
{
    if n <= 0 {
        0
    } else {
        let p = field_sum(fs, n - 1);
        match parse_uint(fs[n - 1], u64::MAX as nat) {
            Ok(v) => wrap_add(p, v),
            Err(_) => p,
        }
    }
}

/// The (iowait, total) jiffies that the aggregate `cpu` line of
/// `/proc/stat` gives, or the message saying why the line is refused.
pub open spec fn iowait_reading(line: Seq<char>) -> Result<(nat, nat), Seq<char>> {
    if line.len() == 0 {
        Err("/proc/stat is empty"@)
    } else {
        let f = words(line);
        if f.len() < 6 || f[0] != "cpu"@ {
            Err("unexpected /proc/stat format: '"@ + trim_end(line) + "'"@)
        } else {
            match parse_uint(f[5], u64::MAX as nat) {
                Err(e) => Err("parse field 5: "@ + int_error_text(e)),
                Ok(iow) => Ok((iow, field_sum(f.skip(1), f.len() - 1))),
            }
        }
    }
}

proof fn lemma_field_sum_bound(fs: Seq<Seq<char>>, n: int)
    ensures
        field_sum(fs, n) <= u64::MAX,
    decreases n,
{
    if n > 0 {
        lemma_field_sum_bound(fs, n - 1);
        lemma_parse_uint_bound(fs[n - 1], u64::MAX as nat);
    }
}

/// Reads (iowait, total) from the first line of `/proc/stat`.
pub fn read_iowait(line: &str) -> (r: Result<(u64, u64), CheckerError>)
    ensures
        match iowait_reading(line@) {
            Ok((a, b)) => r == Ok::<(u64, u64), CheckerError>((a as u64, b as u64)) && a
                <= u64::MAX && b <= u64::MAX,
            Err(m) => r matches Err(CheckerError::InvalidData(msg)) && msg@ == m,
        },
{
    if line.unicode_len() == 0 {
        let mut m = String::new();
        push_str(&mut m, "/proc/stat is empty");
        return Err(CheckerError::InvalidData(m));
    }
    let fields = split_words(line);
    let ghost f = views_of(fields@);
    if fields.len() < 6 || !str_eq(fields[0].as_str(), "cpu") {
        let mut m = String::new();
        push_str(&mut m, "unexpected /proc/stat format: '");
        push_str(&mut m, trim_end_str(line));
        push_str(&mut m, "'");
        return Err(CheckerError::InvalidData(m));
    }
    assert(f[5] == fields@[5]@);
    let iowait = match parse_uint_str(fields[5].as_str(), u64::MAX) {
        Ok(v) => v,
        Err(e) => {
            let mut m = String::new();
            push_str(&mut m, "parse field 5: ");
            push_int_error_text(&mut m, e);
            return Err(CheckerError::InvalidData(m));
        },
    };
    let mut total: u64 = 0;
    let mut i: usize = 1;
    let ghost rest = f.skip(1);
    while i < fields.len()
        invariant
            1 <= i <= fields.len(),
            f == views_of(fields@),
            rest == f.skip(1),
            total == field_sum(rest, i - 1),
        decreases fields.len() - i,
    {
        assert(rest[i - 1] == fields@[i as int]@);
        match parse_uint_str(fields[i].as_str(), u64::MAX) {
            Ok(v) => {
                total = total.wrapping_add(v);
            },
            Err(_) => {},
        }
        i = i + 1;
    }
    proof {
        lemma_field_sum_bound(rest, f.len() - 1);
        lemma_parse_uint_bound(f[5], u64::MAX as nat);
    }
    Ok((iowait, total))
}

pub struct DiskIo {
    pub cfg: MetricConfig,
    pub prev_iowait: u64,
    pub prev_total: u64,
    /// When the previous reading was taken (monotonic microseconds).
    pub prev_time: Option<u64>,
}

/// The saturating difference `a - b`.
pub open spec fn sat_sub(a: nat, b: nat) -> nat {
    if a > b {
        (a - b) as nat
    } else {
        0
    }
}

/// The state after a check, given what the snapshot holds.
pub open spec fn disk_io_next(d: DiskIo, sys: SysSnapshot) -> DiskIo {
    match sys.proc_stat {
        ProcStat::Line(l) => match iowait_reading(l@) {
            Ok((iow, tot)) => DiskIo {
                prev_iowait: iow as u64,
                prev_total: tot as u64,
                prev_time: Some(sys.now_us),
                ..d
            },
            Err(_) => d,
        },
        _ => d,
    }
}

/// The alert for the share of I/O wait `iow / tot` over the threshold.
pub open spec fn io_wait_alert(cfg: MetricConfig, iow: nat, tot: nat) -> Option<AlertView> {
    if tot == 0 || !ratio_above((iow * 100) as int, tot as int, cfg.threshold as int) {
        None
    } else {
        let sev = severity_for_ratio(cfg.critical, (iow * 100) as int, tot as int);
        Some(
            AlertView {
                severity: sev,
                summary: severity_emoji(sev) + " Disk I/O wait high"@,
                body: "I/O wait: "@ + ratio_fixed1(iow * 100, tot) + "% (threshold: "@
                    + centi_display(cfg.threshold as int) + "%)"@,
            },
        )
    }
}

/// The I/O wait alert, over the counts `iow` of I/O wait and `tot` of all
/// CPU time between two readings: given exactly when the share
/// `iow / tot` is above the threshold (in hundredths of a percent), and
/// critical exactly when it is also above a configured critical threshold.
pub proof fn lemma_io_wait_severity(cfg: MetricConfig, iow: nat, tot: nat)
    ensures
        (io_wait_alert(cfg, iow, tot) is Some) <==> (tot > 0 && iow * 10000 > cfg.threshold * tot),
        io_wait_alert(cfg, iow, tot) matches Some(a) ==> ((a.severity == Severity::Critical) <==> (
        cfg.critical matches Some(c) && iow * 10000 > c * tot)),
        io_wait_alert(cfg, iow, tot) matches Some(a) ==> (a.severity == Severity::Critical
            || a.severity == Severity::Warning),
{
    assert((iow * 100) * 100 == iow * 10000) by (nonlinear_arith);
}

/// What a check returns, given the state before it and the snapshot.
pub open spec fn disk_io_outcome(d: DiskIo, sys: SysSnapshot) -> Result<
    Option<AlertView>,
    ErrorView,
> {
    match sys.proc_stat {
        ProcStat::Missing => Ok(None),
        ProcStat::Failed(m) => Err(ErrorView::Io(m@)),
        ProcStat::Line(l) => match iowait_reading(l@) {
            Err(m) => Err(ErrorView::InvalidData(m)),
            Ok((iow, tot)) => match d.prev_time {
                None => Ok(None),
                Some(_) => Ok(
                    io_wait_alert(
                        d.cfg,
                        sat_sub(iow, d.prev_iowait as nat),
                        sat_sub(tot, d.prev_total as nat),
                    ),
                ),
            },
        },
    }
}

/// The first good reading only sets the baseline: it never alerts, and
/// the next check compares with it.
pub proof fn lemma_disk_io_baseline(d: DiskIo, sys: SysSnapshot)
    requires
        d.prev_time is None,
        sys.proc_stat matches ProcStat::Line(l) && iowait_reading(l@) is Ok,
    ensures
        disk_io_outcome(d, sys) == Ok::<Option<AlertView>, ErrorView>(None),
        disk_io_next(d, sys).prev_time == Some(sys.now_us),
{
}

/// The dry-run status line, from the previous reading and the snapshot.
pub open spec fn disk_io_report(d: DiskIo, sys: SysSnapshot) -> Seq<char> {
    let thr5 = pad_left(centi_fixed(d.cfg.threshold as int, 1), 5);
    let reading = match sys.proc_stat {
        ProcStat::Line(l) => iowait_reading(l@),
        _ => Err(seq![]),
    };
    match reading {
        Err(_) => "  I/O Wait N/A"@,
        Ok((iow, tot)) => match d.prev_time {
            None => "  I/O Wait     —    threshold: "@ + thr5 + "%  ✓  (baseline)"@,
            Some(_) => {
                let di = sat_sub(iow, d.prev_iowait as nat);
                let dt = sat_sub(tot, d.prev_total as nat);
                if dt == 0 {
                    "  I/O Wait     —    threshold: "@ + thr5 + "%  ✓"@
                } else {
                    "  I/O Wait "@ + pad_left(ratio_fixed1(di * 100, dt), 5) + "%  threshold: "@
                        + thr5 + "%  "@ + flag(
                        ratio_above((di * 100) as int, dt as int, d.cfg.threshold as int),
                        severity_for_ratio(d.cfg.critical, (di * 100) as int, dt as int),
                    )
                }
            },
        },
    }
}

impl DiskIo {
    pub fn new(cfg: MetricConfig) -> (d: Self)
        ensures
            d.cfg == cfg,
            d.prev_iowait == 0,
            d.prev_total == 0,
            d.prev_time is None,
    {
        DiskIo { cfg, prev_iowait: 0, prev_total: 0, prev_time: None }
    }

    fn alert_for(&self, iow: u64, tot: u64) -> (r: Option<Alert>)
        ensures
            super::alert_opt_view(r) == io_wait_alert(self.cfg, iow as nat, tot as nat),
    {
        if tot == 0 {
            return None;
        }
        let num = iow as u128 * 100;
        if !ratio_above_exec(num, tot as u128, self.cfg.threshold) {
            return None;
        }
        let sev = self.cfg.severity_of_ratio(num, tot as u128);
        let mut summary = String::new();
        push_str(&mut summary, sev.emoji());
        push_str(&mut summary, " Disk I/O wait high");
        let mut body = String::new();
        push_str(&mut body, "I/O wait: ");
        push_ratio_fixed1(&mut body, num, tot as u128);
        push_str(&mut body, "% (threshold: ");
        push_centi_display(&mut body, self.cfg.threshold);
        push_str(&mut body, "%)");
        let a = Alert { severity: sev, summary, body };
        assert(a@ == io_wait_alert(self.cfg, iow as nat, tot as nat)->0);
        Some(a)
    }

    /// Dry-run status line.
    pub fn report(&self, sys: &SysSnapshot) -> (s: String)
        ensures
            s@ == disk_io_report(*self, *sys),
    {
        let mut s = String::new();
        let reading = match &sys.proc_stat {
            ProcStat::Line(l) => read_iowait(l.as_str()),
            _ => {
                push_str(&mut s, "  I/O Wait N/A");
                return s;
            },
        };
        let (iow, tot) = match reading {
            Ok(v) => v,
            Err(_) => {
                push_str(&mut s, "  I/O Wait N/A");
                return s;
            },
        };
        match self.prev_time {
            None => {
                push_str(&mut s, "  I/O Wait     —    threshold: ");
                push_threshold5(&mut s, self.cfg.threshold);
                push_str(&mut s, "%  ✓  (baseline)");
            },
            Some(_) => {
                let di = iow.saturating_sub(self.prev_iowait);
                let dt = tot.saturating_sub(self.prev_total);
                if dt == 0 {
                    push_str(&mut s, "  I/O Wait     —    threshold: ");
                    push_threshold5(&mut s, self.cfg.threshold);
                    push_str(&mut s, "%  ✓");
                } else {
                    let num = di as u128 * 100;
                    let mut pct = String::new();
                    push_ratio_fixed1(&mut pct, num, dt as u128);
                    let padded = crate::text::pad_left_str(pct.as_str(), 5);
                    push_str(&mut s, "  I/O Wait ");
                    push_str(&mut s, padded.as_str());
                    push_str(&mut s, "%  threshold: ");
                    push_threshold5(&mut s, self.cfg.threshold);
                    push_str(&mut s, "%  ");
                    push_flag(
                        &mut s,
                        ratio_above_exec(num, dt as u128, self.cfg.threshold),
                        self.cfg.severity_of_ratio(num, dt as u128),
                    );
                }
            },
        }
        assert(s@ =~= disk_io_report(*self, *sys));
        s
    }
}

impl Checker for DiskIo {
    fn key(&self) -> (k: &'static str)
        ensures
            k@ == "disk_io"@,
    {
        "disk_io"
    }

    fn cooldown_secs(&self) -> (c: u64)
        ensures
            c == self.cfg.cooldown_secs,
    {
        self.cfg.cooldown_secs
    }

    /// The first reading only sets the baseline; later ones compare the
    /// I/O wait share since the previous reading with the threshold.
    fn check(&mut self, sys: &SysSnapshot) -> (r: Result<Option<Alert>, CheckerError>)
        ensures
            *final(self) == disk_io_next(*old(self), *sys),
            super::result_view(r) == disk_io_outcome(*old(self), *sys),
    {
        let line = match &sys.proc_stat {
            ProcStat::Missing => return Ok(None),
            ProcStat::Failed(m) => return Err(CheckerError::Io(m.clone())),
            ProcStat::Line(l) => l,
        };
        let (iowait, total) = match read_iowait(line.as_str()) {
            Ok(v) => v,
            Err(e) => return Err(e),
        };
        let now = sys.now_us;
        match self.prev_time {
            Some(_) => {},
            None => {
                self.prev_iowait = iowait;
                self.prev_total = total;
                self.prev_time = Some(now);
                return Ok(None);
            },
        }
        let iowait_delta = iowait.saturating_sub(self.prev_iowait);
        let total_delta = total.saturating_sub(self.prev_total);
        self.prev_iowait = iowait;
        self.prev_total = total;
        self.prev_time = Some(now);
        Ok(self.alert_for(iowait_delta, total_delta))
    }
}

} // verus!
