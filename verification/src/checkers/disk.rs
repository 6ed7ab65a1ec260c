//! Disk usage checker: the fullest watched filesystem.

use vstd::prelude::*;
use super::{Alert, AlertView, Checker, CheckerError, DiskReading, SysSnapshot, flag, push_flag};
use crate::config::{
    MetricConfig, Severity, severity_emoji, wide_mul, severity_for_ratio, ratio_above, ratio_above_exec,
};
use crate::scan::{any_prefix, starts_with_any, views_of};
use crate::text::{
    centi_display, join, lemma_join_step, push_centi_display, push_ratio_fixed1, push_str,
    ratio_fixed1,
};

verus! {

/// Bytes in a gibibyte.
pub const GIB: u64 = 1073741824;

pub struct Disk {
    pub cfg: MetricConfig,
}

/// Whether a mount point passes the configured prefix filters.
pub open spec fn mount_allowed_spec(cfg: MetricConfig, mount: Seq<char>) -> bool {
    &&& !(cfg.exclude_mounts matches Some(ex) && any_prefix(views_of(ex@), mount))
    &&& (cfg.include_mounts matches Some(inc) ==> any_prefix(views_of(inc@), mount))
}

/// Whether a filesystem is watched: a real directory mount, allowed by the
/// filters, with a nonzero size.
pub open spec fn watched(cfg: MetricConfig, d: DiskReading) -> bool {
    d.is_dir && mount_allowed_spec(cfg, d.mount@) && d.total != 0
}

/// Bytes in use on a filesystem.
pub open spec fn disk_used(d: DiskReading) -> nat {
    if d.available > d.total {
        0
    } else {
        (d.total - d.available) as nat
    }
}

/// The fullest watched filesystem among the first `n` readings, as
/// (mount point, used, total); the first of equally full ones wins.
pub open spec fn max_usage_upto(cfg: MetricConfig, ds: Seq<DiskReading>, n: int) -> Option<
    (Seq<char>, nat, nat),
>
    decreases n,
{
    if n <= 0 {
        None
    } else {
        let prev = max_usage_upto(cfg, ds, n - 1);
        let d = ds[n - 1];
        if !watched(cfg, d) {
            prev
        } else {
            let used = disk_used(d);
            match prev {
                Some((m, u, t)) => if used * t <= u * (d.total as nat) {
                    prev
                } else {
                    Some((d.mount@, used, d.total as nat))
                },
                None => Some((d.mount@, used, d.total as nat)),
            }
        }
    }
}

pub open spec fn max_usage_spec(cfg: MetricConfig, ds: Seq<DiskReading>) -> Option<
    (Seq<char>, nat, nat),
> {
    max_usage_upto(cfg, ds, ds.len() as int)
}

/// The alert for the fullest watched filesystem over the threshold.
pub open spec fn disk_alert(cfg: MetricConfig, sys: SysSnapshot) -> Option<AlertView> {
    match max_usage_spec(cfg, sys.disks@) {
        None => None,
        Some((mount, used, total)) => if !ratio_above(
            (used * 100) as int,
            total as int,
            cfg.threshold as int,
        ) {
            None
        } else {
            let sev = severity_for_ratio(cfg.critical, (used * 100) as int, total as int);
            Some(
                AlertView {
                    severity: sev,
                    summary: severity_emoji(sev) + " Disk usage high"@,
                    body: mount + ": "@ + ratio_fixed1(used * 100, total) + "% ("@ + ratio_fixed1(
                        used,
                        GIB as nat,
                    ) + "GiB / "@ + ratio_fixed1(total, GIB as nat) + "GiB, threshold: "@
                        + centi_display(cfg.threshold as int) + "%)"@,
                },
            )
        },
    }
}

/// Indices of the watched filesystems among the first `n` readings, each
/// (total, available) pair kept once (bind mounts of one filesystem).
pub open spec fn report_indices_upto(cfg: MetricConfig, ds: Seq<DiskReading>, n: int) -> Seq<
    usize,
>
    decreases n,
{
    if n <= 0 {
        seq![]
    } else {
        let prev = report_indices_upto(cfg, ds, n - 1);
        let d = ds[n - 1];
        if watched(cfg, d) && !(exists|k: int|
            0 <= k < prev.len() && #[trigger] ds[prev[k] as int].total == d.total
                && ds[prev[k] as int].available == d.available) {
            prev.push((n - 1) as usize)
        } else {
            prev
        }
    }
}

/// The start of a report entry, up to the total size: mount point, usage
/// and used size.
pub open spec fn report_entry_head(d: DiskReading) -> Seq<char> {
    d.mount@ + " "@ + ratio_fixed1(disk_used(d) * 100, d.total as nat) + "% ("@ + ratio_fixed1(
        disk_used(d),
        GIB as nat,
    ) + "/"@
}

/// The mark of the report: the fullest watched filesystem (0 when none)
/// against the threshold.
pub open spec fn report_mark(cfg: MetricConfig, ds: Seq<DiskReading>) -> Seq<char> {
    match max_usage_spec(cfg, ds) {
        Some((m, u, t)) => flag(
            ratio_above((u * 100) as int, t as int, cfg.threshold as int),
            severity_for_ratio(cfg.critical, (u * 100) as int, t as int),
        ),
        None => flag(0 > cfg.threshold, crate::config::severity_for(cfg.critical, 0, false)),
    }
}

/// Every index a report lists is among the first `n` readings and names a
/// watched filesystem.
pub proof fn lemma_report_indices_watched(cfg: MetricConfig, ds: Seq<DiskReading>, n: int)
    requires
        n <= ds.len(),
        ds.len() <= usize::MAX,
    ensures
        forall|k: int|
            0 <= k < report_indices_upto(cfg, ds, n).len() ==> {
                let i = #[trigger] report_indices_upto(cfg, ds, n)[k] as int;
                0 <= i < n && watched(cfg, ds[i])
            },
    decreases n,
{
    if n > 0 {
        lemma_report_indices_watched(cfg, ds, n - 1);
        let prev = report_indices_upto(cfg, ds, n - 1);
        let cur = report_indices_upto(cfg, ds, n);
        assert forall|k: int| 0 <= k < cur.len() implies {
            let i = #[trigger] cur[k] as int;
            0 <= i < n && watched(cfg, ds[i])
        } by {
            let d = ds[n - 1];
            if watched(cfg, d) && !(exists|q: int|
                0 <= q < prev.len() && #[trigger] ds[prev[q] as int].total == d.total
                    && ds[prev[q] as int].available == d.available) {
                assert(cur == prev.push((n - 1) as usize));
                if k < prev.len() {
                    assert(cur[k] == prev[k]);
                } else {
                    assert(cur[k] == (n - 1) as usize);
                }
            } else {
                assert(cur == prev);
                assert(cur[k] == prev[k]);
            }
        }
    }
}

/// A report entry: its head and the rendered total size.
pub open spec fn report_entry(d: DiskReading, size: Seq<char>) -> Seq<char> {
    report_entry_head(d) + size + "GiB)"@
}

/// The report entries of the listed filesystems, `sizes[i]` being the
/// rendered total size of reading `i`.
pub open spec fn report_entries(cfg: MetricConfig, ds: Seq<DiskReading>, sizes: Seq<Seq<char>>) -> Seq<Seq<char>> {
    let idx = report_indices_upto(cfg, ds, ds.len() as int);
    Seq::new(idx.len(), |k: int| report_entry(ds[idx[k] as int], sizes[idx[k] as int]))
}

/// The disk line of a dry run: `N/A` when no filesystem is listed, else
/// the mark and the entries of the listed filesystems.
pub open spec fn disk_report(cfg: MetricConfig, ds: Seq<DiskReading>, sizes: Seq<Seq<char>>) -> Seq<char> {
    let idx = report_indices_upto(cfg, ds, ds.len() as int);
    if idx.len() == 0 {
        "  Disk    N/A"@
    } else {
        "  Disk    "@ + report_mark(cfg, ds) + "  ["@ + join(report_entries(cfg, ds, sizes), "  "@)
            + "]"@
    }
}

/// Comparing usage ratios is transitive: if `a1/b1 <= a2/b2 < a3/b3` then
/// `a1/b1 <= a3/b3` (all denominators positive).
proof fn lemma_ratio_chain(a1: nat, b1: nat, a2: nat, b2: nat, a3: nat, b3: nat)
    requires
        b1 > 0,
        b2 > 0,
        b3 > 0,
        a1 * b2 <= a2 * b1,
        a2 * b3 < a3 * b2,
    ensures
        a1 * b3 <= a3 * b1,
{
    assert(a1 * b2 * b3 <= a2 * b1 * b3) by (nonlinear_arith)
        requires
            a1 * b2 <= a2 * b1,
    ;
    assert(a2 * b3 * b1 < a3 * b2 * b1) by (nonlinear_arith)
        requires
            a2 * b3 < a3 * b2,
            b1 > 0,
    ;
    assert(a1 * b3 * b2 <= a3 * b1 * b2) by (nonlinear_arith)
        requires
            a1 * b2 * b3 <= a2 * b1 * b3,
            a2 * b3 * b1 < a3 * b2 * b1,
    ;
    assert(a1 * b3 <= a3 * b1) by (nonlinear_arith)
        requires
            a1 * b3 * b2 <= a3 * b1 * b2,
            b2 > 0,
    ;
}

/// What the choice among the first `n` readings is: none exactly when no
/// watched filesystem is among them; else the mount, used and total bytes
/// of one watched reading whose usage is at least that of every watched
/// reading.
proof fn lemma_max_usage_upto(cfg: MetricConfig, ds: Seq<DiskReading>, n: int)
    requires
        0 <= n <= ds.len(),
    ensures
        (max_usage_upto(cfg, ds, n) is None) <==> (forall|i: int|
            0 <= i < n ==> !watched(cfg, #[trigger] ds[i])),
        max_usage_upto(cfg, ds, n) matches Some((m, u, t)) ==> exists|i: int|
            0 <= i < n && watched(cfg, #[trigger] ds[i]) && m == ds[i].mount@ && u == disk_used(ds[i])
                && t == ds[i].total,
        max_usage_upto(cfg, ds, n) matches Some((m, u, t)) ==> forall|i: int|
            0 <= i < n && watched(cfg, #[trigger] ds[i]) ==> disk_used(ds[i]) * t <= u * (
            ds[i].total as nat),
    decreases n,
{
    if n > 0 {
        lemma_max_usage_upto(cfg, ds, n - 1);
        let prev = max_usage_upto(cfg, ds, n - 1);
        let cur = max_usage_upto(cfg, ds, n);
        let d = ds[n - 1];
        if !watched(cfg, d) {
            assert(cur == prev);
            if prev is None {
                assert forall|i: int| 0 <= i < n implies !watched(cfg, #[trigger] ds[i]) by {
                    if i < n - 1 {
                    }
                }
            }
        } else {
            assert(cur is Some);
            assert(watched(cfg, ds[n - 1]));
            let used = disk_used(d);
            match prev {
                Some((m, u, t)) => {
                    let i0 = choose|i: int|
                        0 <= i < n - 1 && watched(cfg, #[trigger] ds[i]) && m == ds[i].mount@ && u
                            == disk_used(ds[i]) && t == ds[i].total;
                    assert(t > 0);
                    if used * t <= u * (d.total as nat) {
                        assert(cur == prev);
                        assert(watched(cfg, ds[i0]));
                    } else {
                        assert(cur == Some((d.mount@, used, d.total as nat)));
                        assert forall|i: int|
                            0 <= i < n && watched(cfg, #[trigger] ds[i]) implies disk_used(ds[i])
                            * (d.total as nat) <= used * (ds[i].total as nat) by {
                            if i < n - 1 {
                                lemma_ratio_chain(
                                    disk_used(ds[i]),
                                    ds[i].total as nat,
                                    u,
                                    t,
                                    used,
                                    d.total as nat,
                                );
                            }
                        }
                    }
                },
                None => {
                    assert(cur == Some((d.mount@, used, d.total as nat)));
                    assert forall|i: int|
                        0 <= i < n && watched(cfg, #[trigger] ds[i]) implies disk_used(ds[i]) * (
                        d.total as nat) <= used * (ds[i].total as nat) by {
                        if i < n - 1 {
                            assert(!watched(cfg, ds[i]));
                        }
                    }
                },
            }
        }
    }
}

/// The disk check looks at the fullest watched filesystem: the reading it
/// picks is one of the watched readings, its usage is at least that of
/// every watched reading, and there is none exactly when nothing is
/// watched.
pub proof fn lemma_fullest_filesystem(cfg: MetricConfig, ds: Seq<DiskReading>)
    ensures
        (max_usage_spec(cfg, ds) is None) <==> (forall|i: int|
            0 <= i < ds.len() ==> !watched(cfg, #[trigger] ds[i])),
        max_usage_spec(cfg, ds) matches Some((m, u, t)) ==> exists|i: int|
            0 <= i < ds.len() && watched(cfg, #[trigger] ds[i]) && m == ds[i].mount@ && u
                == disk_used(ds[i]) && t == ds[i].total,
        max_usage_spec(cfg, ds) matches Some((m, u, t)) ==> forall|i: int|
            0 <= i < ds.len() && watched(cfg, #[trigger] ds[i]) ==> disk_used(ds[i]) * t <= u * (
            ds[i].total as nat),
{
    lemma_max_usage_upto(cfg, ds, ds.len() as int);
}

/// A disk alert is given exactly when some watched filesystem is used
/// above the threshold (used * 100 / total above `threshold / 100`
/// percent); it is critical exactly when some watched filesystem is used
/// above a configured critical threshold.
pub proof fn lemma_disk_alert_iff_over(cfg: MetricConfig, sys: SysSnapshot)
    ensures
        (disk_alert(cfg, sys) is Some) <==> (exists|i: int|
            0 <= i < sys.disks@.len() && watched(cfg, #[trigger] sys.disks@[i]) && disk_used(
                sys.disks@[i],
            ) * 10000 > cfg.threshold * sys.disks@[i].total),
        disk_alert(cfg, sys) matches Some(a) ==> ((a.severity == Severity::Critical) <==> (
        cfg.critical matches Some(c) && exists|i: int|
            0 <= i < sys.disks@.len() && watched(cfg, #[trigger] sys.disks@[i]) && disk_used(
                sys.disks@[i],
            ) * 10000 > c * sys.disks@[i].total)),
{
    let ds = sys.disks@;
    lemma_fullest_filesystem(cfg, ds);
    match max_usage_spec(cfg, ds) {
        Some((m, u, t)) => {
            let j = choose|i: int|
                0 <= i < ds.len() && watched(cfg, #[trigger] ds[i]) && m == ds[i].mount@ && u
                    == disk_used(ds[i]) && t == ds[i].total;
            assert(watched(cfg, ds[j]));
            if exists|i: int|
                0 <= i < ds.len() && watched(cfg, #[trigger] ds[i]) && disk_used(ds[i]) * 10000
                    > cfg.threshold * ds[i].total {
                let i = choose|i: int|
                    0 <= i < ds.len() && watched(cfg, #[trigger] ds[i]) && disk_used(ds[i]) * 10000
                        > cfg.threshold * ds[i].total;
                let a: int = disk_used(ds[i]) as int;
                let b: int = ds[i].total as int;
                let c: int = cfg.threshold as int;
                assert(a * t <= u * b);
                assert(b > 0 && t > 0);
                assert(u * 10000 > c * t) by (nonlinear_arith)
                    requires
                        a * 10000 > c * b,
                        a * t <= u * b,
                        b > 0,
                        t > 0,
                        a >= 0,
                ;
                assert((u * 100) * 100 > c * t) by (nonlinear_arith)
                    requires
                        u * 10000 > c * t,
                ;
            }
            assert(disk_used(ds[j]) * 10000 == (u * 100) * 100) by (nonlinear_arith)
                requires
                    u == disk_used(ds[j]),
            ;
            if let Some(c) = cfg.critical {
                if exists|i: int|
                    0 <= i < ds.len() && watched(cfg, #[trigger] ds[i]) && disk_used(ds[i]) * 10000
                        > c * ds[i].total {
                    let i = choose|i: int|
                        0 <= i < ds.len() && watched(cfg, #[trigger] ds[i]) && disk_used(ds[i])
                            * 10000 > c * ds[i].total;
                    let a: int = disk_used(ds[i]) as int;
                    let b: int = ds[i].total as int;
                    assert(a * t <= u * b);
                    assert(b > 0 && t > 0);
                    assert(u * 10000 > c * t) by (nonlinear_arith)
                        requires
                            a * 10000 > c * b,
                            a * t <= u * b,
                            b > 0,
                            t > 0,
                            a >= 0,
                    ;
                }
            }
            if disk_alert(cfg, sys) is Some {
                assert((u * 100) * 100 > cfg.threshold * t);
                assert(disk_used(ds[j]) * 10000 == (u * 100) * 100) by (nonlinear_arith)
                    requires
                        u == disk_used(ds[j]),
                ;
            }
        },
        None => {},
    }
}

impl Disk {
    pub fn new(cfg: MetricConfig) -> (d: Self)
        ensures
            d.cfg == cfg,
    {
        Disk { cfg }
    }

    /// Whether the mount point passes the configured prefix filters.
    pub fn mount_allowed(&self, mount: &str) -> (b: bool)
        ensures
            b == mount_allowed_spec(self.cfg, mount@),
    {
        if let Some(exclude) = &self.cfg.exclude_mounts {
            if starts_with_any(mount, exclude) {
                return false;
            }
        }
        if let Some(only) = &self.cfg.include_mounts {
            return starts_with_any(mount, only);
        }
        true
    }

    fn is_watched(&self, d: &DiskReading) -> (b: bool)
        ensures
            b == watched(self.cfg, *d),
    {
        d.is_dir && self.mount_allowed(d.mount.as_str()) && d.total != 0
    }

    /// The fullest watched filesystem, as (mount point, used, total).
    pub fn max_usage(&self, disks: &Vec<DiskReading>) -> (r: Option<(String, u64, u64)>)
        ensures
            match r {
                Some((m, u, t)) => max_usage_spec(self.cfg, disks@) == Some(
                    (m@, u as nat, t as nat),
                ) && t > 0,
                None => max_usage_spec(self.cfg, disks@) is None,
            },
    {
        let mut best: Option<(String, u64, u64)> = None;
        let mut i: usize = 0;
        while i < disks.len()
            invariant
                i <= disks.len(),
                match best {
                    Some((m, u, t)) => max_usage_upto(self.cfg, disks@, i as int) == Some(
                        (m@, u as nat, t as nat),
                    ) && t > 0,
                    None => max_usage_upto(self.cfg, disks@, i as int) is None,
                },
            decreases disks.len() - i,
        {
            let d = &disks[i];
            if self.is_watched(d) {
                let used = d.total.saturating_sub(d.available);
                let replace = match &best {
                    Some((_, u, t)) => wide_mul(used, *t) > wide_mul(*u, d.total),
                    None => true,
                };
                if replace {
                    best = Some((d.mount.clone(), used, d.total));
                }
            }
            i = i + 1;
        }
        best
    }

    /// Alert when the fullest watched filesystem exceeds the threshold.
    pub fn check_usage(&self, sys: &SysSnapshot) -> (r: Option<Alert>)
        ensures
            super::alert_opt_view(r) == disk_alert(self.cfg, *sys),
    {
        let (mount, used, total) = match self.max_usage(&sys.disks) {
            Some(x) => x,
            None => return None,
        };
        let num = used as u128 * 100;
        if !ratio_above_exec(num, total as u128, self.cfg.threshold) {
            return None;
        }
        let sev = self.cfg.severity_of_ratio(num, total as u128);
        let mut summary = String::new();
        push_str(&mut summary, sev.emoji());
        push_str(&mut summary, " Disk usage high");
        let mut body = String::new();
        push_str(&mut body, mount.as_str());
        push_str(&mut body, ": ");
        push_ratio_fixed1(&mut body, num, total as u128);
        push_str(&mut body, "% (");
        push_ratio_fixed1(&mut body, used as u128, GIB as u128);
        push_str(&mut body, "GiB / ");
        push_ratio_fixed1(&mut body, total as u128, GIB as u128);
        push_str(&mut body, "GiB, threshold: ");
        push_centi_display(&mut body, self.cfg.threshold);
        push_str(&mut body, "%)");
        let a = Alert { severity: sev, summary, body };
        assert(a@ == disk_alert(self.cfg, *sys)->0);
        Some(a)
    }

    /// Indices of the filesystems a report lists: watched ones, each
    /// (total, available) pair once.
    pub fn report_indices(&self, disks: &Vec<DiskReading>) -> (r: Vec<usize>)
        ensures
            r@ == report_indices_upto(self.cfg, disks@, disks@.len() as int),
            forall|k: int| 0 <= k < r@.len() ==> #[trigger] r@[k] < disks@.len(),
    {
        let mut r: Vec<usize> = Vec::new();
        let mut i: usize = 0;
        while i < disks.len()
            invariant
                i <= disks.len(),
                r@ == report_indices_upto(self.cfg, disks@, i as int),
                forall|k: int| 0 <= k < r@.len() ==> #[trigger] r@[k] < i,
            decreases disks.len() - i,
        {
            let d = &disks[i];
            if self.is_watched(d) {
                let mut seen = false;
                let mut j: usize = 0;
                while j < r.len()
                    invariant
                        i < disks.len(),
                        j <= r.len(),
                        forall|k: int| 0 <= k < r@.len() ==> #[trigger] r@[k] < i,
                        d == disks@[i as int],
                        seen == (exists|k: int|
                            0 <= k < j && #[trigger] disks@[r@[k] as int].total == d.total
                                && disks@[r@[k] as int].available == d.available),
                    decreases r.len() - j,
                {
                    let e = &disks[r[j]];
                    if e.total == d.total && e.available == d.available {
                        seen = true;
                    }
                    j = j + 1;
                }
                if !seen {
                    r.push(i);
                }
            }
            i = i + 1;
        }
        r
    }

    /// The start of the report entry of a filesystem, up to its total size.
    pub fn report_entry_head(&self, d: &DiskReading) -> (s: String)
        requires
            d.total > 0,
        ensures
            s@ == report_entry_head(*d),
    {
        let used = d.total.saturating_sub(d.available);
        let mut s = String::new();
        push_str(&mut s, d.mount.as_str());
        push_str(&mut s, " ");
        push_ratio_fixed1(&mut s, used as u128 * 100, d.total as u128);
        push_str(&mut s, "% (");
        push_ratio_fixed1(&mut s, used as u128, GIB as u128);
        push_str(&mut s, "/");
        assert(s@ =~= report_entry_head(*d));
        s
    }

    /// The mark of the report for the fullest watched filesystem.
    pub fn report_mark(&self, disks: &Vec<DiskReading>) -> (s: String)
        ensures
            s@ == report_mark(self.cfg, disks@),
    {
        let mut s = String::new();
        match self.max_usage(disks) {
            Some((_, u, t)) => {
                let num = u as u128 * 100;
                push_flag(
                    &mut s,
                    ratio_above_exec(num, t as u128, self.cfg.threshold),
                    self.cfg.severity_of_ratio(num, t as u128),
                );
            },
            None => {
                push_flag(&mut s, 0 > self.cfg.threshold, self.cfg.severity(0, false));
            },
        }
        s
    }

    /// The dry-run status line, given the rendered total size of each
    /// reading (`sizes[i]` for `disks[i]`).
    pub fn report_line(&self, disks: &Vec<DiskReading>, sizes: &Vec<String>) -> (s: String)
        requires
            sizes.len() == disks.len(),
        ensures
            s@ == disk_report(self.cfg, disks@, views_of(sizes@)),
    {
        let idx = self.report_indices(disks);
        let mut s = String::new();
        if idx.len() == 0 {
            push_str(&mut s, "  Disk    N/A");
            return s;
        }
        proof {
            lemma_report_indices_watched(self.cfg, disks@, disks@.len() as int);
        }
        let ghost entries = report_entries(self.cfg, disks@, views_of(sizes@));
        push_str(&mut s, "  Disk    ");
        let mark = self.report_mark(disks);
        push_str(&mut s, mark.as_str());
        push_str(&mut s, "  [");
        let ghost head = s@;
        let mut k: usize = 0;
        while k < idx.len()
            invariant
                k <= idx.len(),
                idx@ == report_indices_upto(self.cfg, disks@, disks@.len() as int),
                forall|j: int| 0 <= j < idx@.len() ==> #[trigger] idx@[j] < disks@.len(),
                forall|j: int| 0 <= j < idx@.len() ==> watched(self.cfg, disks@[#[trigger] idx@[j] as int]),
                sizes.len() == disks.len(),
                entries == report_entries(self.cfg, disks@, views_of(sizes@)),
                entries.len() == idx@.len(),
                s@ == head + join(entries.take(k as int), "  "@),
            decreases idx.len() - k,
        {
            proof {
                lemma_join_step(entries, "  "@, k as int);
            }
            let i = idx[k];
            assert(idx@[k as int] < disks@.len());
            assert(watched(self.cfg, disks@[i as int]));
            if k > 0 {
                push_str(&mut s, "  ");
            }
            let h = self.report_entry_head(&disks[i]);
            push_str(&mut s, h.as_str());
            push_str(&mut s, sizes[i].as_str());
            push_str(&mut s, "GiB)");
            assert(entries[k as int] == report_entry(disks@[i as int], views_of(sizes@)[i as int]));
            if k == 0 {
                assert(entries.take(0) =~= Seq::<Seq<char>>::empty());
                assert(s@ =~= head + join(entries.take(1), "  "@));
            } else {
                assert(s@ =~= head + join(entries.take(k + 1), "  "@));
            }
            k = k + 1;
        }
        assert(entries.take(idx@.len() as int) =~= entries);
        push_str(&mut s, "]");
        s
    }
}

impl Checker for Disk {
    fn key(&self) -> (k: &'static str)
        ensures
            k@ == "disk"@,
    {
        "disk"
    }

    fn cooldown_secs(&self) -> (c: u64)
        ensures
            c == self.cfg.cooldown_secs,
    {
        self.cfg.cooldown_secs
    }

    fn check(&mut self, sys: &SysSnapshot) -> (r: Result<Option<Alert>, CheckerError>)
        ensures
            *final(self) == *old(self),
            r matches Ok(a) && super::alert_opt_view(a) == disk_alert(old(self).cfg, *sys),
    {
        Ok(self.check_usage(sys))
    }
}

} // verus!
