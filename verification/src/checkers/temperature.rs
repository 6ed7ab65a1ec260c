//! CPU temperature checker: the hottest CPU sensor.

use vstd::prelude::*;
use super::{Alert, AlertView, Checker, CheckerError, SensorReading, SysSnapshot, flag, push_flag};
use super::memory::push_threshold5;
use crate::config::{MetricConfig, Severity, severity_emoji, severity_for};
use crate::text::{
    centi_display, centi_fixed, join, lemma_join_step, pad_left, pad_left_str, push_centi_display,
    push_centi_fixed, push_str,
};

verus! {

pub struct Temperature {
    pub cfg: MetricConfig,
}

/// ASCII lower-casing of a character's code.
pub open spec fn lower_code(c: char) -> u32 {
    let u = c as u32;
    if 65 <= u && u <= 90 {
        (u + 32) as u32
    } else {
        u
    }
}

/// Whether `n` occurs in `h` at `i`, ignoring ASCII case.
pub open spec fn matches_at(h: Seq<char>, n: Seq<char>, i: int) -> bool {
    forall|j: int| 0 <= j < n.len() ==> lower_code(#[trigger] h[i + j]) == lower_code(n[j])
}

/// Whether `n` occurs in `h`, ignoring ASCII case.
pub open spec fn contains_ci(h: Seq<char>, n: Seq<char>) -> bool {
    exists|i: int| 0 <= i && i + n.len() <= h.len() && #[trigger] matches_at(h, n, i)
}

/// Whether a sensor label names a CPU sensor: one of the CPU words, and
/// none of the GPU, NVMe or disk words.
pub open spec fn cpu_sensor(label: Seq<char>) -> bool {
    &&& !(contains_ci(label, "gpu"@) || contains_ci(label, "nvidia"@) || contains_ci(
        label,
        "amdgpu"@,
    ) || contains_ci(label, "nvme"@) || contains_ci(label, "ssd"@) || contains_ci(label, "hdd"@))
    &&& (contains_ci(label, "cpu"@) || contains_ci(label, "core"@) || contains_ci(label, "package"@)
        || contains_ci(label, "tctl"@) || contains_ci(label, "tdie"@) || contains_ci(label, "ccd"@)
        || contains_ci(label, "soc"@))
}

fn lower_code_exec(c: char) -> (u: u32)
    ensures
        u == lower_code(c),
{
    let u = c as u32;
    if 65 <= u && u <= 90 {
        u + 32
    } else {
        u
    }
}

/// Whether `n` occurs in `h`, ignoring ASCII case.
pub fn contains_ignore_case(h: &str, n: &str) -> (b: bool)
    ensures
        b == contains_ci(h@, n@),
{
    let hl = h.unicode_len();
    let nl = n.unicode_len();
    if nl > hl {
        return false;
    }
    let mut i: usize = 0;
    while i <= hl - nl
        invariant
            hl == h@.len(),
            nl == n@.len(),
            nl <= hl,
            i <= hl - nl + 1,
            forall|k: int| 0 <= k < i ==> !matches_at(h@, n@, k),
        decreases hl - nl + 1 - i,
    {
        let mut j: usize = 0;
        let mut ok = true;
        while j < nl
            invariant
                hl == h@.len(),
                nl == n@.len(),
                i + nl <= hl,
                j <= nl,
                ok ==> forall|k: int| 0 <= k < j ==> lower_code(#[trigger] h@[i + k]) == lower_code(
                    n@[k],
                ),
                !ok ==> !matches_at(h@, n@, i as int),
            decreases nl - j,
        {
            if ok && lower_code_exec(h.get_char(i + j)) != lower_code_exec(n.get_char(j)) {
                ok = false;
            }
            j = j + 1;
        }
        if ok {
            assert(matches_at(h@, n@, i as int));
            return true;
        }
        i = i + 1;
    }
    assert forall|k: int| 0 <= k && k + nl <= hl implies !#[trigger] matches_at(h@, n@, k) by {}
    false
}

/// Whether a sensor label names a CPU sensor.
pub fn is_cpu_sensor(label: &str) -> (b: bool)
    ensures
        b == cpu_sensor(label@),
{
    if contains_ignore_case(label, "gpu") || contains_ignore_case(label, "nvidia")
        || contains_ignore_case(label, "amdgpu") || contains_ignore_case(label, "nvme")
        || contains_ignore_case(label, "ssd") || contains_ignore_case(label, "hdd") {
        return false;
    }
    contains_ignore_case(label, "cpu") || contains_ignore_case(label, "core")
        || contains_ignore_case(label, "package") || contains_ignore_case(label, "tctl")
        || contains_ignore_case(label, "tdie") || contains_ignore_case(label, "ccd")
        || contains_ignore_case(label, "soc")
}

/// The hottest CPU sensor above the threshold among the first `n`
/// readings; the first of equally hot ones wins.
pub open spec fn hottest_upto(cfg: MetricConfig, ss: Seq<SensorReading>, n: int) -> Option<
    (Seq<char>, i64),
>
    decreases n,
{
    if n <= 0 {
        None
    } else {
        let prev = hottest_upto(cfg, ss, n - 1);
        let s = ss[n - 1];
        match s.temperature {
            Some(t) => if cpu_sensor(s.label@) && t > cfg.threshold {
                match prev {
                    Some((l, m)) => if t <= m {
                        prev
                    } else {
                        Some((s.label@, t))
                    },
                    None => Some((s.label@, t)),
                }
            } else {
                prev
            },
            None => prev,
        }
    }
}

/// The alert for the hottest CPU sensor above the threshold.
pub open spec fn temperature_alert(cfg: MetricConfig, sys: SysSnapshot) -> Option<AlertView> {
    match hottest_upto(cfg, sys.sensors@, sys.sensors@.len() as int) {
        None => None,
        Some((label, t)) => {
            let sev = severity_for(cfg.critical, t as int, false);
            Some(
                AlertView {
                    severity: sev,
                    summary: severity_emoji(sev) + " CPU temperature high"@,
                    body: label + ": "@ + centi_fixed(t as int, 0) + "°C (threshold: "@
                        + centi_display(cfg.threshold as int) + "°C)"@,
                },
            )
        },
    }
}

/// The CPU sensors that give a temperature, among the first `n` readings.
pub open spec fn cpu_temps_upto(ss: Seq<SensorReading>, n: int) -> Seq<(Seq<char>, i64)>
    decreases n,
{
    if n <= 0 {
        seq![]
    } else {
        let prev = cpu_temps_upto(ss, n - 1);
        let s = ss[n - 1];
        match s.temperature {
            Some(t) => if cpu_sensor(s.label@) {
                prev.push((s.label@, t))
            } else {
                prev
            },
            None => prev,
        }
    }
}

/// The highest temperature of a nonempty list.
pub open spec fn max_temp(ts: Seq<(Seq<char>, i64)>) -> i64
    decreases ts.len(),
{
    if ts.len() <= 1 {
        ts[0].1
    } else {
        let m = max_temp(ts.drop_last());
        if ts.last().1 > m {
            ts.last().1
        } else {
            m
        }
    }
}

pub open spec fn temp_entry(e: (Seq<char>, i64)) -> Seq<char> {
    e.0 + ": "@ + centi_fixed(e.1 as int, 0) + "°C"@
}

/// The dry-run status line.
pub open spec fn temperature_report(cfg: MetricConfig, sys: SysSnapshot) -> Seq<char> {
    let ts = cpu_temps_upto(sys.sensors@, sys.sensors@.len() as int);
    if ts.len() == 0 {
        "  Temp    N/A"@
    } else {
        let m = max_temp(ts);
        "  Temp    "@ + pad_left(centi_fixed(m as int, 0), 5) + "°C  threshold: "@ + pad_left(
            centi_fixed(cfg.threshold as int, 1),
            5,
        ) + "°C  "@ + flag(m > cfg.threshold, severity_for(cfg.critical, m as int, false))
            + "  ["@ + join(Seq::new(ts.len(), |k: int| temp_entry(ts[k])), ", "@) + "]"@
    }
}

/// Whether reading `s` is a CPU sensor above the threshold, at `t`.
pub open spec fn hot_cpu_reading(cfg: MetricConfig, s: SensorReading, t: i64) -> bool {
    cpu_sensor(s.label@) && s.temperature == Some(t) && t > cfg.threshold
}

/// Whether reading `s` is a CPU sensor labelled `l` above the threshold,
/// at `t`.
pub open spec fn hot_named(cfg: MetricConfig, s: SensorReading, l: Seq<char>, t: i64) -> bool {
    hot_cpu_reading(cfg, s, t) && l == s.label@
}

proof fn lemma_hottest_upto(cfg: MetricConfig, ss: Seq<SensorReading>, n: int)
    requires
        0 <= n <= ss.len(),
    ensures
        (hottest_upto(cfg, ss, n) is None) <==> (forall|i: int, t: i64|
            0 <= i < n ==> !#[trigger] hot_cpu_reading(cfg, ss[i], t)),
        hottest_upto(cfg, ss, n) matches Some((l, m)) ==> exists|i: int|
            0 <= i < n && #[trigger] hot_named(cfg, ss[i], l, m),
        hottest_upto(cfg, ss, n) matches Some((l, m)) ==> forall|i: int, t: i64|
            0 <= i < n && #[trigger] hot_cpu_reading(cfg, ss[i], t) ==> t <= m,
    decreases n,
{
    if n > 0 {
        lemma_hottest_upto(cfg, ss, n - 1);
        let prev = hottest_upto(cfg, ss, n - 1);
        let cur = hottest_upto(cfg, ss, n);
        let s = ss[n - 1];
        let hot = match s.temperature {
            Some(t) => cpu_sensor(s.label@) && t > cfg.threshold,
            None => false,
        };
        if !hot {
            assert(cur == prev);
            assert forall|t: i64| !#[trigger] hot_cpu_reading(cfg, ss[n - 1], t) by {}
            if let Some((l, m)) = prev {
                let i0 = choose|i: int|
                    0 <= i < n - 1 && #[trigger] hot_named(cfg, ss[i], l, m);
                assert(0 <= i0 < n && hot_named(cfg, ss[i0], l, m));
            }
        } else {
            let t0 = s.temperature->0;
            assert(hot_cpu_reading(cfg, ss[n - 1], t0));
            match prev {
                Some((l, m)) => {
                    let i0 = choose|i: int|
                        0 <= i < n - 1 && #[trigger] hot_named(cfg, ss[i], l, m);
                    if t0 <= m {
                        assert(cur == prev);
                        assert(0 <= i0 < n && hot_named(cfg, ss[i0], l, m));
                    } else {
                        assert(cur == Some((s.label@, t0)));
                        assert(0 <= n - 1 < n && hot_named(cfg, ss[n - 1], s.label@, t0));
                        let (l2, m2) = cur->0;
                        assert(hot_named(cfg, ss[n - 1], l2, m2));
                    }
                },
                None => {
                    assert(cur == Some((s.label@, t0)));
                    assert(0 <= n - 1 < n && hot_named(cfg, ss[n - 1], s.label@, t0));
                    let (l2, m2) = cur->0;
                    assert(hot_named(cfg, ss[n - 1], l2, m2));
                },
            }
        }
    }
}

/// The temperature check looks at the hottest CPU sensor above the
/// threshold: there is an alert exactly when some CPU sensor reads above
/// the threshold, and it names such a sensor, at a temperature no lower
/// than that of any CPU sensor above the threshold.
pub proof fn lemma_hottest_sensor(cfg: MetricConfig, sys: SysSnapshot)
    ensures
        (temperature_alert(cfg, sys) is Some) <==> (exists|i: int, t: i64|
            0 <= i < sys.sensors@.len() && #[trigger] hot_cpu_reading(cfg, sys.sensors@[i], t)),
        hottest_upto(cfg, sys.sensors@, sys.sensors@.len() as int) matches Some((l, m)) ==> (
        exists|i: int|
            0 <= i < sys.sensors@.len() && #[trigger] hot_named(cfg, sys.sensors@[i], l, m)) && (forall|i: int, t: i64|
            0 <= i < sys.sensors@.len() && #[trigger] hot_cpu_reading(cfg, sys.sensors@[i], t)
                ==> t <= m),
        temperature_alert(cfg, sys) matches Some(a) ==> (exists|i: int, t: i64|
            0 <= i < sys.sensors@.len() && #[trigger] hot_cpu_reading(cfg, sys.sensors@[i], t)
                && a.body == sys.sensors@[i].label@ + ": "@ + centi_fixed(t as int, 0)
                + "°C (threshold: "@ + centi_display(cfg.threshold as int) + "°C)"@ && (forall|
                j: int,
                t2: i64,
            |
                0 <= j < sys.sensors@.len() && #[trigger] hot_cpu_reading(cfg, sys.sensors@[j], t2)
                    ==> t2 <= t)),
        temperature_alert(cfg, sys) matches Some(a) ==> ((a.severity == Severity::Critical) <==> (
        cfg.critical matches Some(c) && exists|i: int, t: i64|
            0 <= i < sys.sensors@.len() && #[trigger] hot_cpu_reading(cfg, sys.sensors@[i], t) && t
                > c)),
{
    lemma_hottest_upto(cfg, sys.sensors@, sys.sensors@.len() as int);
    let ss = sys.sensors@;
    match hottest_upto(cfg, ss, ss.len() as int) {
        Some((l, m)) => {
            let i = choose|i: int| 0 <= i < ss.len() && #[trigger] hot_named(cfg, ss[i], l, m);
            assert(hot_cpu_reading(cfg, ss[i], m));
            if let Some(c) = cfg.critical {
                if m > c {
                    assert(hot_cpu_reading(cfg, ss[i], m) && m > c);
                }
            }
        },
        None => {},
    }
}

impl Temperature {
    pub fn new(cfg: MetricConfig) -> (t: Self)
        ensures
            t.cfg == cfg,
    {
        Temperature { cfg }
    }

    /// The hottest CPU sensor above the threshold, as (label, temperature).
    pub fn hottest(&self, ss: &Vec<SensorReading>) -> (r: Option<(String, i64)>)
        ensures
            match r {
                Some((l, t)) => hottest_upto(self.cfg, ss@, ss@.len() as int) == Some((l@, t)),
                None => hottest_upto(self.cfg, ss@, ss@.len() as int) is None,
            },
    {
        let mut best: Option<(String, i64)> = None;
        let mut i: usize = 0;
        while i < ss.len()
            invariant
                i <= ss.len(),
                match best {
                    Some((l, t)) => hottest_upto(self.cfg, ss@, i as int) == Some((l@, t)),
                    None => hottest_upto(self.cfg, ss@, i as int) is None,
                },
            decreases ss.len() - i,
        {
            let s = &ss[i];
            if let Some(t) = s.temperature {
                if is_cpu_sensor(s.label.as_str()) && t > self.cfg.threshold {
                    let replace = match &best {
                        Some((_, m)) => t > *m,
                        None => true,
                    };
                    if replace {
                        best = Some((s.label.clone(), t));
                    }
                }
            }
            i = i + 1;
        }
        best
    }

    /// The CPU sensors that give a temperature.
    pub fn cpu_temps(&self, ss: &Vec<SensorReading>) -> (r: Vec<(String, i64)>)
        ensures
            r@.len() == cpu_temps_upto(ss@, ss@.len() as int).len(),
            forall|k: int|
                0 <= k < r@.len() ==> (#[trigger] r@[k]).0@ == cpu_temps_upto(
                    ss@,
                    ss@.len() as int,
                )[k].0 && r@[k].1 == cpu_temps_upto(ss@, ss@.len() as int)[k].1,
    {
        let mut r: Vec<(String, i64)> = Vec::new();
        let mut i: usize = 0;
        while i < ss.len()
            invariant
                i <= ss.len(),
                r@.len() == cpu_temps_upto(ss@, i as int).len(),
                forall|k: int|
                    0 <= k < r@.len() ==> (#[trigger] r@[k]).0@ == cpu_temps_upto(ss@, i as int)[k].0
                        && r@[k].1 == cpu_temps_upto(ss@, i as int)[k].1,
            decreases ss.len() - i,
        {
            let s = &ss[i];
            if let Some(t) = s.temperature {
                if is_cpu_sensor(s.label.as_str()) {
                    r.push((s.label.clone(), t));
                }
            }
            i = i + 1;
        }
        r
    }

    /// Dry-run status line.
    pub fn report(&self, sys: &SysSnapshot) -> (s: String)
        ensures
            s@ == temperature_report(self.cfg, *sys),
    {
        let temps = self.cpu_temps(&sys.sensors);
        let ghost ts = cpu_temps_upto(sys.sensors@, sys.sensors@.len() as int);
        let mut s = String::new();
        if temps.len() == 0 {
            push_str(&mut s, "  Temp    N/A");
            return s;
        }
        let mut m = temps[0].1;
        let mut i: usize = 1;
        assert(ts.take(1).drop_last() =~= ts.take(0));
        while i < temps.len()
            invariant
                1 <= i <= temps.len(),
                temps@.len() == ts.len(),
                forall|k: int| 0 <= k < temps@.len() ==> (#[trigger] temps@[k]).1 == ts[k].1,
                m == max_temp(ts.take(i as int)),
            decreases temps.len() - i,
        {
            assert(ts.take(i + 1).drop_last() =~= ts.take(i as int));
            if temps[i].1 > m {
                m = temps[i].1;
            }
            i = i + 1;
        }
        assert(ts.take(temps@.len() as int) =~= ts);
        let sev = self.cfg.severity(m, false);
        let mut num = String::new();
        push_centi_fixed(&mut num, m as i128, 0);
        let padded = pad_left_str(num.as_str(), 5);
        push_str(&mut s, "  Temp    ");
        push_str(&mut s, padded.as_str());
        push_str(&mut s, "°C  threshold: ");
        push_threshold5(&mut s, self.cfg.threshold);
        push_str(&mut s, "°C  ");
        push_flag(&mut s, m > self.cfg.threshold, sev);
        push_str(&mut s, "  [");
        let ghost entries = Seq::new(ts.len(), |k: int| temp_entry(ts[k]));
        let ghost head = s@;
        let mut j: usize = 0;
        while j < temps.len()
            invariant
                j <= temps.len(),
                temps@.len() == ts.len(),
                forall|k: int|
                    0 <= k < temps@.len() ==> (#[trigger] temps@[k]).0@ == ts[k].0 && temps@[k].1
                        == ts[k].1,
                entries == Seq::new(ts.len(), |k: int| temp_entry(ts[k])),
                s@ == head + join(entries.take(j as int), ", "@),
            decreases temps.len() - j,
        {
            proof {
                lemma_join_step(entries, ", "@, j as int);
            }
            if j > 0 {
                push_str(&mut s, ", ");
            }
            push_str(&mut s, temps[j].0.as_str());
            push_str(&mut s, ": ");
            push_centi_fixed(&mut s, temps[j].1 as i128, 0);
            push_str(&mut s, "°C");
            assert(entries[j as int] == temp_entry(ts[j as int]));
            if j == 0 {
                assert(entries.take(0) =~= Seq::<Seq<char>>::empty());
                assert(s@ =~= head + join(entries.take(1), ", "@));
            } else {
                assert(s@ =~= head + join(entries.take(j + 1), ", "@));
            }
            j = j + 1;
        }
        assert(entries.take(ts.len() as int) =~= entries);
        push_str(&mut s, "]");
        assert(s@ =~= temperature_report(self.cfg, *sys));
        s
    }
}

impl Checker for Temperature {
    fn key(&self) -> (k: &'static str)
        ensures
            k@ == "temperature"@,
    {
        "temperature"
    }

    fn cooldown_secs(&self) -> (c: u64)
        ensures
            c == self.cfg.cooldown_secs,
    {
        self.cfg.cooldown_secs
    }

    fn check(&mut self, sys: &SysSnapshot) -> (r: Result<Option<Alert>, CheckerError>)
        ensures
            *final(self) == *old(self),
            r matches Ok(a) && super::alert_opt_view(a) == temperature_alert(old(self).cfg, *sys),
    {
        let (label, t) = match self.hottest(&sys.sensors) {
            Some(x) => x,
            None => return Ok(None),
        };
        let sev = self.cfg.severity(t, false);
        let mut summary = String::new();
        push_str(&mut summary, sev.emoji());
        push_str(&mut summary, " CPU temperature high");
        let mut body = String::new();
        push_str(&mut body, label.as_str());
        push_str(&mut body, ": ");
        push_centi_fixed(&mut body, t as i128, 0);
        push_str(&mut body, "°C (threshold: ");
        push_centi_display(&mut body, self.cfg.threshold);
        push_str(&mut body, "°C)");
        let a = Alert { severity: sev, summary, body };
        assert(a@ == temperature_alert(self.cfg, *sys)->0);
        Ok(Some(a))
    }
}

} // verus!
