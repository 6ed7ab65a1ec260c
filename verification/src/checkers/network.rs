//! Network throughput checker: total traffic of the watched interfaces
//! between two readings.

use vstd::prelude::*;
use super::{Alert, AlertView, Checker, CheckerError, InterfaceReading, SysSnapshot};
use super::disk_io::{sat_sub, wrap_add};
use crate::config::{
    NetworkConfig, Severity, severity_emoji, severity_for_ratio, ratio_above, ratio_above_exec,
};
use crate::scan::{contains_str, contains_view, str_eq, views_of};
use crate::text::{
    centi_display, dec, join, lemma_join_step, push_centi_display, push_dec, push_ratio_fixed1,
    push_str, ratio_fixed1,
};

verus! {

/// Bytes in a mebibyte, a gibibyte, a kibibyte.
pub const MIB: u64 = 1048576;
pub const GIB: u64 = 1073741824;
pub const KIB: u64 = 1024;
/// Microseconds in a second.
pub const MICROS: u64 = 1000000;
/// Shortest interval a rate is computed over (one millisecond).
pub const MIN_INTERVAL_US: u64 = 1000;

pub struct Network {
    pub cfg: NetworkConfig,
    pub prev_rx: u64,
    pub prev_tx: u64,
    /// When the previous reading was taken (monotonic microseconds).
    pub prev_time: Option<u64>,
}

/// Whether an interface counts towards the totals.
pub open spec fn interface_counted(cfg: NetworkConfig, name: Seq<char>) -> bool {
    &&& !(cfg.exclude_loopback && name == "lo"@)
    &&& (cfg.include_interfaces matches Some(v) ==> (v@.len() == 0 || contains_view(
        views_of(v@),
        name,
    )))
}

/// Received and transmitted bytes of the counted interfaces among the
/// first `n`, each sum wrapped to 64 bits.
pub open spec fn totals_upto(cfg: NetworkConfig, ifs: Seq<InterfaceReading>, n: int) -> (
    nat,
    nat,
)
    decreases n,
{
    if n <= 0 {
        (0, 0)
    } else {
        let (rx, tx) = totals_upto(cfg, ifs, n - 1);
        let i = ifs[n - 1];
        if interface_counted(cfg, i.name@) {
            (wrap_add(rx, i.received as nat), wrap_add(tx, i.transmitted as nat))
        } else {
            (rx, tx)
        }
    }
}

pub open spec fn totals(cfg: NetworkConfig, ifs: Seq<InterfaceReading>) -> (nat, nat) {
    totals_upto(cfg, ifs, ifs.len() as int)
}

/// The interval a rate is taken over, in microseconds.
pub open spec fn rate_interval(elapsed_us: nat) -> nat {
    if elapsed_us < MIN_INTERVAL_US {
        MIN_INTERVAL_US as nat
    } else {
        elapsed_us
    }
}

/// The alert for `rx` + `tx` bytes moved in `us` microseconds, when the
/// rate in MB/s is above the threshold.
pub open spec fn network_alert(cfg: NetworkConfig, rx: nat, tx: nat, us: nat) -> Option<
    AlertView,
> {
    let den: nat = us * (MIB as nat);
    let num: nat = (rx + tx) * (MICROS as nat);
    if !ratio_above(num as int, den as int, cfg.threshold as int) {
        None
    } else {
        let sev = severity_for_ratio(cfg.critical, num as int, den as int);
        Some(
            AlertView {
                severity: sev,
                summary: severity_emoji(sev) + " Network traffic high"@,
                body: "↓ "@ + ratio_fixed1(rx * (MICROS as nat), den) + " ↑ "@ + ratio_fixed1(
                    tx * (MICROS as nat),
                    den,
                ) + " MB/s (threshold: "@ + centi_display(cfg.threshold as int) + " MB/s)"@,
            },
        )
    }
}

/// A network alert for `rx` + `tx` bytes moved in `us` microseconds is
/// given exactly when the rate in MB/s (MiB per second) is above the
/// threshold, and is critical exactly when it is also above a configured
/// critical threshold.
pub proof fn lemma_network_alert_law(cfg: NetworkConfig, rx: nat, tx: nat, us: nat)
    requires
        us > 0,
    ensures
        (network_alert(cfg, rx, tx, us) is Some) <==> ((rx + tx) * 1000000 * 100 > cfg.threshold * (
        us * 1048576)),
        network_alert(cfg, rx, tx, us) matches Some(a) ==> ((a.severity == Severity::Critical)
            <==> (cfg.critical matches Some(c) && (rx + tx) * 1000000 * 100 > c * (us * 1048576))),
{
}

/// The state after a check.
pub open spec fn network_next(n: Network, sys: SysSnapshot) -> Network {
    let (rx, tx) = totals(n.cfg, sys.interfaces@);
    Network { prev_rx: rx as u64, prev_tx: tx as u64, prev_time: Some(sys.now_us), ..n }
}

/// What a check returns: nothing on the first reading, then the alert for
/// the traffic since the previous reading.
pub open spec fn network_outcome(n: Network, sys: SysSnapshot) -> Option<AlertView> {
    let (rx, tx) = totals(n.cfg, sys.interfaces@);
    match n.prev_time {
        None => None,
        Some(t) => network_alert(
            n.cfg,
            sat_sub(rx, n.prev_rx as nat),
            sat_sub(tx, n.prev_tx as nat),
            rate_interval(sat_sub(sys.now_us as nat, t as nat)),
        ),
    }
}

/// The first reading only sets the baseline: it never alerts, and the
/// next check compares with it.
pub proof fn lemma_network_baseline(n: Network, sys: SysSnapshot)
    requires
        n.prev_time is None,
    ensures
        network_outcome(n, sys) is None,
        network_next(n, sys).prev_time == Some(sys.now_us),
{
}

/// A byte count in the largest fitting binary unit (`fmt_bytes`).
pub open spec fn bytes_text(b: nat) -> Seq<char> {
    if b > GIB {
        ratio_fixed1(b, GIB as nat) + "GiB"@
    } else if b > MIB {
        ratio_fixed1(b, MIB as nat) + "MiB"@
    } else if b > KIB {
        ratio_fixed1(b, KIB as nat) + "KiB"@
    } else {
        dec(b) + "B"@
    }
}

/// One interface in the report.
pub open spec fn interface_entry(i: InterfaceReading) -> Seq<char> {
    i.name@ + " ↓"@ + bytes_text(i.received as nat) + " ↑"@ + bytes_text(i.transmitted as nat)
}

/// The dry-run status line: the counters of every interface.
pub open spec fn network_report(ifs: Seq<InterfaceReading>) -> Seq<char> {
    if ifs.len() == 0 {
        "  Network N/A"@
    } else {
        "  Network "@ + join(Seq::new(ifs.len(), |k: int| interface_entry(ifs[k])), "  "@)
    }
}

/// Appends a byte count in the largest fitting binary unit.
pub fn push_bytes(s: &mut String, b: u64)
    ensures
        final(s)@ == old(s)@ + bytes_text(b as nat),
{
    let ghost start = s@;
    if b > GIB {
        push_ratio_fixed1(s, b as u128, GIB as u128);
        push_str(s, "GiB");
    } else if b > MIB {
        push_ratio_fixed1(s, b as u128, MIB as u128);
        push_str(s, "MiB");
    } else if b > KIB {
        push_ratio_fixed1(s, b as u128, KIB as u128);
        push_str(s, "KiB");
    } else {
        push_dec(s, b as u128);
        push_str(s, "B");
    }
    assert(s@ =~= start + bytes_text(b as nat));
}

impl Network {
    pub fn new(cfg: NetworkConfig) -> (n: Self)
        ensures
            n.cfg == cfg,
            n.prev_rx == 0,
            n.prev_tx == 0,
            n.prev_time is None,
    {
        Network { cfg, prev_rx: 0, prev_tx: 0, prev_time: None }
    }

    /// Whether an interface counts towards the totals.
    pub fn counts(&self, name: &str) -> (b: bool)
        ensures
            b == interface_counted(self.cfg, name@),
    {
        if self.cfg.exclude_loopback && str_eq(name, "lo") {
            return false;
        }
        match &self.cfg.include_interfaces {
            Some(v) => v.len() == 0 || contains_str(v, name),
            None => true,
        }
    }

    /// Received and transmitted bytes of the counted interfaces.
    pub fn totals(&self, ifs: &Vec<InterfaceReading>) -> (r: (u64, u64))
        ensures
            (r.0 as nat, r.1 as nat) == totals(self.cfg, ifs@),
    {
        let mut rx: u64 = 0;
        let mut tx: u64 = 0;
        let mut i: usize = 0;
        while i < ifs.len()
            invariant
                i <= ifs.len(),
                (rx as nat, tx as nat) == totals_upto(self.cfg, ifs@, i as int),
            decreases ifs.len() - i,
        {
            let it = &ifs[i];
            if self.counts(it.name.as_str()) {
                rx = rx.wrapping_add(it.received);
                tx = tx.wrapping_add(it.transmitted);
            }
            i = i + 1;
        }
        (rx, tx)
    }

    fn alert_for(&self, rx: u64, tx: u64, us: u64) -> (r: Option<Alert>)
        requires
            us >= MIN_INTERVAL_US,
        ensures
            super::alert_opt_view(r) == network_alert(self.cfg, rx as nat, tx as nat, us as nat),
    {
        let den = us as u128 * MIB as u128;
        let num = (rx as u128 + tx as u128) * MICROS as u128;
        if !ratio_above_exec(num, den, self.cfg.threshold) {
            return None;
        }
        let sev = self.cfg.severity_of_ratio(num, den);
        let mut summary = String::new();
        push_str(&mut summary, sev.emoji());
        push_str(&mut summary, " Network traffic high");
        let mut body = String::new();
        push_str(&mut body, "↓ ");
        push_ratio_fixed1(&mut body, rx as u128 * MICROS as u128, den);
        push_str(&mut body, " ↑ ");
        push_ratio_fixed1(&mut body, tx as u128 * MICROS as u128, den);
        push_str(&mut body, " MB/s (threshold: ");
        push_centi_display(&mut body, self.cfg.threshold);
        push_str(&mut body, " MB/s)");
        let a = Alert { severity: sev, summary, body };
        assert(a@ == network_alert(self.cfg, rx as nat, tx as nat, us as nat)->0);
        Some(a)
    }

    /// Dry-run status line.
    pub fn report(&self, sys: &SysSnapshot) -> (s: String)
        ensures
            s@ == network_report(sys.interfaces@),
    {
        let ifs = &sys.interfaces;
        let mut s = String::new();
        if ifs.len() == 0 {
            push_str(&mut s, "  Network N/A");
            return s;
        }
        push_str(&mut s, "  Network ");
        let ghost entries = Seq::new(ifs@.len(), |k: int| interface_entry(ifs@[k]));
        let ghost head = s@;
        let mut i: usize = 0;
        while i < ifs.len()
            invariant
                i <= ifs.len(),
                ifs@.len() > 0,
                entries == Seq::new(ifs@.len(), |k: int| interface_entry(ifs@[k])),
                s@ == head + join(entries.take(i as int), "  "@),
            decreases ifs.len() - i,
        {
            proof {
                lemma_join_step(entries, "  "@, i as int);
            }
            let ghost before = s@;
            if i > 0 {
                push_str(&mut s, "  ");
            }
            let it = &ifs[i];
            push_str(&mut s, it.name.as_str());
            push_str(&mut s, " ↓");
            push_bytes(&mut s, it.received);
            push_str(&mut s, " ↑");
            push_bytes(&mut s, it.transmitted);
            assert(entries[i as int] == interface_entry(ifs@[i as int]));
            if i == 0 {
                assert(entries.take(0) =~= Seq::<Seq<char>>::empty());
                assert(s@ =~= head + join(entries.take(1), "  "@));
            } else {
                assert(s@ =~= head + join(entries.take(i + 1), "  "@));
            }
            i = i + 1;
        }
        assert(entries.take(ifs@.len() as int) =~= entries);
        s
    }
}

impl Checker for Network {
    fn key(&self) -> (k: &'static str)
        ensures
            k@ == "network"@,
    {
        "network"
    }

    fn cooldown_secs(&self) -> (c: u64)
        ensures
            c == self.cfg.cooldown_secs,
    {
        self.cfg.cooldown_secs
    }

    /// The first reading only sets the baseline; later ones compare the
    /// throughput since the previous reading with the threshold.
    fn check(&mut self, sys: &SysSnapshot) -> (r: Result<Option<Alert>, CheckerError>)
        ensures
            *final(self) == network_next(*old(self), *sys),
            r matches Ok(a) && super::alert_opt_view(a) == network_outcome(*old(self), *sys),
    {
        let (total_rx, total_tx) = self.totals(&sys.interfaces);
        let now = sys.now_us;
        let elapsed = match self.prev_time {
            Some(t) => now.saturating_sub(t),
            None => {
                self.prev_rx = total_rx;
                self.prev_tx = total_tx;
                self.prev_time = Some(now);
                return Ok(None);
            },
        };
        let rx_delta = total_rx.saturating_sub(self.prev_rx);
        let tx_delta = total_tx.saturating_sub(self.prev_tx);
        self.prev_rx = total_rx;
        self.prev_tx = total_tx;
        self.prev_time = Some(now);
        let us = if elapsed < MIN_INTERVAL_US {
            MIN_INTERVAL_US
        } else {
            elapsed
        };
        Ok(self.alert_for(rx_delta, tx_delta, us))
    }
}

} // verus!
