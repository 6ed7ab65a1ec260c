//! One monitoring cycle: run every checker on a snapshot, track failing
//! checkers, note which conditions hold, and decide the notifications.

use vstd::prelude::*;
use crate::checkers::{
    Alert, AlertView, AnyChecker, CheckerError, ErrorView, Severity, SysSnapshot, check_step,
    checker_cooldown, checker_key, enabled_checkers, result_view,
};
use crate::checkers::battery::Battery;
use crate::checkers::cpu::Cpu;
use crate::checkers::disk::Disk;
use crate::checkers::disk_io::DiskIo;
use crate::checkers::memory::Memory;
use crate::checkers::network::Network;
use crate::checkers::swap::Swap;
use crate::checkers::temperature::Temperature;
use crate::checkers::time::TimeChecker;
use crate::config::Config;
use crate::keyed::KeyMap;
use crate::sink::{
    Emission, EmissionView, PendingAlert, PendingView, Sink, SinkView, noted, notify_spec,
    pending_spec, recorded,
};
use crate::text::push_str;

verus! {

/// Consecutive failed checks after which a checker is dropped.
pub const MAX_CHECKER_FAILURES: u32 = 3;
/// Cooldown of the notice that a checker was dropped, in seconds.
pub const CRASH_COOLDOWN_SECS: u64 = 300;

/// The notification key of the notice that a checker was dropped.
pub open spec fn crash_key(k: Seq<char>) -> Seq<char> {
    "checker_crash:"@ + k
}

/// The notice that the checker of `k` was dropped.
pub open spec fn crash_alert(k: Seq<char>) -> AlertView {
    AlertView {
        severity: Severity::Critical,
        summary: "⚠️ sema: checker crashed"@,
        body: "'"@ + k + "' crashed, sema is still running"@,
    }
}

/// The pending recovery notice of `k`.
pub open spec fn recovery_pending(k: Seq<char>) -> PendingView {
    PendingView {
        key: k,
        cooldown: 0,
        recovery: true,
        alert: AlertView {
            severity: Severity::Warning,
            summary: "✅ "@ + k + " back to normal"@,
            body: seq![],
        },
    }
}

/// The log line of a failed check.
pub open spec fn failure_line(k: Seq<char>, e: ErrorView) -> Seq<char> {
    match e {
        ErrorView::Io(m) => "checker '"@ + k + "' I/O error: "@ + m,
        ErrorView::InvalidData(m) => "checker '"@ + k + "' invalid data: "@ + m,
    }
}

/// What a cycle has gathered so far.
pub struct CycleState {
    pub sink: SinkView,
    pub failures: Map<Seq<char>, u32>,
    pub pending: Seq<PendingView>,
    pub crashed: Seq<Seq<char>>,
    pub kept: Seq<AnyChecker>,
    pub errors: Seq<Seq<char>>,
}

/// The failures counted for `k`.
pub open spec fn failures_of(f: Map<Seq<char>, u32>, k: Seq<char>) -> int {
    if f.contains_key(k) {
        f[k] as int
    } else {
        0
    }
}

/// The cycle after one checker of key `k` and cooldown `cd` gave `r`,
/// becoming `c`: an alert marks its condition as holding and waits to be
/// dispatched; no alert ends the condition, with a recovery notice when it
/// held; a failure is counted, and the checker is dropped at the limit.
#[verifier::opaque]
pub open spec fn after_result(
    st: CycleState,
    k: Seq<char>,
    cd: u64,
    c: AnyChecker,
    r: Result<Option<AlertView>, ErrorView>,
    now: u64,
) -> CycleState {
    match r {
        Ok(Some(a)) => CycleState {
            failures: st.failures.remove(k),
            sink: noted(st.sink, k, true, now),
            pending: st.pending.push(PendingView { key: k, cooldown: cd, recovery: false, alert: a }),
            kept: st.kept.push(c),
            ..st
        },
        Ok(None) => CycleState {
            failures: st.failures.remove(k),
            sink: noted(st.sink, k, false, now),
            pending: if st.sink.active.contains(k) {
                st.pending.push(recovery_pending(k))
            } else {
                st.pending
            },
            kept: st.kept.push(c),
            ..st
        },
        Err(e) => {
            let n = failures_of(st.failures, k) + 1;
            if n >= MAX_CHECKER_FAILURES {
                CycleState {
                    failures: st.failures.remove(k),
                    crashed: st.crashed.push(k),
                    errors: st.errors.push(failure_line(k, e)),
                    ..st
                }
            } else {
                CycleState {
                    failures: st.failures.insert(k, n as u32),
                    kept: st.kept.push(c),
                    errors: st.errors.push(failure_line(k, e)),
                    ..st
                }
            }
        },
    }
}

/// The cycle after the first `n` checkers of `olds`, which became `news`
/// and gave `rs`.
pub open spec fn cycle_upto(
    st: CycleState,
    olds: Seq<AnyChecker>,
    news: Seq<AnyChecker>,
    rs: Seq<Result<Option<AlertView>, ErrorView>>,
    n: int,
    now: u64,
) -> CycleState
    decreases n,
{
    if n <= 0 {
        st
    } else {
        after_result(
            cycle_upto(st, olds, news, rs, n - 1, now),
            checker_key(olds[n - 1]),
            checker_cooldown(olds[n - 1]),
            news[n - 1],
            rs[n - 1],
            now,
        )
    }
}

/// The notices of dropped checkers, each unless its cooldown holds it back.
pub open spec fn crash_emissions(s: SinkView, ks: Seq<Seq<char>>, now: u64) -> Seq<EmissionView>
    decreases ks.len(),
{
    if ks.len() == 0 {
        seq![]
    } else {
        let prev = crash_emissions(s, ks.drop_last(), now);
        match notify_spec(
            s,
            crash_key(ks.last()),
            CRASH_COOLDOWN_SECS,
            crash_alert(ks.last()),
            now,
        ) {
            Some(e) => prev.push(e),
            None => prev,
        }
    }
}

/// All notifications of a cycle: the notices of dropped checkers, then
/// the dispatch of the pending alerts.
pub open spec fn cycle_emissions(st: CycleState, now: u64) -> Seq<EmissionView> {
    let c = crash_emissions(st.sink, st.crashed, now);
    match pending_spec(st.sink, st.pending, now) {
        Some(e) => c.push(e),
        None => c,
    }
}

/// What a cycle reports back: the notifications to deliver and the lines
/// to log about failed checks.
pub struct CycleReport {
    pub emissions: Vec<Emission>,
    pub errors: Vec<String>,
}

/// A cycle of the monitor `pre` on `sys`, in which its checkers became
/// `news` and gave `rs`, led to `post`, with these notifications and log
/// lines.
pub open spec fn cycle_done(
    pre: MonitorView,
    sys: SysSnapshot,
    news: Seq<AnyChecker>,
    rs: Seq<Result<Option<AlertView>, ErrorView>>,
    post: MonitorView,
    emissions: Seq<EmissionView>,
    errors: Seq<Seq<char>>,
) -> bool {
    let olds = pre.checkers;
    let st0 = CycleState {
        sink: pre.sink,
        failures: pre.failures,
        pending: seq![],
        crashed: seq![],
        kept: seq![],
        errors: seq![],
    };
    let st = cycle_upto(st0, olds, news, rs, olds.len() as int, sys.now_us);
    &&& news.len() == olds.len()
    &&& rs.len() == olds.len()
    &&& forall|i: int| 0 <= i < olds.len() ==> check_step(#[trigger] olds[i], sys, news[i], rs[i])
    &&& post == MonitorView {
        sink: st.sink,
        checkers: st.kept,
        failures: st.failures,
        check_interval_secs: pre.check_interval_secs,
    }
    &&& emissions == cycle_emissions(st, sys.now_us)
    &&& errors == st.errors
}

pub struct MonitorView {
    pub sink: SinkView,
    pub checkers: Seq<AnyChecker>,
    pub failures: Map<Seq<char>, u32>,
    pub check_interval_secs: u64,
}

pub struct Monitor {
    sink: Sink,
    checkers: Vec<AnyChecker>,
    failures: KeyMap<u32>,
    check_interval_secs: u64,
}

pub open spec fn emission_views(v: Seq<Emission>) -> Seq<EmissionView> {
    v.map_values(|e: Emission| e@)
}

pub open spec fn string_views(v: Seq<String>) -> Seq<Seq<char>> {
    v.map_values(|e: String| e@)
}

impl Monitor {
    pub closed spec fn view(&self) -> MonitorView {
        MonitorView {
            sink: self.sink.view(),
            checkers: self.checkers@,
            failures: self.failures.view(),
            check_interval_secs: self.check_interval_secs,
        }
    }

    /// The tables are well formed, no failure count has reached the
    /// limit and no two checkers share a key.
    pub closed spec fn wf(&self) -> bool {
        &&& keys_distinct(self.checkers@)
        &&& self.sink.wf()
        &&& self.failures.wf()
        &&& forall|k: Seq<char>|
            #[trigger] self.failures.view().contains_key(k) ==> self.failures.view()[k]
                < MAX_CHECKER_FAILURES
    }

    pub fn new(cfg: Config, dry_run: bool) -> (m: Self)
        ensures
            m.wf(),
            keys_distinct(m.view().checkers),
            m.view().checkers == enabled_checkers(cfg),
            m.view().check_interval_secs == cfg.check_interval_secs,
            m.view().failures == Map::<Seq<char>, u32>::empty(),
            m.view().sink == (SinkView {
                last: Map::empty(),
                recovery: Map::empty(),
                started: Map::empty(),
                active: Set::empty(),
                log_enabled: cfg.log.enabled,
                dry_run,
                recovery_cooldown_secs: cfg.recovery_cooldown_secs,
            }),
    {
        let check_interval_secs = cfg.check_interval_secs;
        let log_enabled = cfg.log.enabled;
        let recovery = cfg.recovery_cooldown_secs;
        let checkers = cfg.into_checkers();
        proof {
            lemma_enabled_keys_distinct(cfg);
        }
        let m = Monitor {
            sink: Sink::new(dry_run, log_enabled, recovery),
            checkers,
            failures: KeyMap::new(),
            check_interval_secs,
        };
        m
    }

    /// Takes on a new configuration: new checkers, interval and log and
    /// recovery settings; failure counts start afresh. What the sink knows
    /// of past notifications and conditions is kept.
    pub fn reload(&mut self, cfg: Config)
        requires
            old(self).wf(),
        ensures
            final(self).wf(),
            keys_distinct(final(self).view().checkers),
            final(self).view().checkers == enabled_checkers(cfg),
            final(self).view().check_interval_secs == cfg.check_interval_secs,
            final(self).view().failures == Map::<Seq<char>, u32>::empty(),
            final(self).view().sink == (SinkView {
                log_enabled: cfg.log.enabled,
                recovery_cooldown_secs: cfg.recovery_cooldown_secs,
                ..old(self).view().sink
            }),
    {
        self.check_interval_secs = cfg.check_interval_secs;
        let log_enabled = cfg.log.enabled;
        let recovery = cfg.recovery_cooldown_secs;
        self.checkers = cfg.into_checkers();
        proof {
            lemma_enabled_keys_distinct(cfg);
        }
        self.sink.set_log_enabled(log_enabled);
        self.sink.set_recovery_cooldown_secs(recovery);
        self.failures.clear();
    }

    pub fn check_interval_secs(&self) -> (s: u64)
        ensures
            s == self.view().check_interval_secs,
    {
        self.check_interval_secs
    }

    pub fn dry_run(&self) -> (b: bool)
        ensures
            b == self.view().sink.dry_run,
    {
        self.sink.dry_run()
    }

    pub fn checkers(&self) -> (c: &Vec<AnyChecker>)
        ensures
            c@ == self.view().checkers,
    {
        &self.checkers
    }

    pub fn sink(&self) -> (s: &Sink)
        requires
            self.wf(),
        ensures
            s.view() == self.view().sink,
            s.wf(),
    {
        &self.sink
    }

    /// Reports back on an emission of a cycle.
    pub fn record_delivery(&mut self, e: &Emission, delivered: bool, now: u64)
        requires
            old(self).wf(),
        ensures
            final(self).wf(),
            final(self).view() == (MonitorView {
                sink: if !e.print_only && delivered {
                    recorded(old(self).view().sink, e.key@, e.recovery, now)
                } else {
                    old(self).view().sink
                },
                ..old(self).view()
            }),
    {
        self.sink.record_delivery(e, delivered, now);
    }

    pub(crate) fn failure_line(k: &str, e: &CheckerError) -> (s: String)
        ensures
            s@ == failure_line(k@, crate::checkers::error_view(*e)),
    {
        let mut s = String::new();
        push_str(&mut s, "checker '");
        push_str(&mut s, k);
        match e {
            CheckerError::Io(m) => {
                push_str(&mut s, "' I/O error: ");
                push_str(&mut s, m.as_str());
            },
            CheckerError::InvalidData(m) => {
                push_str(&mut s, "' invalid data: ");
                push_str(&mut s, m.as_str());
            },
        }
        s
    }

    pub(crate) fn crash_notice(k: &str) -> (a: Alert)
        ensures
            a@ == crash_alert(k@),
    {
        let mut summary = String::new();
        push_str(&mut summary, "⚠️ sema: checker crashed");
        let mut body = String::new();
        push_str(&mut body, "'");
        push_str(&mut body, k);
        push_str(&mut body, "' crashed, sema is still running");
        Alert { severity: Severity::Critical, summary, body }
    }

    pub(crate) fn recovery_notice(k: &str) -> (p: PendingAlert)
        ensures
            p@ == recovery_pending(k@),
    {
        let mut summary = String::new();
        push_str(&mut summary, "✅ ");
        push_str(&mut summary, k);
        push_str(&mut summary, " back to normal");
        PendingAlert {
            key: crate::text::string_of(k),
            cooldown: 0,
            recovery: true,
            alert: Alert { severity: Severity::Warning, summary, body: String::new() },
        }
    }

    /// Runs one monitoring cycle on a snapshot taken at `sys.now_us`.
    pub fn cycle(&mut self, sys: &SysSnapshot) -> (rep: CycleReport)
        requires
            old(self).wf(),
        ensures
            final(self).wf(),
            keys_distinct(final(self).view().checkers),
            exists|news: Seq<AnyChecker>, rs: Seq<Result<Option<AlertView>, ErrorView>>|
                #[trigger] cycle_done(
                    old(self).view(),
                    *sys,
                    news,
                    rs,
                    final(self).view(),
                    emission_views(rep.emissions@),
                    string_views(rep.errors@),
                ),
    {
        let now = sys.now_us;
        let ghost pre = self.view();
        let mut olds: Vec<AnyChecker> = Vec::new();
        std::mem::swap(&mut olds, &mut self.checkers);
        let ghost orig = olds@;
        assert(orig.len() == olds.len());
        let ghost st0 = CycleState {
            sink: self.sink.view(),
            failures: self.failures.view(),
            pending: seq![],
            crashed: seq![],
            kept: seq![],
            errors: seq![],
        };
        proof {
            assert(state_of(self.sink.view(), self.failures.view(), seq![], seq![], seq![], seq![])
                =~= st0) by {
                assert(Seq::<PendingAlert>::empty().map_values(|p: PendingAlert| p@) =~= Seq::<
                    PendingView,
                >::empty());
                assert(string_views(Seq::<String>::empty()) =~= Seq::<Seq<char>>::empty());
            }
        }
        let ghost mut news: Seq<AnyChecker> = seq![];
        let ghost mut rs: Seq<Result<Option<AlertView>, ErrorView>> = seq![];
        let mut pending: Vec<PendingAlert> = Vec::new();
        let mut crashed: Vec<String> = Vec::new();
        let mut kept: Vec<AnyChecker> = Vec::new();
        let mut errors: Vec<String> = Vec::new();
        let mut i: usize = 0;
        while olds.len() > 0
            invariant
                i <= orig.len(),
                orig.len() <= usize::MAX,
                self.check_interval_secs == pre.check_interval_secs,
                olds@ == orig.skip(i as int),
                news.len() == i,
                rs.len() == i,
                forall|j: int| 0 <= j < i ==> check_step(#[trigger] orig[j], *sys, news[j], rs[j]),
                self.sink.wf(),
                self.failures.wf(),
                counts_below_limit(self.failures.view()),
                state_of(self.sink.view(), self.failures.view(), pending@, crashed@, kept@, errors@)
                    == cycle_upto(st0, orig, news, rs, i as int, now),
                now == sys.now_us,
            decreases olds.len(),
        {
            assert(i < orig.len()) by {
                assert(orig.skip(i as int).len() > 0);
            }
            let ghost st = cycle_upto(st0, orig, news, rs, i as int, now);
            let mut c = olds.remove(0);
            proof {
                assert(orig.skip(i as int)[0] == orig[i as int]);
            }
            assert(c == orig[i as int]);
            let ghost c_old = c;
            let key = c.key();
            let cooldown = c.cooldown_secs();
            let r = c.check(sys);
            let ghost old_news = news;
            let ghost old_rs = rs;
            proof {
                news = news.push(c);
                rs = rs.push(result_view(r));
                assert(cycle_upto(st0, orig, news, rs, i as int, now) == st) by {
                    lemma_cycle_upto_prefix(st0, orig, news, rs, i as int, now);
                    assert(news.drop_last() =~= old_news);
                    assert(rs.drop_last() =~= old_rs);
                }
            }
            absorb(
                &mut self.sink,
                &mut self.failures,
                key,
                cooldown,
                c,
                r,
                now,
                &mut pending,
                &mut crashed,
                &mut kept,
                &mut errors,
            );
            proof {
                assert(orig.skip(i as int).drop_first() =~= orig.skip(i + 1));
            }
            i = i + 1;
        }
        assert(i == orig.len()) by {
            assert(orig.skip(i as int).len() == 0);
        }
        self.checkers = kept;
        let ghost st = cycle_upto(st0, orig, news, rs, orig.len() as int, now);
        assert(st.crashed == string_views(crashed@));
        let mut emissions = crash_notices(&self.sink, &crashed, now);
        let ghost ev = emission_views(emissions@);
        match self.sink.notify_pending(pending, now) {
            Some(e) => {
                emissions.push(e);
                assert(emission_views(emissions@) =~= ev.push(emissions@.last()@));
            },
            None => {},
        }
        let rep = CycleReport { emissions, errors };
        assert(self.view() == MonitorView {
            sink: st.sink,
            checkers: st.kept,
            failures: st.failures,
            check_interval_secs: pre.check_interval_secs,
        });
        assert(emission_views(rep.emissions@) == cycle_emissions(st, sys.now_us));
        assert(string_views(rep.errors@) == st.errors);
        assert(st0 == state_of(pre.sink, pre.failures, seq![], seq![], seq![], seq![])) by {
            assert(Seq::<PendingAlert>::empty().map_values(|p: PendingAlert| p@) =~= Seq::<
                PendingView,
            >::empty());
            assert(string_views(Seq::<String>::empty()) =~= Seq::<Seq<char>>::empty());
        }
        assert(cycle_done(
            pre,
            *sys,
            news,
            rs,
            self.view(),
            emission_views(rep.emissions@),
            string_views(rep.errors@),
        ));
        proof {
            lemma_cycle_keys_distinct(
                pre,
                *sys,
                news,
                rs,
                self.view(),
                emission_views(rep.emissions@),
                string_views(rep.errors@),
            );
        }
        rep
    }
}


/// The cycle state made of the sink, the failure counts and the lists
/// gathered so far.
pub open spec fn state_of(
    sink: SinkView,
    failures: Map<Seq<char>, u32>,
    pending: Seq<PendingAlert>,
    crashed: Seq<String>,
    kept: Seq<AnyChecker>,
    errors: Seq<String>,
) -> CycleState {
    CycleState {
        sink,
        failures,
        pending: pending.map_values(|p: PendingAlert| p@),
        crashed: string_views(crashed),
        kept,
        errors: string_views(errors),
    }
}

pub open spec fn counts_below_limit(f: Map<Seq<char>, u32>) -> bool {
    forall|k: Seq<char>| #[trigger] f.contains_key(k) ==> f[k] < MAX_CHECKER_FAILURES
}

/// Takes in the result `r` of the checker `c` of key `key`.
fn absorb(
    sink: &mut Sink,
    failures: &mut KeyMap<u32>,
    key: &str,
    cooldown: u64,
    c: AnyChecker,
    r: Result<Option<Alert>, CheckerError>,
    now: u64,
    pending: &mut Vec<PendingAlert>,
    crashed: &mut Vec<String>,
    kept: &mut Vec<AnyChecker>,
    errors: &mut Vec<String>,
)
    requires
        old(sink).wf(),
        old(failures).wf(),
        counts_below_limit(old(failures).view()),
    ensures
        final(sink).wf(),
        final(failures).wf(),
        counts_below_limit(final(failures).view()),
        state_of(
            final(sink).view(),
            final(failures).view(),
            final(pending)@,
            final(crashed)@,
            final(kept)@,
            final(errors)@,
        ) == after_result(
            state_of(
                old(sink).view(),
                old(failures).view(),
                old(pending)@,
                old(crashed)@,
                old(kept)@,
                old(errors)@,
            ),
            key@,
            cooldown,
            c,
            result_view(r),
            now,
        ),
{
    reveal(after_result);
    match r {
        Ok(Some(alert)) => {
            failures.remove(key);
            sink.note_active(key, true, now);
            let ghost pv = pending@.map_values(|p: PendingAlert| p@);
            pending.push(
                PendingAlert {
                    key: crate::text::string_of(key),
                    cooldown,
                    recovery: false,
                    alert,
                },
            );
            assert(pending@.map_values(|p: PendingAlert| p@) =~= pv.push(
                pending@.last()@,
            ));
            kept.push(c);
        },
        Ok(None) => {
            failures.remove(key);
            let recovered = sink.note_active(key, false, now);
            if recovered {
                let ghost pv = pending@.map_values(|p: PendingAlert| p@);
                pending.push(Monitor::recovery_notice(key));
                assert(pending@.map_values(|p: PendingAlert| p@) =~= pv.push(
                    recovery_pending(key@),
                ));
            }
            kept.push(c);
        },
        Err(e) => {
            let ghost ev = string_views(errors@);
            errors.push(Monitor::failure_line(key, &e));
            assert(string_views(errors@) =~= ev.push(errors@.last()@));
            let n: u32 = match failures.get(key) {
                Some(v) => v + 1,
                None => 1,
            };
            if n >= MAX_CHECKER_FAILURES {
                let ghost cv = string_views(crashed@);
                crashed.push(crate::text::string_of(key));
                assert(string_views(crashed@) =~= cv.push(key@));
                failures.remove(key);
            } else {
                failures.insert(key, n);
                kept.push(c);
            }
        },
    }
    proof {
        assert forall|k: Seq<char>| #[trigger] failures.view().contains_key(k) implies failures.view()[k]
            < MAX_CHECKER_FAILURES by {
            if k != key@ {
                assert(old(failures).view().contains_key(k));
            }
        }
    }
}

/// The notices that the checkers of `crashed` were dropped.
fn crash_notices(sink: &Sink, crashed: &Vec<String>, now: u64) -> (emissions: Vec<Emission>)
    requires
        sink.wf(),
    ensures
        emission_views(emissions@) == crash_emissions(sink.view(), string_views(crashed@), now),
{
    let ghost ks = string_views(crashed@);
        let mut emissions: Vec<Emission> = Vec::new();
    let mut j: usize = 0;
    while j < crashed.len()
        invariant
            j <= crashed.len(),
            sink.wf(),
            ks == string_views(crashed@),
            emission_views(emissions@) == crash_emissions(
                sink.view(),
                ks.take(j as int),
                now,
            ),
        decreases crashed.len() - j,
    {
        let k = crashed[j].as_str();
        let mut ck = String::new();
        push_str(&mut ck, "checker_crash:");
        push_str(&mut ck, k);
        let notice = Monitor::crash_notice(k);
        let o = sink.notify(ck.as_str(), CRASH_COOLDOWN_SECS, &notice, now);
        assert(ks.take(j + 1).drop_last() =~= ks.take(j as int));
        assert(ks[j as int] == k@);
        let ghost ev = emission_views(emissions@);
        match o {
            Some(e) => {
                emissions.push(e);
                assert(emission_views(emissions@) =~= ev.push(emissions@.last()@));
            },
            None => {},
        }
        j = j + 1;
    }
    assert(ks.take(crashed@.len() as int) =~= ks);
    emissions
}

/// A cycle over a prefix does not depend on the checkers after it.
pub proof fn lemma_cycle_upto_prefix(
    st: CycleState,
    olds: Seq<AnyChecker>,
    news: Seq<AnyChecker>,
    rs: Seq<Result<Option<AlertView>, ErrorView>>,
    n: int,
    now: u64,
)
    requires
        0 <= n < news.len(),
        n < rs.len(),
    ensures
        cycle_upto(st, olds, news, rs, n, now) == cycle_upto(
            st,
            olds,
            news.drop_last(),
            rs.drop_last(),
            n,
            now,
        ),
    decreases n,
{
    if n > 0 {
        lemma_cycle_upto_prefix(st, olds, news, rs, n - 1, now);
    }
}

/// No two checkers share a key.
pub open spec fn keys_distinct(cs: Seq<AnyChecker>) -> bool {
    forall|a: int, b: int|
        0 <= a < b < cs.len() ==> checker_key(#[trigger] cs[a]) != checker_key(#[trigger] cs[b])
}

/// No checker of `cs` has the key `k`.
pub open spec fn none_keyed(cs: Seq<AnyChecker>, k: Seq<char>) -> bool {
    forall|j: int| 0 <= j < cs.len() ==> checker_key(#[trigger] cs[j]) != k
}

/// Where the checker of key `k`, whose check gave `r`, stands after its
/// step of a cycle that began with the failure counts `f0`.
spec fn failure_outcome(
    st: CycleState,
    f0: Map<Seq<char>, u32>,
    k: Seq<char>,
    c: AnyChecker,
    r: Result<Option<AlertView>, ErrorView>,
) -> bool {
    match r {
        Ok(_) => !st.failures.contains_key(k) && st.kept.contains(c) && !st.crashed.contains(k),
        Err(_) => {
            let m = failures_of(f0, k) + 1;
            if m >= MAX_CHECKER_FAILURES {
                !st.failures.contains_key(k) && st.crashed.contains(k) && none_keyed(st.kept, k)
            } else {
                st.failures.contains_key(k) && st.failures[k] == m && st.kept.contains(c)
                    && !st.crashed.contains(k)
            }
        },
    }
}

/// Before its step, the checker of key `k` has left the cycle untouched.
spec fn failure_untouched(st: CycleState, f0: Map<Seq<char>, u32>, k: Seq<char>) -> bool {
    failures_of(st.failures, k) == failures_of(f0, k) && !st.crashed.contains(k) && none_keyed(
        st.kept,
        k,
    )
}

/// A check leaves a checker of the same kind, hence of the same key.
proof fn lemma_step_keeps_key(
    old: AnyChecker,
    sys: SysSnapshot,
    new: AnyChecker,
    r: Result<Option<AlertView>, ErrorView>,
)
    requires
        check_step(old, sys, new, r),
    ensures
        checker_key(new) == checker_key(old),
{
    reveal(check_step);
}

/// The step of a checker of another key leaves what concerns `k` alone.
proof fn lemma_other_key_step(
    st: CycleState,
    k2: Seq<char>,
    cd: u64,
    c: AnyChecker,
    r: Result<Option<AlertView>, ErrorView>,
    now: u64,
    k: Seq<char>,
    f0: Map<Seq<char>, u32>,
    x: AnyChecker,
)
    requires
        k2 != k,
        checker_key(c) == k2,
    ensures
        ({
            let st2 = after_result(st, k2, cd, c, r, now);
            &&& failures_of(st2.failures, k) == failures_of(st.failures, k)
            &&& st2.failures.contains_key(k) == st.failures.contains_key(k)
            &&& (st.failures.contains_key(k) ==> st2.failures[k] == st.failures[k])
            &&& st2.crashed.contains(k) == st.crashed.contains(k)
            &&& (none_keyed(st.kept, k) ==> none_keyed(st2.kept, k))
            &&& (st.kept.contains(x) ==> st2.kept.contains(x))
        }),
{
    reveal(after_result);
    let st2 = after_result(st, k2, cd, c, r, now);
    assert(st2.crashed == st.crashed || st2.crashed == st.crashed.push(k2));
    if st2.crashed == st.crashed.push(k2) {
        assert(st.crashed.contains(k) ==> st2.crashed.contains(k)) by {
            if st.crashed.contains(k) {
                let j = choose|j: int| 0 <= j < st.crashed.len() && st.crashed[j] == k;
                assert(st2.crashed[j] == k);
            }
        }
        assert(st2.crashed.contains(k) ==> st.crashed.contains(k)) by {
            if st2.crashed.contains(k) {
                let j = choose|j: int| 0 <= j < st2.crashed.len() && st2.crashed[j] == k;
                assert(j < st.crashed.len());
                assert(st.crashed[j] == k);
            }
        }
    }
    assert(st2.kept == st.kept || st2.kept == st.kept.push(c));
    if st2.kept == st.kept.push(c) {
        assert(none_keyed(st.kept, k) ==> none_keyed(st2.kept, k)) by {
            if none_keyed(st.kept, k) {
                assert forall|j: int| 0 <= j < st2.kept.len() implies checker_key(
                    #[trigger] st2.kept[j],
                ) != k by {
                    if j < st.kept.len() {
                        assert(st2.kept[j] == st.kept[j]);
                    }
                }
            }
        }
        assert(st.kept.contains(x) ==> st2.kept.contains(x)) by {
            if st.kept.contains(x) {
                let j = choose|j: int| 0 <= j < st.kept.len() && st.kept[j] == x;
                assert(st2.kept[j] == x);
            }
        }
    }
}

/// The step of the checker of key `k` itself.
proof fn lemma_own_step(
    st: CycleState,
    k: Seq<char>,
    cd: u64,
    c: AnyChecker,
    r: Result<Option<AlertView>, ErrorView>,
    now: u64,
    f0: Map<Seq<char>, u32>,
)
    requires
        failure_untouched(st, f0, k),
        checker_key(c) == k,
    ensures
        failure_outcome(after_result(st, k, cd, c, r, now), f0, k, c, r),
{
    reveal(after_result);
    let st2 = after_result(st, k, cd, c, r, now);
    match r {
        Err(_) => {
            if failures_of(f0, k) + 1 >= MAX_CHECKER_FAILURES {
                assert(st2.crashed.last() == k);
            } else {
                assert(st2.kept.last() == c);
                assert(st2.crashed == st.crashed);
            }
        },
        Ok(_) => {
            assert(st2.kept.last() == c);
            assert(st2.crashed == st.crashed);
        },
    }
}

/// Tracks the checker at position `i` through the first `n` steps.
proof fn lemma_failure_track(
    st0: CycleState,
    olds: Seq<AnyChecker>,
    sys: SysSnapshot,
    news: Seq<AnyChecker>,
    rs: Seq<Result<Option<AlertView>, ErrorView>>,
    n: int,
    i: int,
)
    requires
        0 <= i < olds.len(),
        0 <= n <= olds.len(),
        news.len() == olds.len(),
        rs.len() == olds.len(),
        forall|j: int| 0 <= j < olds.len() ==> check_step(#[trigger] olds[j], sys, news[j], rs[j]),
        keys_distinct(olds),
        st0.crashed == Seq::<Seq<char>>::empty(),
        st0.kept == Seq::<AnyChecker>::empty(),
    ensures
        ({
            let st = cycle_upto(st0, olds, news, rs, n, sys.now_us);
            let k = checker_key(olds[i]);
            &&& n <= i ==> failure_untouched(st, st0.failures, k)
            &&& n > i ==> failure_outcome(st, st0.failures, k, news[i], rs[i])
        }),
    decreases n,
{
    let k = checker_key(olds[i]);
    if n > 0 {
        lemma_failure_track(st0, olds, sys, news, rs, n - 1, i);
        let prev = cycle_upto(st0, olds, news, rs, n - 1, sys.now_us);
        let j = n - 1;
        assert(check_step(olds[j], sys, news[j], rs[j]));
        lemma_step_keeps_key(olds[j], sys, news[j], rs[j]);
        if j == i {
            lemma_own_step(prev, k, checker_cooldown(olds[j]), news[j], rs[j], sys.now_us, st0.failures);
        } else {
            assert(checker_key(olds[j]) != k);
            lemma_other_key_step(
                prev,
                checker_key(olds[j]),
                checker_cooldown(olds[j]),
                news[j],
                rs[j],
                sys.now_us,
                k,
                st0.failures,
                news[i],
            );
        }
    } else {
        assert(none_keyed(st0.kept, k));
    }
}

/// A crashed key gets its notice unless its cooldown holds it back.
proof fn lemma_crash_notice_sent(s: SinkView, ks: Seq<Seq<char>>, k: Seq<char>, now: u64)
    requires
        ks.contains(k),
    ensures
        notify_spec(s, crash_key(k), CRASH_COOLDOWN_SECS, crash_alert(k), now) matches Some(e)
            ==> crash_emissions(s, ks, now).contains(e),
    decreases ks.len(),
{
    let prev = crash_emissions(s, ks.drop_last(), now);
    if ks.last() == k {
        match notify_spec(s, crash_key(k), CRASH_COOLDOWN_SECS, crash_alert(k), now) {
            Some(e) => {
                assert(crash_emissions(s, ks, now).last() == e);
            },
            None => {},
        }
    } else {
        let j = choose|j: int| 0 <= j < ks.len() && ks[j] == k;
        assert(ks.drop_last()[j] == k);
        lemma_crash_notice_sent(s, ks.drop_last(), k, now);
        match notify_spec(s, crash_key(k), CRASH_COOLDOWN_SECS, crash_alert(k), now) {
            Some(e) => {
                let i = choose|i: int| 0 <= i < prev.len() && prev[i] == e;
                let cur = crash_emissions(s, ks, now);
                assert(cur == prev || cur == prev.push(cur.last()));
                assert(cur[i] == e);
            },
            None => {},
        }
    }
}

/// What one cycle does to a checker, when no two checkers share a key: a
/// check that succeeds clears its failure count and keeps it; a failed
/// check keeps it with its count raised by one, until the count reaches
/// `MAX_CHECKER_FAILURES`: then the checker is dropped, its count cleared,
/// and its crash notice sent unless that notice's cooldown holds it back.
pub proof fn lemma_failure_law(
    pre: MonitorView,
    sys: SysSnapshot,
    news: Seq<AnyChecker>,
    rs: Seq<Result<Option<AlertView>, ErrorView>>,
    post: MonitorView,
    emissions: Seq<EmissionView>,
    errors: Seq<Seq<char>>,
    i: int,
)
    requires
        cycle_done(pre, sys, news, rs, post, emissions, errors),
        keys_distinct(pre.checkers),
        0 <= i < pre.checkers.len(),
    ensures
        ({
            let k = checker_key(pre.checkers[i]);
            let m = failures_of(pre.failures, k) + 1;
            &&& rs[i] is Ok ==> !post.failures.contains_key(k) && post.checkers.contains(news[i])
            &&& rs[i] is Err && m < MAX_CHECKER_FAILURES ==> post.failures.contains_key(k)
                && post.failures[k] == m && post.checkers.contains(news[i])
            &&& rs[i] is Err && m >= MAX_CHECKER_FAILURES ==> !post.failures.contains_key(k)
                && none_keyed(post.checkers, k) && (notify_spec(
                post.sink,
                crash_key(k),
                CRASH_COOLDOWN_SECS,
                crash_alert(k),
                sys.now_us,
            ) matches Some(e) ==> emissions.contains(e))
        }),
{
    let olds = pre.checkers;
    let st0 = CycleState {
        sink: pre.sink,
        failures: pre.failures,
        pending: seq![],
        crashed: seq![],
        kept: seq![],
        errors: seq![],
    };
    let st = cycle_upto(st0, olds, news, rs, olds.len() as int, sys.now_us);
    lemma_failure_track(st0, olds, sys, news, rs, olds.len() as int, i);
    let k = checker_key(olds[i]);
    if rs[i] is Err && failures_of(pre.failures, k) + 1 >= MAX_CHECKER_FAILURES {
        lemma_crash_notice_sent(st.sink, st.crashed, k, sys.now_us);
        match notify_spec(st.sink, crash_key(k), CRASH_COOLDOWN_SECS, crash_alert(k), sys.now_us) {
            Some(e) => {
                let c = crash_emissions(st.sink, st.crashed, sys.now_us);
                let j = choose|j: int| 0 <= j < c.len() && c[j] == e;
                assert(emissions == c || emissions == c.push(emissions.last()));
                assert(emissions[j] == e);
            },
            None => {},
        }
    }
}

/// Checkers of different kinds have different keys.
proof fn lemma_rank_key(x: AnyChecker, y: AnyChecker)
    requires
        rank(x) != rank(y),
    ensures
        checker_key(x) != checker_key(y),
{
    reveal_strlit("disk");
    reveal_strlit("cpu");
    reveal_strlit("memory");
    reveal_strlit("swap");
    reveal_strlit("battery");
    reveal_strlit("time");
    reveal_strlit("temperature");
    reveal_strlit("network");
    reveal_strlit("disk_io");
    let kx = checker_key(x);
    let ky = checker_key(y);
    if kx == ky {
        assert(kx.len() == ky.len() && kx[0] == ky[0]);
    }
}

/// The checkers made from a configuration never share a key.
pub proof fn lemma_enabled_keys_distinct(c: Config)
    ensures
        keys_distinct(enabled_checkers(c)),
{
    let cs = enabled_checkers(c);
    lemma_enabled_ranks(c);
    assert forall|a: int, b: int| 0 <= a < b < cs.len() implies checker_key(#[trigger] cs[a])
        != checker_key(#[trigger] cs[b]) by {
        lemma_rank_key(cs[a], cs[b]);
    }
}

/// The place of a checker's kind in the fixed order of the checkers.
spec fn rank(c: AnyChecker) -> int {
    match c {
        AnyChecker::Disk(_) => 0,
        AnyChecker::Cpu(_) => 1,
        AnyChecker::Memory(_) => 2,
        AnyChecker::Swap(_) => 3,
        AnyChecker::Battery(_) => 4,
        AnyChecker::Time(_) => 5,
        AnyChecker::Temperature(_) => 6,
        AnyChecker::Network(_) => 7,
        AnyChecker::DiskIo(_) => 8,
    }
}

spec fn ranked_below(cs: Seq<AnyChecker>, r: int) -> bool {
    &&& forall|a: int, b: int| 0 <= a < b < cs.len() ==> rank(#[trigger] cs[a]) < rank(#[trigger] cs[b])
    &&& forall|a: int| 0 <= a < cs.len() ==> rank(#[trigger] cs[a]) < r
}

proof fn lemma_ranked_push(cs: Seq<AnyChecker>, x: AnyChecker, r: int)
    requires
        ranked_below(cs, rank(x)),
        rank(x) < r,
    ensures
        ranked_below(cs.push(x), r),
{
    let t = cs.push(x);
    assert forall|a: int, b: int| 0 <= a < b < t.len() implies rank(#[trigger] t[a]) < rank(#[trigger] t[b]) by {
        if b < cs.len() {
            assert(t[a] == cs[a] && t[b] == cs[b]);
        } else {
            assert(t[a] == cs[a]);
        }
    }
    assert forall|a: int| 0 <= a < t.len() implies rank(#[trigger] t[a]) < r by {
        if a < cs.len() {
            assert(t[a] == cs[a]);
        }
    }
}

proof fn lemma_ranked_weaken(cs: Seq<AnyChecker>, r: int, r2: int)
    requires
        ranked_below(cs, r),
        r <= r2,
    ensures
        ranked_below(cs, r2),
{
}

proof fn lemma_enabled_ranks(c: Config)
    ensures
        ranked_below(enabled_checkers(c), 9),
{
    let e: Seq<AnyChecker> = seq![];
    let s1: Seq<AnyChecker> = if c.disk.enabled {
        e.push(AnyChecker::Disk(Disk { cfg: c.disk }))
    } else {
        e
    };
    assert(seq![AnyChecker::Disk(Disk { cfg: c.disk })] == e.push(AnyChecker::Disk(Disk { cfg: c.disk })));
    if c.disk.enabled {
        lemma_ranked_push(e, AnyChecker::Disk(Disk { cfg: c.disk }), 1);
    }
    assert(ranked_below(s1, 1));
    let x2 = AnyChecker::Cpu(Cpu { cfg: c.cpu });
    let s2 = if c.cpu.enabled { s1.push(x2) } else { s1 };
    if c.cpu.enabled { lemma_ranked_push(s1, x2, 2); } else { lemma_ranked_weaken(s1, 1, 2); }
    let x3 = AnyChecker::Memory(Memory { cfg: c.memory });
    let s3 = if c.memory.enabled { s2.push(x3) } else { s2 };
    if c.memory.enabled { lemma_ranked_push(s2, x3, 3); } else { lemma_ranked_weaken(s2, 2, 3); }
    let x4 = AnyChecker::Swap(Swap { cfg: c.swap });
    let s4 = if c.swap.enabled { s3.push(x4) } else { s3 };
    if c.swap.enabled { lemma_ranked_push(s3, x4, 4); } else { lemma_ranked_weaken(s3, 3, 4); }
    let x5 = AnyChecker::Battery(Battery { cfg: c.battery, status_skip: 0 });
    let s5 = if c.battery.enabled { s4.push(x5) } else { s4 };
    if c.battery.enabled { lemma_ranked_push(s4, x5, 5); } else { lemma_ranked_weaken(s4, 4, 5); }
    let x6 = AnyChecker::Time(TimeChecker { cfg: c.time, last_fired: None });
    let s6 = if c.time.enabled { s5.push(x6) } else { s5 };
    if c.time.enabled { lemma_ranked_push(s5, x6, 6); } else { lemma_ranked_weaken(s5, 5, 6); }
    let x7 = AnyChecker::Temperature(Temperature { cfg: c.temperature });
    let s7 = if c.temperature.enabled { s6.push(x7) } else { s6 };
    if c.temperature.enabled { lemma_ranked_push(s6, x7, 7); } else { lemma_ranked_weaken(s6, 6, 7); }
    let x8 = AnyChecker::Network(
        Network { cfg: c.network, prev_rx: 0, prev_tx: 0, prev_time: None },
    );
    let s8 = if c.network.enabled { s7.push(x8) } else { s7 };
    if c.network.enabled { lemma_ranked_push(s7, x8, 8); } else { lemma_ranked_weaken(s7, 7, 8); }
    let x9 = AnyChecker::DiskIo(
        DiskIo { cfg: c.disk_io, prev_iowait: 0, prev_total: 0, prev_time: None },
    );
    let s9 = if c.disk_io.enabled { s8.push(x9) } else { s8 };
    if c.disk_io.enabled { lemma_ranked_push(s8, x9, 9); } else { lemma_ranked_weaken(s8, 8, 9); }
    assert(s9 == enabled_checkers(c));
}

/// Every checker of `kept` has the key of one of the first `n` of `olds`.
spec fn keys_from(kept: Seq<AnyChecker>, olds: Seq<AnyChecker>, n: int) -> bool {
    forall|p: int|
        0 <= p < kept.len() ==> exists|j: int|
            0 <= j < n && checker_key(#[trigger] kept[p]) == checker_key(olds[j])
}

proof fn lemma_kept_distinct(
    st0: CycleState,
    olds: Seq<AnyChecker>,
    sys: SysSnapshot,
    news: Seq<AnyChecker>,
    rs: Seq<Result<Option<AlertView>, ErrorView>>,
    n: int,
)
    requires
        0 <= n <= olds.len(),
        news.len() == olds.len(),
        rs.len() == olds.len(),
        forall|j: int| 0 <= j < olds.len() ==> check_step(#[trigger] olds[j], sys, news[j], rs[j]),
        keys_distinct(olds),
        st0.kept == Seq::<AnyChecker>::empty(),
    ensures
        ({
            let st = cycle_upto(st0, olds, news, rs, n, sys.now_us);
            keys_distinct(st.kept) && keys_from(st.kept, olds, n)
        }),
    decreases n,
{
    if n > 0 {
        lemma_kept_distinct(st0, olds, sys, news, rs, n - 1);
        let prev = cycle_upto(st0, olds, news, rs, n - 1, sys.now_us);
        let st = cycle_upto(st0, olds, news, rs, n, sys.now_us);
        let j = n - 1;
        assert(check_step(olds[j], sys, news[j], rs[j]));
        lemma_step_keeps_key(olds[j], sys, news[j], rs[j]);
        reveal(after_result);
        assert(st.kept == prev.kept || st.kept == prev.kept.push(news[j]));
        if st.kept == prev.kept.push(news[j]) {
            assert forall|p: int| 0 <= p < st.kept.len() implies exists|q: int|
                0 <= q < n && checker_key(#[trigger] st.kept[p]) == checker_key(olds[q]) by {
                if p < prev.kept.len() {
                    assert(st.kept[p] == prev.kept[p]);
                    let q = choose|q: int|
                        0 <= q < n - 1 && checker_key(prev.kept[p]) == checker_key(olds[q]);
                    assert(checker_key(st.kept[p]) == checker_key(olds[q]));
                } else {
                    assert(checker_key(st.kept[p]) == checker_key(olds[j]));
                }
            }
            assert forall|a: int, b: int| 0 <= a < b < st.kept.len() implies checker_key(
                #[trigger] st.kept[a],
            ) != checker_key(#[trigger] st.kept[b]) by {
                assert(st.kept[a] == prev.kept[a]);
                if b < prev.kept.len() {
                    assert(st.kept[b] == prev.kept[b]);
                } else {
                    let q = choose|q: int|
                        0 <= q < n - 1 && checker_key(prev.kept[a]) == checker_key(olds[q]);
                    assert(checker_key(olds[q]) != checker_key(olds[j]));
                }
            }
        } else {
            assert forall|p: int| 0 <= p < st.kept.len() implies exists|q: int|
                0 <= q < n && checker_key(#[trigger] st.kept[p]) == checker_key(olds[q]) by {
                let q = choose|q: int|
                    0 <= q < n - 1 && checker_key(prev.kept[p]) == checker_key(olds[q]);
                assert(checker_key(st.kept[p]) == checker_key(olds[q]));
            }
        }
    }
}

/// A cycle keeps the checkers' keys distinct.
pub proof fn lemma_cycle_keys_distinct(
    pre: MonitorView,
    sys: SysSnapshot,
    news: Seq<AnyChecker>,
    rs: Seq<Result<Option<AlertView>, ErrorView>>,
    post: MonitorView,
    emissions: Seq<EmissionView>,
    errors: Seq<Seq<char>>,
)
    requires
        cycle_done(pre, sys, news, rs, post, emissions, errors),
        keys_distinct(pre.checkers),
    ensures
        keys_distinct(post.checkers),
{
    let st0 = CycleState {
        sink: pre.sink,
        failures: pre.failures,
        pending: seq![],
        crashed: seq![],
        kept: seq![],
        errors: seq![],
    };
    lemma_kept_distinct(st0, pre.checkers, sys, news, rs, pre.checkers.len() as int);
}

/// A well-formed monitor's checkers never share a key, so the failure law
/// applies to every cycle it runs.
pub proof fn lemma_wf_keys_distinct(m: Monitor)
    requires
        m.wf(),
    ensures
        keys_distinct(m.view().checkers),
{
}

} // verus!
