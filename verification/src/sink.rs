//! The notification sink: per-metric cooldowns, condition durations,
//! recovery notices and grouping of simultaneous alerts.
//!
//! The sink decides; it does not deliver. Each decision to notify comes
//! out as an [`Emission`]; whoever delivers it reports back with
//! [`Sink::record_delivery`]. Times are monotonic clock readings in
//! microseconds.

use vstd::prelude::*;
use crate::checkers::{Alert, AlertView, Severity};
use crate::config::severity_emoji;
use crate::keyed::KeyMap;
use crate::text::{dec, join, lemma_join_step, push_dec, push_str, string_of};

verus! {

/// Microseconds in a second.
pub const MICROS_PER_SEC: u64 = 1000000;

/// An alert waiting to be dispatched at the end of a monitoring cycle.
pub struct PendingAlert {
    pub key: String,
    pub cooldown: u64,
    pub recovery: bool,
    pub alert: Alert,
}

pub struct PendingView {
    pub key: Seq<char>,
    pub cooldown: u64,
    pub recovery: bool,
    pub alert: AlertView,
}

impl View for PendingAlert {
    type V = PendingView;

    open spec fn view(&self) -> PendingView {
        PendingView {
            key: self.key@,
            cooldown: self.cooldown,
            recovery: self.recovery,
            alert: self.alert@,
        }
    }
}

/// A notification to deliver: printed when `print_only` (dry run), else
/// sent, and written to the log when `log`.
pub struct Emission {
    pub key: String,
    pub summary: String,
    pub body: String,
    pub severity: Severity,
    pub recovery: bool,
    pub print_only: bool,
    pub log: bool,
}

pub struct EmissionView {
    pub key: Seq<char>,
    pub summary: Seq<char>,
    pub body: Seq<char>,
    pub severity: Severity,
    pub recovery: bool,
    pub print_only: bool,
    pub log: bool,
}

impl View for Emission {
    type V = EmissionView;

    open spec fn view(&self) -> EmissionView {
        EmissionView {
            key: self.key@,
            summary: self.summary@,
            body: self.body@,
            severity: self.severity,
            recovery: self.recovery,
            print_only: self.print_only,
            log: self.log,
        }
    }
}

pub open spec fn emission_opt_view(e: Option<Emission>) -> Option<EmissionView> {
    match e {
        Some(x) => Some(x@),
        None => None,
    }
}

impl Emission {
    /// The two lines a dry run prints for this emission.
    pub fn printed_lines(&self) -> (r: (String, String))
        ensures
            r.0@ == "    └─ "@ + self.summary@,
            r.1@ == "       "@ + self.body@,
    {
        let mut a = String::new();
        push_str(&mut a, "    └─ ");
        push_str(&mut a, self.summary.as_str());
        let mut b = String::new();
        push_str(&mut b, "       ");
        push_str(&mut b, self.body.as_str());
        (a, b)
    }
}

/// The state of a sink.
pub struct SinkView {
    /// When each metric's alert was last delivered.
    pub last: Map<Seq<char>, u64>,
    /// When each metric's recovery notice was last delivered.
    pub recovery: Map<Seq<char>, u64>,
    /// When each metric's current alert condition began.
    pub started: Map<Seq<char>, u64>,
    /// Metrics whose alert condition holds.
    pub active: Set<Seq<char>>,
    pub log_enabled: bool,
    pub dry_run: bool,
    pub recovery_cooldown_secs: u64,
}

/// `a - b`, or zero when `b` is later (a monotonic clock's elapsed time).
pub open spec fn elapsed(now: u64, then: u64) -> nat {
    if now >= then {
        (now - then) as nat
    } else {
        0
    }
}

/// Whether at least `secs` seconds lie between `then` and `now`.
pub open spec fn at_least(now: u64, then: u64, secs: u64) -> bool {
    elapsed(now, then) >= secs * MICROS_PER_SEC
}

/// Whether an alert of `key` with cooldown `secs` may be delivered at `now`.
pub open spec fn may_notify(s: SinkView, key: Seq<char>, secs: u64, now: u64) -> bool {
    !s.last.contains_key(key) || at_least(now, s.last[key], secs)
}

/// How long the condition of `key` has held, as shown in notifications:
/// nothing when it does not hold.
pub open spec fn duration_text_spec(s: SinkView, key: Seq<char>, now: u64) -> Seq<char> {
    if !s.started.contains_key(key) {
        seq![]
    } else {
        let secs = elapsed(now, s.started[key]) / (MICROS_PER_SEC as nat);
        if secs < 60 {
            "for "@ + dec(secs) + "s"@
        } else {
            "for "@ + dec(secs / 60) + "m"@ + dec(secs % 60) + "s"@
        }
    }
}

pub open spec fn emission_spec(
    s: SinkView,
    key: Seq<char>,
    body: Seq<char>,
    a: AlertView,
    recovery: bool,
) -> EmissionView {
    EmissionView {
        key,
        summary: a.summary,
        body,
        severity: a.severity,
        recovery,
        print_only: s.dry_run,
        log: s.log_enabled,
    }
}

/// The notification of an alert, unless its cooldown holds it back (a
/// zero cooldown never does). The body tells how long the condition has
/// held.
pub open spec fn notify_spec(s: SinkView, key: Seq<char>, cooldown: u64, a: AlertView, now: u64) -> Option<
    EmissionView,
> {
    if cooldown > 0 && !may_notify(s, key, cooldown, now) {
        None
    } else {
        let d = duration_text_spec(s, key, now);
        let body = if d.len() == 0 {
            a.body
        } else {
            a.body + " ("@ + d + ")"@
        };
        Some(emission_spec(s, key, body, a, false))
    }
}

/// The recovery notice of `key`, unless one was delivered less than the
/// recovery cooldown ago.
pub open spec fn recovery_spec(s: SinkView, key: Seq<char>, a: AlertView, now: u64) -> Option<
    EmissionView,
> {
    if s.recovery.contains_key(key) && !at_least(now, s.recovery[key], s.recovery_cooldown_secs) {
        None
    } else {
        Some(emission_spec(s, key, a.body, a, true))
    }
}

/// The largest cooldown of a list of pending alerts.
pub open spec fn max_cooldown(ps: Seq<PendingView>) -> u64
    decreases ps.len(),
{
    if ps.len() == 0 {
        0
    } else {
        let m = max_cooldown(ps.drop_last());
        if ps.last().cooldown > m {
            ps.last().cooldown
        } else {
            m
        }
    }
}

/// Critical when any pending alert is critical.
pub open spec fn group_severity(ps: Seq<PendingView>) -> Severity {
    if exists|i: int| 0 <= i < ps.len() && ps[i].alert.severity == Severity::Critical {
        Severity::Critical
    } else {
        Severity::Warning
    }
}

pub open spec fn group_part(p: PendingView) -> Seq<char> {
    p.alert.summary + ": "@ + p.alert.body
}

/// The composite alert standing for several pending alerts.
pub open spec fn group_alert(ps: Seq<PendingView>) -> AlertView {
    let sev = group_severity(ps);
    AlertView {
        severity: sev,
        summary: severity_emoji(sev) + " "@ + dec(ps.len()) + " alerts"@,
        body: join(Seq::new(ps.len(), |k: int| group_part(ps[k])), " | "@),
    }
}

/// What a batch of pending alerts gives: nothing when empty; the single
/// alert's own notification; or one composite notification under the key
/// `group` with the largest cooldown of the batch.
pub open spec fn pending_spec(s: SinkView, ps: Seq<PendingView>, now: u64) -> Option<EmissionView> {
    if ps.len() == 0 {
        None
    } else if ps.len() == 1 {
        if ps[0].recovery {
            recovery_spec(s, ps[0].key, ps[0].alert, now)
        } else {
            notify_spec(s, ps[0].key, ps[0].cooldown, ps[0].alert, now)
        }
    } else {
        notify_spec(s, "group"@, max_cooldown(ps), group_alert(ps), now)
    }
}

/// The state after a delivered notification of `key` at `now`.
pub open spec fn recorded(s: SinkView, key: Seq<char>, recovery: bool, now: u64) -> SinkView {
    if recovery {
        SinkView { recovery: s.recovery.insert(key, now), ..s }
    } else {
        SinkView { last: s.last.insert(key, now), ..s }
    }
}

/// The state after noting whether the condition of `key` holds at `now`:
/// a condition that begins is timed from `now`, one that goes on keeps its
/// start, one that ends is forgotten.
pub open spec fn noted(s: SinkView, key: Seq<char>, is_active: bool, now: u64) -> SinkView {
    if is_active {
        SinkView {
            active: s.active.insert(key),
            started: if s.started.contains_key(key) {
                s.started
            } else {
                s.started.insert(key, now)
            },
            ..s
        }
    } else {
        SinkView { active: s.active.remove(key), started: s.started.remove(key), ..s }
    }
}

/// An alert delivered at `t` holds back the next alert of the same key
/// while less than its cooldown has passed.
pub proof fn lemma_cooldown_holds_back(
    s: SinkView,
    key: Seq<char>,
    cooldown: u64,
    a: AlertView,
    t: u64,
    now: u64,
)
    requires
        cooldown > 0,
        elapsed(now, t) < cooldown * MICROS_PER_SEC,
    ensures
        notify_spec(recorded(s, key, false, t), key, cooldown, a, now) is None,
{
}

/// Once the cooldown has passed, the next alert of the key goes out.
pub proof fn lemma_cooldown_expires(
    s: SinkView,
    key: Seq<char>,
    cooldown: u64,
    a: AlertView,
    t: u64,
    now: u64,
)
    requires
        at_least(now, t, cooldown),
    ensures
        notify_spec(recorded(s, key, false, t), key, cooldown, a, now) is Some,
{
}

/// An alert with a zero cooldown always goes out.
pub proof fn lemma_zero_cooldown_always(s: SinkView, key: Seq<char>, a: AlertView, now: u64)
    ensures
        notify_spec(s, key, 0, a, now) is Some,
{
}

/// A delivery for one key changes nothing in what another key's alerts
/// and recovery notices give.
pub proof fn lemma_other_keys_unaffected(
    s: SinkView,
    key: Seq<char>,
    other: Seq<char>,
    recovery: bool,
    cooldown: u64,
    a: AlertView,
    t: u64,
    now: u64,
)
    requires
        key != other,
    ensures
        notify_spec(recorded(s, other, recovery, t), key, cooldown, a, now) == notify_spec(
            s,
            key,
            cooldown,
            a,
            now,
        ),
        recovery_spec(recorded(s, other, recovery, t), key, a, now) == recovery_spec(s, key, a, now),
{
    assert(recorded(s, other, recovery, t).started == s.started);
}

/// Recovery notices and alerts keep separate cooldowns: a delivered
/// recovery notice does not hold back an alert, nor an alert a recovery
/// notice.
pub proof fn lemma_recovery_cooldown_separate(
    s: SinkView,
    key: Seq<char>,
    cooldown: u64,
    a: AlertView,
    t: u64,
    now: u64,
)
    ensures
        notify_spec(recorded(s, key, true, t), key, cooldown, a, now) == notify_spec(
            s,
            key,
            cooldown,
            a,
            now,
        ),
        recovery_spec(recorded(s, key, false, t), key, a, now) == recovery_spec(s, key, a, now),
{
}

/// A recovery notice delivered at `t` holds back the next one of the same
/// key while less than the recovery cooldown has passed.
pub proof fn lemma_recovery_holds_back(s: SinkView, key: Seq<char>, a: AlertView, t: u64, now: u64)
    requires
        elapsed(now, t) < s.recovery_cooldown_secs * MICROS_PER_SEC,
    ensures
        recovery_spec(recorded(s, key, true, t), key, a, now) is None,
{
}

/// While a condition keeps holding, its start time stays the time it
/// began.
pub proof fn lemma_start_kept(s: SinkView, key: Seq<char>, t1: u64, t2: u64)
    ensures
        noted(noted(s, key, true, t1), key, true, t2).started[key] == (if s.started.contains_key(
            key,
        ) {
            s.started[key]
        } else {
            t1
        }),
        noted(noted(s, key, true, t1), key, true, t2).active.contains(key),
{
}

/// Once a condition ends, notifications of its key no longer tell a
/// duration.
pub proof fn lemma_ended_condition_untimed(s: SinkView, key: Seq<char>, t: u64, now: u64)
    ensures
        duration_text_spec(noted(s, key, false, t), key, now) == Seq::<char>::empty(),
        !noted(s, key, false, t).active.contains(key),
{
}

/// Several pending alerts give at most one notification: under the key
/// `group`, critical exactly when one of them is, counting them all.
pub proof fn lemma_group_single_notice(s: SinkView, ps: Seq<PendingView>, now: u64)
    requires
        ps.len() >= 2,
    ensures
        pending_spec(s, ps, now) matches Some(e) ==> e.key == "group"@ && e.severity
            == group_severity(ps) && e.summary == severity_emoji(group_severity(ps)) + " "@ + dec(
            ps.len(),
        ) + " alerts"@,
        (group_severity(ps) == Severity::Critical) == (exists|i: int|
            0 <= i < ps.len() && ps[i].alert.severity == Severity::Critical),
{
}

/// The group's cooldown is the largest of the batch.
pub proof fn lemma_max_cooldown(ps: Seq<PendingView>)
    ensures
        forall|i: int| 0 <= i < ps.len() ==> ps[i].cooldown <= max_cooldown(ps),
        ps.len() > 0 ==> exists|i: int| 0 <= i < ps.len() && ps[i].cooldown == max_cooldown(ps),
    decreases ps.len(),
{
    if ps.len() > 0 {
        lemma_max_cooldown(ps.drop_last());
        assert forall|i: int| 0 <= i < ps.len() implies ps[i].cooldown <= max_cooldown(ps) by {
            if i < ps.len() - 1 {
                assert(ps[i] == ps.drop_last()[i]);
            }
        }
        if max_cooldown(ps) != ps.last().cooldown {
            let j = choose|j: int|
                0 <= j < ps.drop_last().len() && ps.drop_last()[j].cooldown == max_cooldown(
                    ps.drop_last(),
                );
            assert(ps[j] == ps.drop_last()[j]);
        }
    }
}

pub struct Sink {
    last_notified: KeyMap<u64>,
    recovery_last_notified: KeyMap<u64>,
    condition_started: KeyMap<u64>,
    was_active: KeyMap<bool>,
    log_enabled: bool,
    dry_run: bool,
    recovery_cooldown_secs: u64,
}

impl Sink {
    pub closed spec fn view(&self) -> SinkView {
        SinkView {
            last: self.last_notified.view(),
            recovery: self.recovery_last_notified.view(),
            started: self.condition_started.view(),
            active: self.was_active.view().dom(),
            log_enabled: self.log_enabled,
            dry_run: self.dry_run,
            recovery_cooldown_secs: self.recovery_cooldown_secs,
        }
    }

    /// The sink's tables are well formed, and the metrics whose condition
    /// holds are exactly those with a start time.
    pub closed spec fn wf(&self) -> bool {
        &&& self.last_notified.wf()
        &&& self.recovery_last_notified.wf()
        &&& self.condition_started.wf()
        &&& self.was_active.wf()
        &&& self.was_active.view().dom() == self.condition_started.view().dom()
    }

    pub fn new(dry_run: bool, log_enabled: bool, recovery_cooldown_secs: u64) -> (s: Self)
        ensures
            s.wf(),
            s.view() == (SinkView {
                last: Map::empty(),
                recovery: Map::empty(),
                started: Map::empty(),
                active: Set::empty(),
                log_enabled,
                dry_run,
                recovery_cooldown_secs,
            }),
    {
        let s = Sink {
            last_notified: KeyMap::new(),
            recovery_last_notified: KeyMap::new(),
            condition_started: KeyMap::new(),
            was_active: KeyMap::new(),
            log_enabled,
            dry_run,
            recovery_cooldown_secs,
        };
        assert(s.view().active =~= Set::<Seq<char>>::empty());
        s
    }

    /// Whether an alert of `key` with cooldown `cooldown_secs` may be
    /// delivered at `now`.
    pub fn can_notify(&self, key: &str, cooldown_secs: u64, now: u64) -> (b: bool)
        requires
            self.wf(),
        ensures
            b == may_notify(self.view(), key@, cooldown_secs, now),
    {
        match self.last_notified.get(key) {
            None => true,
            Some(t) => {
                let e = now.saturating_sub(t);
                let r = e / MICROS_PER_SEC >= cooldown_secs;
                proof {
                    let c = cooldown_secs as int;
                    let m = MICROS_PER_SEC as int;
                    assert((e as int / m >= c) == (e as int >= c * m)) by (nonlinear_arith)
                        requires
                            m > 0,
                            c >= 0,
                            e >= 0,
                    ;
                }
                r
            },
        }
    }

    /// How long the condition of `key` has held: `for 42s`, `for 5m30s`, or
    /// nothing when it does not hold.
    pub fn duration_text(&self, key: &str, now: u64) -> (t: String)
        requires
            self.wf(),
        ensures
            t@ == duration_text_spec(self.view(), key@, now),
    {
        let mut t = String::new();
        match self.condition_started.get(key) {
            None => {},
            Some(start) => {
                let secs = now.saturating_sub(start) / MICROS_PER_SEC;
                push_str(&mut t, "for ");
                if secs < 60 {
                    push_dec(&mut t, secs as u128);
                } else {
                    push_dec(&mut t, (secs / 60) as u128);
                    push_str(&mut t, "m");
                    push_dec(&mut t, (secs % 60) as u128);
                }
                push_str(&mut t, "s");
            },
        }
        assert(t@ =~= duration_text_spec(self.view(), key@, now));
        t
    }

    /// Notes whether the condition of `key` holds now. Returns true exactly
    /// when a condition that held has ended (a recovery).
    pub fn note_active(&mut self, key: &str, is_active: bool, now: u64) -> (recovered: bool)
        requires
            old(self).wf(),
        ensures
            final(self).wf(),
            final(self).view() == noted(old(self).view(), key@, is_active, now),
            recovered == (old(self).view().active.contains(key@) && !is_active),
    {
        let ghost pre = self.view();
        let was = self.was_active.contains(key);
        if is_active {
            self.was_active.insert(key, true);
            if !self.condition_started.contains(key) {
                self.condition_started.insert(key, now);
            }
        } else {
            self.condition_started.remove(key);
            self.was_active.remove(key);
        }
        assert(self.was_active.view().dom() =~= self.condition_started.view().dom());
        assert(self.view().active =~= noted(pre, key@, is_active, now).active);
        was && !is_active
    }

    fn emit(&self, key: &str, body: String, alert: &Alert, recovery: bool) -> (e: Emission)
        ensures
            e@ == emission_spec(self.view(), key@, body@, alert@, recovery),
    {
        Emission {
            key: string_of(key),
            summary: alert.summary.clone(),
            body,
            severity: alert.severity,
            recovery,
            print_only: self.dry_run,
            log: self.log_enabled,
        }
    }

    /// The notification of an alert of `key`, unless its cooldown holds it
    /// back.
    pub fn notify(&self, key: &str, cooldown_secs: u64, alert: &Alert, now: u64) -> (e: Option<
        Emission,
    >)
        requires
            self.wf(),
        ensures
            emission_opt_view(e) == notify_spec(self.view(), key@, cooldown_secs, alert@, now),
    {
        let duration = self.duration_text(key, now);
        let body = if duration.unicode_len() == 0 {
            alert.body.clone()
        } else {
            let mut b = alert.body.clone();
            push_str(&mut b, " (");
            push_str(&mut b, duration.as_str());
            push_str(&mut b, ")");
            b
        };
        if cooldown_secs > 0 && !self.can_notify(key, cooldown_secs, now) {
            return None;
        }
        Some(self.emit(key, body, alert, false))
    }

    /// A recovery notice of `key`, with its own cooldown so that an alert
    /// that comes and goes does not flood notifications.
    pub fn notify_recovery(&self, key: &str, alert: &Alert, now: u64) -> (e: Option<Emission>)
        requires
            self.wf(),
        ensures
            emission_opt_view(e) == recovery_spec(self.view(), key@, alert@, now),
    {
        match self.recovery_last_notified.get(key) {
            Some(t) => {
                let e = now.saturating_sub(t);
                let c = self.recovery_cooldown_secs;
                proof {
                    let ci = c as int;
                    let m = MICROS_PER_SEC as int;
                    assert((e as int / m >= ci) == (e as int >= ci * m)) by (nonlinear_arith)
                        requires
                            m > 0,
                            ci >= 0,
                            e >= 0,
                    ;
                }
                if e / MICROS_PER_SEC < c {
                    return None;
                }
            },
            None => {},
        }
        Some(self.emit(key, alert.body.clone(), alert, true))
    }

    /// Dispatches a batch of pending alerts, grouping several into one
    /// composite notification.
    pub fn notify_pending(&self, pending: Vec<PendingAlert>, now: u64) -> (e: Option<Emission>)
        requires
            self.wf(),
        ensures
            emission_opt_view(e) == pending_spec(
                self.view(),
                pending@.map_values(|p: PendingAlert| p@),
                now,
            ),
    {
        let ghost ps = pending@.map_values(|p: PendingAlert| p@);
        if pending.len() == 0 {
            return None;
        }
        if pending.len() == 1 {
            let p = &pending[0];
            assert(ps[0] == p@);
            if p.recovery {
                return self.notify_recovery(p.key.as_str(), &p.alert, now);
            } else {
                return self.notify(p.key.as_str(), p.cooldown, &p.alert, now);
            }
        }
        let mut max_cd: u64 = 0;
        let mut critical = false;
        let mut body = String::new();
        let ghost parts = Seq::new(ps.len(), |k: int| group_part(ps[k]));
        let mut i: usize = 0;
        while i < pending.len()
            invariant
                i <= pending.len(),
                ps == pending@.map_values(|p: PendingAlert| p@),
                parts == Seq::new(ps.len(), |k: int| group_part(ps[k])),
                max_cd == max_cooldown(ps.take(i as int)),
                critical == (exists|k: int|
                    0 <= k < i && ps[k].alert.severity == Severity::Critical),
                body@ == join(parts.take(i as int), " | "@),
            decreases pending.len() - i,
        {
            let p = &pending[i];
            assert(ps[i as int] == p@);
            assert(ps.take(i + 1).drop_last() =~= ps.take(i as int));
            proof {
                lemma_join_step(parts, " | "@, i as int);
            }
            if p.cooldown > max_cd {
                max_cd = p.cooldown;
            }
            if p.alert.severity == Severity::Critical {
                critical = true;
            }
            if i > 0 {
                push_str(&mut body, " | ");
            }
            push_str(&mut body, p.alert.summary.as_str());
            push_str(&mut body, ": ");
            push_str(&mut body, p.alert.body.as_str());
            if i == 0 {
                assert(body@ =~= join(parts.take(1), " | "@));
            } else {
                assert(body@ =~= join(parts.take(i + 1), " | "@));
            }
            i = i + 1;
        }
        assert(ps.take(ps.len() as int) =~= ps);
        assert(parts.take(ps.len() as int) =~= parts);
        let severity = if critical {
            Severity::Critical
        } else {
            Severity::Warning
        };
        let mut summary = String::new();
        push_str(&mut summary, severity.emoji());
        push_str(&mut summary, " ");
        push_dec(&mut summary, pending.len() as u128);
        push_str(&mut summary, " alerts");
        let composite = Alert { severity, summary, body };
        assert(composite@ == group_alert(ps));
        self.notify("group", max_cd, &composite, now)
    }

    /// Records that a notification of `key` was delivered at `now`.
    pub fn mark_notified(&mut self, key: &str, recovery: bool, now: u64)
        requires
            old(self).wf(),
        ensures
            final(self).wf(),
            final(self).view() == recorded(old(self).view(), key@, recovery, now),
    {
        if recovery {
            self.recovery_last_notified.insert(key, now);
        } else {
            self.last_notified.insert(key, now);
        }
    }

    /// Reports back on an emission: a delivered notification (not a dry-run
    /// printout) starts its cooldown.
    pub fn record_delivery(&mut self, e: &Emission, delivered: bool, now: u64)
        requires
            old(self).wf(),
        ensures
            final(self).wf(),
            final(self).view() == if !e.print_only && delivered {
                recorded(old(self).view(), e.key@, e.recovery, now)
            } else {
                old(self).view()
            },
    {
        if !e.print_only && delivered {
            self.mark_notified(e.key.as_str(), e.recovery, now);
        }
    }

    /// Whether the condition of `key` holds.
    pub fn is_active(&self, key: &str) -> (b: bool)
        requires
            self.wf(),
        ensures
            b == self.view().active.contains(key@),
    {
        self.was_active.contains(key)
    }

    /// When the condition of `key` began, if it holds.
    pub fn condition_start(&self, key: &str) -> (r: Option<u64>)
        requires
            self.wf(),
        ensures
            r == (if self.view().started.contains_key(key@) {
                Some(self.view().started[key@])
            } else {
                None::<u64>
            }),
    {
        self.condition_started.get(key)
    }

    /// When the last alert of `key` was delivered.
    pub fn last_notified_at(&self, key: &str) -> (r: Option<u64>)
        requires
            self.wf(),
        ensures
            r == (if self.view().last.contains_key(key@) {
                Some(self.view().last[key@])
            } else {
                None::<u64>
            }),
    {
        self.last_notified.get(key)
    }

    /// When the last recovery notice of `key` was delivered.
    pub fn recovery_notified_at(&self, key: &str) -> (r: Option<u64>)
        requires
            self.wf(),
        ensures
            r == (if self.view().recovery.contains_key(key@) {
                Some(self.view().recovery[key@])
            } else {
                None::<u64>
            }),
    {
        self.recovery_last_notified.get(key)
    }

    /// Whether notifications are only printed.
    pub fn dry_run(&self) -> (b: bool)
        ensures
            b == self.view().dry_run,
    {
        self.dry_run
    }

    pub fn log_enabled(&self) -> (b: bool)
        ensures
            b == self.view().log_enabled,
    {
        self.log_enabled
    }

    pub fn recovery_cooldown_secs(&self) -> (s: u64)
        ensures
            s == self.view().recovery_cooldown_secs,
    {
        self.recovery_cooldown_secs
    }

    pub fn set_log_enabled(&mut self, enabled: bool)
        requires
            old(self).wf(),
        ensures
            final(self).wf(),
            final(self).view() == (SinkView { log_enabled: enabled, ..old(self).view() }),
    {
        self.log_enabled = enabled;
    }

    pub fn set_recovery_cooldown_secs(&mut self, secs: u64)
        requires
            old(self).wf(),
        ensures
            final(self).wf(),
            final(self).view() == (SinkView { recovery_cooldown_secs: secs, ..old(self).view() }),
    {
        self.recovery_cooldown_secs = secs;
    }
}

/// Whether a notification is only printed follows the dry-run setting
/// alone, for alerts, recovery notices and grouped alerts alike; every
/// notification carries the sink's log setting, and says whether it is a
/// recovery notice.
pub proof fn lemma_delivery_follows_dry_run(
    s: SinkView,
    key: Seq<char>,
    cooldown: u64,
    a: AlertView,
    ps: Seq<PendingView>,
    now: u64,
)
    ensures
        notify_spec(s, key, cooldown, a, now) matches Some(e) ==> e.print_only == s.dry_run
            && e.log == s.log_enabled && !e.recovery && e.key == key,
        recovery_spec(s, key, a, now) matches Some(e) ==> e.print_only == s.dry_run && e.log
            == s.log_enabled && e.recovery && e.key == key && e.body == a.body,
        pending_spec(s, ps, now) matches Some(e) ==> e.print_only == s.dry_run && e.log
            == s.log_enabled,
        !s.recovery.contains_key(key) ==> recovery_spec(s, key, a, now) is Some,
{
}

} // verus!
