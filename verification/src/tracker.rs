//! The tracker: seconds accrued per domain, and the phase timer.
//!
//! Time enters only as the `now` argument of each operation, in whole
//! seconds. The tracker never reads a clock.

use crate::pomodoro::{
    completion_notice, notice_text, switch_label, switch_text, PhaseTargets, PomodoroMode,
};
use crate::report::{rank, SessionReport};
use crate::text::str_equal;
use vstd::prelude::*;

verus! {

/// The seconds accrued for one domain, as a mathematical value.
pub struct DomainSeconds {
    pub domain: Seq<char>,
    pub seconds: nat,
}

/// The seconds accrued for one domain.
#[derive(Debug, Clone, PartialEq, Eq)]
pub struct DomainTime {
    pub domain: String,
    pub seconds: u64,
}

impl View for DomainTime {
    type V = DomainSeconds;

    open spec fn view(&self) -> DomainSeconds {
        DomainSeconds { domain: self.domain@, seconds: self.seconds as nat }
    }
}

/// The mathematical values of a list of entries, in the same order.
pub open spec fn views(entries: Seq<DomainTime>) -> Seq<DomainSeconds> {
    entries.map_values(|e: DomainTime| e@)
}

/// The text of an optional string.
pub open spec fn text_of(s: Option<String>) -> Option<Seq<char>> {
    match s {
        Some(t) => Some(t@),
        None => None,
    }
}

/// Some entry of `times` is for `domain`.
pub open spec fn has_domain(times: Seq<DomainSeconds>, domain: Seq<char>) -> bool {
    exists|i: int| 0 <= i < times.len() && (#[trigger] times[i]).domain == domain
}

/// The place of the entry for `domain`, where there is one.
pub open spec fn index_of(times: Seq<DomainSeconds>, domain: Seq<char>) -> int {
    choose|i: int| 0 <= i < times.len() && (#[trigger] times[i]).domain == domain
}

/// No domain has two entries.
pub open spec fn distinct(times: Seq<DomainSeconds>) -> bool {
    forall|i: int, j: int|
        0 <= i < j < times.len() ==> (#[trigger] times[i]).domain != (#[trigger] times[j]).domain
}

/// The seconds accrued for `domain`: zero where it has no entry.
pub open spec fn seconds_of(times: Seq<DomainSeconds>, domain: Seq<char>) -> nat {
    if has_domain(times, domain) {
        times[index_of(times, domain)].seconds
    } else {
        0
    }
}

/// The sum of the seconds of all entries.
pub open spec fn total(times: Seq<DomainSeconds>) -> nat
    decreases times.len(),
{
    if times.len() == 0 {
        0
    } else {
        total(times.drop_last()) + times.last().seconds
    }
}

/// An accumulator holds at most `u64::MAX` seconds: a sum beyond that stays there.
pub open spec fn capped(n: nat) -> nat {
    if n > u64::MAX {
        u64::MAX as nat
    } else {
        n
    }
}

/// `times` after `delta` seconds went to `domain`: its entry grows, or a new
/// entry is added at the end.
pub open spec fn credit(times: Seq<DomainSeconds>, domain: Seq<char>, delta: nat) -> Seq<
    DomainSeconds,
> {
    if has_domain(times, domain) {
        let i = index_of(times, domain);
        times.update(i, DomainSeconds { domain, seconds: capped(times[i].seconds + delta) })
    } else {
        times.push(DomainSeconds { domain, seconds: capped(delta) })
    }
}

/// The state of a tracker, as a mathematical value.
pub struct TrackerView {
    /// Seconds accrued per domain, in the order in which the domains were first credited.
    pub times: Seq<DomainSeconds>,
    /// Seconds accrued while no domain was current.
    pub idle: nat,
    pub current: Option<Seq<char>>,
    pub session_start: int,
    pub last_observed: int,
    pub mode: PomodoroMode,
    pub mode_start: int,
    pub targets: PhaseTargets,
}

impl TrackerView {
    /// A tracker just created at `now`.
    pub open spec fn initial(now: int, targets: PhaseTargets) -> TrackerView {
        TrackerView {
            times: Seq::empty(),
            idle: 0,
            current: None,
            session_start: now,
            last_observed: now,
            mode: PomodoroMode::Work,
            mode_start: now,
            targets,
        }
    }

    /// What can be held in the machine: no domain twice, and every number in its range.
    pub open spec fn wf(self) -> bool {
        &&& distinct(self.times)
        &&& forall|i: int| 0 <= i < self.times.len() ==> (#[trigger] self.times[i]).seconds <= u64::MAX
        &&& self.idle <= u64::MAX
        &&& i64::MIN <= self.session_start <= i64::MAX
        &&& i64::MIN <= self.last_observed <= i64::MAX
        &&& i64::MIN <= self.mode_start <= i64::MAX
    }

    /// The seconds between the last observation and `now`: zero where the
    /// clock went back.
    pub open spec fn pending(self, now: int) -> nat {
        if now > self.last_observed {
            (now - self.last_observed) as nat
        } else {
            0
        }
    }

    /// The pending seconds go to the current domain, or to idle time where
    /// there is none, and `now` becomes the last observation.
    pub open spec fn accrue(self, now: int) -> TrackerView {
        let delta = self.pending(now);
        match self.current {
            Some(domain) => TrackerView {
                times: credit(self.times, domain, delta),
                last_observed: now,
                ..self
            },
            None => TrackerView { idle: capped(self.idle + delta), last_observed: now, ..self },
        }
    }

    /// Time is accrued up to `now`, then `domain` becomes current.
    pub open spec fn observe(self, domain: Option<Seq<char>>, now: int) -> TrackerView {
        TrackerView { current: domain, ..self.accrue(now) }
    }

    /// Time is accrued up to `now`.
    pub open spec fn tick(self, now: int) -> TrackerView {
        self.accrue(now)
    }

    /// The seconds spent in the current phase at `now`.
    pub open spec fn phase_elapsed(self, now: int) -> int {
        now - self.mode_start
    }

    /// The current phase has reached its target at `now`.
    pub open spec fn should_switch(self, now: int) -> bool {
        self.phase_elapsed(now) >= self.targets.target(self.mode)
    }

    /// The other phase begins at `now`.
    pub open spec fn switch(self, now: int) -> TrackerView {
        TrackerView { mode: self.mode.other(), mode_start: now, ..self }
    }

    /// The seconds between the start of the session and the last observation.
    pub open spec fn session_elapsed(self) -> int {
        self.last_observed - self.session_start
    }

    /// All the seconds that were accrued, for a domain or as idle time.
    pub open spec fn accounted(self) -> nat {
        total(self.times) + self.idle
    }

    /// Every second of the session was accrued once.
    pub open spec fn balanced(self) -> bool {
        self.accounted() == self.session_elapsed()
    }
}

/// One call that accrues time, as a mathematical value.
pub enum TrackerEvent {
    /// `observe`, with the domain that becomes current.
    Observe { domain: Option<Seq<char>>, now: i64 },
    /// `tick`.
    Tick { now: i64 },
}

impl TrackerEvent {
    /// The timestamp that the call was made with.
    pub open spec fn time(self) -> int {
        match self {
            TrackerEvent::Observe { now, .. } => now as int,
            TrackerEvent::Tick { now } => now as int,
        }
    }
}

impl TrackerView {
    /// The state after the call that `event` stands for.
    pub open spec fn apply(self, event: TrackerEvent) -> TrackerView {
        match event {
            TrackerEvent::Observe { domain, now } => self.observe(domain, now as int),
            TrackerEvent::Tick { now } => self.tick(now as int),
        }
    }

    /// The state after the calls that `events` stand for, in order.
    pub open spec fn run(self, events: Seq<TrackerEvent>) -> TrackerView
        decreases events.len(),
    {
        if events.len() == 0 {
            self
        } else {
            self.run(events.drop_last()).apply(events.last())
        }
    }
}

/// No timestamp of `events` lies before the one before it, nor the first before `start`.
pub open spec fn never_back(start: int, events: Seq<TrackerEvent>) -> bool {
    &&& events.len() > 0 ==> start <= events[0].time()
    &&& forall|i: int|
        0 < i < events.len() ==> events[i - 1].time() <= (#[trigger] events[i]).time()
}

/// The time of the last of `events`, or `start` where there is none.
pub open spec fn last_time(start: int, events: Seq<TrackerEvent>) -> int {
    if events.len() == 0 {
        start
    } else {
        events.last().time()
    }
}

proof fn lemma_total_push(times: Seq<DomainSeconds>, entry: DomainSeconds)
    ensures
        total(times.push(entry)) == total(times) + entry.seconds,
{
    assert(times.push(entry).drop_last() =~= times);
}

proof fn lemma_total_update(times: Seq<DomainSeconds>, i: int, entry: DomainSeconds)
    requires
        0 <= i < times.len(),
    ensures
        total(times.update(i, entry)) == total(times) - times[i].seconds + entry.seconds,
        times[i].seconds <= total(times),
    decreases times.len(),
{
    let updated = times.update(i, entry);
    if i == times.len() - 1 {
        assert(updated.drop_last() =~= times.drop_last());
    } else {
        assert(updated.drop_last() =~= times.drop_last().update(i, entry));
        lemma_total_update(times.drop_last(), i, entry);
    }
}

/// A step that does not go back in time keeps the books balanced: where
/// every second of the session was accrued once before `accrue`, `observe` or
/// `tick` at a timestamp not before the last one, the same holds after it,
/// and no accumulator has reached its cap.
pub proof fn lemma_step_keeps_balance(state: TrackerView, domain: Option<Seq<char>>, now: i64)
    requires
        state.wf(),
        state.balanced(),
        state.last_observed <= now,
    ensures
        state.accrue(now as int).wf(),
        state.accrue(now as int).balanced(),
        state.tick(now as int).wf(),
        state.tick(now as int).balanced(),
        state.observe(domain, now as int).wf(),
        state.observe(domain, now as int).balanced(),
{
    let delta = state.pending(now as int);
    match state.current {
        Some(d) => {
            if has_domain(state.times, d) {
                let i = index_of(state.times, d);
                let grown = DomainSeconds { domain: d, seconds: capped(state.times[i].seconds + delta) };
                lemma_total_update(state.times, i, grown);
                let after = state.times.update(i, grown);
                assert(distinct(after)) by {
                    assert forall|x: int, y: int| 0 <= x < y < after.len() implies (
                    #[trigger] after[x]).domain != (#[trigger] after[y]).domain by {
                        assert(after[x].domain == state.times[x].domain);
                        assert(after[y].domain == state.times[y].domain);
                    }
                }
            } else {
                let added = DomainSeconds { domain: d, seconds: capped(delta) };
                lemma_total_push(state.times, added);
                let after = state.times.push(added);
                assert(distinct(after)) by {
                    assert forall|x: int, y: int| 0 <= x < y < after.len() implies (
                    #[trigger] after[x]).domain != (#[trigger] after[y]).domain by {
                        if y == state.times.len() {
                            assert(after[x] == state.times[x]);
                        } else {
                            assert(after[x] == state.times[x]);
                            assert(after[y] == state.times[y]);
                        }
                    }
                }
            }
        },
        None => {},
    }
}

/// Over any run of `observe` and `tick` calls whose timestamps never go
/// back, on a tracker created at `start`, the seconds accrued for all the
/// domains plus the idle seconds are the seconds between `start` and the last
/// call.
pub proof fn lemma_session_is_accounted(
    start: i64,
    targets: PhaseTargets,
    events: Seq<TrackerEvent>,
)
    requires
        never_back(start as int, events),
    ensures
        TrackerView::initial(start as int, targets).run(events).wf(),
        TrackerView::initial(start as int, targets).run(events).balanced(),
        TrackerView::initial(start as int, targets).run(events).session_start == start,
        TrackerView::initial(start as int, targets).run(events).last_observed == last_time(
            start as int,
            events,
        ),
        total(TrackerView::initial(start as int, targets).run(events).times)
            + TrackerView::initial(start as int, targets).run(events).idle == last_time(
            start as int,
            events,
        ) - start,
    decreases events.len(),
{
    let first = TrackerView::initial(start as int, targets);
    if events.len() == 0 {
        assert(first.times =~= Seq::empty());
    } else {
        let earlier = events.drop_last();
        assert(never_back(start as int, earlier)) by {
            assert forall|i: int| 0 < i < earlier.len() implies earlier[i - 1].time() <= (
            #[trigger] earlier[i]).time() by {
                assert(earlier[i] == events[i]);
                assert(earlier[i - 1] == events[i - 1]);
            }
            if earlier.len() > 0 {
                assert(earlier[0] == events[0]);
            }
        }
        lemma_session_is_accounted(start, targets, earlier);
        let before = first.run(earlier);
        assert(before.last_observed <= events.last().time()) by {
            if earlier.len() > 0 {
                let i = events.len() - 1;
                assert(events[i - 1].time() <= events[i].time());
                assert(earlier.last() == events[i - 1]);
            }
        }
        match events.last() {
            TrackerEvent::Observe { domain, now } => {
                lemma_step_keeps_balance(before, domain, now);
            },
            TrackerEvent::Tick { now } => {
                lemma_step_keeps_balance(before, None, now);
            },
        }
    }
}

/// A crossing of the threshold is used up by the switch: after a switch at
/// `now` the timer asks for the next one at `later` exactly when the target of
/// the phase that began has elapsed since `now`.
pub proof fn lemma_switch_rearms_timer(state: TrackerView, now: int, later: int)
    ensures
        state.switch(now).should_switch(later) <==> later - now >= state.targets.target(
            state.mode.other(),
        ),
        later - now < state.targets.target(state.mode.other()) ==> !state.switch(
            now,
        ).should_switch(later),
{
}

/// What a change of phase hands to those who announce it.
#[derive(Debug, Clone, PartialEq, Eq)]
pub struct PhaseTransition {
    /// The phase that ended.
    pub from: PomodoroMode,
    /// The phase that began.
    pub to: PomodoroMode,
    /// The line that records the change.
    pub label: String,
    /// The message for the user.
    pub notice: String,
}

impl PhaseTransition {
    /// The transition is the one that ends the phase of `state`.
    pub open spec fn announces(self, state: TrackerView) -> bool {
        &&& self.from == state.mode
        &&& self.to == state.mode.other()
        &&& self.label@ == switch_text(self.to)
        &&& self.notice@ == notice_text(self.from, state.targets)
    }
}

/// Accounting state and phase timer of one session.
#[derive(Debug)]
pub struct ActivityTracker {
    entries: Vec<DomainTime>,
    idle_seconds: u64,
    current_domain: Option<String>,
    session_start: i64,
    last_observed: i64,
    mode: PomodoroMode,
    mode_start: i64,
    targets: PhaseTargets,
}

impl View for ActivityTracker {
    type V = TrackerView;

    closed spec fn view(&self) -> TrackerView {
        TrackerView {
            times: views(self.entries@),
            idle: self.idle_seconds as nat,
            current: text_of(self.current_domain),
            session_start: self.session_start as int,
            last_observed: self.last_observed as int,
            mode: self.mode,
            mode_start: self.mode_start as int,
            targets: self.targets,
        }
    }
}

/// Adds `delta` seconds to the entry of `domain`, or a new entry at the end.
fn credit_entry(entries: &mut Vec<DomainTime>, domain: &String, delta: u64)
    requires
        distinct(views(old(entries)@)),
    ensures
        views(final(entries)@) == credit(views(old(entries)@), domain@, delta as nat),
        distinct(views(final(entries)@)),
{
    let ghost before = views(entries@);
    let mut i: usize = 0;
    while i < entries.len()
        invariant
            i <= entries.len(),
            entries@ == old(entries)@,
            before == views(entries@),
            distinct(before),
            forall|k: int| 0 <= k < i ==> (#[trigger] before[k]).domain != domain@,
        decreases entries.len() - i,
    {
        if entries[i].domain == *domain {
            let grown = DomainTime {
                domain: entries[i].domain.clone(),
                seconds: entries[i].seconds.saturating_add(delta),
            };
            proof {
                assert(before[i as int].domain == domain@);
                assert(has_domain(before, domain@));
                let chosen = index_of(before, domain@);
                assert(before[chosen].domain == before[i as int].domain);
                assert(chosen == i);
            }
            entries.set(i, grown);
            assert(views(entries@) =~= credit(before, domain@, delta as nat));
            return ;
        }
        i = i + 1;
    }
    assert(!has_domain(before, domain@));
    entries.push(DomainTime { domain: domain.clone(), seconds: delta });
    assert(views(entries@) =~= credit(before, domain@, delta as nat));
}

impl ActivityTracker {
    /// Whether the tracker holds a state that its operations keep.
    pub open spec fn wf(&self) -> bool {
        self@.wf()
    }

    /// A tracker for a session that starts at `now`, with the standard targets.
    pub fn new(now: i64) -> (r: ActivityTracker)
        ensures
            r.wf(),
            r@ == TrackerView::initial(now as int, PhaseTargets::standard()),
    {
        ActivityTracker::with_targets(now, PhaseTargets::default())
    }

    /// A tracker for a session that starts at `now`, in the work phase.
    pub fn with_targets(now: i64, targets: PhaseTargets) -> (r: ActivityTracker)
        ensures
            r.wf(),
            r@ == TrackerView::initial(now as int, targets),
    {
        let r = ActivityTracker {
            entries: Vec::new(),
            idle_seconds: 0,
            current_domain: None,
            session_start: now,
            last_observed: now,
            mode: PomodoroMode::Work,
            mode_start: now,
            targets,
        };
        assert(r@.times =~= Seq::empty());
        r
    }

    fn accrue(&mut self, now: i64)
        requires
            old(self).wf(),
        ensures
            final(self).wf(),
            final(self)@ == old(self)@.accrue(now as int),
    {
        let delta: u64 = if now > self.last_observed {
            (now as i128 - self.last_observed as i128) as u64
        } else {
            0
        };
        match &self.current_domain {
            Some(domain) => {
                credit_entry(&mut self.entries, domain, delta);
            },
            None => {
                self.idle_seconds = self.idle_seconds.saturating_add(delta);
            },
        }
        self.last_observed = now;
    }

    /// Accrues the time up to `now` for the domain that was current, then
    /// makes `domain` the current one.
    pub fn observe(&mut self, domain: Option<String>, now: i64)
        requires
            old(self).wf(),
        ensures
            final(self).wf(),
            final(self)@ == old(self)@.observe(text_of(domain), now as int),
    {
        self.accrue(now);
        self.current_domain = domain;
    }

    /// Accrues the time up to `now` for the current domain.
    pub fn tick(&mut self, now: i64)
        requires
            old(self).wf(),
        ensures
            final(self).wf(),
            final(self)@ == old(self)@.tick(now as int),
    {
        self.accrue(now);
    }

    /// The phase the timer is in.
    pub fn mode(&self) -> (r: PomodoroMode)
        ensures
            r == self@.mode,
    {
        self.mode
    }

    /// The targets of the two phases.
    pub fn targets(&self) -> (r: PhaseTargets)
        ensures
            r == self@.targets,
    {
        self.targets
    }

    /// When the current phase began.
    pub fn mode_start(&self) -> (r: i64)
        ensures
            r == self@.mode_start,
    {
        self.mode_start
    }

    /// When the session began.
    pub fn session_start(&self) -> (r: i64)
        ensures
            r == self@.session_start,
    {
        self.session_start
    }

    /// The timestamp of the last `observe` or `tick`.
    pub fn last_observed(&self) -> (r: i64)
        ensures
            r == self@.last_observed,
    {
        self.last_observed
    }

    /// The seconds accrued while no domain was current.
    pub fn idle_seconds(&self) -> (r: u64)
        ensures
            r == self@.idle,
    {
        self.idle_seconds
    }

    /// The seconds accrued per domain, in the order in which the domains
    /// were first credited.
    pub fn entries(&self) -> (r: &Vec<DomainTime>)
        ensures
            views(r@) == self@.times,
    {
        &self.entries
    }

    /// The seconds accrued for `domain`: zero where none were.
    pub fn seconds_for(&self, domain: &str) -> (r: u64)
        requires
            self.wf(),
        ensures
            r == seconds_of(self@.times, domain@),
    {
        let ghost times = views(self.entries@);
        let mut i: usize = 0;
        while i < self.entries.len()
            invariant
                i <= self.entries.len(),
                times == views(self.entries@),
                distinct(times),
                forall|k: int| 0 <= k < i ==> (#[trigger] times[k]).domain != domain@,
            decreases self.entries.len() - i,
        {
            if str_equal(self.entries[i].domain.as_str(), domain) {
                proof {
                    assert(times[i as int].domain == domain@);
                    let chosen = index_of(times, domain@);
                    assert(times[chosen].domain == times[i as int].domain);
                    assert(chosen == i);
                }
                return self.entries[i].seconds;
            }
            i = i + 1;
        }
        assert(!has_domain(times, domain@));
        0
    }

    /// The domain that time is accrued for.
    pub fn current_domain(&self) -> (r: &Option<String>)
        ensures
            text_of(*r) == self@.current,
    {
        &self.current_domain
    }

    /// The seconds spent in the current phase at `now`: negative where `now`
    /// lies before the start of the phase.
    pub fn phase_elapsed(&self, now: i64) -> (r: i128)
        ensures
            r == self@.phase_elapsed(now as int),
    {
        now as i128 - self.mode_start as i128
    }

    /// Whether the current phase has reached its target at `now`.
    pub fn should_switch_phase(&self, now: i64) -> (r: bool)
        ensures
            r == self@.should_switch(now as int),
    {
        self.phase_elapsed(now) >= self.targets.target_seconds(self.mode) as i128
    }

    /// Begins the other phase at `now` and says what changed.
    pub fn switch_phase(&mut self, now: i64) -> (r: PhaseTransition)
        requires
            old(self).wf(),
        ensures
            final(self).wf(),
            final(self)@ == old(self)@.switch(now as int),
            r.announces(old(self)@),
    {
        let from = self.mode;
        let to = from.toggled();
        let notice = completion_notice(from, &self.targets);
        self.mode = to;
        self.mode_start = now;
        PhaseTransition { from, to, label: switch_label(to), notice }
    }

    /// The seconds between the start of the session and the last observation.
    pub fn session_elapsed(&self) -> (r: i128)
        ensures
            r == self@.session_elapsed(),
    {
        self.last_observed as i128 - self.session_start as i128
    }

    /// The report of the session so far: its length, its idle time, and the
    /// domains with their seconds, those with more seconds first and, among
    /// equal seconds, the lesser name first.
    pub fn snapshot(&self) -> (r: SessionReport)
        requires
            self.wf(),
        ensures
            r.reports(self@),
    {
        SessionReport {
            session_seconds: self.session_elapsed(),
            idle_seconds: self.idle_seconds,
            domains: rank(&self.entries),
        }
    }
}

} // verus!
