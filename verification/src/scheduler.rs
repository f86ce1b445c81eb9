//! The one consumer of the queue: what a tick of the timer does to the tracker.

use crate::domain::{extract_domain_from_title, extracted, host_of_url, url_host};
use crate::pomodoro::PomodoroMode;
use crate::report::SessionReport;
use crate::tracker::{text_of, ActivityTracker, PhaseTransition, TrackerView};
use crate::websocket_server::{ActivityMessage, TabUpdateMessage};
use vstd::prelude::*;

verus! {

/// How the current domain changes with one message.
#[derive(Debug, Clone, PartialEq, Eq)]
pub enum DomainChange {
    /// The message names the domain that is current already.
    Unchanged,
    /// The message names another domain.
    SwitchedTo(String),
    /// The message names no domain, and one was current.
    LeftBrowser,
}

/// A change of the current domain, as a mathematical value.
pub enum DomainShift {
    Unchanged,
    SwitchedTo(Seq<char>),
    LeftBrowser,
}

impl View for DomainChange {
    type V = DomainShift;

    open spec fn view(&self) -> DomainShift {
        match self {
            DomainChange::Unchanged => DomainShift::Unchanged,
            DomainChange::SwitchedTo(domain) => DomainShift::SwitchedTo(domain@),
            DomainChange::LeftBrowser => DomainShift::LeftBrowser,
        }
    }
}

/// The change from `current` to `next`.
pub open spec fn shift(current: Option<Seq<char>>, next: Option<Seq<char>>) -> DomainShift {
    if next == current {
        DomainShift::Unchanged
    } else {
        match next {
            Some(domain) => DomainShift::SwitchedTo(domain),
            None => DomainShift::LeftBrowser,
        }
    }
}

/// The domain of a message: the one it states, else the host of its URL.
pub open spec fn resolved(message: ActivityMessage) -> Option<Seq<char>> {
    match message.domain {
        Some(domain) => Some(domain),
        None => url_host(message.url),
    }
}

/// The tracker after it observed each of `messages` at `now`, in order.
pub open spec fn ingested(state: TrackerView, messages: Seq<ActivityMessage>, now: int)
    -> TrackerView
    decreases messages.len(),
{
    if messages.len() == 0 {
        state
    } else {
        ingested(state, messages.drop_last(), now).observe(resolved(messages.last()), now)
    }
}

/// The change of the current domain that each of `messages` brought.
pub open spec fn shifts(state: TrackerView, messages: Seq<ActivityMessage>, now: int) -> Seq<
    DomainShift,
> {
    Seq::new(
        messages.len(),
        |i: int| shift(ingested(state, messages.take(i), now).current, resolved(messages[i])),
    )
}

/// The tracker after a tick at `now` that found `messages` in the queue:
/// the messages are observed in order, time is accrued, and the phase is
/// switched where it has reached its target.
pub open spec fn after_tick(state: TrackerView, messages: Seq<ActivityMessage>, now: int)
    -> TrackerView {
    let ticked = ingested(state, messages, now).tick(now);
    if ticked.should_switch(now) {
        ticked.switch(now)
    } else {
        ticked
    }
}

/// The mathematical value of an optional message.
pub open spec fn message_view(message: Option<TabUpdateMessage>) -> Option<ActivityMessage> {
    match message {
        Some(m) => Some(m@),
        None => None,
    }
}

/// What the window poller queues for a title: nothing for an empty title,
/// else a message without URL that carries the domain that the title names.
pub open spec fn polled(title: Seq<char>) -> Option<ActivityMessage> {
    if title.len() == 0 {
        None
    } else {
        Some(
            ActivityMessage {
                url: Seq::empty(),
                title,
                domain: extracted(title),
                category: None,
            },
        )
    }
}

/// The mathematical values of a list of messages, in the same order.
pub open spec fn message_views(messages: Seq<TabUpdateMessage>) -> Seq<ActivityMessage> {
    messages.map_values(|m: TabUpdateMessage| m@)
}

/// The mathematical values of a list of changes, in the same order.
pub open spec fn change_views(changes: Seq<DomainChange>) -> Seq<DomainShift> {
    changes.map_values(|c: DomainChange| c@)
}

/// What a tick hands to those who log and notify.
#[derive(Debug, Clone, PartialEq, Eq)]
pub struct TickOutcome {
    /// The change of the current domain that each message brought.
    pub changes: Vec<DomainChange>,
    /// The change of phase, where the tick made one.
    pub transition: Option<PhaseTransition>,
    /// The report of the session, where a work phase ended.
    pub report: Option<SessionReport>,
}

/// The domain of `message`: the one it states, else the host of its URL.
pub fn resolve_domain(message: &TabUpdateMessage) -> (r: Option<String>)
    ensures
        text_of(r) == resolved(message@),
{
    match &message.domain {
        Some(domain) => Some(domain.clone()),
        None => host_of_url(message.url.as_str()),
    }
}

/// The change from the domain `current` to the domain `next`.
pub fn domain_change(current: &Option<String>, next: &Option<String>) -> (r: DomainChange)
    ensures
        r@ == shift(text_of(*current), text_of(*next)),
{
    match next {
        Some(domain) => {
            match current {
                Some(held) => {
                    if *held == *domain {
                        DomainChange::Unchanged
                    } else {
                        DomainChange::SwitchedTo(domain.clone())
                    }
                },
                None => DomainChange::SwitchedTo(domain.clone()),
            }
        },
        None => {
            match current {
                Some(_) => DomainChange::LeftBrowser,
                None => DomainChange::Unchanged,
            }
        },
    }
}

/// What the window poller queues for the title `title`: nothing for an
/// empty title, else a message with the domain that the title names.
pub fn window_message(title: &str) -> (r: Option<TabUpdateMessage>)
    ensures
        message_view(r) == polled(title@),
{
    if title.is_empty() {
        None
    } else {
        Some(
            TabUpdateMessage {
                url: String::new(),
                title: title.to_owned(),
                domain: extract_domain_from_title(title),
                category: None,
            },
        )
    }
}

/// The tracker observes the domain of `message` at `now`.
pub fn ingest(tracker: &mut ActivityTracker, message: &TabUpdateMessage, now: i64) -> (r:
    DomainChange)
    requires
        old(tracker).wf(),
    ensures
        final(tracker).wf(),
        final(tracker)@ == old(tracker)@.observe(resolved(message@), now as int),
        r@ == shift(old(tracker)@.current, resolved(message@)),
{
    let domain = resolve_domain(message);
    let change = domain_change(tracker.current_domain(), &domain);
    tracker.observe(domain, now);
    change
}

/// One tick of the scheduler at `now`, with the messages that were queued
/// since the last one: each message is observed, in order; time is accrued
/// for the domain that is then current; and where the phase has reached its
/// target it is switched, with a report of the session where it was a work
/// phase that ended.
pub fn run_tick(tracker: &mut ActivityTracker, messages: &Vec<TabUpdateMessage>, now: i64) -> (r:
    TickOutcome)
    requires
        old(tracker).wf(),
    ensures
        final(tracker).wf(),
        final(tracker)@ == after_tick(old(tracker)@, message_views(messages@), now as int),
        change_views(r.changes@) == shifts(old(tracker)@, message_views(messages@), now as int),
        ({
            let ticked = ingested(old(tracker)@, message_views(messages@), now as int).tick(
                now as int,
            );
            &&& r.transition is Some <==> ticked.should_switch(now as int)
            &&& r.transition matches Some(transition) ==> transition.announces(ticked)
            &&& r.report is Some <==> ticked.should_switch(now as int) && ticked.mode
                == PomodoroMode::Work
            &&& r.report matches Some(report) ==> report.reports(ticked)
        }),
{
    let ghost start = tracker@;
    let ghost all = message_views(messages@);
    let mut changes: Vec<DomainChange> = Vec::new();
    let mut i: usize = 0;
    assert(all.take(0) =~= Seq::empty());
    while i < messages.len()
        invariant
            i <= messages.len(),
            all == message_views(messages@),
            tracker.wf(),
            tracker@ == ingested(start, all.take(i as int), now as int),
            changes@.len() == i,
            forall|k: int|
                0 <= k < i ==> (#[trigger] changes@[k])@ == shift(
                    ingested(start, all.take(k), now as int).current,
                    resolved(all[k]),
                ),
        decreases messages.len() - i,
    {
        let change = ingest(tracker, &messages[i], now);
        changes.push(change);
        proof {
            assert(all.take(i + 1).drop_last() =~= all.take(i as int));
            assert(all.take(i + 1).last() == all[i as int]);
        }
        i = i + 1;
    }
    proof {
        assert(all.take(messages.len() as int) =~= all);
        assert(change_views(changes@) =~= shifts(start, all, now as int));
    }
    tracker.tick(now);
    if tracker.should_switch_phase(now) {
        let report = match tracker.mode() {
            PomodoroMode::Work => Some(tracker.snapshot()),
            PomodoroMode::Break => None,
        };
        let transition = tracker.switch_phase(now);
        TickOutcome { changes, transition: Some(transition), report }
    } else {
        TickOutcome { changes, transition: None, report: None }
    }
}

} // verus!
