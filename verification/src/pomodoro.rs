//! The two phases of the timer and their target durations.

use crate::text::{decimal, push_decimal};
use vstd::prelude::*;
use vstd::string::StringExecFns;

verus! {

/// Interval between two queries of the focused window, in milliseconds.
pub const POLL_INTERVAL_MS: u64 = 1000;

/// Default length of a work phase, in minutes.
pub const POMODORO_WORK_MINUTES: i64 = 25;

/// Default length of a break phase, in minutes.
pub const POMODORO_BREAK_MINUTES: i64 = 5;

/// The phase the timer is in.
#[derive(Debug, Clone, Copy, PartialEq, Eq, Structural)]
pub enum PomodoroMode {
    Work,
    Break,
}

impl PomodoroMode {
    /// The name of the phase as it appears in messages.
    pub open spec fn label(self) -> Seq<char> {
        match self {
            PomodoroMode::Work => "WORK"@,
            PomodoroMode::Break => "BREAK"@,
        }
    }

    /// The symbol shown beside the phase.
    pub open spec fn symbol(self) -> Seq<char> {
        match self {
            PomodoroMode::Work => "ðŸ’¼"@,
            PomodoroMode::Break => "â˜•"@,
        }
    }

    /// The phase that follows this one.
    pub open spec fn other(self) -> PomodoroMode {
        match self {
            PomodoroMode::Work => PomodoroMode::Break,
            PomodoroMode::Break => PomodoroMode::Work,
        }
    }

    /// The name of the phase as it appears in messages.
    pub fn as_str(&self) -> (r: &str)
        ensures
            r@ == self.label(),
    {
        match self {
            PomodoroMode::Work => "WORK",
            PomodoroMode::Break => "BREAK",
        }
    }

    /// The symbol shown beside the phase.
    pub fn emoji(&self) -> (r: &str)
        ensures
            r@ == self.symbol(),
    {
        match self {
            PomodoroMode::Work => "ðŸ’¼",
            PomodoroMode::Break => "â˜•",
        }
    }

    /// Work becomes Break and Break becomes Work.
    pub fn toggled(&self) -> (r: PomodoroMode)
        ensures
            r == self.other(),
    {
        match self {
            PomodoroMode::Work => PomodoroMode::Break,
            PomodoroMode::Break => PomodoroMode::Work,
        }
    }
}

/// How long each phase lasts before the timer asks for the other one.
#[derive(Debug, Clone, Copy, PartialEq, Eq, Structural)]
pub struct PhaseTargets {
    pub work_seconds: u64,
    pub break_seconds: u64,
}

impl PhaseTargets {
    /// The target of `mode`, in seconds.
    pub open spec fn target(self, mode: PomodoroMode) -> u64 {
        match mode {
            PomodoroMode::Work => self.work_seconds,
            PomodoroMode::Break => self.break_seconds,
        }
    }

    /// The targets used when none are configured: 25 minutes of work, 5 of break.
    pub open spec fn standard() -> PhaseTargets {
        PhaseTargets { work_seconds: 1500, break_seconds: 300 }
    }

    pub fn new(work_seconds: u64, break_seconds: u64) -> (r: PhaseTargets)
        ensures
            r == (PhaseTargets { work_seconds, break_seconds }),
    {
        PhaseTargets { work_seconds, break_seconds }
    }

    /// The target of `mode`, in seconds.
    pub fn target_seconds(&self, mode: PomodoroMode) -> (r: u64)
        ensures
            r == self.target(mode),
    {
        match mode {
            PomodoroMode::Work => self.work_seconds,
            PomodoroMode::Break => self.break_seconds,
        }
    }

    /// The target of `mode` in whole minutes, rounded down.
    pub fn target_minutes(&self, mode: PomodoroMode) -> (r: u64)
        ensures
            r == self.target(mode) / 60,
    {
        self.target_seconds(mode) / 60
    }
}

/// The line that records the start of the phase `to`.
pub open spec fn switch_text(to: PomodoroMode) -> Seq<char> {
    "Switched to "@ + to.label() + " mode"@
}

/// The message shown when the phase `finished` has reached its target: it
/// names the length, in whole minutes, of the phase that follows.
pub open spec fn notice_text(finished: PomodoroMode, targets: PhaseTargets) -> Seq<char> {
    match finished {
        PomodoroMode::Work => "Work session complete! Time for a "@ + decimal(
            (targets.break_seconds / 60) as nat,
        ) + "-minute break."@,
        PomodoroMode::Break => "Break is over! Starting "@ + decimal(
            (targets.work_seconds / 60) as nat,
        ) + "-minute work session."@,
    }
}

/// The line that records the start of the phase `to`.
pub fn switch_label(to: PomodoroMode) -> (r: String)
    ensures
        r@ == switch_text(to),
{
    let mut r = "Switched to ".to_owned();
    r.append(to.as_str());
    r.append(" mode");
    r
}

/// The message shown when the phase `finished` has reached its target.
pub fn completion_notice(finished: PomodoroMode, targets: &PhaseTargets) -> (r: String)
    ensures
        r@ == notice_text(finished, *targets),
{
    match finished {
        PomodoroMode::Work => {
            let mut r = "Work session complete! Time for a ".to_owned();
            push_decimal(&mut r, targets.target_minutes(PomodoroMode::Break) as u128);
            r.append("-minute break.");
            r
        },
        PomodoroMode::Break => {
            let mut r = "Break is over! Starting ".to_owned();
            push_decimal(&mut r, targets.target_minutes(PomodoroMode::Work) as u128);
            r.append("-minute work session.");
            r
        },
    }
}

impl Default for PhaseTargets {
    fn default() -> (r: PhaseTargets)
        ensures
            r == PhaseTargets::standard(),
    {
        PhaseTargets {
            work_seconds: POMODORO_WORK_MINUTES as u64 * 60,
            break_seconds: POMODORO_BREAK_MINUTES as u64 * 60,
        }
    }
}

} // verus!
