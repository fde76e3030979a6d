//! The exit watcher: polling a child process for termination and
//! finalizing exactly once.

use vstd::prelude::*;

verus! {

/// The pause between two polls, in milliseconds.
pub const POLL_INTERVAL_MS: u64 = 120;

/// Where a session or a job stands in its life.
#[derive(Clone, Copy, Debug, PartialEq, Eq, Structural)]
pub enum Phase {
    /// The process was started; nobody watches it yet.
    Spawned,
    /// The process is being polled for termination.
    Running,
    /// Termination was detected, with this exit code if it could be had.
    ExitDetected { exit_code: Option<u32> },
    /// The termination was recorded and published.
    Finalized,
}

/// The outcome of one poll of the child process.
#[derive(Clone, Copy, Debug, PartialEq, Eq, Structural)]
pub enum PollOutcome {
    /// The process has exited with this code.
    Exited(u32),
    /// The process is still running.
    StillRunning,
    /// The poll itself failed.
    Failed,
}

/// What happened, as told to the watcher.
#[derive(Clone, Copy, Debug, PartialEq, Eq, Structural)]
pub enum WatchEvent {
    /// Watching begins.
    Started,
    /// The child process was polled.
    Polled(PollOutcome),
    /// The finalization that was asked for has been carried out.
    Recorded,
}

/// What the watcher's caller is to do next.
#[derive(Clone, Copy, Debug, PartialEq, Eq, Structural)]
pub enum WatchAction {
    /// Poll the child process now.
    Poll,
    /// Sleep for this many milliseconds, then poll the child process.
    SleepThenPoll { millis: u64 },
    /// Record the termination and publish it with this exit code.
    Finalize { exit_code: Option<u32> },
    /// Nothing: the watcher is done, or the event does not apply.
    Idle,
}

/// The exit code to finalize with after a poll, if the poll ends the
/// watch: the code of a process that has exited, no code after a failed
/// poll; a process that still runs does not end the watch.
pub open spec fn poll_verdict(outcome: PollOutcome) -> Option<Option<u32>> {
    match outcome {
        PollOutcome::Exited(code) => Some(Some(code)),
        PollOutcome::StillRunning => None,
        PollOutcome::Failed => Some(None),
    }
}

/// The phase that follows `phase` on `event`.
pub open spec fn next_phase(phase: Phase, event: WatchEvent) -> Phase {
    match (phase, event) {
        (Phase::Spawned, WatchEvent::Started) => Phase::Running,
        (Phase::Running, WatchEvent::Polled(outcome)) => match poll_verdict(outcome) {
            Some(exit_code) => Phase::ExitDetected { exit_code },
            None => Phase::Running,
        },
        (Phase::ExitDetected { .. }, WatchEvent::Recorded) => Phase::Finalized,
        _ => phase,
    }
}

/// What is to be done when `event` arrives in `phase`.
pub open spec fn next_action(phase: Phase, event: WatchEvent) -> WatchAction {
    match (phase, event) {
        (Phase::Spawned, WatchEvent::Started) => WatchAction::Poll,
        (Phase::Running, WatchEvent::Polled(outcome)) => match poll_verdict(outcome) {
            Some(exit_code) => WatchAction::Finalize { exit_code },
            None => WatchAction::SleepThenPoll { millis: POLL_INTERVAL_MS },
        },
        _ => WatchAction::Idle,
    }
}

/// How far a phase is along the life of a session or a job.
pub open spec fn phase_rank(phase: Phase) -> nat {
    match phase {
        Phase::Spawned => 0,
        Phase::Running => 1,
        Phase::ExitDetected { .. } => 2,
        Phase::Finalized => 3,
    }
}

/// One step of the watcher: the phase that follows, and what to do.
pub fn watch_step(phase: Phase, event: WatchEvent) -> (r: (Phase, WatchAction))
    ensures
        r.0 == next_phase(phase, event),
        r.1 == next_action(phase, event),
{
    match phase {
        Phase::Spawned => match event {
            WatchEvent::Started => (Phase::Running, WatchAction::Poll),
            _ => (phase, WatchAction::Idle),
        },
        Phase::Running => match event {
            WatchEvent::Polled(outcome) => match outcome {
                PollOutcome::Exited(code) => (
                    Phase::ExitDetected { exit_code: Some(code) },
                    WatchAction::Finalize { exit_code: Some(code) },
                ),
                PollOutcome::StillRunning => (
                    Phase::Running,
                    WatchAction::SleepThenPoll { millis: POLL_INTERVAL_MS },
                ),
                PollOutcome::Failed => (
                    Phase::ExitDetected { exit_code: None },
                    WatchAction::Finalize { exit_code: None },
                ),
            },
            _ => (phase, WatchAction::Idle),
        },
        Phase::ExitDetected { .. } => match event {
            WatchEvent::Recorded => (Phase::Finalized, WatchAction::Idle),
            _ => (phase, WatchAction::Idle),
        },
        Phase::Finalized => (phase, WatchAction::Idle),
    }
}

/// The phase reached from `phase` after the events of `events`, in order.
pub open spec fn phase_after(phase: Phase, events: Seq<WatchEvent>) -> Phase
    decreases events.len(),
{
    if events.len() == 0 {
        phase
    } else {
        next_phase(phase_after(phase, events.drop_last()), events.last())
    }
}

/// The number of positions in `events` at which, starting from `phase`,
/// the watcher asks for a finalization.
pub open spec fn finalizations(phase: Phase, events: Seq<WatchEvent>) -> nat
    decreases events.len(),
{
    if events.len() == 0 {
        0
    } else {
        let before = finalizations(phase, events.drop_last());
        if next_action(phase_after(phase, events.drop_last()), events.last()) is Finalize {
            before + 1
        } else {
            before
        }
    }
}

/// A step never moves back: the phase advances or stays. In particular
/// `Finalized` is never left, and `Running` is never entered again once
/// it has been left.
pub proof fn lemma_step_never_moves_back(phase: Phase, event: WatchEvent)
    ensures
        phase_rank(phase) <= phase_rank(next_phase(phase, event)),
        phase is Finalized ==> next_phase(phase, event) is Finalized,
        phase_rank(phase) >= 2 ==> !(next_phase(phase, event) is Running),
        phase is Finalized ==> next_action(phase, event) is Idle,
{
}

/// A finalization is asked for exactly when the phase moves from `Running`
/// to `ExitDetected`, and with the exit code that the phase then holds.
pub proof fn lemma_finalize_on_exit_detection(phase: Phase, event: WatchEvent)
    ensures
        next_action(phase, event) matches WatchAction::Finalize { exit_code } ==> phase is Running
            && next_phase(phase, event) == (Phase::ExitDetected { exit_code }),
        phase is Running && next_phase(phase, event) is ExitDetected ==> next_action(
            phase,
            event,
        ) is Finalize,
{
}

/// Whatever events arrive, and in whatever order, the watcher never moves
/// back and asks for at most one finalization: a second detection of the
/// exit finalizes nothing.
pub proof fn lemma_finalizes_at_most_once(phase: Phase, events: Seq<WatchEvent>)
    ensures
        phase_rank(phase) <= phase_rank(phase_after(phase, events)),
        finalizations(phase, events) <= 1,
        finalizations(phase, events) == 1 ==> phase_rank(phase_after(phase, events)) >= 2,
        phase_rank(phase) >= 2 ==> finalizations(phase, events) == 0,
    decreases events.len(),
{
    if events.len() > 0 {
        lemma_finalizes_at_most_once(phase, events.drop_last());
        lemma_step_never_moves_back(phase_after(phase, events.drop_last()), events.last());
    }
}

} // verus!
