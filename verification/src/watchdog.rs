//! The watchdog of one kernel process: it notices the end of the process, and ends it on request,
//! gently first.
use crate::number::{decimal, decimal_of};
use vstd::prelude::*;

verus! {

/// How long the kernel may take to leave by itself once it was asked to, in nanoseconds.
pub const STOP_GRACE_NANOS: u128 = 5_000_000_000;

/// What the watchdog waits for.
#[derive(Clone, Copy, Debug, PartialEq, Eq)]
pub enum WatchPhase {
    /// Whether the kernel is to be stopped.
    Checking,
    /// Whether the kernel still runs.
    Running,
    /// Whether the kernel, which was asked to leave, still runs.
    Stopping,
    /// Nothing: the end of the kernel was reported.
    Ended,
}

/// What the watchdog is told.
#[derive(Clone, Copy, Debug, PartialEq, Eq)]
pub enum WatchEvent {
    /// Whether the kernel is to be stopped.
    StopFlag(bool),
    /// The kernel has left, with this code.
    Left(Option<i32>),
    /// The kernel still runs, this many nanoseconds after it was asked to leave.
    Alive { since_stop_nanos: u128 },
    /// The state of the kernel could not be had.
    Unknown,
}

/// What is to be done next; the outcome is the next event.
#[derive(Clone, Copy, Debug, PartialEq, Eq)]
pub enum WatchAction {
    /// Look whether the kernel is to be stopped.
    CheckStop,
    /// Ask the kernel to leave, then look whether it still runs.
    Terminate,
    /// Look whether the kernel still runs.
    Look,
    /// Wait, then look whether the kernel is to be stopped.
    SleepAndCheck { millis: u64 },
    /// Wait, then look whether the kernel still runs.
    SleepAndLook { millis: u64 },
    /// Report the end of the kernel, with this code.
    Report(Option<i32>),
    /// End the kernel by force, then report its end, without a code.
    KillAndReport,
    /// Nothing.
    Rest,
}

/// What the watchdog does on an event. One that it does not wait for changes nothing.
pub open spec fn watched(phase: WatchPhase, event: WatchEvent) -> (WatchPhase, WatchAction) {
    match phase {
        WatchPhase::Checking => match event {
            WatchEvent::StopFlag(true) => (WatchPhase::Stopping, WatchAction::Terminate),
            WatchEvent::StopFlag(false) => (WatchPhase::Running, WatchAction::Look),
            _ => (phase, WatchAction::CheckStop),
        },
        WatchPhase::Running => match event {
            WatchEvent::Left(code) => (WatchPhase::Ended, WatchAction::Report(code)),
            WatchEvent::Unknown => (WatchPhase::Ended, WatchAction::Report(None)),
            WatchEvent::Alive { .. } => (
                WatchPhase::Checking,
                WatchAction::SleepAndCheck { millis: 150 },
            ),
            _ => (phase, WatchAction::Look),
        },
        WatchPhase::Stopping => match event {
            WatchEvent::Left(code) => (WatchPhase::Ended, WatchAction::Report(code)),
            WatchEvent::Unknown => (WatchPhase::Ended, WatchAction::Report(None)),
            WatchEvent::Alive { since_stop_nanos } => if since_stop_nanos >= STOP_GRACE_NANOS {
                (WatchPhase::Ended, WatchAction::KillAndReport)
            } else {
                (phase, WatchAction::SleepAndLook { millis: 100 })
            },
            _ => (phase, WatchAction::Look),
        },
        WatchPhase::Ended => (phase, WatchAction::Rest),
    }
}

/// The watchdog of one kernel process.
pub struct Watchdog {
    pub phase: WatchPhase,
}

impl Watchdog {
    /// A watchdog that begins with a look at the stop flag.
    pub fn new() -> (dog: Watchdog)
        ensures
            dog.phase == WatchPhase::Checking,
    {
        Watchdog { phase: WatchPhase::Checking }
    }

    /// Takes in an event and says what is to be done next.
    pub fn step(&mut self, event: WatchEvent) -> (action: WatchAction)
        ensures
            (final(self).phase, action) == watched(old(self).phase, event),
    {
        match self.phase {
            WatchPhase::Checking => match event {
                WatchEvent::StopFlag(stop) => if stop {
                    self.phase = WatchPhase::Stopping;
                    WatchAction::Terminate
                } else {
                    self.phase = WatchPhase::Running;
                    WatchAction::Look
                },
                _ => WatchAction::CheckStop,
            },
            WatchPhase::Running => match event {
                WatchEvent::Left(code) => {
                    self.phase = WatchPhase::Ended;
                    WatchAction::Report(code)
                },
                WatchEvent::Unknown => {
                    self.phase = WatchPhase::Ended;
                    WatchAction::Report(None)
                },
                WatchEvent::Alive { .. } => {
                    self.phase = WatchPhase::Checking;
                    WatchAction::SleepAndCheck { millis: 150 }
                },
                _ => WatchAction::Look,
            },
            WatchPhase::Stopping => match event {
                WatchEvent::Left(code) => {
                    self.phase = WatchPhase::Ended;
                    WatchAction::Report(code)
                },
                WatchEvent::Unknown => {
                    self.phase = WatchPhase::Ended;
                    WatchAction::Report(None)
                },
                WatchEvent::Alive { since_stop_nanos } => if since_stop_nanos >= STOP_GRACE_NANOS {
                    self.phase = WatchPhase::Ended;
                    WatchAction::KillAndReport
                } else {
                    WatchAction::SleepAndLook { millis: 100 }
                },
                _ => WatchAction::Look,
            },
            WatchPhase::Ended => WatchAction::Rest,
        }
    }
}

/// The command that asks a process, and on Windows its children, to leave.
pub fn terminate_command(is_windows: bool, pid: u32) -> (command: Vec<String>)
    ensures
        command.deep_view() == (if is_windows {
            seq!["taskkill"@, "/PID"@, decimal(pid as nat), "/T"@]
        } else {
            seq!["kill"@, "-TERM"@, decimal(pid as nat)]
        }),
{
    let pid = decimal_of(pid as u64);
    if is_windows {
        vec!["taskkill".to_string(), "/PID".to_string(), pid, "/T".to_string()]
    } else {
        vec!["kill".to_string(), "-TERM".to_string(), pid]
    }
}

// ---------------------------------------------------------------------------
// Laws
// ---------------------------------------------------------------------------

/// The phase after a sequence of events, from the start.
pub open spec fn phase_after(events: Seq<WatchEvent>) -> WatchPhase
    decreases events.len(),
{
    if events.len() == 0 {
        WatchPhase::Checking
    } else {
        watched(phase_after(events.drop_last()), events.last()).0
    }
}

/// What the watchdog did on each of a sequence of events, from the start.
pub open spec fn actions(events: Seq<WatchEvent>) -> Seq<WatchAction>
    decreases events.len(),
{
    if events.len() == 0 {
        seq![]
    } else {
        actions(events.drop_last()).push(
            watched(phase_after(events.drop_last()), events.last()).1,
        )
    }
}

/// Whether an action tells of the end of the kernel.
pub open spec fn reports(action: WatchAction) -> bool {
    action is Report || action is KillAndReport
}

/// A kernel is ended by force only after it was asked to leave, and only once the grace period is
/// over.
pub proof fn force_comes_after_grace(events: Seq<WatchEvent>)
    requires
        events.len() > 0,
        actions(events).last() is KillAndReport,
    ensures
        exists|i: int|
            0 <= i < events.len() && #[trigger] actions(events)[i] == WatchAction::Terminate,
        events.last() matches WatchEvent::Alive { since_stop_nanos } && since_stop_nanos
            >= STOP_GRACE_NANOS,
{
    let before = events.drop_last();
    stopping_was_asked_for(before);
    let i = choose|i: int|
        0 <= i < before.len() && #[trigger] actions(before)[i] == WatchAction::Terminate;
    one_action_each(before);
    assert(actions(events)[i] == WatchAction::Terminate);
}

proof fn one_action_each(events: Seq<WatchEvent>)
    ensures
        actions(events).len() == events.len(),
    decreases events.len(),
{
    if events.len() > 0 {
        one_action_each(events.drop_last());
    }
}

proof fn stopping_was_asked_for(events: Seq<WatchEvent>)
    requires
        phase_after(events) == WatchPhase::Stopping,
    ensures
        exists|i: int|
            0 <= i < events.len() && #[trigger] actions(events)[i] == WatchAction::Terminate,
    decreases events.len(),
{
    let before = events.drop_last();
    one_action_each(before);
    if phase_after(before) == WatchPhase::Stopping {
        stopping_was_asked_for(before);
        let i = choose|i: int|
            0 <= i < before.len() && #[trigger] actions(before)[i] == WatchAction::Terminate;
        assert(actions(events)[i] == WatchAction::Terminate);
    } else {
        assert(actions(events)[before.len() as int] == WatchAction::Terminate);
    }
}

/// The end of the kernel is reported once: after a report there is only rest.
pub proof fn end_is_reported_once(events: Seq<WatchEvent>, i: int, j: int)
    requires
        0 <= i < j < events.len(),
        reports(actions(events)[i]),
    ensures
        actions(events)[j] == WatchAction::Rest,
        phase_after(events) == WatchPhase::Ended,
    decreases events.len(),
{
    let before = events.drop_last();
    one_action_each(before);
    if i < before.len() - 1 {
        end_is_reported_once(before, i, before.len() - 1);
        if j < before.len() {
            end_is_reported_once(before, i, j);
        }
    } else {
        assert(actions(before).last() == actions(events)[i]);
    }
}

/// Where a stop is asked for, the kernel is gone by the first look after the grace period.
pub proof fn stop_ends_after_grace(since_stop_nanos: u128)
    requires
        since_stop_nanos >= STOP_GRACE_NANOS,
    ensures
        watched(WatchPhase::Checking, WatchEvent::StopFlag(true)) == (
            WatchPhase::Stopping,
            WatchAction::Terminate,
        ),
        watched(WatchPhase::Stopping, WatchEvent::Alive { since_stop_nanos }) == (
            WatchPhase::Ended,
            WatchAction::KillAndReport,
        ),
{
}

/// A kernel that is to be stopped is asked to leave at the next look at the flag; one that is not is
/// looked at.
pub proof fn stop_flag_is_obeyed(stop: bool)
    ensures
        stop ==> watched(WatchPhase::Checking, WatchEvent::StopFlag(stop)) == (
            WatchPhase::Stopping,
            WatchAction::Terminate,
        ),
        !stop ==> watched(WatchPhase::Checking, WatchEvent::StopFlag(stop)) == (
            WatchPhase::Running,
            WatchAction::Look,
        ),
{
}

/// The end of a kernel is reported with its code, whether or not it was asked to leave; where its
/// state cannot be had it counts as ended, without a code.
pub proof fn end_is_reported_with_its_code(phase: WatchPhase, code: Option<i32>)
    requires
        phase == WatchPhase::Running || phase == WatchPhase::Stopping,
    ensures
        watched(phase, WatchEvent::Left(code)) == (WatchPhase::Ended, WatchAction::Report(code)),
        watched(phase, WatchEvent::Unknown) == (WatchPhase::Ended, WatchAction::Report(None)),
{
}

/// A kernel that runs is looked after every hundred and fifty milliseconds. One that was asked to
/// leave is given five seconds, with a look every hundred milliseconds, and is then ended by force.
pub proof fn running_kernel_is_looked_after(since_stop_nanos: u128)
    ensures
        watched(WatchPhase::Running, WatchEvent::Alive { since_stop_nanos }) == (
            WatchPhase::Checking,
            WatchAction::SleepAndCheck { millis: 150 },
        ),
        since_stop_nanos < 5_000_000_000 ==> watched(
            WatchPhase::Stopping,
            WatchEvent::Alive { since_stop_nanos },
        ) == (WatchPhase::Stopping, WatchAction::SleepAndLook { millis: 100 }),
        since_stop_nanos >= 5_000_000_000 ==> watched(
            WatchPhase::Stopping,
            WatchEvent::Alive { since_stop_nanos },
        ) == (WatchPhase::Ended, WatchAction::KillAndReport),
{
}

/// What the watchdog does not wait for changes nothing.
pub proof fn other_news_changes_nothing(phase: WatchPhase, event: WatchEvent)
    ensures
        phase == WatchPhase::Checking && !(event is StopFlag) ==> watched(phase, event) == (
            phase,
            WatchAction::CheckStop,
        ),
        phase == WatchPhase::Running && event is StopFlag ==> watched(phase, event) == (
            phase,
            WatchAction::Look,
        ),
        phase == WatchPhase::Stopping && event is StopFlag ==> watched(phase, event) == (
            phase,
            WatchAction::Look,
        ),
        phase == WatchPhase::Ended ==> watched(phase, event) == (phase, WatchAction::Rest),
{
}

/// The process is named by its number in the command that asks it to leave.
pub proof fn command_names_the_process(is_windows: bool, pid: u32, command: Vec<String>)
    requires
        call_ensures(terminate_command, (is_windows, pid), command),
    ensures
        is_windows ==> command.deep_view() == seq![
            "taskkill"@,
            "/PID"@,
            decimal(pid as nat),
            "/T"@,
        ],
        !is_windows ==> command.deep_view() == seq!["kill"@, "-TERM"@, decimal(pid as nat)],
{
}

} // verus!
