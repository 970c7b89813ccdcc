//! The supervisor of the kernel process: which status it shows, when it starts, stops and restarts
//! the kernel, and when it gives up.
use crate::number::{decimal, decimal_of, signed_decimal, signed_decimal_of};
use crate::server::{backoff, backoff_secs, kernel_url, kernel_url_of, KernelStatus, KernelStatusView, Shared, BOOT_TIMEOUT_NANOS, MAX_AUTO_RESTARTS};
use vstd::prelude::*;

verus! {

/// A command to the supervisor.
pub enum SuperCommand<P> {
    /// Stop the kernel, then leave the application.
    Shutdown,
    /// Stop the current kernel and start afresh.
    RestartNow,
    /// Try again after a failure.
    Retry,
    /// Restart the kernel in another working directory.
    SetWorkspace(P),
}

/// What the supervisor waits for.
#[derive(Clone, Copy, Debug, PartialEq, Eq)]
pub enum Phase {
    /// The commands that have come in.
    Polling,
    /// The location of the runtime.
    Resolving,
    /// The outcome of starting the kernel.
    Spawning,
    /// A sign of life of the kernel.
    Watching,
    /// A command that ends a failure.
    Failed,
    /// Nothing: the application leaves.
    Done,
}

/// What the supervisor is told.
pub enum SuperEvent<P> {
    /// The commands that have come in since the last poll, oldest first.
    Commands(Vec<SuperCommand<P>>),
    /// The runtime was located, or could not be, for a reason.
    Resolved(Result<(), String>),
    /// The kernel was started, or could not be, for a reason.
    Spawned(Result<(), String>),
    /// The kernel announced its port; `http_ok` tells whether it serves there.
    Url { port: u16, http_ok: bool },
    /// The kernel has left, with this code.
    Exit(Option<i32>),
    /// The kernel gave no sign; it was started this many nanoseconds ago.
    Timeout { elapsed_nanos: u128 },
    /// Nothing will be heard of the kernel any more.
    Disconnected,
    /// The next command came in; none ever will where there is none.
    Waited(Option<SuperCommand<P>>),
}

/// The mathematical value of a [`SuperEvent`].
pub enum SuperEventView<P> {
    Commands(Seq<SuperCommand<P>>),
    Resolved(Option<Seq<char>>),
    Spawned(Option<Seq<char>>),
    Url { port: u16, http_ok: bool },
    Exit(Option<i32>),
    Timeout { elapsed_nanos: u128 },
    Disconnected,
    Waited(Option<SuperCommand<P>>),
}

/// The reason why something failed, where it did.
pub open spec fn failure_of(outcome: Result<(), String>) -> Option<Seq<char>> {
    match outcome {
        Ok(_) => None,
        Err(error) => Some(error@),
    }
}

impl<P> View for SuperEvent<P> {
    type V = SuperEventView<P>;

    open spec fn view(&self) -> SuperEventView<P> {
        match *self {
            SuperEvent::Commands(commands) => SuperEventView::Commands(commands@),
            SuperEvent::Resolved(outcome) => SuperEventView::Resolved(failure_of(outcome)),
            SuperEvent::Spawned(outcome) => SuperEventView::Spawned(failure_of(outcome)),
            SuperEvent::Url { port, http_ok } => SuperEventView::Url { port, http_ok },
            SuperEvent::Exit(code) => SuperEventView::Exit(code),
            SuperEvent::Timeout { elapsed_nanos } => SuperEventView::Timeout { elapsed_nanos },
            SuperEvent::Disconnected => SuperEventView::Disconnected,
            SuperEvent::Waited(command) => SuperEventView::Waited(command),
        }
    }
}

/// What is to be done next; the outcome is the next event.
pub enum SuperAction {
    /// Collect the commands that have come in.
    Poll,
    /// Stop the kernel if it runs, then collect the commands.
    StopAndPoll,
    /// Stop the kernel if it runs, then leave the application.
    StopAndExit,
    /// Locate the runtime.
    Resolve,
    /// Start the kernel in the shared working directory.
    Spawn,
    /// Wait a short while for a sign of the kernel.
    AwaitChild,
    /// Show the kernel's pages, then collect the commands.
    OpenWindow { url: String },
    /// Close the kernel's window, wait, then collect the commands.
    CloseWindowAndSleep { secs: u64 },
    /// Close the kernel's window, then wait for a command.
    CloseWindowAndAwaitCommand,
    /// Stop the kernel, wait, then collect the commands.
    StopAndSleep { secs: u64 },
    /// Stop the kernel, then wait for a command.
    StopAndAwaitCommand,
    /// Wait for a command.
    AwaitCommand,
    /// Leave the application.
    Exit,
}

/// The mathematical value of a [`SuperAction`].
pub enum SuperActionView {
    Poll,
    StopAndPoll,
    StopAndExit,
    Resolve,
    Spawn,
    AwaitChild,
    OpenWindow { url: Seq<char> },
    CloseWindowAndSleep { secs: u64 },
    CloseWindowAndAwaitCommand,
    StopAndSleep { secs: u64 },
    StopAndAwaitCommand,
    AwaitCommand,
    Exit,
}

impl View for SuperAction {
    type V = SuperActionView;

    open spec fn view(&self) -> SuperActionView {
        match *self {
            SuperAction::Poll => SuperActionView::Poll,
            SuperAction::StopAndPoll => SuperActionView::StopAndPoll,
            SuperAction::StopAndExit => SuperActionView::StopAndExit,
            SuperAction::Resolve => SuperActionView::Resolve,
            SuperAction::Spawn => SuperActionView::Spawn,
            SuperAction::AwaitChild => SuperActionView::AwaitChild,
            SuperAction::OpenWindow { url } => SuperActionView::OpenWindow { url: url@ },
            SuperAction::CloseWindowAndSleep { secs } => SuperActionView::CloseWindowAndSleep {
                secs,
            },
            SuperAction::CloseWindowAndAwaitCommand => SuperActionView::CloseWindowAndAwaitCommand,
            SuperAction::StopAndSleep { secs } => SuperActionView::StopAndSleep { secs },
            SuperAction::StopAndAwaitCommand => SuperActionView::StopAndAwaitCommand,
            SuperAction::AwaitCommand => SuperActionView::AwaitCommand,
            SuperAction::Exit => SuperActionView::Exit,
        }
    }
}

/// The supervisor.
pub struct Supervisor {
    pub phase: Phase,
    /// How many automatic restarts have been used up.
    pub attempts: u32,
    /// Whether the current kernel has been seen to serve.
    pub saw_url: bool,
    /// Whether there is a current kernel.
    pub running: bool,
}

/// The supervisor together with the shared facts that it reads and writes.
pub struct SuperState<P> {
    pub phase: Phase,
    pub attempts: u32,
    pub saw_url: bool,
    pub running: bool,
    pub status: KernelStatusView,
    pub port: Option<u16>,
    pub workspace: P,
}

// ---------------------------------------------------------------------------
// What the supervisor does
// ---------------------------------------------------------------------------

/// The last of the commands: the others are dropped.
pub open spec fn last_command<P>(commands: Seq<SuperCommand<P>>) -> Option<SuperCommand<P>> {
    if commands.len() == 0 {
        None
    } else {
        Some(commands.last())
    }
}

/// The exit code as it is shown.
pub open spec fn code_text(code: Option<i32>) -> Seq<char> {
    match code {
        Some(c) => signed_decimal(c as int),
        None => "无"@,
    }
}

/// What is shown once the kernel has left too often.
pub open spec fn gave_up_text(code: Option<i32>) -> Seq<char> {
    "内核已退出（code="@ + code_text(code) + "），自动重启 "@ + decimal(MAX_AUTO_RESTARTS as nat)
        + " 次未恢复。"@
}

/// A failure: the supervisor shows why and waits for a command.
pub open spec fn failed<P>(s: SuperState<P>, error: Seq<char>) -> SuperState<P> {
    SuperState {
        phase: Phase::Failed,
        running: false,
        status: KernelStatusView::Failed { error },
        ..s
    }
}

/// An automatic restart is due.
pub open spec fn restarting<P>(s: SuperState<P>) -> SuperState<P> {
    let attempts = (s.attempts + 1) as u32;
    SuperState {
        phase: Phase::Polling,
        attempts,
        running: false,
        status: KernelStatusView::Restarting { attempt: attempts },
        ..s
    }
}

/// The effect of the commands that have come in.
pub open spec fn polled<P>(s: SuperState<P>, commands: Seq<SuperCommand<P>>) -> (
    SuperState<P>,
    SuperActionView,
) {
    let fresh = SuperState { attempts: 0, saw_url: false, running: false, ..s };
    match last_command(commands) {
        Some(SuperCommand::Shutdown) => (
            SuperState { phase: Phase::Done, running: false, ..s },
            SuperActionView::StopAndExit,
        ),
        Some(SuperCommand::RestartNow) => (fresh, SuperActionView::StopAndPoll),
        Some(SuperCommand::Retry) => (fresh, SuperActionView::StopAndPoll),
        Some(SuperCommand::SetWorkspace(dir)) => (
            SuperState { workspace: dir, ..fresh },
            SuperActionView::StopAndPoll,
        ),
        None => if s.running {
            (SuperState { phase: Phase::Watching, ..s }, SuperActionView::AwaitChild)
        } else {
            (SuperState { phase: Phase::Resolving, ..s }, SuperActionView::Resolve)
        },
    }
}

/// The status while a kernel is started after this many automatic restarts.
pub open spec fn booting(attempts: u32) -> KernelStatusView {
    if attempts == 0 {
        KernelStatusView::Starting { attempt: 0 }
    } else {
        KernelStatusView::Restarting { attempt: attempts }
    }
}

/// The effect of a command that ends a failure. A working directory that comes in now is taken
/// over as well.
pub open spec fn resumed<P>(s: SuperState<P>, command: Option<SuperCommand<P>>) -> (
    SuperState<P>,
    SuperActionView,
) {
    let fresh = SuperState { phase: Phase::Polling, attempts: 0, ..s };
    match command {
        None => (SuperState { phase: Phase::Done, ..s }, SuperActionView::Exit),
        Some(SuperCommand::Shutdown) => (
            SuperState { phase: Phase::Done, ..s },
            SuperActionView::Exit,
        ),
        Some(SuperCommand::SetWorkspace(dir)) => (
            SuperState { workspace: dir, ..fresh },
            SuperActionView::Poll,
        ),
        Some(_) => (fresh, SuperActionView::Poll),
    }
}

/// The effect of a sign of the kernel, or of none.
pub open spec fn watched<P>(s: SuperState<P>, event: SuperEventView<P>) -> (
    SuperState<P>,
    SuperActionView,
) {
    let next = SuperState { phase: Phase::Polling, ..s };
    match event {
        SuperEventView::Url { port, http_ok } => if http_ok {
            (
                SuperState {
                    attempts: 0,
                    saw_url: true,
                    status: KernelStatusView::Ready { url: kernel_url(port) },
                    port: Some(port),
                    ..next
                },
                SuperActionView::OpenWindow { url: kernel_url(port) },
            )
        } else {
            (next, SuperActionView::Poll)
        },
        SuperEventView::Exit(code) => {
            let gone = SuperState { saw_url: false, ..s };
            if s.attempts < MAX_AUTO_RESTARTS {
                (
                    restarting(gone),
                    SuperActionView::CloseWindowAndSleep { secs: backoff((s.attempts + 1) as u32) },
                )
            } else {
                (failed(gone, gave_up_text(code)), SuperActionView::CloseWindowAndAwaitCommand)
            }
        },
        SuperEventView::Timeout { elapsed_nanos } => if s.saw_url || elapsed_nanos
            <= BOOT_TIMEOUT_NANOS {
            (next, SuperActionView::Poll)
        } else if s.attempts < MAX_AUTO_RESTARTS {
            (
                restarting(s),
                SuperActionView::StopAndSleep { secs: backoff((s.attempts + 1) as u32) },
            )
        } else {
            (
                failed(s, "内核启动超时（90s 未就绪）。"@),
                SuperActionView::StopAndAwaitCommand,
            )
        },
        SuperEventView::Disconnected => (
            SuperState { running: false, ..next },
            SuperActionView::Poll,
        ),
        _ => (s, SuperActionView::AwaitChild),
    }
}

/// What the supervisor does on an event. One that it does not wait for changes nothing: it asks
/// again for what it waits for.
pub open spec fn supervise<P>(s: SuperState<P>, event: SuperEventView<P>) -> (
    SuperState<P>,
    SuperActionView,
) {
    match s.phase {
        Phase::Polling => match event {
            SuperEventView::Commands(commands) => polled(s, commands),
            _ => (s, SuperActionView::Poll),
        },
        Phase::Resolving => match event {
            SuperEventView::Resolved(Some(error)) => (
                failed(s, "运行时定位失败："@ + error),
                SuperActionView::AwaitCommand,
            ),
            SuperEventView::Resolved(None) => (
                SuperState { phase: Phase::Spawning, status: booting(s.attempts), ..s },
                SuperActionView::Spawn,
            ),
            _ => (s, SuperActionView::Resolve),
        },
        Phase::Spawning => match event {
            SuperEventView::Spawned(Some(error)) => (
                failed(s, "内核启动失败："@ + error),
                SuperActionView::AwaitCommand,
            ),
            SuperEventView::Spawned(None) => (
                SuperState { phase: Phase::Polling, saw_url: false, running: true, ..s },
                SuperActionView::Poll,
            ),
            _ => (s, SuperActionView::Spawn),
        },
        Phase::Watching => watched(s, event),
        Phase::Failed => match event {
            SuperEventView::Waited(command) => resumed(s, command),
            _ => (s, SuperActionView::AwaitCommand),
        },
        Phase::Done => (s, SuperActionView::Exit),
    }
}

// ---------------------------------------------------------------------------
// The supervisor's code
// ---------------------------------------------------------------------------

fn text_of_code(code: Option<i32>) -> (text: String)
    ensures
        text@ == code_text(code),
{
    match code {
        Some(c) => signed_decimal_of(c),
        None => "无".to_string(),
    }
}

impl Supervisor {
    /// The supervisor together with the shared facts that it reads and writes.
    pub open spec fn with<P>(self, shared: Shared<P>) -> SuperState<P> {
        SuperState {
            phase: self.phase,
            attempts: self.attempts,
            saw_url: self.saw_url,
            running: self.running,
            status: shared.status@,
            port: shared.port,
            workspace: shared.workspace,
        }
    }

    /// A supervisor that has started nothing yet. Its first action is to poll.
    pub fn new() -> (supervisor: Supervisor)
        ensures
            supervisor.phase == Phase::Polling,
            supervisor.attempts == 0,
            !supervisor.saw_url,
            !supervisor.running,
    {
        Supervisor { phase: Phase::Polling, attempts: 0, saw_url: false, running: false }
    }

    fn fail<P>(&mut self, shared: &mut Shared<P>, error: String)
        ensures
            final(self).with(*final(shared)) == failed(old(self).with(*old(shared)), error@),
            others_kept(*old(shared), *final(shared)),
    {
        self.phase = Phase::Failed;
        self.running = false;
        shared.status = KernelStatus::Failed { error };
    }

    fn restart<P>(&mut self, shared: &mut Shared<P>) -> (secs: u64)
        requires
            old(self).attempts < MAX_AUTO_RESTARTS,
        ensures
            final(self).with(*final(shared)) == restarting(old(self).with(*old(shared))),
            secs == backoff((old(self).attempts + 1) as u32),
            others_kept(*old(shared), *final(shared)),
    {
        self.phase = Phase::Polling;
        self.attempts = self.attempts + 1;
        self.running = false;
        shared.status = KernelStatus::Restarting { attempt: self.attempts };
        backoff_secs(self.attempts)
    }

    fn poll<P>(&mut self, shared: &mut Shared<P>, commands: Vec<SuperCommand<P>>) -> (action:
        SuperAction)
        ensures
            (final(self).with(*final(shared)), action@) == polled(
                old(self).with(*old(shared)),
                commands@,
            ),
            others_kept(*old(shared), *final(shared)),
    {
        let mut commands = commands;
        match commands.pop() {
            Some(SuperCommand::Shutdown) => {
                self.phase = Phase::Done;
                self.running = false;
                SuperAction::StopAndExit
            },
            Some(command) => {
                if let SuperCommand::SetWorkspace(dir) = command {
                    shared.workspace = dir;
                }
                self.attempts = 0;
                self.saw_url = false;
                self.running = false;
                SuperAction::StopAndPoll
            },
            None => if self.running {
                self.phase = Phase::Watching;
                SuperAction::AwaitChild
            } else {
                self.phase = Phase::Resolving;
                SuperAction::Resolve
            },
        }
    }

    fn resume<P>(&mut self, shared: &mut Shared<P>, command: Option<SuperCommand<P>>) -> (action:
        SuperAction)
        ensures
            (final(self).with(*final(shared)), action@) == resumed(
                old(self).with(*old(shared)),
                command,
            ),
            others_kept(*old(shared), *final(shared)),
    {
        match command {
            None => {
                self.phase = Phase::Done;
                SuperAction::Exit
            },
            Some(SuperCommand::Shutdown) => {
                self.phase = Phase::Done;
                SuperAction::Exit
            },
            Some(command) => {
                if let SuperCommand::SetWorkspace(dir) = command {
                    shared.workspace = dir;
                }
                self.phase = Phase::Polling;
                self.attempts = 0;
                SuperAction::Poll
            },
        }
    }

    fn watch<P>(&mut self, shared: &mut Shared<P>, event: SuperEvent<P>) -> (action: SuperAction)
        ensures
            (final(self).with(*final(shared)), action@) == watched(
                old(self).with(*old(shared)),
                event@,
            ),
            others_kept(*old(shared), *final(shared)),
    {
        match event {
            SuperEvent::Url { port, http_ok } => {
                self.phase = Phase::Polling;
                if !http_ok {
                    return SuperAction::Poll;
                }
                self.attempts = 0;
                self.saw_url = true;
                shared.port = Some(port);
                shared.status = KernelStatus::Ready { url: kernel_url_of(port) };
                SuperAction::OpenWindow { url: kernel_url_of(port) }
            },
            SuperEvent::Exit(code) => {
                self.saw_url = false;
                if self.attempts < MAX_AUTO_RESTARTS {
                    let secs: u64 = self.restart(shared);
                    SuperAction::CloseWindowAndSleep { secs }
                } else {
                    let mut error = "内核已退出（code=".to_string();
                    error.append(text_of_code(code).as_str());
                    error.append("），自动重启 ");
                    error.append(decimal_of(MAX_AUTO_RESTARTS as u64).as_str());
                    error.append(" 次未恢复。");
                    self.fail(shared, error);
                    SuperAction::CloseWindowAndAwaitCommand
                }
            },
            SuperEvent::Timeout { elapsed_nanos } => {
                if self.saw_url || elapsed_nanos <= BOOT_TIMEOUT_NANOS as u128 {
                    self.phase = Phase::Polling;
                    SuperAction::Poll
                } else if self.attempts < MAX_AUTO_RESTARTS {
                    let secs: u64 = self.restart(shared);
                    SuperAction::StopAndSleep { secs }
                } else {
                    self.fail(shared, "内核启动超时（90s 未就绪）。".to_string());
                    SuperAction::StopAndAwaitCommand
                }
            },
            SuperEvent::Disconnected => {
                self.phase = Phase::Polling;
                self.running = false;
                SuperAction::Poll
            },
            _ => SuperAction::AwaitChild,
        }
    }

    fn resolved<P>(&mut self, shared: &mut Shared<P>, outcome: Result<(), String>) -> (action:
        SuperAction)
        requires
            old(self).phase == Phase::Resolving,
        ensures
            (final(self).with(*final(shared)), action@) == supervise(
                old(self).with(*old(shared)),
                SuperEventView::Resolved(failure_of(outcome)),
            ),
            others_kept(*old(shared), *final(shared)),
    {
        match outcome {
            Ok(_) => {
                self.phase = Phase::Spawning;
                shared.status =
                if self.attempts == 0 {
                    KernelStatus::Starting { attempt: 0 }
                } else {
                    KernelStatus::Restarting { attempt: self.attempts }
                };
                SuperAction::Spawn
            },
            Err(reason) => {
                let mut error = "运行时定位失败：".to_string();
                error.append(reason.as_str());
                self.fail(shared, error);
                SuperAction::AwaitCommand
            },
        }
    }

    fn spawned<P>(&mut self, shared: &mut Shared<P>, outcome: Result<(), String>) -> (action:
        SuperAction)
        requires
            old(self).phase == Phase::Spawning,
        ensures
            (final(self).with(*final(shared)), action@) == supervise(
                old(self).with(*old(shared)),
                SuperEventView::Spawned(failure_of(outcome)),
            ),
            others_kept(*old(shared), *final(shared)),
    {
        match outcome {
            Ok(_) => {
                self.phase = Phase::Polling;
                self.saw_url = false;
                self.running = true;
                SuperAction::Poll
            },
            Err(reason) => {
                let mut error = "内核启动失败：".to_string();
                error.append(reason.as_str());
                self.fail(shared, error);
                SuperAction::AwaitCommand
            },
        }
    }

    /// Takes in an event and says what is to be done next.
    pub fn step<P>(&mut self, shared: &mut Shared<P>, event: SuperEvent<P>) -> (action: SuperAction)
        ensures
            (final(self).with(*final(shared)), action@) == supervise(
                old(self).with(*old(shared)),
                event@,
            ),
            others_kept(*old(shared), *final(shared)),
    {
        match self.phase {
            Phase::Polling => match event {
                SuperEvent::Commands(commands) => self.poll(shared, commands),
                _ => SuperAction::Poll,
            },
            Phase::Resolving => match event {
                SuperEvent::Resolved(outcome) => self.resolved(shared, outcome),
                _ => SuperAction::Resolve,
            },
            Phase::Spawning => match event {
                SuperEvent::Spawned(outcome) => self.spawned(shared, outcome),
                _ => SuperAction::Spawn,
            },
            Phase::Watching => self.watch(shared, event),
            Phase::Failed => match event {
                SuperEvent::Waited(command) => self.resume(shared, command),
                _ => SuperAction::AwaitCommand,
            },
            Phase::Done => SuperAction::Exit,
        }
    }
}

/// The shared facts that the supervisor never touches.
pub open spec fn others_kept<P>(before: Shared<P>, after: Shared<P>) -> bool {
    &&& after.program == before.program
    &&& after.bundle == before.bundle
    &&& after.source == before.source
    &&& after.node_version == before.node_version
}

// ---------------------------------------------------------------------------
// Laws
// ---------------------------------------------------------------------------

/// The state after a sequence of events.
pub open spec fn after<P>(s: SuperState<P>, events: Seq<SuperEventView<P>>) -> SuperState<P>
    decreases events.len(),
{
    if events.len() == 0 {
        s
    } else {
        supervise(after(s, events.drop_last()), events.last()).0
    }
}

/// What holds of the supervisor at any time: the restart quota is not exceeded; there is a kernel
/// while it is watched, and none while one is sought, started or given up; and a kernel that is
/// shown as ready is shown with the address of the shared port.
pub open spec fn sound<P>(s: SuperState<P>) -> bool {
    &&& s.attempts <= MAX_AUTO_RESTARTS
    &&& s.phase == Phase::Watching ==> s.running
    &&& (s.phase == Phase::Resolving || s.phase == Phase::Spawning || s.phase == Phase::Failed
        || s.phase == Phase::Done) ==> !s.running
    &&& s.phase == Phase::Failed ==> s.status is Failed
    &&& s.status matches KernelStatusView::Ready { url } ==> (s.port matches Some(port) && url
        == kernel_url(port))
    &&& s.status matches KernelStatusView::Restarting { attempt } ==> 1 <= attempt
        <= MAX_AUTO_RESTARTS
}

/// The state from which a supervisor starts, beside fresh shared facts.
pub open spec fn initial<P>(workspace: P) -> SuperState<P> {
    SuperState {
        phase: Phase::Polling,
        attempts: 0,
        saw_url: false,
        running: false,
        status: KernelStatusView::Starting { attempt: 0 },
        port: None,
        workspace,
    }
}

/// An event keeps the supervisor sound.
pub proof fn supervise_keeps_sound<P>(s: SuperState<P>, event: SuperEventView<P>)
    requires
        sound(s),
    ensures
        sound(supervise(s, event).0),
{
}

/// From its start the supervisor is sound, whatever happens.
pub proof fn supervisor_is_always_sound<P>(workspace: P, events: Seq<SuperEventView<P>>)
    ensures
        sound(after(initial(workspace), events)),
    decreases events.len(),
{
    if events.len() > 0 {
        supervisor_is_always_sound(workspace, events.drop_last());
        supervise_keeps_sound(after(initial(workspace), events.drop_last()), events.last());
    }
}

/// A kernel is started only where none runs, and only after the runtime was located anew.
pub proof fn kernel_is_started_alone<P>(s: SuperState<P>, event: SuperEventView<P>)
    requires
        sound(s),
        supervise(s, event).1 is Spawn,
    ensures
        !s.running,
        s.phase == Phase::Spawning || (s.phase == Phase::Resolving && event
            == SuperEventView::<P>::Resolved(None)),
{
}

/// The kernel is shown as ready from one event to the next only where it announced a port and was
/// found to serve there; the window then opens at that port's address.
pub proof fn ready_means_serving<P>(s: SuperState<P>, event: SuperEventView<P>)
    requires
        !(s.status is Ready),
        supervise(s, event).0.status is Ready,
    ensures
        event matches SuperEventView::Url { port, http_ok } && http_ok && supervise(s, event).1
            == (SuperActionView::OpenWindow { url: kernel_url(port) }) && supervise(
            s,
            event,
        ).0.port == Some(port),
{
}

/// The events from one exit of the kernel until its successor is watched, where nothing goes wrong
/// and no command comes in.
pub open spec fn crash_and_restart<P>(code: Option<i32>) -> Seq<SuperEventView<P>> {
    seq![
        SuperEventView::Exit(code),
        SuperEventView::Commands(seq![]),
        SuperEventView::Resolved(None),
        SuperEventView::Spawned(None),
        SuperEventView::Commands(seq![]),
    ]
}

/// One crash within the quota: the supervisor waits for the back-off time, then starts the kernel
/// again, with one restart more used up.
pub proof fn crash_restarts_within_quota<P>(s: SuperState<P>, code: Option<i32>)
    requires
        s.phase == Phase::Watching,
        s.attempts < MAX_AUTO_RESTARTS,
    ensures
        supervise(s, SuperEventView::Exit(code)).1 == (SuperActionView::CloseWindowAndSleep {
            secs: backoff((s.attempts + 1) as u32),
        }),
        after(s, crash_and_restart(code)) == (SuperState {
            attempts: (s.attempts + 1) as u32,
            saw_url: false,
            running: true,
            status: KernelStatusView::Restarting { attempt: (s.attempts + 1) as u32 },
            ..s
        }),
{
    reveal_with_fuel(after, 6);
    let events = crash_and_restart::<P>(code);
    assert(events.drop_last() == seq![
        SuperEventView::Exit(code),
        SuperEventView::Commands(seq![]),
        SuperEventView::Resolved(None),
        SuperEventView::<P>::Spawned(None),
    ]);
    assert(events.drop_last().drop_last() == seq![
        SuperEventView::Exit(code),
        SuperEventView::Commands(seq![]),
        SuperEventView::<P>::Resolved(None),
    ]);
    assert(events.drop_last().drop_last().drop_last() == seq![
        SuperEventView::Exit(code),
        SuperEventView::<P>::Commands(seq![]),
    ]);
    assert(events.drop_last().drop_last().drop_last().drop_last() == seq![
        SuperEventView::<P>::Exit(code),
    ]);
}

/// A kernel that keeps crashing is restarted three times, after one, two and four seconds. Its next
/// exit is shown as a failure, and the supervisor waits for a command.
pub proof fn crashing_kernel_is_given_up<P>(
    s: SuperState<P>,
    first: Option<i32>,
    second: Option<i32>,
    third: Option<i32>,
    last: Option<i32>,
)
    requires
        s.phase == Phase::Watching,
        s.attempts == 0,
    ensures
        ({
            let once = after(s, crash_and_restart(first));
            let twice = after(once, crash_and_restart(second));
            let thrice = after(twice, crash_and_restart(third));
            let (end, action) = supervise(thrice, SuperEventView::Exit(last));
            &&& supervise(s, SuperEventView::Exit(first)).1 == (
            SuperActionView::CloseWindowAndSleep { secs: 1 })
            &&& supervise(once, SuperEventView::Exit(second)).1 == (
            SuperActionView::CloseWindowAndSleep { secs: 2 })
            &&& supervise(twice, SuperEventView::Exit(third)).1 == (
            SuperActionView::CloseWindowAndSleep { secs: 4 })
            &&& action == SuperActionView::CloseWindowAndAwaitCommand
            &&& end.phase == Phase::Failed
            &&& end.status == (KernelStatusView::Failed { error: gave_up_text(last) })
        }),
{
    crash_restarts_within_quota(s, first);
    let once = after(s, crash_and_restart(first));
    crash_restarts_within_quota(once, second);
    let twice = after(once, crash_and_restart(second));
    crash_restarts_within_quota(twice, third);
}

/// A kernel that is ready has the whole quota before it again.
pub proof fn readiness_restores_the_quota<P>(s: SuperState<P>, port: u16)
    requires
        s.phase == Phase::Watching,
    ensures
        supervise(s, SuperEventView::Url { port, http_ok: true }).0.attempts == 0,
{
}

/// A kernel that has not been seen to serve is given the boot timeout and no more; one that has
/// been is never stopped for its silence.
pub proof fn silence_counts_only_while_booting<P>(s: SuperState<P>, elapsed_nanos: u128)
    requires
        s.phase == Phase::Watching,
    ensures
        ({
            let (next, action) = supervise(s, SuperEventView::Timeout { elapsed_nanos });
            if s.saw_url || elapsed_nanos <= BOOT_TIMEOUT_NANOS {
                action == SuperActionView::Poll && next.running == s.running && next.status
                    == s.status
            } else {
                (action is StopAndSleep || action is StopAndAwaitCommand) && !next.running
            }
        }),
{
}

/// Commands by themselves do not change what is shown: the status changes when something happens to
/// the kernel.
pub proof fn commands_do_not_change_the_status<P>(s: SuperState<P>, event: SuperEventView<P>)
    requires
        event is Commands || event is Waited || event is Disconnected,
    ensures
        supervise(s, event).0.status == s.status,
        supervise(s, event).0.port == s.port,
{
}

/// A failure lasts until a command comes in.
pub proof fn failure_lasts_until_a_command<P>(s: SuperState<P>, event: SuperEventView<P>)
    requires
        s.phase == Phase::Failed,
        !(event is Waited),
    ensures
        supervise(s, event) == (s, SuperActionView::AwaitCommand),
{
}

/// The command to shut down is obeyed, with and without a kernel: the kernel is stopped where there
/// may be one, the application leaves, and nothing happens after that.
pub proof fn shutdown_is_obeyed<P>(
    s: SuperState<P>,
    earlier: Seq<SuperCommand<P>>,
    later: SuperEventView<P>,
)
    ensures
        s.phase == Phase::Polling ==> ({
            let (next, action) = supervise(
                s,
                SuperEventView::Commands(earlier.push(SuperCommand::Shutdown)),
            );
            &&& action == SuperActionView::StopAndExit
            &&& !next.running
            &&& supervise(next, later) == (next, SuperActionView::Exit)
        }),
        s.phase == Phase::Failed ==> ({
            let (next, action) = supervise(
                s,
                SuperEventView::Waited(Some(SuperCommand::Shutdown)),
            );
            &&& action == SuperActionView::Exit
            &&& supervise(next, later) == (next, SuperActionView::Exit)
        }),
{
    assert(earlier.push(SuperCommand::Shutdown).last() == SuperCommand::<P>::Shutdown);
}

/// A new working directory is taken over at once, with and without a kernel, and the kernel is
/// started afresh.
pub proof fn workspace_is_taken_over<P>(
    s: SuperState<P>,
    earlier: Seq<SuperCommand<P>>,
    dir: P,
)
    ensures
        s.phase == Phase::Polling ==> ({
            let (next, action) = supervise(
                s,
                SuperEventView::Commands(earlier.push(SuperCommand::SetWorkspace(dir))),
            );
            &&& action == SuperActionView::StopAndPoll
            &&& next.workspace == dir
            &&& next.attempts == 0
            &&& !next.running
            &&& next.phase == Phase::Polling
        }),
        s.phase == Phase::Failed && !s.running ==> ({
            let (next, action) = supervise(
                s,
                SuperEventView::Waited(Some(SuperCommand::SetWorkspace(dir))),
            );
            &&& action == SuperActionView::Poll
            &&& next.workspace == dir
            &&& next.attempts == 0
            &&& !next.running
            &&& next.phase == Phase::Polling
        }),
{
    assert(earlier.push(SuperCommand::SetWorkspace(dir)).last() == SuperCommand::SetWorkspace(dir));
}

/// Restarting and retrying start the kernel afresh: the whole quota is there again, the working
/// directory is the same, and the next poll without a command seeks the runtime.
pub proof fn restart_starts_afresh<P>(
    s: SuperState<P>,
    earlier: Seq<SuperCommand<P>>,
    command: SuperCommand<P>,
)
    requires
        sound(s),
        command is RestartNow || command is Retry,
    ensures
        s.phase == Phase::Polling ==> ({
            let (next, action) = supervise(s, SuperEventView::Commands(earlier.push(command)));
            &&& action == SuperActionView::StopAndPoll
            &&& next.attempts == 0
            &&& next.workspace == s.workspace
            &&& supervise(next, SuperEventView::Commands(seq![])).1 == SuperActionView::Resolve
        }),
        s.phase == Phase::Failed ==> ({
            let (next, action) = supervise(s, SuperEventView::Waited(Some(command)));
            &&& action == SuperActionView::Poll
            &&& next.attempts == 0
            &&& next.workspace == s.workspace
            &&& supervise(next, SuperEventView::Commands(seq![])).1 == SuperActionView::Resolve
        }),
{
    assert(earlier.push(command).last() == command);
}

/// A watched kernel that announces a port and serves there is shown, whatever happened to it
/// before: the status tells its address, the port is shared, it counts as seen, the quota is whole,
/// and the window opens at that address. Nothing else changes.
pub proof fn serving_kernel_is_shown<P>(s: SuperState<P>, port: u16)
    requires
        s.phase == Phase::Watching,
    ensures
        ({
            let url = "http://127.0.0.1:"@ + decimal(port as nat) + "/"@;
            let (next, action) = supervise(s, SuperEventView::Url { port, http_ok: true });
            &&& action == (SuperActionView::OpenWindow { url })
            &&& next.status == (KernelStatusView::Ready { url })
            &&& next.port == Some(port)
            &&& next.saw_url
            &&& next.attempts == 0
            &&& next.phase == Phase::Polling
            &&& next.running == s.running
            &&& next.workspace == s.workspace
        }),
{
}

/// A port at which the kernel does not serve, and the loss of what the kernel prints, change nothing
/// that is shown; after a loss there is no kernel any more.
pub proof fn idle_port_is_not_shown<P>(s: SuperState<P>, port: u16)
    requires
        s.phase == Phase::Watching,
    ensures
        supervise(s, SuperEventView::Url { port, http_ok: false }) == (
            SuperState { phase: Phase::Polling, ..s },
            SuperActionView::Poll,
        ),
        supervise(s, SuperEventView::Disconnected) == (
            SuperState { phase: Phase::Polling, running: false, ..s },
            SuperActionView::Poll,
        ),
{
}

/// What follows when a watched kernel has left: up to three times in a row it is restarted, after
/// one, two and four seconds, and the status tells which restart it is; then the exit code is shown
/// and the supervisor waits for a command. The window closes either way; the shared port and the
/// working directory stay.
pub proof fn exit_is_answered<P>(s: SuperState<P>, code: Option<i32>)
    requires
        s.phase == Phase::Watching,
    ensures
        ({
            let (next, action) = supervise(s, SuperEventView::Exit(code));
            let shown = match code {
                Some(c) => signed_decimal(c as int),
                None => "无"@,
            };
            &&& !next.running
            &&& !next.saw_url
            &&& next.port == s.port
            &&& next.workspace == s.workspace
            &&& s.attempts < 3 ==> next.phase == Phase::Polling && next.attempts == s.attempts + 1
                && next.status == (KernelStatusView::Restarting { attempt: next.attempts })
            &&& s.attempts == 0 ==> action == (SuperActionView::CloseWindowAndSleep { secs: 1 })
            &&& s.attempts == 1 ==> action == (SuperActionView::CloseWindowAndSleep { secs: 2 })
            &&& s.attempts == 2 ==> action == (SuperActionView::CloseWindowAndSleep { secs: 4 })
            &&& s.attempts >= 3 ==> action == SuperActionView::CloseWindowAndAwaitCommand
                && next.phase == Phase::Failed && next.attempts == s.attempts && next.status == (
            KernelStatusView::Failed {
                error: "内核已退出（code="@ + shown + "），自动重启 "@ + decimal(3) + " 次未恢复。"@,
            })
        }),
{
}

/// What follows when a watched kernel is silent: nothing, where it has been seen to serve or is not
/// older than ninety seconds. Else it is stopped, and restarted up to three times, after one, two and
/// four seconds; then the failure is shown and the supervisor waits for a command.
pub proof fn silence_is_answered<P>(s: SuperState<P>, elapsed_nanos: u128)
    requires
        s.phase == Phase::Watching,
    ensures
        ({
            let (next, action) = supervise(s, SuperEventView::Timeout { elapsed_nanos });
            let late = !s.saw_url && elapsed_nanos > 90_000_000_000;
            &&& !late ==> action == SuperActionView::Poll && next == (SuperState {
                phase: Phase::Polling,
                ..s
            })
            &&& late ==> !next.running && next.saw_url == s.saw_url && next.port == s.port
                && next.workspace == s.workspace
            &&& late && s.attempts < 3 ==> next.phase == Phase::Polling && next.attempts
                == s.attempts + 1 && next.status == (KernelStatusView::Restarting {
                attempt: next.attempts,
            })
            &&& late && s.attempts == 0 ==> action == (SuperActionView::StopAndSleep { secs: 1 })
            &&& late && s.attempts == 1 ==> action == (SuperActionView::StopAndSleep { secs: 2 })
            &&& late && s.attempts == 2 ==> action == (SuperActionView::StopAndSleep { secs: 4 })
            &&& late && s.attempts >= 3 ==> action == SuperActionView::StopAndAwaitCommand
                && next.phase == Phase::Failed && next.attempts == s.attempts && next.status == (
            KernelStatusView::Failed { error: "内核启动超时（90s 未就绪）。"@ })
        }),
{
}

/// Once the runtime is located the kernel is started, and the status tells whether it is the first
/// start or which restart; a runtime that cannot be located is shown as a failure with its reason.
pub proof fn located_runtime_is_started<P>(s: SuperState<P>, reason: Seq<char>)
    requires
        s.phase == Phase::Resolving,
    ensures
        ({
            let (next, action) = supervise(s, SuperEventView::Resolved(None));
            &&& action == SuperActionView::Spawn
            &&& next.status == (if s.attempts == 0 {
                KernelStatusView::Starting { attempt: 0 }
            } else {
                KernelStatusView::Restarting { attempt: s.attempts }
            })
            &&& next == (SuperState { phase: Phase::Spawning, status: next.status, ..s })
        }),
        supervise(s, SuperEventView::Resolved(Some(reason))) == (
            SuperState {
                phase: Phase::Failed,
                running: false,
                status: KernelStatusView::Failed { error: "运行时定位失败："@ + reason },
                ..s
            },
            SuperActionView::AwaitCommand,
        ),
{
}

/// A kernel that was started runs, and has not been seen to serve; one that could not be started is
/// shown as a failure with its reason. Neither uses up a restart.
pub proof fn started_kernel_runs<P>(s: SuperState<P>, reason: Seq<char>)
    requires
        s.phase == Phase::Spawning,
    ensures
        supervise(s, SuperEventView::Spawned(None)) == (
            SuperState { phase: Phase::Polling, saw_url: false, running: true, ..s },
            SuperActionView::Poll,
        ),
        supervise(s, SuperEventView::Spawned(Some(reason))) == (
            SuperState {
                phase: Phase::Failed,
                running: false,
                status: KernelStatusView::Failed { error: "内核启动失败："@ + reason },
                ..s
            },
            SuperActionView::AwaitCommand,
        ),
{
}

/// Where no command has come in, a kernel that runs is watched, and where none runs the runtime is
/// sought; nothing but that changes.
pub proof fn poll_without_commands_goes_on<P>(s: SuperState<P>)
    requires
        s.phase == Phase::Polling,
    ensures
        s.running ==> supervise(s, SuperEventView::Commands(seq![])) == (
            SuperState { phase: Phase::Watching, ..s },
            SuperActionView::AwaitChild,
        ),
        !s.running ==> supervise(s, SuperEventView::Commands(seq![])) == (
            SuperState { phase: Phase::Resolving, ..s },
            SuperActionView::Resolve,
        ),
{
}

/// Of the commands that have come in the last one is obeyed, whatever stood in front of it, and
/// whether or not a kernel runs: the kernel is stopped, and all but the order to leave start afresh
/// with the whole quota, in the working directory that the command names or in the one before.
pub proof fn last_command_is_obeyed<P>(
    s: SuperState<P>,
    earlier: Seq<SuperCommand<P>>,
    command: SuperCommand<P>,
)
    requires
        s.phase == Phase::Polling,
    ensures
        ({
            let (next, action) = supervise(s, SuperEventView::Commands(earlier.push(command)));
            &&& next.status == s.status
            &&& next.port == s.port
            &&& !next.running
            &&& command is Shutdown ==> action == SuperActionView::StopAndExit && next == (SuperState {
                phase: Phase::Done,
                running: false,
                ..s
            })
            &&& !(command is Shutdown) ==> action == SuperActionView::StopAndPoll && next.phase
                == Phase::Polling && next.attempts == 0 && !next.saw_url
            &&& command is RestartNow || command is Retry ==> next.workspace == s.workspace
            &&& command matches SuperCommand::SetWorkspace(dir) ==> next.workspace == dir
        }),
{
    assert(earlier.push(command).last() == command);
}

/// A failure ends with the next command, or with the news that none will come: the application
/// leaves, or the supervisor starts afresh with the whole quota, in the working directory that the
/// command names or in the one before. What is shown stays until the kernel is started.
pub proof fn command_ends_a_failure<P>(s: SuperState<P>, command: SuperCommand<P>)
    requires
        s.phase == Phase::Failed,
    ensures
        supervise(s, SuperEventView::Waited(None)) == (
            SuperState { phase: Phase::Done, ..s },
            SuperActionView::Exit,
        ),
        ({
            let (next, action) = supervise(s, SuperEventView::Waited(Some(command)));
            &&& next.status == s.status
            &&& next.port == s.port
            &&& next.running == s.running
            &&& next.saw_url == s.saw_url
            &&& command is Shutdown ==> action == SuperActionView::Exit && next == (SuperState {
                phase: Phase::Done,
                ..s
            })
            &&& !(command is Shutdown) ==> action == SuperActionView::Poll && next.phase
                == Phase::Polling && next.attempts == 0
            &&& command is RestartNow || command is Retry ==> next.workspace == s.workspace
            &&& command matches SuperCommand::SetWorkspace(dir) ==> next.workspace == dir
        }),
{
}

/// What the supervisor does not wait for changes nothing, and it asks again for what it waits for.
pub proof fn other_events_change_nothing<P>(s: SuperState<P>, event: SuperEventView<P>)
    ensures
        s.phase == Phase::Polling && !(event is Commands) ==> supervise(s, event) == (
            s,
            SuperActionView::Poll,
        ),
        s.phase == Phase::Resolving && !(event is Resolved) ==> supervise(s, event) == (
            s,
            SuperActionView::Resolve,
        ),
        s.phase == Phase::Spawning && !(event is Spawned) ==> supervise(s, event) == (
            s,
            SuperActionView::Spawn,
        ),
        s.phase == Phase::Watching && (event is Commands || event is Resolved || event is Spawned
            || event is Waited) ==> supervise(s, event) == (s, SuperActionView::AwaitChild),
        s.phase == Phase::Done ==> supervise(s, event) == (s, SuperActionView::Exit),
{
}

/// A new supervisor beside fresh shared facts is in its initial state.
pub proof fn supervisor_starts_in_its_initial_state<P>(
    program: P,
    bundle: P,
    workspace: P,
    supervisor: Supervisor,
    shared: Shared<P>,
)
    requires
        call_ensures(Supervisor::new, (), supervisor),
        call_ensures(Shared::<P>::new, (program, bundle, workspace), shared),
    ensures
        supervisor.with(shared) == initial(workspace),
{
}

} // verus!
