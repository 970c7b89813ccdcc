use dsh_desktop::server::{KernelStatus, Shared};
use dsh_desktop::supervisor::{Phase, SuperAction, SuperCommand, SuperEvent, Supervisor};
use dsh_desktop::watchdog::{terminate_command, WatchAction, WatchEvent, Watchdog};

type Event = SuperEvent<&'static str>;

fn fresh() -> (Supervisor, Shared<&'static str>) {
    (Supervisor::new(), Shared::new("program", "bundle", "home"))
}

fn start(supervisor: &mut Supervisor, shared: &mut Shared<&'static str>) {
    assert!(matches!(supervisor.step(shared, Event::Commands(vec![])), SuperAction::Resolve));
    assert!(matches!(supervisor.step(shared, Event::Resolved(Ok(()))), SuperAction::Spawn));
    assert!(matches!(supervisor.step(shared, Event::Spawned(Ok(()))), SuperAction::Poll));
    assert!(matches!(supervisor.step(shared, Event::Commands(vec![])), SuperAction::AwaitChild));
}

#[test]
fn kernel_becomes_ready() {
    let (mut supervisor, mut shared) = fresh();
    start(&mut supervisor, &mut shared);
    assert_eq!(shared.status, KernelStatus::Starting { attempt: 0 });
    let url = Event::Url { port: 3080, http_ok: false };
    assert!(matches!(supervisor.step(&mut shared, url), SuperAction::Poll));
    assert_eq!(shared.port, None);
    supervisor.step(&mut shared, Event::Commands(vec![]));
    match supervisor.step(&mut shared, Event::Url { port: 3080, http_ok: true }) {
        SuperAction::OpenWindow { url } => assert_eq!(url, "http://127.0.0.1:3080/"),
        _ => panic!("the window should open"),
    }
    assert_eq!(shared.port, Some(3080));
    assert_eq!(
        shared.status,
        KernelStatus::Ready { url: "http://127.0.0.1:3080/".to_string() }
    );
}

#[test]
fn crashes_are_restarted_three_times() {
    let (mut supervisor, mut shared) = fresh();
    start(&mut supervisor, &mut shared);
    for (attempt, delay) in [(1u32, 1u64), (2, 2), (3, 4)] {
        match supervisor.step(&mut shared, Event::Exit(Some(1))) {
            SuperAction::CloseWindowAndSleep { secs } => assert_eq!(secs, delay),
            _ => panic!("the kernel should be restarted"),
        }
        assert_eq!(shared.status, KernelStatus::Restarting { attempt });
        start(&mut supervisor, &mut shared);
        assert_eq!(shared.status, KernelStatus::Restarting { attempt });
    }
    assert!(matches!(
        supervisor.step(&mut shared, Event::Exit(Some(-9))),
        SuperAction::CloseWindowAndAwaitCommand
    ));
    assert_eq!(
        shared.status,
        KernelStatus::Failed { error: "内核已退出（code=-9），自动重启 3 次未恢复。".to_string() }
    );
    assert!(matches!(
        supervisor.step(&mut shared, Event::Waited(Some(SuperCommand::Retry))),
        SuperAction::Poll
    ));
    start(&mut supervisor, &mut shared);
    assert_eq!(shared.status, KernelStatus::Starting { attempt: 0 });
}

#[test]
fn exit_without_code_is_told() {
    let (mut supervisor, mut shared) = fresh();
    start(&mut supervisor, &mut shared);
    supervisor.attempts = 3;
    supervisor.step(&mut shared, Event::Exit(None));
    assert_eq!(
        shared.status,
        KernelStatus::Failed { error: "内核已退出（code=无），自动重启 3 次未恢复。".to_string() }
    );
}

#[test]
fn silent_kernel_times_out() {
    let (mut supervisor, mut shared) = fresh();
    start(&mut supervisor, &mut shared);
    let limit = 90_000_000_000u128;
    assert!(matches!(
        supervisor.step(&mut shared, Event::Timeout { elapsed_nanos: limit }),
        SuperAction::Poll
    ));
    supervisor.step(&mut shared, Event::Commands(vec![]));
    match supervisor.step(&mut shared, Event::Timeout { elapsed_nanos: limit + 1 }) {
        SuperAction::StopAndSleep { secs } => assert_eq!(secs, 1),
        _ => panic!("the kernel should be stopped"),
    }
    start(&mut supervisor, &mut shared);
    supervisor.attempts = 3;
    assert!(matches!(
        supervisor.step(&mut shared, Event::Timeout { elapsed_nanos: limit + 1 }),
        SuperAction::StopAndAwaitCommand
    ));
    assert_eq!(
        shared.status,
        KernelStatus::Failed { error: "内核启动超时（90s 未就绪）。".to_string() }
    );
}

#[test]
fn ready_kernel_may_be_silent() {
    let (mut supervisor, mut shared) = fresh();
    start(&mut supervisor, &mut shared);
    supervisor.step(&mut shared, Event::Url { port: 1, http_ok: true });
    supervisor.step(&mut shared, Event::Commands(vec![]));
    assert!(matches!(
        supervisor.step(&mut shared, Event::Timeout { elapsed_nanos: u128::MAX }),
        SuperAction::Poll
    ));
    assert!(supervisor.running);
}

#[test]
fn readiness_gives_the_quota_back() {
    let (mut supervisor, mut shared) = fresh();
    start(&mut supervisor, &mut shared);
    supervisor.step(&mut shared, Event::Exit(None));
    start(&mut supervisor, &mut shared);
    assert_eq!(supervisor.attempts, 1);
    supervisor.step(&mut shared, Event::Url { port: 1, http_ok: true });
    assert_eq!(supervisor.attempts, 0);
}

#[test]
fn failures_to_start_are_told() {
    let (mut supervisor, mut shared) = fresh();
    supervisor.step(&mut shared, Event::Commands(vec![]));
    assert!(matches!(
        supervisor.step(&mut shared, Event::Resolved(Err("gone".to_string()))),
        SuperAction::AwaitCommand
    ));
    assert_eq!(
        shared.status,
        KernelStatus::Failed { error: "运行时定位失败：gone".to_string() }
    );
    assert!(matches!(
        supervisor.step(&mut shared, Event::Waited(Some(SuperCommand::RestartNow))),
        SuperAction::Poll
    ));
    supervisor.step(&mut shared, Event::Commands(vec![]));
    supervisor.step(&mut shared, Event::Resolved(Ok(())));
    assert!(matches!(
        supervisor.step(&mut shared, Event::Spawned(Err("denied".to_string()))),
        SuperAction::AwaitCommand
    ));
    assert_eq!(
        shared.status,
        KernelStatus::Failed { error: "内核启动失败：denied".to_string() }
    );
    assert!(matches!(
        supervisor.step(&mut shared, Event::Exit(None)),
        SuperAction::AwaitCommand
    ));
    assert!(matches!(supervisor.step(&mut shared, Event::Waited(None)), SuperAction::Exit));
    assert_eq!(supervisor.phase, Phase::Done);
}

#[test]
fn last_command_counts() {
    let (mut supervisor, mut shared) = fresh();
    start(&mut supervisor, &mut shared);
    supervisor.step(&mut shared, Event::Disconnected);
    assert!(!supervisor.running);
    let commands = vec![SuperCommand::Shutdown, SuperCommand::SetWorkspace("work")];
    assert!(matches!(
        supervisor.step(&mut shared, Event::Commands(commands)),
        SuperAction::StopAndPoll
    ));
    assert_eq!(shared.workspace, "work");
    let commands = vec![SuperCommand::Retry, SuperCommand::Shutdown];
    assert!(matches!(
        supervisor.step(&mut shared, Event::Commands(commands)),
        SuperAction::StopAndExit
    ));
    assert!(matches!(
        supervisor.step(&mut shared, Event::Commands(vec![])),
        SuperAction::Exit
    ));
}

#[test]
fn workspace_is_taken_over_after_a_failure() {
    let (mut supervisor, mut shared) = fresh();
    supervisor.step(&mut shared, Event::Commands(vec![]));
    supervisor.step(&mut shared, Event::Resolved(Err("gone".to_string())));
    let command = SuperCommand::SetWorkspace("work");
    assert!(matches!(
        supervisor.step(&mut shared, Event::Waited(Some(command))),
        SuperAction::Poll
    ));
    assert_eq!(shared.workspace, "work");
}

#[test]
fn watchdog_asks_before_it_forces() {
    let mut dog = Watchdog::new();
    assert_eq!(dog.step(WatchEvent::StopFlag(false)), WatchAction::Look);
    let alive = |nanos: u128| WatchEvent::Alive { since_stop_nanos: nanos };
    assert_eq!(dog.step(alive(0)), WatchAction::SleepAndCheck { millis: 150 });
    assert_eq!(dog.step(WatchEvent::StopFlag(true)), WatchAction::Terminate);
    assert_eq!(dog.step(alive(4_999_999_999)), WatchAction::SleepAndLook { millis: 100 });
    assert_eq!(dog.step(alive(5_000_000_000)), WatchAction::KillAndReport);
    assert_eq!(dog.step(alive(6_000_000_000)), WatchAction::Rest);
}

#[test]
fn watchdog_reports_the_end() {
    let mut dog = Watchdog::new();
    dog.step(WatchEvent::StopFlag(false));
    assert_eq!(dog.step(WatchEvent::Left(Some(3))), WatchAction::Report(Some(3)));
    let mut dog = Watchdog::new();
    dog.step(WatchEvent::StopFlag(false));
    assert_eq!(dog.step(WatchEvent::Unknown), WatchAction::Report(None));
    let mut dog = Watchdog::new();
    dog.step(WatchEvent::StopFlag(true));
    assert_eq!(dog.step(WatchEvent::Left(None)), WatchAction::Report(None));
    let mut dog = Watchdog::new();
    assert_eq!(dog.step(WatchEvent::Unknown), WatchAction::CheckStop);
}

#[test]
fn processes_are_asked_to_leave() {
    assert_eq!(terminate_command(false, 42), vec!["kill", "-TERM", "42"]);
    assert_eq!(terminate_command(true, 42), vec!["taskkill", "/PID", "42", "/T"]);
}
