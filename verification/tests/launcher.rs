use ya_http_proxy::lock::{with_lock_ext, LOCK_FILE_EXT};
use ya_http_proxy::launcher::{
    LaunchError, LaunchEvent, LaunchState, LaunchStep, Launcher, Probe, Progress, SLEEP_MS,
    TIMEOUT_MS,
};

fn go(launcher: &mut Launcher, event: LaunchEvent) -> Progress {
    launcher.advance(event).expect("advance")
}

#[test]
fn a_running_proxy_is_found_at_once() {
    let mut launcher = Launcher::new();
    assert_eq!(launcher.step(0), Ok(LaunchStep::Probe));
    assert_eq!(go(&mut launcher, LaunchEvent::Probed(Probe::Up)), Progress { sleep: false });
    assert_eq!(launcher.state, LaunchState::Running);
    assert_eq!(launcher.step(10), Ok(LaunchStep::Done));
}

#[test]
fn the_proxy_is_started_under_the_lock() {
    let mut launcher = Launcher::new();
    go(&mut launcher, LaunchEvent::Probed(Probe::Unreachable));
    assert_eq!(launcher.step(1), Ok(LaunchStep::TryLock));
    go(&mut launcher, LaunchEvent::LockTried(true));
    assert!(launcher.holds_lock);
    assert_eq!(launcher.step(2), Ok(LaunchStep::StartProxy));
    go(&mut launcher, LaunchEvent::Started);
    assert_eq!(launcher.step(3), Ok(LaunchStep::Probe));
    assert_eq!(go(&mut launcher, LaunchEvent::Probed(Probe::Unreachable)), Progress { sleep: true });
    assert_eq!(launcher.state, LaunchState::AwaitStart);
    assert_eq!(go(&mut launcher, LaunchEvent::Probed(Probe::Up)), Progress { sleep: false });
    assert_eq!(launcher.state, LaunchState::Running);
}

#[test]
fn a_lock_held_elsewhere_is_waited_for() {
    let mut launcher = Launcher::new();
    go(&mut launcher, LaunchEvent::Probed(Probe::Unreachable));
    go(&mut launcher, LaunchEvent::LockTried(false));
    assert_eq!(launcher.state, LaunchState::AwaitLock);
    assert_eq!(launcher.step(5), Ok(LaunchStep::Recheck));
    // this process does not hold the lock: ask again
    assert_eq!(go(&mut launcher, LaunchEvent::Rechecked), Progress { sleep: false });
    assert_eq!(launcher.state, LaunchState::Unknown);
    // a process that holds the lock itself sleeps
    let mut holder = Launcher { state: LaunchState::AwaitLock, holds_lock: true };
    assert_eq!(go(&mut holder, LaunchEvent::Rechecked), Progress { sleep: true });
    assert_eq!(holder.state, LaunchState::AwaitLock);
    let mut unknown = Launcher { state: LaunchState::Unknown, holds_lock: true };
    go(&mut unknown, LaunchEvent::Probed(Probe::Unreachable));
    assert_eq!(unknown.state, LaunchState::AwaitLock);
}

#[test]
fn failures_and_time() {
    assert_eq!(TIMEOUT_MS, 3000);
    assert_eq!(SLEEP_MS, 500);
    let mut launcher = Launcher::new();
    assert_eq!(launcher.step(2999), Ok(LaunchStep::Probe));
    assert_eq!(launcher.step(3000), Err(LaunchError::TimedOut));
    assert_eq!(
        launcher.advance(LaunchEvent::Probed(Probe::Failed("bad json".to_string()))),
        Err(LaunchError::Failed("bad json".to_string()))
    );
    assert_eq!(launcher.state, LaunchState::Unknown);
    assert_eq!(launcher.advance(LaunchEvent::Started), Err(LaunchError::Unexpected));
    let mut starting = Launcher { state: LaunchState::Start, holds_lock: true };
    assert_eq!(
        starting.advance(LaunchEvent::StartFailed("unable to find proxy binary".to_string())),
        Err(LaunchError::Failed("unable to find proxy binary".to_string()))
    );
    assert_eq!(starting.state, LaunchState::Start);
    let mut done = Launcher { state: LaunchState::Running, holds_lock: false };
    assert_eq!(done.advance(LaunchEvent::Probed(Probe::Up)), Err(LaunchError::Unexpected));
}

#[test]
fn lock_file_paths() {
    assert_eq!(LOCK_FILE_EXT, ".lock");
    assert_eq!(with_lock_ext("/tmp/proxy.lock"), "/tmp/proxy.lock/.lock");
    assert_eq!(with_lock_ext("/tmp/"), "/tmp/.lock");
    assert_eq!(with_lock_ext("relative"), "relative/.lock");
    assert_eq!(with_lock_ext(""), ".lock");
    assert_eq!(with_lock_ext("/tmp/proxy"), "/tmp/proxy/.lock");
    for path in ["/any/where", "a", "/", "dir/", ""] {
        let locked = with_lock_ext(path);
        assert!(locked.starts_with(path));
        assert!(locked.ends_with(".lock"));
        assert!(locked.len() <= path.len() + 1 + LOCK_FILE_EXT.len());
        assert!(locked.len() >= path.len() + LOCK_FILE_EXT.len());
    }
}
