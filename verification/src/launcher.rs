//! The steps by which a client makes sure that the proxy is running: it asks
//! the management interface, and where nothing answers it takes a lock,
//! starts the proxy and waits for it to answer.

use vstd::prelude::*;

verus! {

/// How long the whole procedure may take, in milliseconds.
pub const TIMEOUT_MS: u64 = 3000;

/// How long to wait before asking again, in milliseconds.
pub const SLEEP_MS: u64 = 500;

/// Where the procedure stands.
#[derive(Clone, Copy, Debug, PartialEq, Eq, Structural)]
pub enum LaunchState {
    /// Nothing is known of the proxy yet.
    Unknown,
    /// Nothing answered: the lock is to be taken.
    Lock,
    /// Somebody holds the lock.
    AwaitLock,
    /// The lock is taken: the proxy is to be started.
    Start,
    /// The proxy was started and has not answered yet.
    AwaitStart,
    /// The proxy answers.
    Running,
}

/// What is to be done in a state.
#[derive(Clone, Copy, Debug, PartialEq, Eq, Structural)]
pub enum LaunchStep {
    /// Ask the management interface for its services.
    Probe,
    /// Try to take the lock.
    TryLock,
    /// Nothing outside: look at the lock that this process may hold.
    Recheck,
    /// Start the proxy as a detached process.
    StartProxy,
    /// The procedure is over: the proxy is running.
    Done,
}

/// What came of asking the management interface.
#[derive(Clone, Debug, PartialEq, Eq)]
pub enum Probe {
    /// It answered.
    Up,
    /// The request could not be sent or was answered with an error.
    Unreachable,
    /// Anything else went wrong.
    Failed(String),
}

/// What came of a step.
#[derive(Clone, Debug, PartialEq, Eq)]
pub enum LaunchEvent {
    Probed(Probe),
    /// Whether the lock was taken.
    LockTried(bool),
    Rechecked,
    /// The proxy was started.
    Started,
    /// The proxy could not be started, for the given reason.
    StartFailed(String),
}

/// Why the procedure was given up.
#[derive(Clone, Debug, PartialEq, Eq)]
pub enum LaunchError {
    /// The time was up.
    TimedOut,
    /// A step failed for the given reason.
    Failed(String),
    /// The event is not one that the step of the state brings.
    Unexpected,
}

/// The procedure: its state, and whether this process holds the lock.
#[derive(Clone, Copy, Debug, PartialEq, Eq, Structural)]
pub struct Launcher {
    pub state: LaunchState,
    pub holds_lock: bool,
}

/// Whether the procedure sleeps before its next step.
#[derive(Clone, Copy, Debug, PartialEq, Eq, Structural)]
pub struct Progress {
    /// Whether to wait for [`SLEEP_MS`] before the next step.
    pub sleep: bool,
}

impl Launcher {
    /// The step of a state.
    pub open spec fn step_of(state: LaunchState) -> LaunchStep {
        match state {
            LaunchState::Unknown => LaunchStep::Probe,
            LaunchState::Lock => LaunchStep::TryLock,
            LaunchState::AwaitLock => LaunchStep::Recheck,
            LaunchState::Start => LaunchStep::StartProxy,
            LaunchState::AwaitStart => LaunchStep::Probe,
            LaunchState::Running => LaunchStep::Done,
        }
    }

    /// What an event makes of the procedure: the next state, whether the
    /// lock is held then, and whether to sleep; or the reason to give up.
    pub open spec fn after(self, event: LaunchEvent) -> Result<(Launcher, Progress), LaunchError> {
        match (self.state, event) {
            (LaunchState::Unknown, LaunchEvent::Probed(Probe::Up)) => Ok(
                (Launcher { state: LaunchState::Running, ..self }, Progress { sleep: false }),
            ),
            (LaunchState::Unknown, LaunchEvent::Probed(Probe::Unreachable)) => Ok(
                (
                    Launcher {
                        state: if self.holds_lock {
                            LaunchState::AwaitLock
                        } else {
                            LaunchState::Lock
                        },
                        ..self
                    },
                    Progress { sleep: false },
                ),
            ),
            (LaunchState::Unknown, LaunchEvent::Probed(Probe::Failed(reason))) => Err(
                LaunchError::Failed(reason),
            ),
            (LaunchState::Lock, LaunchEvent::LockTried(true)) => Ok(
                (
                    Launcher { state: LaunchState::Start, holds_lock: true },
                    Progress { sleep: false },
                ),
            ),
            (LaunchState::Lock, LaunchEvent::LockTried(false)) => Ok(
                (Launcher { state: LaunchState::AwaitLock, ..self }, Progress { sleep: false }),
            ),
            (LaunchState::AwaitLock, LaunchEvent::Rechecked) => if self.holds_lock {
                Ok((self, Progress { sleep: true }))
            } else {
                Ok((Launcher { state: LaunchState::Unknown, ..self }, Progress { sleep: false }))
            },
            (LaunchState::Start, LaunchEvent::Started) => Ok(
                (Launcher { state: LaunchState::AwaitStart, ..self }, Progress { sleep: false }),
            ),
            (LaunchState::Start, LaunchEvent::StartFailed(reason)) => Err(
                LaunchError::Failed(reason),
            ),
            (LaunchState::AwaitStart, LaunchEvent::Probed(Probe::Up)) => Ok(
                (Launcher { state: LaunchState::Running, ..self }, Progress { sleep: false }),
            ),
            (LaunchState::AwaitStart, LaunchEvent::Probed(Probe::Unreachable)) => Ok(
                (self, Progress { sleep: true }),
            ),
            (LaunchState::AwaitStart, LaunchEvent::Probed(Probe::Failed(reason))) => Err(
                LaunchError::Failed(reason),
            ),
            _ => Err(LaunchError::Unexpected),
        }
    }

    /// The procedure at its start.
    pub fn new() -> (l: Launcher)
        ensures
            l == (Launcher { state: LaunchState::Unknown, holds_lock: false }),
    {
        Launcher { state: LaunchState::Unknown, holds_lock: false }
    }

    /// What is to be done now, or that the time is up: after
    /// [`TIMEOUT_MS`] the procedure is given up, whatever its state.
    pub fn step(&self, elapsed_ms: u64) -> (r: Result<LaunchStep, LaunchError>)
        ensures
            r == if elapsed_ms >= TIMEOUT_MS {
                Err::<LaunchStep, LaunchError>(LaunchError::TimedOut)
            } else {
                Ok(Launcher::step_of(self.state))
            },
    {
        if elapsed_ms >= TIMEOUT_MS {
            return Err(LaunchError::TimedOut);
        }
        Ok(
            match self.state {
                LaunchState::Unknown => LaunchStep::Probe,
                LaunchState::Lock => LaunchStep::TryLock,
                LaunchState::AwaitLock => LaunchStep::Recheck,
                LaunchState::Start => LaunchStep::StartProxy,
                LaunchState::AwaitStart => LaunchStep::Probe,
                LaunchState::Running => LaunchStep::Done,
            },
        )
    }

    /// Takes in what came of the step. On an error the procedure stays as it
    /// was.
    pub fn advance(&mut self, event: LaunchEvent) -> (r: Result<Progress, LaunchError>)
        ensures
            match old(self).after(event) {
                Ok((next, progress)) => r == Ok::<Progress, LaunchError>(progress) && *final(self)
                    == next,
                Err(e) => r == Err::<Progress, LaunchError>(e) && *final(self) == *old(self),
            },
    {
        let (state, holds_lock, sleep) = match (self.state, event) {
            (LaunchState::Unknown, LaunchEvent::Probed(Probe::Up)) => (
                LaunchState::Running,
                self.holds_lock,
                false,
            ),
            (LaunchState::Unknown, LaunchEvent::Probed(Probe::Unreachable)) => (
                if self.holds_lock {
                    LaunchState::AwaitLock
                } else {
                    LaunchState::Lock
                },
                self.holds_lock,
                false,
            ),
            (LaunchState::Unknown, LaunchEvent::Probed(Probe::Failed(reason))) => {
                return Err(LaunchError::Failed(reason));
            },
            (LaunchState::Lock, LaunchEvent::LockTried(true)) => (LaunchState::Start, true, false),
            (LaunchState::Lock, LaunchEvent::LockTried(false)) => (
                LaunchState::AwaitLock,
                self.holds_lock,
                false,
            ),
            (LaunchState::AwaitLock, LaunchEvent::Rechecked) => if self.holds_lock {
                (LaunchState::AwaitLock, true, true)
            } else {
                (LaunchState::Unknown, false, false)
            },
            (LaunchState::Start, LaunchEvent::Started) => (
                LaunchState::AwaitStart,
                self.holds_lock,
                false,
            ),
            (LaunchState::Start, LaunchEvent::StartFailed(reason)) => {
                return Err(LaunchError::Failed(reason));
            },
            (LaunchState::AwaitStart, LaunchEvent::Probed(Probe::Up)) => (
                LaunchState::Running,
                self.holds_lock,
                false,
            ),
            (LaunchState::AwaitStart, LaunchEvent::Probed(Probe::Unreachable)) => (
                LaunchState::AwaitStart,
                self.holds_lock,
                true,
            ),
            (LaunchState::AwaitStart, LaunchEvent::Probed(Probe::Failed(reason))) => {
                return Err(LaunchError::Failed(reason));
            },
            _ => {
                return Err(LaunchError::Unexpected);
            },
        };
        self.state = state;
        self.holds_lock = holds_lock;
        Ok(Progress { sleep })
    }
}

/// The procedure never gives the lock back, and it starts the proxy only
/// while it holds the lock.
pub proof fn lemma_start_under_lock(before: Launcher, event: LaunchEvent)
    requires
        before.state == LaunchState::Start || before.state == LaunchState::AwaitStart
            ==> before.holds_lock,
    ensures
        match before.after(event) {
            Ok((next, _)) => (before.holds_lock ==> next.holds_lock) && (next.state
                == LaunchState::Start || next.state == LaunchState::AwaitStart
                ==> next.holds_lock),
            Err(_) => true,
        },
{
}

} // verus!
