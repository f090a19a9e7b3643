//! The watchdog that bounds the time of a child process.
//!
//! A child is waited for while a timer runs beside it. The waiter cancels
//! the timer when the child has exited; a timer that runs out kills the
//! child.
use crate::time::Duration;
use vstd::prelude::*;

verus! {

/// How the wait of the timer ended.
#[derive(Clone, Copy, Debug, PartialEq, Eq, Structural)]
pub enum TimerEvent {
    /// The waiter said that the child has exited.
    Cancelled,
    /// The time ran out.
    TimedOut,
    /// The waiter went away without a word.
    Disconnected,
}

/// What the timer does when its wait has ended.
#[derive(Clone, Copy, Debug, PartialEq, Eq, Structural)]
pub enum TimerAction {
    /// Nothing: the child has exited in time.
    Nothing,
    /// Kill the process.
    Kill { pid: i32 },
}

/// The waiter went away while the timer ran.
#[derive(Clone, Copy, Debug, PartialEq, Eq, Structural)]
pub struct Disconnected;

/// The timer beside one child.
#[derive(Clone, Copy, Debug, PartialEq, Eq, Structural)]
pub struct Watchdog {
    /// The process to kill.
    pub pid: i32,
    /// How long the process may run.
    pub timeout: Duration,
}

/// The process identifier that the identifier of a child stands for: the
/// same 32 bits, read as a signed number.
pub open spec fn pid_of(id: u32) -> i32 {
    if id <= 0x7fff_ffff {
        id as i32
    } else {
        (id - 0x1_0000_0000) as i32
    }
}

impl Watchdog {
    /// The timer for the child with the identifier `id`.
    pub fn new(id: u32, timeout: Duration) -> (watchdog: Watchdog)
        ensures
            watchdog.pid == pid_of(id),
            watchdog.timeout == timeout,
    {
        let pid: i32 = if id <= 0x7fff_ffff {
            id as i32
        } else {
            (id as i64 - 0x1_0000_0000i64) as i32
        };
        Watchdog { pid, timeout }
    }

    /// What the timer does when its wait has ended: nothing where the
    /// child has exited, and the kill where the time ran out. A waiter
    /// that went away is an error.
    pub fn on_event(&self, event: TimerEvent) -> (r: Result<TimerAction, Disconnected>)
        ensures
            r == match event {
                TimerEvent::Cancelled => Ok::<TimerAction, Disconnected>(TimerAction::Nothing),
                TimerEvent::TimedOut => Ok::<TimerAction, Disconnected>(
                    TimerAction::Kill { pid: self.pid },
                ),
                TimerEvent::Disconnected => Err::<TimerAction, Disconnected>(Disconnected),
            },
    {
        match event {
            TimerEvent::Cancelled => Ok(TimerAction::Nothing),
            TimerEvent::TimedOut => Ok(TimerAction::Kill { pid: self.pid }),
            TimerEvent::Disconnected => Err(Disconnected),
        }
    }
}

} // verus!
