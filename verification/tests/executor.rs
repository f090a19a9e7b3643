use liboj::executor::{Disconnected, TimerAction, TimerEvent, Watchdog};
use liboj::Duration;

#[test]
fn watchdog_kills_only_on_timeout() {
    let watchdog = Watchdog::new(4321, Duration::from_secs(5));
    assert_eq!(watchdog.pid, 4321);
    assert_eq!(watchdog.timeout, Duration::from_secs(5));
    assert_eq!(watchdog.on_event(TimerEvent::Cancelled), Ok(TimerAction::Nothing));
    assert_eq!(watchdog.on_event(TimerEvent::TimedOut), Ok(TimerAction::Kill { pid: 4321 }));
    assert_eq!(watchdog.on_event(TimerEvent::Disconnected), Err(Disconnected));
}

#[test]
fn watchdog_pid_keeps_the_bits_of_the_id() {
    assert_eq!(Watchdog::new(0, Duration::from_secs(0)).pid, 0);
    assert_eq!(Watchdog::new(0x7fff_ffff, Duration::from_secs(0)).pid, i32::MAX);
    assert_eq!(Watchdog::new(0x8000_0000, Duration::from_secs(0)).pid, i32::MIN);
    assert_eq!(Watchdog::new(u32::MAX, Duration::from_secs(0)).pid, -1);
    assert_eq!(Watchdog::new(70_000, Duration::from_secs(0)).pid, 70_000u32 as i32);
}
