//! The heartbeat that a service owes its watchdog: how often to send it, and
//! when to give up. The signals themselves and the waiting are the caller's.

use vstd::prelude::*;

verus! {

/// The seconds by which a heartbeat comes before the watchdog's timeout.
pub const HEARTBEAT_MARGIN_SECS: u64 = 10;

/// A watchdog whose timeout is not longer than this is not served.
pub const SHORTEST_TIMEOUT_SECS: u64 = 15;

/// What the heartbeat does next.
#[derive(Clone, Copy, Debug, PartialEq, Eq, Structural)]
pub enum Heartbeat {
    /// Send no signal, now or later.
    Stop,
    /// Send a signal, then wait this many seconds.
    Beat { wait_secs: u64 },
}

/// The seconds between two signals for a watchdog with this timeout, or
/// `None` where the timeout is too short.
pub fn heartbeat_interval(timeout_secs: u64) -> (r: Option<u64>)
    ensures
        r == if timeout_secs <= SHORTEST_TIMEOUT_SECS {
            None
        } else {
            Some((timeout_secs - HEARTBEAT_MARGIN_SECS) as u64)
        },
{
    if timeout_secs <= SHORTEST_TIMEOUT_SECS {
        None
    } else {
        Some(timeout_secs - HEARTBEAT_MARGIN_SECS)
    }
}

/// The first step: none where the system was not booted by the service
/// manager, where no watchdog is set, or where its timeout is too short.
pub fn start(booted: bool, watchdog_timeout_secs: Option<u64>) -> (r: Heartbeat)
    ensures
        r == match watchdog_timeout_secs {
            Some(t) if booted && t > SHORTEST_TIMEOUT_SECS => Heartbeat::Beat {
                wait_secs: (t - HEARTBEAT_MARGIN_SECS) as u64,
            },
            _ => Heartbeat::Stop,
        },
{
    if !booted {
        return Heartbeat::Stop;
    }
    match watchdog_timeout_secs {
        Some(t) => match heartbeat_interval(t) {
            Some(wait_secs) => Heartbeat::Beat { wait_secs },
            None => Heartbeat::Stop,
        },
        None => Heartbeat::Stop,
    }
}

/// The step after a signal: the same again where it was delivered, none
/// where it was not.
pub fn after_signal(delivered: bool, wait_secs: u64) -> (r: Heartbeat)
    ensures
        r == if delivered {
            Heartbeat::Beat { wait_secs }
        } else {
            Heartbeat::Stop
        },
{
    if delivered {
        Heartbeat::Beat { wait_secs }
    } else {
        Heartbeat::Stop
    }
}

} // verus!
