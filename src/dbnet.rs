//! The decisions of the connection acceptor and of each connection
//! handler; the sockets, timers and tasks that carry them out live outside
//! the library.

use vstd::prelude::*;

verus! {

/// The longest wait between two tries of `accept`, in seconds.
pub const MAX_BACKOFF: u64 = 64;

/// What to do after a failed `accept`.
#[derive(PartialEq, Eq, Structural, Clone, Copy, Debug)]
pub enum Backoff {
    /// Wait `delay` seconds, try again, and use `next` after a further failure.
    Retry { delay: u64, next: u64 },
    /// Too many failures: hand the error up.
    GiveUp,
}

/// After a failure with the current wait `backoff`: wait that long and double
/// it, unless it is already past the longest wait.
pub fn backoff_after_failure(backoff: u64) -> (r: Backoff)
    ensures
        backoff > MAX_BACKOFF ==> r == Backoff::GiveUp,
        backoff <= MAX_BACKOFF ==> r == (Backoff::Retry { delay: backoff, next: (2 * backoff) as u64 }),
{
    if backoff > MAX_BACKOFF {
        Backoff::GiveUp
    } else {
        Backoff::Retry { delay: backoff, next: backoff * 2 }
    }
}

/// The wait before the try that follows the `k`-th consecutive failure,
/// counting from 0, when the first wait is one second.
pub open spec fn wait_after(k: nat) -> nat
    decreases k,
{
    if k == 0 {
        1
    } else {
        2 * wait_after((k - 1) as nat)
    }
}

/// Starting from a one-second wait, the first seven consecutive failures are
/// retried after 1, 2, 4, ..., 64 seconds, and the eighth gives up.
pub proof fn lemma_backoff_gives_up_after_seven(k: nat)
    ensures
        k < 7 ==> wait_after(k) <= MAX_BACKOFF,
        k == 7 ==> wait_after(k) > MAX_BACKOFF,
        k == 6 ==> wait_after(k) == MAX_BACKOFF,
{
    reveal_with_fuel(wait_after, 8);
}

/// What woke a connection handler.
#[derive(PartialEq, Eq, Structural, Clone, Copy, Debug)]
pub enum ConnEvent {
    /// A query was decoded.
    Query,
    /// The decoder failed.
    DecodeError,
    /// The shutdown signal fired.
    Shutdown,
}

/// What a connection handler does next.
#[derive(PartialEq, Eq, Structural, Clone, Copy, Debug)]
pub enum ConnAction {
    /// Run the query, flush the stream and read again.
    Execute,
    /// Send the decoder's error to the client and stop.
    CloseWithError,
    /// Stop at once.
    Stop,
}

/// The next action of a connection handler. Once shutdown has been seen it
/// stops, whatever else arrives.
pub fn next_action(terminated: bool, ev: ConnEvent) -> (r: ConnAction)
    ensures
        terminated || ev == ConnEvent::Shutdown ==> r == ConnAction::Stop,
        !terminated && ev == ConnEvent::Query ==> r == ConnAction::Execute,
        !terminated && ev == ConnEvent::DecodeError ==> r == ConnAction::CloseWithError,
{
    if terminated {
        return ConnAction::Stop;
    }
    match ev {
        ConnEvent::Query => ConnAction::Execute,
        ConnEvent::DecodeError => ConnAction::CloseWithError,
        ConnEvent::Shutdown => ConnAction::Stop,
    }
}

} // verus!
