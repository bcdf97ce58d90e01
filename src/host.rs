//! The decisions of the mobile activity adapter.
//!
//! The platform owns the loop: the adapter polls it for signals with a bounded
//! wait and, for each signal, does what [`on_poll`] decides.
use vstd::prelude::*;

verus! {

/// The bound on one wait for a platform signal, in milliseconds.
pub const POLL_TIMEOUT_MS: u64 = 500;

/// The lifecycle events that the adapter tells apart.
#[derive(Clone, Copy, Debug, PartialEq, Eq, Structural)]
pub enum Lifecycle {
    /// The activity is being destroyed.
    Destroy,
    /// Any other lifecycle event: logged and ignored.
    Other,
}

/// What one poll of the platform hands back.
#[derive(Clone, Copy, Debug, PartialEq, Eq, Structural)]
pub enum PollSignal {
    /// The wait was cut short.
    Wake,
    /// No event arrived within the bound.
    Timeout,
    /// A lifecycle event.
    Main(Lifecycle),
    /// Anything else.
    Other,
}

/// A line to log about a signal.
#[derive(Clone, Copy, Debug, PartialEq, Eq, Structural)]
pub enum LogNote {
    EarlyWake,
    MainEvent,
}

/// What the adapter does with one signal.
#[derive(Clone, Copy, Debug, PartialEq, Eq)]
pub struct PollStep {
    /// The line to log, if any.
    pub note: Option<LogNote>,
    /// Whether to call the shared entry function.
    pub call_entry: bool,
    /// Whether to drain the pending input events afterwards.
    pub drain_input: bool,
    /// Whether to leave the poll loop.
    pub stop: bool,
}

/// What the adapter answers the platform for an input event.
#[derive(Clone, Copy, Debug, PartialEq, Eq, Structural)]
pub enum InputVerdict {
    Handled,
    Unhandled,
}

/// Whether a signal ends the poll loop.
pub open spec fn is_destroy(s: PollSignal) -> bool {
    s matches PollSignal::Main(Lifecycle::Destroy)
}

/// Decides what to do with one polled signal: a timeout calls the shared entry
/// function, a wake or a lifecycle event is logged, a destroy event ends the
/// loop, and every other signal is followed by draining the input events.
pub fn on_poll(signal: PollSignal) -> (r: PollStep)
    ensures
        r.call_entry == (signal is Timeout),
        r.stop == is_destroy(signal),
        r.drain_input == !is_destroy(signal),
        r.note == (if signal is Wake {
            Some(LogNote::EarlyWake)
        } else if signal is Main {
            Some(LogNote::MainEvent)
        } else {
            None
        }),
{
    match signal {
        PollSignal::Wake => PollStep {
            note: Some(LogNote::EarlyWake),
            call_entry: false,
            drain_input: true,
            stop: false,
        },
        PollSignal::Timeout => PollStep { note: None, call_entry: true, drain_input: true, stop: false },
        PollSignal::Main(Lifecycle::Destroy) => PollStep {
            note: Some(LogNote::MainEvent),
            call_entry: false,
            drain_input: false,
            stop: true,
        },
        PollSignal::Main(Lifecycle::Other) => PollStep {
            note: Some(LogNote::MainEvent),
            call_entry: false,
            drain_input: true,
            stop: false,
        },
        PollSignal::Other => PollStep { note: None, call_entry: false, drain_input: true, stop: false },
    }
}

/// The answer for every drained input event: never consumed.
pub fn input_verdict() -> (r: InputVerdict)
    ensures
        r == InputVerdict::Unhandled,
{
    InputVerdict::Unhandled
}

/// The number of timeouts in a sequence of signals.
pub open spec fn timeouts(signals: Seq<PollSignal>) -> nat
    decreases signals.len(),
{
    if signals.len() == 0 {
        0
    } else {
        timeouts(signals.drop_last()) + if signals.last() is Timeout {
            1nat
        } else {
            0nat
        }
    }
}

/// The number of wake signals in a sequence of signals.
pub open spec fn wakes(signals: Seq<PollSignal>) -> nat
    decreases signals.len(),
{
    if signals.len() == 0 {
        0
    } else {
        wakes(signals.drop_last()) + if signals.last() is Wake {
            1nat
        } else {
            0nat
        }
    }
}

/// Whether a sequence of signals holds a destroy event.
pub open spec fn has_destroy(signals: Seq<PollSignal>) -> bool {
    exists|k: int| 0 <= k < signals.len() && is_destroy(#[trigger] signals[k])
}

/// How a run of the adapter over a sequence of signals ended.
#[derive(Clone, Copy, Debug, PartialEq, Eq, Structural)]
pub struct AdapterRun {
    /// The signals polled.
    pub polls: usize,
    /// The calls made to the shared entry function.
    pub entry_calls: usize,
    /// The early-wake lines logged.
    pub wake_logs: usize,
    /// Whether the loop was left on a destroy event.
    pub stopped: bool,
}

/// Runs the adapter's poll loop over `signals`, one per poll, until they run
/// out or a destroy event ends the loop.
pub fn run_adapter(signals: &Vec<PollSignal>) -> (r: AdapterRun)
    ensures
        r.polls <= signals@.len(),
        r.stopped == has_destroy(signals@),
        forall|k: int| 0 <= k < r.polls - 1 ==> !is_destroy(#[trigger] signals@[k]),
        r.stopped ==> r.polls >= 1 && is_destroy(signals@[r.polls - 1]),
        !r.stopped ==> r.polls == signals@.len(),
        r.entry_calls == timeouts(signals@.take(r.polls as int)),
        r.wake_logs == wakes(signals@.take(r.polls as int)),
{
    let mut polls: usize = 0;
    let mut entry_calls: usize = 0;
    let mut wake_logs: usize = 0;
    let mut stopped = false;
    while polls < signals.len() && !stopped
        invariant
            polls <= signals@.len(),
            entry_calls == timeouts(signals@.take(polls as int)),
            wake_logs == wakes(signals@.take(polls as int)),
            entry_calls <= polls,
            wake_logs <= polls,
            forall|k: int| 0 <= k < polls - 1 ==> !is_destroy(#[trigger] signals@[k]),
            stopped == (polls > 0 && is_destroy(signals@[polls - 1])),
        decreases signals@.len() - polls,
    {
        let step = on_poll(signals[polls]);
        proof {
            assert(signals@.take(polls + 1).drop_last() =~= signals@.take(polls as int));
        }
        if step.call_entry {
            entry_calls = entry_calls + 1;
        }
        match step.note {
            Some(LogNote::EarlyWake) => {
                wake_logs = wake_logs + 1;
            },
            _ => {},
        }
        stopped = step.stop;
        polls = polls + 1;
    }
    proof {
        if !stopped {
            assert forall|k: int| 0 <= k < signals@.len() implies !is_destroy(
                #[trigger] signals@[k],
            ) by {
                if k < polls - 1 {
                }
            }
        }
    }
    AdapterRun { polls, entry_calls, wake_logs, stopped }
}

} // verus!
