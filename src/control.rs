//! The control-flow policy of the application's event loop.
//!
//! The loop itself (window, platform events, redraw requests) is driven from
//! outside; this module decides, for each event, what the loop does next.
use vstd::prelude::*;

verus! {

/// The two states of the event loop: `Running` is initial, `Exiting` terminal.
#[derive(Clone, Copy, Debug, PartialEq, Eq, Structural)]
pub enum ControlState {
    Running,
    Exiting,
}

/// The policy installed when the loop starts and held for its lifetime.
#[derive(Clone, Copy, Debug, PartialEq, Eq, Structural)]
pub enum FlowMode {
    /// Re-enter the loop at once, whether or not events are pending.
    Poll,
    /// Sleep until the next event arrives.
    Wait,
}

/// What the event loop is told to do after an iteration.
#[derive(Clone, Copy, Debug, PartialEq, Eq, Structural)]
pub enum ControlFlowSetting {
    Poll,
    Wait,
    Exit,
}

/// The event kinds that the loop tells apart.
#[derive(Clone, Copy, Debug, PartialEq, Eq, Structural)]
pub enum LoopEvent {
    /// The window was asked to close (close button, the system ending the app).
    CloseRequested,
    /// One full pass over the pending events has ended.
    MainEventsCleared,
    /// The window is to be drawn.
    RedrawRequested,
    /// Any other event: ignored.
    Other,
}

/// The side effect that handling one event asks for.
#[derive(Clone, Copy, Debug, PartialEq, Eq, Structural)]
pub enum LoopAction {
    Nothing,
    /// Schedule a redraw for the next cycle.
    RequestRedraw,
    /// Leave the loop after this iteration.
    Exit,
}

/// The state after one event.
pub open spec fn next_state(s: ControlState, e: LoopEvent) -> ControlState {
    match s {
        ControlState::Exiting => ControlState::Exiting,
        ControlState::Running => if e is CloseRequested {
            ControlState::Exiting
        } else {
            ControlState::Running
        },
    }
}

/// The side effect of one event in a given state.
pub open spec fn action_of(s: ControlState, e: LoopEvent) -> LoopAction {
    match s {
        ControlState::Exiting => LoopAction::Nothing,
        ControlState::Running => match e {
            LoopEvent::CloseRequested => LoopAction::Exit,
            LoopEvent::MainEventsCleared => LoopAction::RequestRedraw,
            _ => LoopAction::Nothing,
        },
    }
}

/// The setting the loop runs under in a given state.
pub open spec fn flow_of(mode: FlowMode, s: ControlState) -> ControlFlowSetting {
    match s {
        ControlState::Exiting => ControlFlowSetting::Exit,
        ControlState::Running => match mode {
            FlowMode::Poll => ControlFlowSetting::Poll,
            FlowMode::Wait => ControlFlowSetting::Wait,
        },
    }
}

/// The state reached from `s` by a sequence of events.
pub open spec fn state_after(s: ControlState, events: Seq<LoopEvent>) -> ControlState
    decreases events.len(),
{
    if events.len() == 0 {
        s
    } else {
        next_state(state_after(s, events.drop_last()), events.last())
    }
}

/// The number of redraws scheduled from `s` by a sequence of events.
pub open spec fn redraws_after(s: ControlState, events: Seq<LoopEvent>) -> nat
    decreases events.len(),
{
    if events.len() == 0 {
        0
    } else {
        redraws_after(s, events.drop_last()) + if action_of(
            state_after(s, events.drop_last()),
            events.last(),
        ) is RequestRedraw {
            1nat
        } else {
            0nat
        }
    }
}

/// Whether a sequence holds a close request.
pub open spec fn has_close(events: Seq<LoopEvent>) -> bool {
    exists|k: int| 0 <= k < events.len() && (#[trigger] events[k]) is CloseRequested
}

/// The loop's state and installed policy.
#[derive(Clone, Copy, Debug, PartialEq, Eq, Structural)]
pub struct Bootstrap {
    pub mode: FlowMode,
    pub state: ControlState,
}

impl Bootstrap {
    /// A running loop under continuous polling.
    pub fn new() -> (r: Bootstrap)
        ensures
            r.mode == FlowMode::Poll,
            r.state == ControlState::Running,
    {
        Bootstrap { mode: FlowMode::Poll, state: ControlState::Running }
    }

    /// A running loop under the given policy.
    pub fn with_mode(mode: FlowMode) -> (r: Bootstrap)
        ensures
            r.mode == mode,
            r.state == ControlState::Running,
    {
        Bootstrap { mode, state: ControlState::Running }
    }

    /// Handles one event: updates the state and returns the side effect to perform.
    pub fn handle(&mut self, event: LoopEvent) -> (a: LoopAction)
        ensures
            final(self).mode == old(self).mode,
            final(self).state == next_state(old(self).state, event),
            a == action_of(old(self).state, event),
    {
        match self.state {
            ControlState::Exiting => LoopAction::Nothing,
            ControlState::Running => match event {
                LoopEvent::CloseRequested => {
                    self.state = ControlState::Exiting;
                    LoopAction::Exit
                },
                LoopEvent::MainEventsCleared => LoopAction::RequestRedraw,
                LoopEvent::RedrawRequested => LoopAction::Nothing,
                LoopEvent::Other => LoopAction::Nothing,
            },
        }
    }

    /// The setting the loop is to run under now.
    pub fn control_flow(&self) -> (c: ControlFlowSetting)
        ensures
            c == flow_of(self.mode, self.state),
    {
        match self.state {
            ControlState::Exiting => ControlFlowSetting::Exit,
            ControlState::Running => match self.mode {
                FlowMode::Poll => ControlFlowSetting::Poll,
                FlowMode::Wait => ControlFlowSetting::Wait,
            },
        }
    }

    /// Whether the loop has seen a close request.
    pub fn is_exiting(&self) -> (r: bool)
        ensures
            r == (self.state == ControlState::Exiting),
    {
        match self.state {
            ControlState::Exiting => true,
            ControlState::Running => false,
        }
    }
}

/// How a bounded run of the loop over a sequence of events ended.
#[derive(Clone, Copy, Debug, PartialEq, Eq, Structural)]
pub struct RunSummary {
    /// The state after the last event handled.
    pub final_state: ControlState,
    /// The redraws scheduled during the run.
    pub redraws: usize,
    /// The events handled: all of them, or those up to and including the first close request.
    pub consumed: usize,
}

/// Runs a fresh loop under continuous polling over `events`, in order, until
/// the events run out or the loop exits after a close request.
pub fn run_events(events: &Vec<LoopEvent>) -> (r: RunSummary)
    ensures
        r.final_state == state_after(ControlState::Running, events@),
        r.redraws == redraws_after(ControlState::Running, events@),
        r.consumed <= events@.len(),
        forall|k: int| 0 <= k < r.consumed - 1 ==> !((#[trigger] events@[k]) is CloseRequested),
        has_close(events@) ==> r.consumed >= 1 && events@[r.consumed - 1] is CloseRequested,
        !has_close(events@) ==> r.consumed == events@.len(),
{
    let mut b = Bootstrap::new();
    let mut redraws: usize = 0;
    let mut i: usize = 0;
    while i < events.len() && !b.is_exiting()
        invariant
            i <= events@.len(),
            b.mode == FlowMode::Poll,
            b.state == state_after(ControlState::Running, events@.take(i as int)),
            redraws == redraws_after(ControlState::Running, events@.take(i as int)),
            redraws <= i,
            forall|k: int| 0 <= k < i - 1 ==> !((#[trigger] events@[k]) is CloseRequested),
            b.state == ControlState::Running ==> (i == 0 || !(events@[i - 1] is CloseRequested)),
            b.state == ControlState::Exiting ==> (i > 0 && events@[i - 1] is CloseRequested),
        decreases events@.len() - i,
    {
        let a = b.handle(events[i]);
        proof {
            assert(events@.take(i + 1).drop_last() =~= events@.take(i as int));
        }
        match a {
            LoopAction::RequestRedraw => {
                redraws = redraws + 1;
            },
            _ => {},
        }
        i = i + 1;
    }
    proof {
        if b.state == ControlState::Exiting {
            let k = i - 1;
            assert(has_close(events@));
            lemma_no_redraw_after_close(ControlState::Running, events@, k);
            assert(events@.take(i as int).take(k) =~= events@.take(k));
            lemma_no_redraw_after_close(ControlState::Running, events@.take(i as int), k);
        } else {
            assert(events@.take(i as int) =~= events@);
            assert forall|k: int| 0 <= k < events@.len() implies !(#[trigger] events@[k] is CloseRequested) by {
                if k == i - 1 {
                } else {
                    assert(k < i - 1);
                }
            }
        }
    }
    RunSummary { final_state: b.state, redraws, consumed: i }
}

/// Once the loop is exiting, further events leave it exiting and schedule no redraw.
proof fn lemma_exiting_absorbs(s: ControlState, events: Seq<LoopEvent>, i: int, j: int)
    requires
        0 <= i <= j <= events.len(),
        state_after(s, events.take(i)) == ControlState::Exiting,
    ensures
        state_after(s, events.take(j)) == ControlState::Exiting,
        redraws_after(s, events.take(j)) == redraws_after(s, events.take(i)),
    decreases j - i,
{
    if j > i {
        lemma_exiting_absorbs(s, events, i, j - 1);
        assert(events.take(j).drop_last() =~= events.take(j - 1));
    }
}

/// After a close request no further redraw is scheduled: whatever follows the
/// close request at `k`, the loop ends exiting, with the redraws that the
/// events before `k` scheduled.
pub proof fn lemma_no_redraw_after_close(s: ControlState, events: Seq<LoopEvent>, k: int)
    requires
        0 <= k < events.len(),
        events[k] is CloseRequested,
    ensures
        state_after(s, events) == ControlState::Exiting,
        redraws_after(s, events) == redraws_after(s, events.take(k)),
{
    assert(events.take(k + 1).drop_last() =~= events.take(k));
    assert(events.take(k + 1).last() == events[k]);
    lemma_exiting_absorbs(s, events, k + 1, events.len() as int);
    assert(events.take(events.len() as int) =~= events);
}

/// The loop leaves `Running` exactly when the events delivered hold a close
/// request: any sequence of other events, in any order and number, leaves it
/// running.
pub proof fn lemma_exits_only_on_close(events: Seq<LoopEvent>)
    ensures
        (state_after(ControlState::Running, events) == ControlState::Exiting) == has_close(events),
    decreases events.len(),
{
    if events.len() > 0 {
        let front = events.drop_last();
        lemma_exits_only_on_close(front);
        if has_close(front) {
            let k = choose|k: int| 0 <= k < front.len() && (#[trigger] front[k]) is CloseRequested;
            assert(events[k] is CloseRequested);
        }
        if has_close(events) {
            let k = choose|k: int| 0 <= k < events.len() && (#[trigger] events[k]) is CloseRequested;
            if k < front.len() {
                assert(front[k] is CloseRequested);
            }
        }
        if events.last() is CloseRequested {
            assert(events[events.len() - 1] is CloseRequested);
        }
    }
}

} // verus!
