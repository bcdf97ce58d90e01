use shared::control::{
    run_events, Bootstrap, ControlFlowSetting, ControlState, FlowMode, LoopAction, LoopEvent,
};

#[test]
fn cleared_redraw_cleared_close_exits_after_two_redraws() {
    let events = vec![
        LoopEvent::MainEventsCleared,
        LoopEvent::RedrawRequested,
        LoopEvent::MainEventsCleared,
        LoopEvent::CloseRequested,
    ];
    let r = run_events(&events);
    assert_eq!(r.final_state, ControlState::Exiting);
    assert_eq!(r.redraws, 2);
    assert_eq!(r.consumed, 4);
}

#[test]
fn non_close_events_leave_loop_running() {
    let events = vec![
        LoopEvent::Other,
        LoopEvent::RedrawRequested,
        LoopEvent::MainEventsCleared,
        LoopEvent::MainEventsCleared,
        LoopEvent::Other,
        LoopEvent::RedrawRequested,
    ];
    let r = run_events(&events);
    assert_eq!(r.final_state, ControlState::Running);
    assert_eq!(r.redraws, 2);
    assert_eq!(r.consumed, 6);
}

#[test]
fn empty_run_stays_running() {
    let r = run_events(&Vec::new());
    assert_eq!(r.final_state, ControlState::Running);
    assert_eq!(r.redraws, 0);
    assert_eq!(r.consumed, 0);
}

#[test]
fn events_after_close_schedule_no_redraw() {
    let events = vec![
        LoopEvent::MainEventsCleared,
        LoopEvent::CloseRequested,
        LoopEvent::MainEventsCleared,
        LoopEvent::MainEventsCleared,
    ];
    let r = run_events(&events);
    assert_eq!(r.final_state, ControlState::Exiting);
    assert_eq!(r.redraws, 1);
    assert_eq!(r.consumed, 2);
}

#[test]
fn close_first_schedules_nothing() {
    let events = vec![LoopEvent::CloseRequested, LoopEvent::MainEventsCleared];
    let r = run_events(&events);
    assert_eq!(r.final_state, ControlState::Exiting);
    assert_eq!(r.redraws, 0);
    assert_eq!(r.consumed, 1);
}

#[test]
fn handle_maps_each_event() {
    let mut b = Bootstrap::new();
    assert_eq!(b.mode, FlowMode::Poll);
    assert_eq!(b.state, ControlState::Running);
    assert_eq!(b.handle(LoopEvent::MainEventsCleared), LoopAction::RequestRedraw);
    assert_eq!(b.handle(LoopEvent::RedrawRequested), LoopAction::Nothing);
    assert_eq!(b.handle(LoopEvent::Other), LoopAction::Nothing);
    assert!(!b.is_exiting());
    assert_eq!(b.control_flow(), ControlFlowSetting::Poll);
    assert_eq!(b.handle(LoopEvent::CloseRequested), LoopAction::Exit);
    assert!(b.is_exiting());
    assert_eq!(b.state, ControlState::Exiting);
    assert_eq!(b.control_flow(), ControlFlowSetting::Exit);
}

#[test]
fn exiting_loop_ignores_everything() {
    let mut b = Bootstrap::new();
    b.handle(LoopEvent::CloseRequested);
    assert_eq!(b.handle(LoopEvent::MainEventsCleared), LoopAction::Nothing);
    assert_eq!(b.handle(LoopEvent::CloseRequested), LoopAction::Nothing);
    assert_eq!(b.state, ControlState::Exiting);
}

#[test]
fn wait_mode_is_kept_until_exit() {
    let mut b = Bootstrap::with_mode(FlowMode::Wait);
    assert_eq!(b.control_flow(), ControlFlowSetting::Wait);
    b.handle(LoopEvent::MainEventsCleared);
    assert_eq!(b.control_flow(), ControlFlowSetting::Wait);
    b.handle(LoopEvent::CloseRequested);
    assert_eq!(b.mode, FlowMode::Wait);
    assert_eq!(b.control_flow(), ControlFlowSetting::Exit);
}
