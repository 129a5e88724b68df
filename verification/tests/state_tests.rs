use v5sim::color::Color;
use v5sim::display::ProgramOptions;
use v5sim::state::{
    CompMode, Command, ControllerState, ControllerUpdate, Inputs, SdkError, SdkState,
};

fn opts() -> ProgramOptions {
    ProgramOptions {
        default_fg_color: Color { r: 255, g: 255, b: 255 },
        default_bg_color: Color { r: 30, g: 30, b: 30 },
    }
}

fn comp_cmd(enabled: bool, connected: bool, mode: CompMode, is_competition: bool) -> Command {
    Command::CompetitionMode { enabled, connected, mode, is_competition }
}

#[test]
fn new_state_defaults() {
    let s = SdkState::new(opts());
    assert!(!s.executing());
    assert!(s.competition_mode.enabled);
    assert!(!s.competition_mode.connected);
    assert_eq!(s.competition_mode.mode, CompMode::Driver);
    assert!(!s.competition_mode.is_competition);
    assert!(s.inputs.primary.is_none());
    assert!(s.inputs.partner.is_none());
    assert_eq!(s.command_process_queue.len(), 0);
}

#[test]
fn setup_gating() {
    // drive the protocol with a competition-mode command, then start
    let mut s = SdkState::new(opts());
    let r = s.execute_command(comp_cmd(false, true, CompMode::Auto, true));
    assert!(r.is_ok());
    assert!(!s.executing());
    let r = s.execute_command(Command::StartExecution);
    assert!(r.is_ok());
    assert!(s.executing());
    // the first command is reflected
    assert!(!s.competition_mode.enabled);
    assert!(s.competition_mode.connected);
    assert_eq!(s.competition_mode.mode, CompMode::Auto);
    assert!(s.competition_mode.is_competition);
}

#[test]
fn second_start_execution_fails() {
    let mut s = SdkState::new(opts());
    assert!(s.execute_command(Command::StartExecution).is_ok());
    assert_eq!(
        s.execute_command(Command::StartExecution),
        Err(SdkError::AlreadyExecuting)
    );
    assert!(s.executing());
}

#[test]
fn late_handshake_is_an_error() {
    let mut s = SdkState::new(opts());
    let r = s.execute_command(Command::Handshake { version: 1, extensions: Vec::new() });
    assert_eq!(r, Err(SdkError::UnexpectedHandshake));
}

#[test]
fn unsupported_commands_fail_and_change_nothing() {
    let mut s = SdkState::new(opts());
    let r = s.execute_command(Command::Touch {
        x: 1,
        y: 2,
        event: v5sim::state::TouchEvent::Pressed,
    });
    assert_eq!(r, Err(SdkError::UnsupportedCommand));
    assert!(s.competition_mode.enabled);
    assert!(!s.executing());
}

#[test]
fn controller_update_overwrites_slots_wholesale() {
    let mut s = SdkState::new(opts());
    let st = ControllerState { axis1: 42, button_a: true, ..Default::default() };
    let r = s.execute_command(Command::ControllerUpdate(
        Some(ControllerUpdate::Raw(st)),
        None,
    ));
    assert!(r.is_ok());
    assert_eq!(s.inputs.controller(0), Some(st));
    assert_eq!(s.inputs.controller(1), None);
    // an absent update disconnects the slot
    let r = s.execute_command(Command::ControllerUpdate(None, None));
    assert!(r.is_ok());
    assert_eq!(s.inputs.controller(0), None);
}

#[test]
fn controller_uuid_update_keeps_snapshot() {
    let mut s = SdkState::new(opts());
    let st = ControllerState { axis2: -7, ..Default::default() };
    s.execute_command(Command::ControllerUpdate(Some(ControllerUpdate::Raw(st)), None))
        .unwrap();
    // a gamepad identifier is resolved by the host backend; the snapshot stays
    s.execute_command(Command::ControllerUpdate(
        Some(ControllerUpdate::Uuid(String::from("pad-0"))),
        None,
    ))
    .unwrap();
    assert_eq!(s.inputs.controller(0), Some(st));
}

#[test]
fn invalid_controller_index() {
    let mut inputs = Inputs::new();
    assert_eq!(
        inputs.set_controller(2, None),
        Err(SdkError::InvalidController)
    );
}

#[test]
fn drain_applies_in_order_and_stops_at_first_failure() {
    let mut s = SdkState::new(opts());
    s.defer_command(comp_cmd(false, false, CompMode::Driver, false));
    s.defer_command(Command::Touch { x: 0, y: 0, event: v5sim::state::TouchEvent::Held });
    s.defer_command(comp_cmd(true, true, CompMode::Auto, true));
    let r = s.drain_queued();
    assert_eq!(r, Err(SdkError::UnsupportedCommand));
    // the first command was applied before the failing one
    assert!(!s.competition_mode.enabled);
    assert_eq!(s.competition_mode.mode, CompMode::Driver);
    // the command after the failure is still queued, in order
    assert_eq!(s.command_process_queue.len(), 1);
    let r = s.drain_queued();
    assert!(r.is_ok());
    assert_eq!(s.command_process_queue.len(), 0);
    assert!(s.competition_mode.connected);
    assert_eq!(s.competition_mode.mode, CompMode::Auto);
}

#[test]
fn take_queued_is_fifo() {
    let mut s = SdkState::new(opts());
    assert!(s.take_queued().is_none());
    s.defer_command(Command::StartExecution);
    s.defer_command(comp_cmd(true, false, CompMode::Driver, false));
    match s.take_queued() {
        Some(Command::StartExecution) => {},
        other => panic!("expected StartExecution, got {:?}", other),
    }
    assert_eq!(s.command_process_queue.len(), 1);
}

#[test]
fn condition_wait_defers_non_matching_commands() {
    let mut s = SdkState::new(opts());
    // a command that does not satisfy the caller's predicate is deferred...
    let done = s.wait_for_command_step(comp_cmd(false, true, CompMode::Auto, true), false);
    assert!(!done);
    assert_eq!(s.command_process_queue.len(), 1);
    assert!(s.competition_mode.enabled); // not applied yet
    // ...a matching one is executed and ends the wait
    let done = s.wait_for_command_step(Command::StartExecution, true);
    assert!(done);
    assert!(s.executing());
    // the deferred command is delivered by the next drain: nothing dropped
    assert!(s.drain_queued().is_ok());
    assert!(!s.competition_mode.enabled);
    assert_eq!(s.competition_mode.mode, CompMode::Auto);
    assert_eq!(s.command_process_queue.len(), 0);
}

#[test]
fn set_text_metrics_is_accepted_and_ignored() {
    let mut s = SdkState::new(opts());
    let r = s.execute_command(Command::SetTextMetrics {
        text: String::from("hello"),
        font_family: v5sim::state::FontFamily::UserMono,
        font_type: v5sim::text::FontType::Normal,
        width: 40,
        height: 16,
    });
    assert!(r.is_ok());
    assert!(!s.executing());
}

#[test]
fn competition_status_bits_are_empty() {
    let s = SdkState::new(opts());
    assert_eq!(s.competition_mode.status_bits(), 0);
}
