use pipeflow::commands::{validate, CommandError, CommandKind};
use pipeflow::safety::{SafetyCheckResult, SafetyController, SafetyMode};

#[test]
fn test_safety_mode_permissions() {
    assert!(SafetyMode::Normal.allows_routing());
    assert!(SafetyMode::Normal.allows_volume());
    assert!(!SafetyMode::ReadOnly.allows_routing());
    assert!(!SafetyMode::ReadOnly.allows_volume());
    assert!(!SafetyMode::Stage.allows_routing());
    assert!(!SafetyMode::Stage.allows_volume());
}

#[test]
fn test_safety_controller_default() {
    let controller = SafetyController::default();
    assert_eq!(controller.mode, SafetyMode::Normal);
}

#[test]
fn test_safety_controller_routing_check() {
    let mut controller = SafetyController::default();

    assert!(controller.check_create_link().is_allowed());
    assert!(controller.check_remove_link().is_allowed());

    controller.set_mode(SafetyMode::ReadOnly);
    assert!(!controller.check_create_link().is_allowed());

    controller.set_mode(SafetyMode::Normal);
    assert!(controller.check_create_link().is_allowed());
}

#[test]
fn test_stage_mode_blocks_routing() {
    let mut controller = SafetyController::default();
    controller.set_mode(SafetyMode::Stage);
    assert!(!controller.check_create_link().is_allowed());
}

#[test]
fn test_status_summary() {
    let mut controller = SafetyController::default();

    assert_eq!(controller.status_summary(), "");

    controller.set_mode(SafetyMode::ReadOnly);
    assert!(controller.status_summary().contains("RO"));

    controller.set_mode(SafetyMode::Stage);
    assert!(controller.status_summary().contains("STAGE"));
}

#[test]
fn blocked_reasons_name_the_mode() {
    let mut controller = SafetyController::default();
    controller.set_mode(SafetyMode::ReadOnly);
    assert_eq!(
        controller.check_create_link(),
        SafetyCheckResult::Blocked("Routing changes blocked in Read-Only mode".to_string())
    );
    assert_eq!(
        controller.check_volume_change(),
        SafetyCheckResult::Blocked("Volume changes blocked in Read-Only mode".to_string())
    );
    assert!(controller.check_mute_toggle().is_allowed());
    assert!(controller.should_show_indicator());
}

#[test]
fn test_command_validation() {
    let safety = SafetyController::default();
    assert!(validate(CommandKind::CreateLink, &safety).is_ok());

    let mut safety = SafetyController::default();
    safety.set_mode(SafetyMode::ReadOnly);
    assert!(validate(CommandKind::CreateLink, &safety).is_err());
}

#[test]
fn command_validation_by_kind() {
    let mut safety = SafetyController::default();
    safety.set_mode(SafetyMode::Stage);
    assert_eq!(
        validate(CommandKind::SetVolume, &safety),
        Err(CommandError::SafetyBlocked("Volume changes blocked in Stage mode".to_string()))
    );
    assert_eq!(
        validate(CommandKind::ToggleLink, &safety),
        Err(CommandError::SafetyBlocked("Routing changes blocked in Stage mode".to_string()))
    );
    assert!(validate(CommandKind::SetMute, &safety).is_ok());
    assert!(validate(CommandKind::Disconnect, &safety).is_ok());
    assert!(validate(CommandKind::StartAllMeters, &safety).is_ok());
    assert!(validate(CommandKind::StopAllMeters, &safety).is_ok());
}

#[test]
fn command_error_messages() {
    assert_eq!(
        CommandError::SafetyBlocked("x".to_string()).message(),
        "Command blocked by safety mode: x"
    );
    assert_eq!(CommandError::InvalidOperation("y".to_string()).message(), "Invalid operation: y");
}
