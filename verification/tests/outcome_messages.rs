use display_manager::topology::{
    orientation_set_message, position_set_message, primary_set_message, rollback_outcome_of, toggle_outcome,
};
use display_manager::types::{ApplyResult, DisplayOrientation, ManagerError};

#[test]
fn orientation_message_names_orientation() {
    assert_eq!(
        orientation_set_message(DisplayOrientation::PortraitFlipped, "\\\\.\\DISPLAY2"),
        "Orientation set to PortraitFlipped for \\\\.\\DISPLAY2."
    );
    assert_eq!(orientation_set_message(DisplayOrientation::Landscape, "X"), "Orientation set to Landscape for X.");
}

#[test]
fn position_message_signs() {
    assert_eq!(position_set_message("\\\\.\\DISPLAY1", -1920, 0), "Position set to (-1920, 0) for \\\\.\\DISPLAY1.");
    assert_eq!(
        position_set_message("D", i32::MIN, i32::MAX),
        "Position set to (-2147483648, 2147483647) for D."
    );
}

#[test]
fn primary_message_quotes_device() {
    assert_eq!(primary_set_message("\\\\.\\DISPLAY3"), "'\\\\.\\DISPLAY3' is now primary.");
}

fn expect_result(r: ApplyResult, success: bool, message: &str) {
    assert_eq!(r.success, success);
    assert_eq!(r.message, message);
}

#[test]
fn toggle_outcomes() {
    expect_result(toggle_outcome("\\\\.\\DISPLAY2", true, 0), true, "Monitor \\\\.\\DISPLAY2 connected.");
    expect_result(toggle_outcome("\\\\.\\DISPLAY2", false, 0), true, "Monitor \\\\.\\DISPLAY2 disconnected.");
    expect_result(toggle_outcome("D", true, 87), false, "Failed to connect monitor: 87");
    expect_result(toggle_outcome("D", false, -5), false, "Failed to disconnect monitor: -5");
}

#[test]
fn rollback_outcomes() {
    assert!(rollback_outcome_of(0).is_ok());
    match rollback_outcome_of(31) {
        Err(e @ ManagerError::Backend(_)) => assert_eq!(e.message(), "backend error: rollback failed: 31"),
        _ => panic!("expected a backend error"),
    }
}
