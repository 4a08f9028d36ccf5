use renderer_core::{update_control, CameraAction, ControlState};

fn state(on_click: bool, on_shift: bool, on_wheel: bool) -> ControlState {
    ControlState {
        movement_x: 12,
        movement_y: -7,
        on_click,
        wheel_delta_y: 120,
        on_wheel,
        on_shift,
    }
}

/// A plain drag orbits the camera by the pointer deltas.
#[test]
fn click_without_shift_orbits() {
    let mut input = state(true, false, false);
    let update = update_control(&mut input);
    assert_eq!(update.action, CameraAction::Orbit);
    assert_eq!(update.movement_x, 12);
    assert_eq!(update.movement_y, -7);
    assert!(!update.zoom);
}

/// A shift-drag pans instead.
#[test]
fn click_with_shift_pans() {
    let mut input = state(true, true, false);
    let update = update_control(&mut input);
    assert_eq!(update.action, CameraAction::Pan);
}

/// No click: the camera holds still, but a wheel event still zooms.
#[test]
fn wheel_zooms_without_click() {
    let mut input = state(false, false, true);
    let update = update_control(&mut input);
    assert_eq!(update.action, CameraAction::Idle);
    assert!(update.zoom);
    assert_eq!(update.wheel_delta_y, 120);
}

/// Click and wheel are edge-triggered: consumed flags reset, so the event
/// drives exactly one frame; shift and the raw deltas stay.
#[test]
fn consumed_events_reset() {
    let mut input = state(true, true, true);
    let _ = update_control(&mut input);
    assert!(!input.on_click);
    assert!(!input.on_wheel);
    assert!(input.on_shift);
    assert_eq!(input.movement_x, 12);
    assert_eq!(input.wheel_delta_y, 120);
    // the next frame, with no new events, is idle and does not zoom
    let update = update_control(&mut input);
    assert_eq!(update.action, CameraAction::Idle);
    assert!(!update.zoom);
}
