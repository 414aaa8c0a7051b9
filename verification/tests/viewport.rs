use ppm4u::viewport::{ViewState, WheelBranch, wheel_branch};

// The wheel factors the host applies before handing the advanced word to
// `apply_wheel`: panning moves by ten screen units per wheel step, and
// zooming by a twentieth of a unit of scale.
const PAN_FACTOR: f32 = 10.0;
const ZOOM_FACTOR: f32 = 0.05;

// One wheel event as the host performs it: pick the branch, advance the
// branch's scalar by the delta and the branch's factor, store it back.
fn host_wheel(view: &mut ViewState, delta: f32, ctrl: bool, shift: bool) {
    let factor = match wheel_branch(ctrl, shift) {
        WheelBranch::PanX | WheelBranch::PanY => PAN_FACTOR,
        WheelBranch::Zoom => ZOOM_FACTOR,
    };
    let current = view.wheel_target(ctrl, shift);
    let advanced = (f32::from_bits(current) + delta * factor).to_bits();
    view.apply_wheel(ctrl, shift, advanced);
}

#[test]
fn wheel_branch_precedence() {
    assert_eq!(wheel_branch(true, false), WheelBranch::PanX);
    assert_eq!(wheel_branch(false, true), WheelBranch::PanY);
    assert_eq!(wheel_branch(false, false), WheelBranch::Zoom);
    assert_eq!(wheel_branch(true, true), WheelBranch::Zoom);
}

#[test]
fn new_state_at_origin() {
    let view = ViewState::new(1.0f32.to_bits());
    assert_eq!(f32::from_bits(view.translation_x_bits), 0.0);
    assert_eq!(f32::from_bits(view.translation_y_bits), 0.0);
    assert_eq!(f32::from_bits(view.scale_bits), 1.0);
}

#[test]
fn wheel_with_ctrl_pans_x() {
    let mut view = ViewState::new(1.0f32.to_bits());
    host_wheel(&mut view, 2.0, true, false);
    assert_eq!(f32::from_bits(view.translation_x_bits), 20.0);
    assert_eq!(f32::from_bits(view.translation_y_bits), 0.0);
    assert_eq!(f32::from_bits(view.scale_bits), 1.0);
}

#[test]
fn wheel_with_shift_pans_y() {
    let mut view = ViewState::new(1.0f32.to_bits());
    host_wheel(&mut view, -3.0, false, true);
    assert_eq!(f32::from_bits(view.translation_x_bits), 0.0);
    assert_eq!(f32::from_bits(view.translation_y_bits), -30.0);
    assert_eq!(f32::from_bits(view.scale_bits), 1.0);
}

#[test]
fn wheel_without_modifiers_zooms() {
    let mut view = ViewState::new(1.0f32.to_bits());
    host_wheel(&mut view, 2.0, false, false);
    assert_eq!(f32::from_bits(view.scale_bits), 1.1);
    assert_eq!(f32::from_bits(view.translation_x_bits), 0.0);
    assert_eq!(f32::from_bits(view.translation_y_bits), 0.0);
}

#[test]
fn wheel_with_both_modifiers_zooms() {
    let mut view = ViewState::new(1.0f32.to_bits());
    host_wheel(&mut view, 2.0, true, true);
    assert_eq!(f32::from_bits(view.scale_bits), 1.1);
    assert_eq!(f32::from_bits(view.translation_x_bits), 0.0);
    assert_eq!(f32::from_bits(view.translation_y_bits), 0.0);
}

#[test]
fn reset_clears_translation_keeps_scale() {
    let mut view = ViewState::new(1.0f32.to_bits());
    host_wheel(&mut view, 2.0, true, false);
    host_wheel(&mut view, 5.0, false, true);
    host_wheel(&mut view, 2.0, false, false);
    host_wheel(&mut view, -1.0, true, true);
    let scale_before = view.scale_bits;
    view.reset();
    assert_eq!(f32::from_bits(view.translation_x_bits), 0.0);
    assert_eq!(f32::from_bits(view.translation_y_bits), 0.0);
    assert_eq!(view.scale_bits, scale_before);
}
