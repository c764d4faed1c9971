use flyline::mouse_state::{
    ClickCount, HoverTarget, MouseCommand, MouseState, PointerShape, XtShiftEscape,
};
use flyline::settings::MouseMode;

const MS: u64 = 1_000_000;

#[test]
fn clicks_add_up_within_the_window() {
    let mut m = MouseState::initialize(&MouseMode::Smart, true);
    assert_eq!(m.get_click_count(), ClickCount::Zero);
    assert_eq!(m.record_left_click_down(4, 1000 * MS), ClickCount::Single);
    assert_eq!(m.record_left_click_down(4, 1200 * MS), ClickCount::Double);
    assert_eq!(m.record_left_click_down(4, 1400 * MS), ClickCount::Triple);
    assert_eq!(m.record_left_click_down(4, 1600 * MS), ClickCount::Triple);
    assert_eq!(m.get_last_click_buffer_pos(), Some(4));
}

#[test]
fn old_clicks_and_clicks_elsewhere_start_over() {
    let mut m = MouseState::initialize(&MouseMode::Simple, true);
    assert_eq!(m.record_left_click_down(1, 0), ClickCount::Single);
    assert_eq!(m.record_left_click_down(1, 500 * MS), ClickCount::Double);
    assert_eq!(m.record_left_click_down(1, 900 * MS), ClickCount::Double);
    assert_eq!(m.record_left_click_down(1, 1401 * MS), ClickCount::Single);
    assert_eq!(m.record_left_click_down(2, 1402 * MS), ClickCount::Single);
}

#[test]
fn capture_follows_the_reported_outcome() {
    let mut m = MouseState::initialize(&MouseMode::Disabled, true);
    assert!(m.is_disabled());
    assert!(!MouseState::wants_capture(&MouseMode::Disabled));
    assert!(MouseState::wants_capture(&MouseMode::Smart));
    let cmds = m.enable();
    assert_eq!(cmds, vec![MouseCommand::EnableCapture]);
    m.capture_result(MouseCommand::EnableCapture, false);
    assert!(m.is_disabled());
    m.capture_result(MouseCommand::EnableCapture, true);
    assert!(m.is_enabled());
    assert!(m.enable().is_empty());
    m.set_left_button_down();
    assert!(m.is_left_button_down());
    let cmds = m.toggle();
    assert_eq!(cmds, vec![MouseCommand::DisableCapture]);
    assert!(!m.is_left_button_down());
    m.capture_result(MouseCommand::DisableCapture, true);
    assert!(m.is_disabled());
    assert!(m.disable().is_empty());
}

#[test]
fn disabling_resets_a_changed_pointer_first() {
    let mut m = MouseState::initialize(&MouseMode::Smart, true);
    m.set_last_mouse_over_cell_direct(Some(HoverTarget::Clickable));
    assert_eq!(m.update_pointer_shape(false, true, false), Some(PointerShape::Pointer));
    assert_eq!(
        m.disable(),
        vec![MouseCommand::SetPointer(PointerShape::Default), MouseCommand::DisableCapture]
    );
}

#[test]
fn pointer_shape_follows_the_mouse() {
    let mut m = MouseState::initialize(&MouseMode::Smart, true);
    m.set_last_mouse_over_cell_direct(Some(HoverTarget::Command));
    assert_eq!(m.update_pointer_shape(false, true, false), Some(PointerShape::Text));
    assert_eq!(m.update_pointer_shape(false, true, false), None);
    assert_eq!(m.update_pointer_shape(false, true, true), Some(PointerShape::Text));
    m.set_left_button_down();
    m.set_drag_start_tag(Some(HoverTarget::Other));
    assert_eq!(m.update_pointer_shape(true, true, false), Some(PointerShape::Grabbing));
    m.set_left_button_up();
    m.set_last_mouse_over_cell_direct(Some(HoverTarget::Other));
    assert_eq!(m.update_pointer_shape(false, true, false), Some(PointerShape::Default));
    m.set_last_mouse_over_cell_direct(Some(HoverTarget::Clickable));
    assert_eq!(m.update_pointer_shape(false, false, false), None);

    let mut off = MouseState::initialize(&MouseMode::Smart, false);
    off.set_last_mouse_over_cell_direct(Some(HoverTarget::Command));
    assert_eq!(off.update_pointer_shape(false, true, true), None);
}

#[test]
fn right_click_position_is_taken_once() {
    let mut m = MouseState::initialize(&MouseMode::Smart, true);
    m.set_right_click_down_pos(3, 9);
    assert_eq!(m.take_right_click_down_pos(), Some((3, 9)));
    assert_eq!(m.take_right_click_down_pos(), None);
}

#[test]
fn escape_sequences() {
    assert_eq!(PointerShape::Default.escape_sequence(), "\x1b]22;\x1b\\");
    assert_eq!(PointerShape::Text.escape_sequence(), "\x1b]22;text\x1b\\");
    assert_eq!(PointerShape::Grabbing.escape_sequence(), "\x1b]22;grabbing\x1b\\");
    assert_eq!(PointerShape::Pointer.to_str(), "pointer");
    assert_eq!(XtShiftEscape::Enable.escape_sequence(), "\x1b[>1s");
    assert_eq!(XtShiftEscape::Disable.escape_sequence(), "\x1b[>0s");
}
