use rsact_ui::geometry::Point;
use rsact_ui::page::pointer::{
    route_pointer_event, settle_pointer_event, MouseButton, PointerEvent, PointerState, Route, WidgetUpdate,
};

fn idle() -> PointerState {
    PointerState { pos: None, hovered: None, pressed: None, captured_by: None, focused: None, focus_pressed: false }
}

#[test]
fn a_move_clears_hover_for_the_pass_and_reports_leave_then_enter() {
    let before = PointerState { hovered: Some(3), ..idle() };
    let ev = PointerEvent::MouseMove(Point::new(5, 6));
    let d = route_pointer_event(before, ev);
    assert_eq!(d.route, Route::Pass);
    assert_eq!(d.state.pos, Some(Point::new(5, 6)));
    assert_eq!(d.state.hovered, None);
    assert!(d.updates.is_empty());
    // The pass finds widget 7 under the cursor.
    let after = PointerState { hovered: Some(7), ..d.state };
    let s = settle_pointer_event(before, after, ev, false);
    assert_eq!(s.updates, vec![WidgetUpdate::HoverChange(3, false), WidgetUpdate::HoverChange(7, true)]);
    assert_eq!(s.state.hovered, Some(7));
    assert!(!s.unhandled);
}

#[test]
fn a_move_over_the_same_widget_notifies_nobody() {
    let before = PointerState { hovered: Some(3), ..idle() };
    let ev = PointerEvent::MouseMove(Point::new(1, 1));
    let d = route_pointer_event(before, ev);
    let after = PointerState { hovered: Some(3), ..d.state };
    let s = settle_pointer_event(before, after, ev, false);
    assert!(s.updates.is_empty());
}

#[test]
fn capture_freezes_hover_and_tracks_the_cursor_outside() {
    let captured = PointerState { hovered: Some(2), pressed: Some(2), captured_by: Some(2), ..idle() };
    let far = Point::new(10000, 10000);
    let d = route_pointer_event(captured, PointerEvent::MouseMove(far));
    assert_eq!(d.route, Route::Captured(2));
    assert_eq!(d.state.pos, Some(far));
    assert_eq!(d.state.hovered, Some(2));
    assert_eq!(d.state.captured_by, Some(2));
    assert!(d.updates.is_empty());

    let up = route_pointer_event(d.state, PointerEvent::ButtonUp(MouseButton::Left, far));
    assert_eq!(up.route, Route::Captured(2));
    assert_eq!(up.state.captured_by, None);
    assert_eq!(up.state.pressed, None);
    assert_eq!(up.updates, vec![WidgetUpdate::PressChange(2, false)]);

    // Hover resumes once the capture ended.
    let next = route_pointer_event(up.state, PointerEvent::MouseMove(Point::new(1, 1)));
    assert_eq!(next.route, Route::Pass);
    assert_eq!(next.state.hovered, None);
}

#[test]
fn a_capture_without_press_ends_quietly() {
    let captured = PointerState { captured_by: Some(4), ..idle() };
    let up = route_pointer_event(captured, PointerEvent::ButtonUp(MouseButton::Right, Point::new(0, 0)));
    assert_eq!(up.route, Route::Captured(4));
    assert_eq!(up.state.captured_by, None);
    assert!(up.updates.is_empty());
}

#[test]
fn a_captured_page_still_passes_other_events() {
    let captured = PointerState { captured_by: Some(4), ..idle() };
    let d = route_pointer_event(captured, PointerEvent::Press);
    assert_eq!(d.route, Route::Pass);
    assert_eq!(d.state, captured);
}

#[test]
fn a_left_press_reports_the_pressed_widget() {
    let before = idle();
    let ev = PointerEvent::ButtonDown(MouseButton::Left, Point::new(2, 2));
    let d = route_pointer_event(before, ev);
    assert_eq!(d.route, Route::Pass);
    let after = PointerState { pressed: Some(9), captured_by: Some(9), ..d.state };
    let s = settle_pointer_event(before, after, ev, true);
    assert_eq!(s.updates, vec![WidgetUpdate::PressChange(9, true)]);
    assert!(!s.unhandled);
}

#[test]
fn a_right_press_reports_nothing_and_goes_on_when_not_captured() {
    let before = idle();
    let ev = PointerEvent::ButtonDown(MouseButton::Right, Point::new(2, 2));
    let after = PointerState { pressed: Some(9), ..before };
    let s = settle_pointer_event(before, after, ev, false);
    assert!(s.updates.is_empty());
    assert!(s.unhandled);
}

#[test]
fn an_encoder_press_and_release_press_the_focused_widget() {
    let before = PointerState { focused: Some(5), ..idle() };
    let pressed = PointerState { focus_pressed: true, ..before };
    let s = settle_pointer_event(before, pressed, PointerEvent::Press, true);
    assert_eq!(s.updates, vec![WidgetUpdate::PressChange(5, true)]);
    assert!(s.state.focus_pressed);

    let r = settle_pointer_event(s.state, s.state, PointerEvent::Release, true);
    assert_eq!(r.updates, vec![WidgetUpdate::PressChange(5, false)]);
    assert!(!r.state.focus_pressed);
    assert!(!r.unhandled);
}

#[test]
fn an_unclaimed_release_changes_nothing() {
    let before = PointerState { focused: Some(5), ..idle() };
    let r = settle_pointer_event(before, before, PointerEvent::Release, false);
    assert!(r.updates.is_empty());
    assert_eq!(r.state, before);
    assert!(r.unhandled);
}
