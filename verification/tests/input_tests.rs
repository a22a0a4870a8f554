use cyders::input::{
    touch_event_line, window_to_display, ElementState, InputHandler, MouseButton, TouchState,
    MAX_TOUCH_EVENTS,
};

#[test]
fn test_touch_edge_detection() {
    let mut touch = TouchState::new();
    assert!(!touch.consume_tap());

    // Simulate touch down
    touch.update(true, 100, 100);
    assert!(touch.consume_tap());
    assert!(!touch.consume_tap()); // Should only fire once

    // Touch still down
    touch.update(true, 150, 150);
    assert!(!touch.consume_tap());

    // Touch up
    touch.update(false, 150, 150);
    assert!(!touch.consume_tap());

    // Touch down again
    touch.update(true, 200, 200);
    assert!(touch.consume_tap());
}

#[test]
fn test_touch_clamping() {
    let mut touch = TouchState::new();

    // Test out-of-bounds coordinates
    touch.update(true, -50, -50);
    assert_eq!(touch.x, 0);
    assert_eq!(touch.y, 0);

    touch.update(true, 500, 500);
    assert_eq!(touch.x, 319);
    assert_eq!(touch.y, 239);
}

#[test]
fn test_input_handler_scaling() {
    let mut handler = InputHandler::new(2);

    // Simulate click at window coordinates (640, 480)
    // Should map to display coordinates (320, 240) with scale=2
    // But clamped to (319, 239) since display is 320x240
    handler.handle_cursor_moved(640, 480);
    handler.handle_mouse_button(ElementState::Pressed, MouseButton::Left);

    let touch = handler.touch_state();
    assert_eq!(touch.x, 319); // Clamped
    assert_eq!(touch.y, 239); // Clamped
    assert!(touch.down);
}

#[test]
fn touch_read_reports_only_while_down() {
    let mut touch = TouchState::default();
    assert_eq!(touch.read(), None);
    touch.update(true, 10, 20);
    assert_eq!(touch.read(), Some((10, 20)));
    touch.update(false, 30, 40);
    assert_eq!(touch.read(), None);
    assert_eq!(touch.x, 30);
    assert_eq!(touch.y, 40);
}

#[test]
fn touch_release_never_taps() {
    let mut touch = TouchState::new();
    touch.update(false, 5, 5);
    assert!(!touch.consume_tap());
    touch.update(true, 5, 5);
    touch.update(false, 5, 5);
    // the press latched a tap that survives the release
    assert!(touch.consume_tap());
    assert!(!touch.consume_tap());
}

#[test]
fn touch_log_records_press_and_release() {
    let mut handler = InputHandler::new(1);
    handler.handle_cursor_moved(12, 34);
    handler.handle_mouse_button(ElementState::Pressed, MouseButton::Left);
    handler.handle_mouse_button(ElementState::Pressed, MouseButton::Left); // no change, not logged
    handler.handle_mouse_button(ElementState::Released, MouseButton::Left);
    handler.handle_mouse_button(ElementState::Pressed, MouseButton::Right); // ignored
    let log = handler.get_touch_log();
    assert_eq!(log, vec!["Down (12, 34)".to_string(), "Up   (12, 34)".to_string()]);
}

#[test]
fn touch_log_keeps_last_twenty() {
    let mut handler = InputHandler::new(1);
    for i in 0..15 {
        handler.handle_cursor_moved(i, 0);
        handler.handle_mouse_button(ElementState::Pressed, MouseButton::Left);
        handler.handle_mouse_button(ElementState::Released, MouseButton::Left);
    }
    let log = handler.get_touch_log();
    assert_eq!(log.len(), MAX_TOUCH_EVENTS);
    assert_eq!(log[0], "Down (5, 0)");
    assert_eq!(log[19], "Up   (14, 0)");
}

#[test]
fn cursor_scaling_truncates() {
    assert_eq!(window_to_display(641, 2), 320);
    assert_eq!(window_to_display(-7, 2), -3);
    assert_eq!(window_to_display(5, 0), i32::MAX);
    assert_eq!(window_to_display(-5, 0), i32::MIN);
    assert_eq!(window_to_display(0, 0), 0);
    assert_eq!(window_to_display(i64::MAX, 1), i32::MAX);
    assert_eq!(window_to_display(i64::MIN, 1), i32::MIN);
    let mut handler = InputHandler::new(3);
    handler.handle_cursor_moved(300, 299);
    let t = handler.touch_state();
    assert_eq!((t.x, t.y), (100, 99));
    handler.set_scale(1);
    handler.handle_cursor_moved(-4, 1000);
    let t = handler.touch_state();
    assert_eq!((t.x, t.y), (0, 239));
}

#[test]
fn touch_event_line_text() {
    assert_eq!(touch_event_line(true, 0, 239), "Down (0, 239)");
    assert_eq!(touch_event_line(false, -1, 7), "Up   (-1, 7)");
    assert_eq!(touch_event_line(true, i32::MIN, i32::MAX), "Down (-2147483648, 2147483647)");
}
