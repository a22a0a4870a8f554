use cyders::controls::{respond, shortcut_for, Key, RunChange, Shortcut, WindowInput};
use cyders::text::u64_to_text;
use cyders::ui::info_panel::format_number;
use cyders::ui::left_panel::{call_stack, locals_rows, register_name, register_note, LeftPanelTab};
use cyders::ui::{format_hex32, status_color, status_text, visible_tail};

#[test]
fn number_grouping() {
    assert_eq!(format_number(0), "0");
    assert_eq!(format_number(999), "999");
    assert_eq!(format_number(1000), "1,000");
    assert_eq!(format_number(1234567), "1,234,567");
    assert_eq!(format_number(1000005), "1,000,005");
    assert_eq!(format_number(u64::MAX), "18,446,744,073,709,551,615");
    assert_eq!(u64_to_text(4096), "4096");
}

#[test]
fn hex_and_status() {
    assert_eq!(format_hex32(0xDEADBEEF), "0xDEADBEEF");
    assert_eq!(format_hex32(0x1F), "0x0000001F");
    assert_eq!(format_hex32(0), "0x00000000");
    assert_eq!(status_text(true, true), "Halted");
    assert_eq!(status_text(false, true), "Running");
    assert_eq!(status_text(false, false), "Paused");
    assert_eq!(status_color(true, false), (255, 100, 100));
    assert_eq!(status_color(false, true), (100, 255, 100));
    assert_eq!(status_color(false, false), (200, 200, 100));
}

#[test]
fn log_tails() {
    let lines: Vec<String> = (0..10).map(|i| format!("line {}", i)).collect();
    assert_eq!(visible_tail(&lines, 3), vec!["line 7", "line 8", "line 9"]);
    assert_eq!(visible_tail(&lines, 20).len(), 10);
    assert!(visible_tail(&lines, 0).is_empty());
}

#[test]
fn left_panel_text() {
    assert_eq!(register_name(0), "a0 ");
    assert_eq!(register_name(15), "a15");
    assert_eq!(register_note(0), "(RA)");
    assert_eq!(register_note(1), "(SP)");
    assert_eq!(register_note(5), "");
    let rows = call_stack(0x400D_1234, &Some("app_main+0x10".to_string()), 0);
    assert_eq!(rows.len(), 1);
    assert_eq!(rows[0].label, "#0");
    assert_eq!(rows[0].description, "app_main+0x10");
    let rows = call_stack(0x400D_1234, &None, 0x400D_0000);
    assert_eq!(rows.len(), 2);
    assert_eq!(rows[0].description, "<unknown>");
    assert_eq!(rows[1].label, "#1");
    assert_eq!(rows[1].address, 0x400D_0000);
    assert_eq!(rows[1].description, "<caller>");
    let mut regs = [0u32; 16];
    for i in 0..16 {
        regs[i] = i as u32 * 10;
    }
    let locals = locals_rows(&regs);
    assert_eq!(locals.len(), 7);
    assert_eq!(locals[0], ("SP (a1)".to_string(), 10));
    assert_eq!(locals[1], ("a2 (arg0)".to_string(), 20));
    assert_eq!(locals[6], ("a7 (arg5)".to_string(), 70));
    assert_ne!(LeftPanelTab::Registers, LeftPanelTab::Stack);
}

#[test]
fn shortcuts() {
    assert_eq!(shortcut_for(Key::Escape, false), Shortcut::Exit);
    assert_eq!(shortcut_for(Key::Escape, true), Shortcut::Exit);
    assert_eq!(shortcut_for(Key::P, true), Shortcut::TogglePause);
    assert_eq!(shortcut_for(Key::P, false), Shortcut::Nothing);
    assert_eq!(shortcut_for(Key::F10, true), Shortcut::ToggleInfoPanel);
    assert_eq!(shortcut_for(Key::Other, true), Shortcut::Nothing);
}

#[test]
fn event_response_mouse_reaches_touch_even_when_ui_used_it() {
    let r = respond(WindowInput::MouseButton, true, Some(true));
    assert!(r.to_touch && r.handled);
    assert!(!r.exit && !r.resize && !r.toggle_info_panel);
    assert_eq!(r.run, RunChange::Keep);
    let r = respond(WindowInput::CursorMoved, false, None);
    assert!(r.to_touch && !r.handled);
}

#[test]
fn event_response_ui_consumed_key_does_nothing() {
    let r = respond(WindowInput::Keyboard(Key::Escape, true), true, Some(true));
    assert!(r.handled && !r.exit && !r.to_touch);
}

#[test]
fn event_response_shortcuts() {
    assert_eq!(respond(WindowInput::Keyboard(Key::P, true), false, Some(true)).run, RunChange::Pause);
    assert_eq!(respond(WindowInput::Keyboard(Key::P, true), false, Some(false)).run, RunChange::Resume);
    assert_eq!(respond(WindowInput::Keyboard(Key::P, true), false, None).run, RunChange::Keep);
    assert_eq!(respond(WindowInput::Keyboard(Key::P, false), false, Some(true)).run, RunChange::Keep);
    assert!(respond(WindowInput::Keyboard(Key::Escape, false), false, None).exit);
    let f10 = respond(WindowInput::Keyboard(Key::F10, true), false, None);
    assert!(f10.toggle_info_panel && f10.handled);
    let other = respond(WindowInput::Keyboard(Key::Other, true), false, None);
    assert!(other.handled && !other.exit && !other.toggle_info_panel);
    let resized = respond(WindowInput::Resized, false, None);
    assert!(resized.resize && resized.handled && !resized.to_touch);
    assert!(!respond(WindowInput::Other, false, None).handled);
}
