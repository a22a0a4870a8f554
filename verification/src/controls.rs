//! Keyboard shortcuts of the emulator window.

use vstd::prelude::*;

verus! {

/// The keys the window reacts to.
#[derive(Debug, Clone, Copy, PartialEq, Eq, Structural)]
pub enum Key {
    Escape,
    P,
    F10,
    Other,
}

/// What a key event asks for.
#[derive(Debug, Clone, Copy, PartialEq, Eq, Structural)]
pub enum Shortcut {
    /// Quit the emulator.
    Exit,
    /// Pause a running emulator, resume a paused one.
    TogglePause,
    /// Show or hide the info panel.
    ToggleInfoPanel,
    /// Nothing.
    Nothing,
}

/// The shortcut of a key event: Escape quits (on press and on release); P
/// toggles pause and F10 the info panel, on press only.
pub open spec fn shortcut_spec(key: Key, pressed: bool) -> Shortcut {
    match key {
        Key::Escape => Shortcut::Exit,
        Key::P => if pressed {
            Shortcut::TogglePause
        } else {
            Shortcut::Nothing
        },
        Key::F10 => if pressed {
            Shortcut::ToggleInfoPanel
        } else {
            Shortcut::Nothing
        },
        Key::Other => Shortcut::Nothing,
    }
}

/// The shortcut of a key event.
pub fn shortcut_for(key: Key, pressed: bool) -> (s: Shortcut)
    ensures
        s == shortcut_spec(key, pressed),
{
    match key {
        Key::Escape => Shortcut::Exit,
        Key::P => if pressed {
            Shortcut::TogglePause
        } else {
            Shortcut::Nothing
        },
        Key::F10 => if pressed {
            Shortcut::ToggleInfoPanel
        } else {
            Shortcut::Nothing
        },
        Key::Other => Shortcut::Nothing,
    }
}

/// Escape always quits; releasing a key never toggles anything.
pub proof fn law_release_never_toggles(key: Key)
    ensures
        shortcut_spec(Key::Escape, true) == Shortcut::Exit,
        shortcut_spec(Key::Escape, false) == Shortcut::Exit,
        shortcut_spec(key, false) != Shortcut::TogglePause,
        shortcut_spec(key, false) != Shortcut::ToggleInfoPanel,
{
}

/// A window event, as far as the emulator window tells events apart.
#[derive(Debug, Clone, Copy, PartialEq, Eq, Structural)]
pub enum WindowInput {
    /// A mouse button went down or up.
    MouseButton,
    /// The cursor moved.
    CursorMoved,
    /// The window was resized.
    Resized,
    /// A key went down (`true`) or up (`false`); a key without a virtual
    /// key code is `Key::Other`.
    Keyboard(Key, bool),
    /// Any other event.
    Other,
}

/// What a shortcut asks of the emulator.
#[derive(Debug, Clone, Copy, PartialEq, Eq, Structural)]
pub enum RunChange {
    /// Leave it as it is.
    Keep,
    /// Pause it.
    Pause,
    /// Resume it.
    Resume,
}

/// What the window does with an event.
#[derive(Debug, Clone, Copy, PartialEq, Eq, Structural)]
pub struct EventResponse {
    /// Hand the event to the touch input.
    pub to_touch: bool,
    /// Resize the display surface to the new window size.
    pub resize: bool,
    /// Ask the window to close.
    pub exit: bool,
    /// Pause or resume the emulator.
    pub run: RunChange,
    /// Show or hide the info panel.
    pub toggle_info_panel: bool,
    /// The event was handled.
    pub handled: bool,
}

/// The response to an event: mouse events always reach the touch input,
/// even when the UI used them; an event the UI used is handled and does
/// nothing more; otherwise a resize resizes the display, a key event
/// carries out its shortcut (pause toggles the emulator, if there is one:
/// `running` is `None` when none is loaded), and both count as handled.
pub open spec fn response_spec(input: WindowInput, ui_consumed: bool, running: Option<bool>) -> EventResponse {
    let to_touch = input is MouseButton || input is CursorMoved;
    let nothing = EventResponse {
        to_touch,
        resize: false,
        exit: false,
        run: RunChange::Keep,
        toggle_info_panel: false,
        handled: false,
    };
    if ui_consumed {
        EventResponse { handled: true, ..nothing }
    } else {
        match input {
            WindowInput::Resized => EventResponse { resize: true, handled: true, ..nothing },
            WindowInput::Keyboard(key, pressed) => {
                let s = shortcut_spec(key, pressed);
                EventResponse {
                    exit: s == Shortcut::Exit,
                    run: if s == Shortcut::TogglePause {
                        match running {
                            Some(true) => RunChange::Pause,
                            Some(false) => RunChange::Resume,
                            None => RunChange::Keep,
                        }
                    } else {
                        RunChange::Keep
                    },
                    toggle_info_panel: s == Shortcut::ToggleInfoPanel,
                    handled: true,
                    ..nothing
                }
            },
            _ => nothing,
        }
    }
}

/// The response of the window to `input` (see `response_spec`).
pub fn respond(input: WindowInput, ui_consumed: bool, running: Option<bool>) -> (r: EventResponse)
    ensures
        r == response_spec(input, ui_consumed, running),
{
    let to_touch = match input {
        WindowInput::MouseButton | WindowInput::CursorMoved => true,
        _ => false,
    };
    let mut r = EventResponse {
        to_touch,
        resize: false,
        exit: false,
        run: RunChange::Keep,
        toggle_info_panel: false,
        handled: false,
    };
    if ui_consumed {
        r.handled = true;
        return r;
    }
    match input {
        WindowInput::Resized => {
            r.resize = true;
            r.handled = true;
        },
        WindowInput::Keyboard(key, pressed) => {
            match shortcut_for(key, pressed) {
                Shortcut::Exit => {
                    r.exit = true;
                },
                Shortcut::TogglePause => {
                    r.run = match running {
                        Some(true) => RunChange::Pause,
                        Some(false) => RunChange::Resume,
                        None => RunChange::Keep,
                    };
                },
                Shortcut::ToggleInfoPanel => {
                    r.toggle_info_panel = true;
                },
                Shortcut::Nothing => {},
            }
            r.handled = true;
        },
        _ => {},
    }
    r
}

/// Mouse events always reach the touch input; an event that the UI used
/// is handled and triggers nothing else; Escape always asks to close; and
/// pressing P flips a loaded emulator between running and paused.
pub proof fn law_event_response(input: WindowInput, ui_consumed: bool, running: Option<bool>, b: bool)
    ensures
        (input is MouseButton || input is CursorMoved) ==> response_spec(input, ui_consumed, running).to_touch,
        ui_consumed ==> ({
            let r = response_spec(input, ui_consumed, running);
            &&& r.handled
            &&& !r.resize
            &&& !r.exit
            &&& r.run == RunChange::Keep
            &&& !r.toggle_info_panel
        }),
        response_spec(WindowInput::Keyboard(Key::P, true), false, Some(b)).run == (if b {
            RunChange::Pause
        } else {
            RunChange::Resume
        }),
        response_spec(WindowInput::Keyboard(Key::Escape, b), false, running).exit,
{
}

/// Which key does what, whatever the emulator's state: only Escape asks to
/// close (on press and on release); only a press of F10 toggles the info
/// panel; only a press of P changes the emulator, and then only a loaded
/// one, pausing it when running and resuming it when paused. Every key
/// event the UI did not use is handled, and none resizes the display or
/// reaches the touch input.
pub proof fn law_key_actions(key: Key, pressed: bool, running: Option<bool>)
    ensures
        ({
            let r = response_spec(WindowInput::Keyboard(key, pressed), false, running);
            &&& r.exit == (key == Key::Escape)
            &&& r.toggle_info_panel == (key == Key::F10 && pressed)
            &&& (r.run != RunChange::Keep) == (key == Key::P && pressed && running is Some)
            &&& (key == Key::P && pressed && running == Some(true)) ==> r.run == RunChange::Pause
            &&& (key == Key::P && pressed && running == Some(false)) ==> r.run == RunChange::Resume
            &&& r.handled
            &&& !r.resize
            &&& !r.to_touch
        }),
        shortcut_spec(key, pressed) == Shortcut::Exit <==> key == Key::Escape,
        shortcut_spec(key, pressed) == Shortcut::TogglePause <==> (key == Key::P && pressed),
        shortcut_spec(key, pressed) == Shortcut::ToggleInfoPanel <==> (key == Key::F10 && pressed),
{
}

/// Events other than key events never close the window, change the
/// emulator or toggle the panel; a resize the UI did not use resizes the
/// display, and nothing else does; mouse and cursor events, and only they,
/// go to the touch input; an event is handled exactly when the UI used it,
/// or it is a resize or a key event.
pub proof fn law_non_key_events(input: WindowInput, ui_consumed: bool, running: Option<bool>)
    ensures
        ({
            let r = response_spec(input, ui_consumed, running);
            &&& r.to_touch == (input is MouseButton || input is CursorMoved)
            &&& r.resize == (input is Resized && !ui_consumed)
            &&& r.handled == (ui_consumed || input is Resized || input is Keyboard)
            &&& !(input is Keyboard) ==> !r.exit && r.run == RunChange::Keep && !r.toggle_info_panel
        }),
{
}

} // verus!
