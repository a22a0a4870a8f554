//! Touch input: the mouse stands in for the CYD's touch screen.
//!
//! `TouchState` is what the firmware's touch driver reads: whether the
//! screen is pressed, where (in display pixels), and a latched "tap" that
//! fires once on every press. `InputHandler` turns mouse events into touch
//! updates and keeps a bounded log of press and release events.

use vstd::prelude::*;
use crate::text::{int_text, push_signed, string_views};

verus! {

/// Largest touch X coordinate (the display is 320 pixels wide).
pub const TOUCH_MAX_X: i32 = 319;

/// Largest touch Y coordinate (the display is 240 pixels high).
pub const TOUCH_MAX_Y: i32 = 239;

/// How many press/release events the touch log keeps.
pub const MAX_TOUCH_EVENTS: usize = 20;

/// `v` limited to the range `lo..=hi`.
pub open spec fn clamp(v: int, lo: int, hi: int) -> int {
    if v < lo {
        lo
    } else if v > hi {
        hi
    } else {
        v
    }
}

/// Touch state with edge detection.
#[derive(Debug, Clone, Copy)]
pub struct TouchState {
    /// Is the screen currently pressed?
    pub down: bool,
    /// Current X coordinate (display pixels, 0-319).
    pub x: i32,
    /// Current Y coordinate (display pixels, 0-239).
    pub y: i32,
    /// Latched when a press begins; cleared when the tap is consumed.
    pending_down: bool,
}

impl TouchState {
    /// Whether the screen is pressed (the field `down`).
    pub closed spec fn is_down(&self) -> bool {
        self.down
    }

    /// The X coordinate of the touch (the field `x`).
    pub closed spec fn touch_x(&self) -> int {
        self.x as int
    }

    /// The Y coordinate of the touch (the field `y`).
    pub closed spec fn touch_y(&self) -> int {
        self.y as int
    }

    /// Whether a tap (the start of a press) is waiting to be consumed.
    pub closed spec fn tap_pending(&self) -> bool {
        self.pending_down
    }

    /// The state after `update(down, x, y)`.
    pub closed spec fn updated(&self, down: bool, x: int, y: int) -> TouchState {
        TouchState {
            down: down,
            x: clamp(x, 0, TOUCH_MAX_X as int) as i32,
            y: clamp(y, 0, TOUCH_MAX_Y as int) as i32,
            pending_down: self.pending_down || (down && !self.down),
        }
    }

    /// The state after its tap has been consumed.
    pub closed spec fn consumed(&self) -> TouchState {
        TouchState { pending_down: false, ..*self }
    }

    /// What `read` reports: the position while pressed, nothing otherwise.
    pub open spec fn reading(&self) -> Option<(i32, i32)> {
        if self.is_down() {
            Some((self.touch_x() as i32, self.touch_y() as i32))
        } else {
            None
        }
    }

    /// The position is a display pixel: 0-319 across, 0-239 down. Every
    /// state that `new`, `default`, `update` and `consume_tap` give has it.
    pub open spec fn on_screen(&self) -> bool {
        &&& 0 <= self.touch_x() <= TOUCH_MAX_X
        &&& 0 <= self.touch_y() <= TOUCH_MAX_Y
    }

    /// The state of a released screen at (0, 0) with no pending tap.
    pub closed spec fn new_spec() -> TouchState {
        TouchState { down: false, x: 0, y: 0, pending_down: false }
    }

    /// A released screen at (0, 0) with no pending tap.
    pub fn new() -> (s: Self)
        ensures
            !s.is_down(),
            s.touch_x() == 0,
            s.touch_y() == 0,
            !s.tap_pending(),
            s.reading().is_none(),
            s.on_screen(),
            s == Self::new_spec(),
    {
        TouchState { down: false, x: 0, y: 0, pending_down: false }
    }

    /// Records whether the screen is pressed and where. The position is
    /// clamped to the display; a press that begins now latches a tap.
    pub fn update(&mut self, down: bool, x: i32, y: i32)
        ensures
            final(self).is_down() == down,
            final(self).touch_x() == clamp(x as int, 0, TOUCH_MAX_X as int),
            final(self).touch_y() == clamp(y as int, 0, TOUCH_MAX_Y as int),
            final(self).tap_pending() == (old(self).tap_pending() || (down && !old(self).is_down())),
            final(self).on_screen(),
            *final(self) == old(self).updated(down, x as int, y as int),
    {
        if down && !self.down {
            self.pending_down = true;
        }
        self.down = down;
        self.x = if x < 0 {
            0
        } else if x > TOUCH_MAX_X {
            TOUCH_MAX_X
        } else {
            x
        };
        self.y = if y < 0 {
            0
        } else if y > TOUCH_MAX_Y {
            TOUCH_MAX_Y
        } else {
            y
        };
    }

    /// The current touch position, or `None` when the screen is not pressed.
    pub fn read(&self) -> (r: Option<(i32, i32)>)
        ensures
            r == self.reading(),
    {
        if self.down {
            Some((self.x, self.y))
        } else {
            None
        }
    }

    /// Returns whether a tap was pending, and clears it.
    pub fn consume_tap(&mut self) -> (tapped: bool)
        ensures
            tapped == old(self).tap_pending(),
            !final(self).tap_pending(),
            final(self).is_down() == old(self).is_down(),
            final(self).touch_x() == old(self).touch_x(),
            final(self).touch_y() == old(self).touch_y(),
            final(self).reading() == old(self).reading(),
            final(self).on_screen() == old(self).on_screen(),
            *final(self) == old(self).consumed(),
    {
        let result = self.pending_down;
        self.pending_down = false;
        result
    }
}

impl Default for TouchState {
    fn default() -> (s: Self)
        ensures
            !s.is_down(),
            s.touch_x() == 0,
            s.touch_y() == 0,
            !s.tap_pending(),
            s.reading().is_none(),
            s.on_screen(),
            s == TouchState::new_spec(),
    {
        Self::new()
    }
}

/// Whether a mouse button is pressed or released.
#[derive(Debug, Clone, Copy, PartialEq, Eq, Structural)]
pub enum ElementState {
    Pressed,
    Released,
}

/// Which mouse button an event is about.
#[derive(Debug, Clone, Copy, PartialEq, Eq, Structural)]
pub enum MouseButton {
    Left,
    Right,
    Middle,
    Other(u16),
}

/// The touch-log line for a press (`down`) or a release at (`x`, `y`).
pub open spec fn touch_event_text(down: bool, x: int, y: int) -> Seq<char> {
    (if down { "Down ("@ } else { "Up   ("@ }) + int_text(x) + ", "@ + int_text(y) + ")"@
}

/// The last `n` entries of `s` (all of `s` when it is shorter).
pub open spec fn keep_last<A>(s: Seq<A>, n: nat) -> Seq<A> {
    if s.len() > n {
        s.subrange(s.len() - n, s.len() as int)
    } else {
        s
    }
}

/// The line that the touch log records for a press or a release.
pub fn touch_event_line(down: bool, x: i32, y: i32) -> (line: String)
    ensures
        line@ == touch_event_text(down, x as int, y as int),
{
    let mut line = if down {
        String::from_str("Down (")
    } else {
        String::from_str("Up   (")
    };
    push_signed(&mut line, x as i64);
    line.append(", ");
    push_signed(&mut line, y as i64);
    line.append(")");
    line
}

/// A window coordinate (truncated toward zero) divided by the window scale,
/// truncated toward zero and saturated to `i32`. With a zero scale, a
/// positive coordinate saturates up, a negative one down, and zero stays zero.
pub open spec fn display_coord(w: int, scale: nat) -> int {
    let q = if scale == 0 {
        if w > 0 {
            i32::MAX as int
        } else if w < 0 {
            i32::MIN as int
        } else {
            0
        }
    } else if w >= 0 {
        w / (scale as int)
    } else {
        -((-w) / (scale as int))
    };
    clamp(q, i32::MIN as int, i32::MAX as int)
}

/// Converts a window coordinate to a display coordinate (see `display_coord`).
pub fn window_to_display(w: i64, scale: u32) -> (d: i32)
    ensures
        d as int == display_coord(w as int, scale as nat),
{
    if scale == 0 {
        if w > 0 {
            i32::MAX
        } else if w < 0 {
            i32::MIN
        } else {
            0
        }
    } else if w >= 0 {
        let q: u64 = (w as u64) / (scale as u64);
        if q > i32::MAX as u64 {
            i32::MAX
        } else {
            q as i32
        }
    } else {
        let mag: u64 = if w == i64::MIN {
            0x8000_0000_0000_0000u64
        } else {
            (-w) as u64
        };
        let q: u64 = mag / (scale as u64);
        if q > 0x8000_0000u64 {
            i32::MIN
        } else if q == 0x8000_0000u64 {
            i32::MIN
        } else {
            -(q as i32)
        }
    }
}

/// The content of an input handler: its touch state, window scale, touch
/// log (oldest event first) and log limit.
pub struct HandlerModel {
    pub touch: TouchState,
    pub scale: nat,
    pub log: Seq<Seq<char>>,
    pub max: nat,
}

/// A call that changes an input handler.
pub enum HandlerOp {
    /// `handle_mouse_button(state, button)`
    Button(ElementState, MouseButton),
    /// `handle_cursor_moved(window_x, window_y)`
    Cursor(i64, i64),
    /// `set_scale(scale)`
    SetScale(u32),
    /// `consume_tap()`
    ConsumeTap,
}

/// The log lines that `op` emits in state `m`: one line when a left-button
/// event changes whether the screen is pressed, none otherwise.
pub open spec fn op_events(m: HandlerModel, op: HandlerOp) -> Seq<Seq<char>> {
    match op {
        HandlerOp::Button(state, button) => {
            let d = state == ElementState::Pressed;
            if button == MouseButton::Left && d != m.touch.is_down() {
                seq![touch_event_text(d, m.touch.touch_x(), m.touch.touch_y())]
            } else {
                Seq::empty()
            }
        },
        _ => Seq::empty(),
    }
}

/// The handler after `op`.
pub open spec fn handler_step(m: HandlerModel, op: HandlerOp) -> HandlerModel {
    match op {
        HandlerOp::Button(state, button) => {
            let d = state == ElementState::Pressed;
            if button == MouseButton::Left {
                HandlerModel {
                    touch: m.touch.updated(d, m.touch.touch_x(), m.touch.touch_y()),
                    log: if d != m.touch.is_down() {
                        keep_last(m.log + op_events(m, op), m.max)
                    } else {
                        m.log
                    },
                    ..m
                }
            } else {
                m
            }
        },
        HandlerOp::Cursor(wx, wy) => HandlerModel {
            touch: m.touch.updated(
                m.touch.is_down(),
                display_coord(wx as int, m.scale),
                display_coord(wy as int, m.scale),
            ),
            ..m
        },
        HandlerOp::SetScale(sc) => HandlerModel { scale: sc as nat, ..m },
        HandlerOp::ConsumeTap => HandlerModel { touch: m.touch.consumed(), ..m },
    }
}

/// The handler after the calls `ops`, in order.
pub open spec fn handler_run(m: HandlerModel, ops: Seq<HandlerOp>) -> HandlerModel
    decreases ops.len(),
{
    if ops.len() == 0 {
        m
    } else {
        handler_step(handler_run(m, ops.drop_last()), ops.last())
    }
}

/// The log lines that the calls `ops` emit, in order.
pub open spec fn handler_events(m: HandlerModel, ops: Seq<HandlerOp>) -> Seq<Seq<char>>
    decreases ops.len(),
{
    if ops.len() == 0 {
        Seq::empty()
    } else {
        handler_events(m, ops.drop_last()) + op_events(handler_run(m, ops.drop_last()), ops.last())
    }
}

/// A handler as `new(scale)` makes it.
pub open spec fn fresh_handler(scale: u32) -> HandlerModel {
    HandlerModel { touch: TouchState::new_spec(), scale: scale as nat, log: Seq::empty(), max: MAX_TOUCH_EVENTS as nat }
}

/// Maps mouse events to touch input and keeps a log of presses and releases.
pub struct InputHandler {
    touch_state: TouchState,
    scale: u32,
    touch_log: Vec<String>,
    max_touch_events: usize,
}

impl InputHandler {
    /// The touch state that the firmware reads.
    pub closed spec fn touch(&self) -> TouchState {
        self.touch_state
    }

    /// The window scale factor (window pixels per display pixel).
    pub closed spec fn scale_factor(&self) -> nat {
        self.scale as nat
    }

    /// The touch log, oldest event first.
    pub closed spec fn log(&self) -> Seq<Seq<char>> {
        string_views(self.touch_log@)
    }

    /// How many events the log keeps.
    pub closed spec fn max_events(&self) -> nat {
        self.max_touch_events as nat
    }

    /// The handler's content.
    pub open spec fn model(&self) -> HandlerModel {
        HandlerModel { touch: self.touch(), scale: self.scale_factor(), log: self.log(), max: self.max_events() }
    }

    /// A handler for the given window scale, with a released screen and an
    /// empty log that keeps the last `MAX_TOUCH_EVENTS` events.
    pub fn new(scale: u32) -> (h: Self)
        ensures
            h.touch() == TouchState::new_spec(),
            h.scale_factor() == scale,
            h.log() == Seq::<Seq<char>>::empty(),
            h.max_events() == MAX_TOUCH_EVENTS,
            h.model() == fresh_handler(scale),
    {
        let h = InputHandler {
            touch_state: TouchState::new(),
            scale: scale,
            touch_log: Vec::new(),
            max_touch_events: MAX_TOUCH_EVENTS,
        };
        assert(h.log() =~= Seq::<Seq<char>>::empty());
        h
    }

    /// A left-button press or release presses or releases the touch screen
    /// at its current position; a change of state is logged, and the log
    /// keeps only its most recent `max_events()` lines. Other buttons are
    /// ignored.
    pub fn handle_mouse_button(&mut self, state: ElementState, button: MouseButton)
        ensures
            button != MouseButton::Left ==> *final(self) == *old(self),
            button == MouseButton::Left ==> {
                let d = state == ElementState::Pressed;
                let t0 = old(self).touch();
                let t1 = final(self).touch();
                &&& t1.is_down() == d
                &&& t1.touch_x() == clamp(t0.touch_x(), 0, TOUCH_MAX_X as int)
                &&& t1.touch_y() == clamp(t0.touch_y(), 0, TOUCH_MAX_Y as int)
                &&& t1.tap_pending() == (t0.tap_pending() || (d && !t0.is_down()))
                &&& final(self).log() == (if d != t0.is_down() {
                    keep_last(
                        old(self).log().push(touch_event_text(d, t0.touch_x(), t0.touch_y())),
                        old(self).max_events(),
                    )
                } else {
                    old(self).log()
                })
                &&& final(self).scale_factor() == old(self).scale_factor()
                &&& final(self).max_events() == old(self).max_events()
            },
            final(self).model() == handler_step(old(self).model(), HandlerOp::Button(state, button)),
    {
        if button == MouseButton::Left {
            let is_down = state == ElementState::Pressed;
            let x = self.touch_state.x;
            let y = self.touch_state.y;
            let prev_down = self.touch_state.down;
            self.touch_state.update(is_down, x, y);
            if is_down != prev_down {
                let event = touch_event_line(is_down, x, y);
                let ghost before = self.touch_log@;
                self.touch_log.push(event);
                assert(string_views(self.touch_log@) =~= string_views(before).push(event@));
                let len = self.touch_log.len();
                if len > self.max_touch_events {
                    let ghost pushed = self.touch_log@;
                    let kept = self.touch_log.split_off(len - self.max_touch_events);
                    self.touch_log = kept;
                    assert(string_views(self.touch_log@) =~= string_views(pushed).subrange(
                        pushed.len() - self.max_touch_events,
                        pushed.len() as int,
                    ));
                }
            }
        }
        proof {
            let m = old(self).model();
            let op = HandlerOp::Button(state, button);
            if button == MouseButton::Left && (state == ElementState::Pressed) != m.touch.is_down() {
                assert(m.log + op_events(m, op) =~= m.log.push(
                    touch_event_text(state == ElementState::Pressed, m.touch.touch_x(), m.touch.touch_y()),
                ));
            }
        }
    }

    /// Moves the touch position to the display pixel under the cursor,
    /// keeping the pressed state. `window_x` and `window_y` are the cursor's
    /// window coordinates truncated toward zero; they are divided by the
    /// scale (see `display_coord`) and then clamped to the display.
    pub fn handle_cursor_moved(&mut self, window_x: i64, window_y: i64)
        ensures
            ({
                let t0 = old(self).touch();
                let t1 = final(self).touch();
                let s = old(self).scale_factor();
                &&& t1.is_down() == t0.is_down()
                &&& t1.touch_x() == clamp(display_coord(window_x as int, s), 0, TOUCH_MAX_X as int)
                &&& t1.touch_y() == clamp(display_coord(window_y as int, s), 0, TOUCH_MAX_Y as int)
                &&& t1.tap_pending() == t0.tap_pending()
            }),
            final(self).log() == old(self).log(),
            final(self).scale_factor() == old(self).scale_factor(),
            final(self).max_events() == old(self).max_events(),
            final(self).model() == handler_step(old(self).model(), HandlerOp::Cursor(window_x, window_y)),
    {
        let x = window_to_display(window_x, self.scale);
        let y = window_to_display(window_y, self.scale);
        let is_down = self.touch_state.down;
        self.touch_state.update(is_down, x, y);
    }

    /// A copy of the touch state.
    pub fn touch_state(&self) -> (t: TouchState)
        ensures
            t == self.touch(),
    {
        self.touch_state
    }

    /// What the touch driver reads: the position while the screen is
    /// pressed, nothing otherwise.
    pub fn read_touch(&self) -> (r: Option<(i32, i32)>)
        ensures
            r == self.touch().reading(),
    {
        self.touch_state.read()
    }

    /// Returns whether a tap was pending, and clears it.
    pub fn consume_tap(&mut self) -> (tapped: bool)
        ensures
            tapped == old(self).touch().tap_pending(),
            final(self).touch() == old(self).touch().consumed(),
            final(self).log() == old(self).log(),
            final(self).scale_factor() == old(self).scale_factor(),
            final(self).max_events() == old(self).max_events(),
            final(self).model() == handler_step(old(self).model(), HandlerOp::ConsumeTap),
    {
        self.touch_state.consume_tap()
    }

    /// A copy of the touch log, oldest event first.
    pub fn get_touch_log(&self) -> (log: Vec<String>)
        ensures
            string_views(log@) == self.log(),
    {
        let mut out: Vec<String> = Vec::new();
        let mut i: usize = 0;
        while i < self.touch_log.len()
            invariant
                i <= self.touch_log.len(),
                string_views(out@) == string_views(self.touch_log@).subrange(0, i as int),
            decreases self.touch_log.len() - i,
        {
            let line = self.touch_log[i].clone();
            let ghost before = out@;
            out.push(line);
            assert(string_views(out@) =~= string_views(self.touch_log@).subrange(0, i + 1)) by {
                assert(string_views(out@) =~= string_views(before).push(line@));
            }
            i = i + 1;
        }
        assert(string_views(self.touch_log@).subrange(0, i as int) =~= string_views(self.touch_log@));
        out
    }

    /// Sets the window scale factor.
    pub fn set_scale(&mut self, scale: u32)
        ensures
            final(self).scale_factor() == scale,
            final(self).touch() == old(self).touch(),
            final(self).log() == old(self).log(),
            final(self).max_events() == old(self).max_events(),
            final(self).model() == handler_step(old(self).model(), HandlerOp::SetScale(scale)),
    {
        self.scale = scale;
    }
}

/// Wherever the screen is touched, the recorded position is on the
/// display: 0-319 across and 0-239 down.
pub proof fn law_touch_stays_on_screen(s: TouchState, down: bool, x: int, y: int)
    ensures
        0 <= s.updated(down, x, y).touch_x() <= TOUCH_MAX_X,
        0 <= s.updated(down, x, y).touch_y() <= TOUCH_MAX_Y,
{
}

/// A press of a released screen latches a tap, which the next
/// `consume_tap` reports and clears: a second `consume_tap` reports
/// nothing.
pub proof fn law_tap_fires_once(s: TouchState, x: int, y: int)
    requires
        !s.is_down(),
    ensures
        s.updated(true, x, y).tap_pending(),
        !s.updated(true, x, y).consumed().tap_pending(),
        !s.updated(true, x, y).consumed().consumed().tap_pending(),
{
}

/// Holding the screen down, moving it, or releasing it latches no new tap.
pub proof fn law_no_tap_without_press(s: TouchState, down: bool, x: int, y: int)
    requires
        !s.tap_pending(),
        s.is_down() || !down,
    ensures
        !s.updated(down, x, y).tap_pending(),
{
}

/// While the screen is pressed `read` reports the (clamped) position;
/// once it is released `read` reports nothing.
pub proof fn law_read_reports_touch(s: TouchState, x: int, y: int)
    ensures
        s.updated(true, x, y).reading() == Some(
            (clamp(x, 0, TOUCH_MAX_X as int) as i32, clamp(y, 0, TOUCH_MAX_Y as int) as i32),
        ),
        s.updated(false, x, y).reading().is_none(),
{
}

/// Consuming a tap changes nothing but the tap: the press state and the
/// position stay.
pub proof fn law_consume_keeps_touch(s: TouchState)
    ensures
        s.consumed().is_down() == s.is_down(),
        s.consumed().touch_x() == s.touch_x(),
        s.consumed().touch_y() == s.touch_y(),
        s.consumed().reading() == s.reading(),
{
}

/// The touch log never holds more than its limit, and the newest event is
/// always its last line.
pub proof fn law_touch_log_bounded(log: Seq<Seq<char>>, line: Seq<char>, n: nat)
    requires
        n > 0,
    ensures
        keep_last(log.push(line), n).len() <= n,
        keep_last(log.push(line), n).last() == line,
        log.len() < n ==> keep_last(log.push(line), n) == log.push(line),
{
}

/// A non-negative window coordinate maps to the display pixel that
/// contains it: the coordinate divided by the scale, rounded down (and
/// limited to `i32::MAX`).
pub proof fn law_window_to_display_divides(w: int, scale: nat)
    requires
        0 <= w <= i64::MAX,
        scale > 0,
    ensures
        display_coord(w, scale) == clamp(w / (scale as int), 0, i32::MAX as int),
{
    assert(w / (scale as int) <= w) by (nonlinear_arith)
        requires
            0 <= w,
            scale > 0,
    ;
    assert(w / (scale as int) >= 0) by (nonlinear_arith)
        requires
            0 <= w,
            scale > 0,
    ;
}

/// A call of the touch state.
pub enum TouchOp {
    /// `update(down, x, y)`
    Update(bool, i32, i32),
    /// `consume_tap()`
    Consume,
}

/// The touch state after the calls `ops`, in order.
pub open spec fn touch_run(s: TouchState, ops: Seq<TouchOp>) -> TouchState
    decreases ops.len(),
{
    if ops.len() == 0 {
        s
    } else {
        let p = touch_run(s, ops.drop_last());
        match ops.last() {
            TouchOp::Update(d, x, y) => p.updated(d, x as int, y as int),
            TouchOp::Consume => p.consumed(),
        }
    }
}

/// Whatever `update` and `consume_tap` calls follow `new()`, the touch
/// position is a display pixel, and `read` gives either nothing or such a
/// pixel.
pub proof fn law_touch_always_on_screen(ops: Seq<TouchOp>)
    ensures
        touch_run(TouchState::new_spec(), ops).on_screen(),
        touch_run(TouchState::new_spec(), ops).reading() matches Some((x, y)) ==> 0 <= x <= TOUCH_MAX_X && 0
            <= y <= TOUCH_MAX_Y,
    decreases ops.len(),
{
    if ops.len() > 0 {
        law_touch_always_on_screen(ops.drop_last());
    }
}

proof fn lemma_keep_last_push<A>(e: Seq<A>, x: A, n: nat)
    ensures
        keep_last(keep_last(e, n).push(x), n) == keep_last(e.push(x), n),
{
    if e.len() > n {
        let k = keep_last(e, n);
        assert(keep_last(k.push(x), n) =~= keep_last(e.push(x), n));
    }
}

/// Whatever calls follow `new(scale)`, the touch log holds the last
/// `MAX_TOUCH_EVENTS` of the lines those calls emitted, oldest first (so at
/// most that many), and the touch position stays a display pixel.
pub proof fn law_touch_log_keeps_last_events(scale: u32, ops: Seq<HandlerOp>)
    ensures
        handler_run(fresh_handler(scale), ops).log == keep_last(
            handler_events(fresh_handler(scale), ops),
            MAX_TOUCH_EVENTS as nat,
        ),
        handler_run(fresh_handler(scale), ops).log.len() <= MAX_TOUCH_EVENTS,
        handler_run(fresh_handler(scale), ops).max == MAX_TOUCH_EVENTS,
        handler_run(fresh_handler(scale), ops).touch.on_screen(),
    decreases ops.len(),
{
    let m0 = fresh_handler(scale);
    if ops.len() > 0 {
        let p = ops.drop_last();
        law_touch_log_keeps_last_events(scale, p);
        let m = handler_run(m0, p);
        let op = ops.last();
        let ev = op_events(m, op);
        let e_p = handler_events(m0, p);
        if ev.len() == 0 {
            assert(e_p + ev =~= e_p);
        } else {
            let line = ev[0];
            assert(ev =~= seq![line]);
            assert(e_p + ev =~= e_p.push(line));
            assert(m.log + ev =~= m.log.push(line));
            lemma_keep_last_push(e_p, line, MAX_TOUCH_EVENTS as nat);
        }
    } else {
        assert(keep_last(Seq::<Seq<char>>::empty(), MAX_TOUCH_EVENTS as nat) =~= Seq::<Seq<char>>::empty());
    }
}

/// A button other than the left one changes nothing: neither the touch
/// state nor the log.
pub proof fn law_other_buttons_ignored(m: HandlerModel, state: ElementState, button: MouseButton)
    requires
        button != MouseButton::Left,
    ensures
        handler_step(m, HandlerOp::Button(state, button)) == m,
        op_events(m, HandlerOp::Button(state, button)) == Seq::<Seq<char>>::empty(),
{
}

/// A touch-log line says "Down" for a press and "Up" for a release, and
/// ends with a closing bracket after the coordinates.
pub proof fn law_touch_line_kind(down: bool, x: int, y: int)
    ensures
        touch_event_text(true, x, y).subrange(0, 4) == seq!['D', 'o', 'w', 'n'],
        touch_event_text(false, x, y).subrange(0, 2) == seq!['U', 'p'],
        touch_event_text(down, x, y).last() == ')',
{
    reveal_strlit("Down (");
    reveal_strlit("Up   (");
    reveal_strlit(")");
    assert(touch_event_text(true, x, y).subrange(0, 4) =~= seq!['D', 'o', 'w', 'n']);
    assert(touch_event_text(false, x, y).subrange(0, 2) =~= seq!['U', 'p']);
}

} // verus!
