//! The decisions of the window's event loop: which window and device events end
//! the program, rebuild the swapchain, grab the cursor, ask for a screenshot or
//! go on to the game logic as events.
use vstd::prelude::*;
use crate::game_logic::{ControlKey, KeyboardEvent, MouseClickEvent, MouseMoveEvent};
use crate::events::EventKind;

verus! {

/// A window or device event, as plain values. Wheel motion comes in whole
/// lines or pixels.
#[derive(Clone, Copy, Debug, PartialEq, Eq)]
pub enum WindowInput {
    CloseRequested,
    Resized,
    CursorMoved { x: i32, y: i32 },
    Key { key: ControlKey, pressed: bool },
    Wheel { dx: i32, dy: i32 },
    Button { button: u32, pressed: bool },
    MouseMotion { dx: i32, dy: i32 },
    Other,
}

/// An event for the game logic.
#[derive(Clone, Copy, Debug, PartialEq, Eq)]
pub enum GameInput {
    MouseMove(MouseMoveEvent),
    MouseClick(MouseClickEvent),
    Keyboard(KeyboardEvent),
}

impl EventKind for GameInput {
    /// The kinds are numbered as the game logic numbers them: mouse motion 1,
    /// mouse buttons and wheel 2, keys 3.
    open spec fn spec_event_type(&self) -> u32 {
        match self {
            GameInput::MouseMove(_) => 1,
            GameInput::MouseClick(_) => 2,
            GameInput::Keyboard(_) => 3,
        }
    }

    fn event_type(&self) -> (t: u32) {
        match self {
            GameInput::MouseMove(_) => 1,
            GameInput::MouseClick(_) => 2,
            GameInput::Keyboard(_) => 3,
        }
    }
}

/// What happens to the mouse cursor.
#[derive(Clone, Copy, Debug, PartialEq, Eq)]
pub enum CursorAction {
    Keep,
    /// Grab the cursor and hide it.
    Grab,
    /// If the cursor is grabbed, free it, move it back to where it was grabbed
    /// and show it.
    Release { x: i32, y: i32 },
}

/// What the event loop does about one event.
#[derive(Clone, Copy, Debug, PartialEq, Eq)]
pub struct LoopAction {
    pub exit: bool,
    pub rebuild_swapchain: bool,
    pub send: Option<GameInput>,
    pub cursor: CursorAction,
    /// The mouse motion to record for the frame.
    pub mouse_delta: Option<(i32, i32)>,
}

/// What the event loop remembers between events.
#[derive(Clone, Copy, Debug, PartialEq, Eq)]
pub struct InputState {
    pub take_screenshot: bool,
    pub grab_coords: (i32, i32),
    pub cursor_position: (i32, i32),
}

/// The sign of a wheel motion: -1, 0 or 1.
pub open spec fn wheel_sign(d: i32) -> i32 {
    if d == 0 {
        0
    } else if d > 0 {
        1
    } else {
        -1i32
    }
}

/// 1 for a press, -1 for a release.
pub open spec fn press_state(pressed: bool) -> i32 {
    if pressed {
        1
    } else {
        -1i32
    }
}

/// The wheel sign is 0 for no motion, 1 for any positive motion and -1 for any
/// negative one; a press counts 1 and a release -1.
pub proof fn lemma_signs(d: i32, pressed: bool)
    ensures
        -1 <= wheel_sign(d) <= 1,
        (wheel_sign(d) == 0) == (d == 0),
        (wheel_sign(d) == 1) == (d > 0),
        (wheel_sign(d) == -1) == (d < 0),
        (press_state(pressed) == 1) == pressed,
        (press_state(pressed) == -1) == !pressed,
{
}

pub open spec fn no_action() -> LoopAction {
    LoopAction { exit: false, rebuild_swapchain: false, send: None, cursor: CursorAction::Keep, mouse_delta: None }
}

/// One event: closing the window or pressing Escape ends the program; a resize
/// rebuilds the swapchain; cursor motion is remembered; pressing F11 asks for a
/// screenshot; any other key goes to the game logic as a key event; the wheel
/// goes as a click event with the sign of each motion; a button goes as a click
/// event on the left (1), middle (2) or right (3) button, and the left button
/// grabs the cursor where it is when pressed and frees it there when released;
/// mouse motion is recorded and goes as a motion event.
pub open spec fn spec_window_step(st: InputState, ev: WindowInput) -> (InputState, LoopAction) {
    match ev {
        WindowInput::CloseRequested => (st, LoopAction { exit: true, ..no_action() }),
        WindowInput::Resized => (st, LoopAction { rebuild_swapchain: true, ..no_action() }),
        WindowInput::CursorMoved { x, y } => (InputState { cursor_position: (x, y), ..st }, no_action()),
        WindowInput::Key { key, pressed } => if key == ControlKey::F11 && pressed {
            (InputState { take_screenshot: true, ..st }, no_action())
        } else if key == ControlKey::Escape && pressed {
            (st, LoopAction { exit: true, ..no_action() })
        } else {
            (
                st,
                LoopAction {
                    send: Some(GameInput::Keyboard(KeyboardEvent { key_id: key, state: press_state(pressed) })),
                    ..no_action()
                },
            )
        },
        WindowInput::Wheel { dx, dy } => (
            st,
            LoopAction {
                send: Some(
                    GameInput::MouseClick(
                        MouseClickEvent { lmb: 0, rmb: 0, mmb: 0, wheel: (wheel_sign(dx), wheel_sign(dy)) },
                    ),
                ),
                ..no_action()
            },
        ),
        WindowInput::Button { button, pressed } => {
            let d = press_state(pressed);
            let click = MouseClickEvent {
                lmb: if button == 1 { d } else { 0 },
                rmb: if button == 3 { d } else { 0 },
                mmb: if button == 2 { d } else { 0 },
                wheel: (0, 0),
            };
            let st2 = if button == 1 && pressed { InputState { grab_coords: st.cursor_position, ..st } } else { st };
            let cursor = if button == 1 && pressed {
                CursorAction::Grab
            } else if button == 1 {
                CursorAction::Release { x: st.grab_coords.0, y: st.grab_coords.1 }
            } else {
                CursorAction::Keep
            };
            (st2, LoopAction { send: Some(GameInput::MouseClick(click)), cursor, ..no_action() })
        },
        WindowInput::MouseMotion { dx, dy } => (
            st,
            LoopAction {
                send: Some(GameInput::MouseMove(MouseMoveEvent { dx, dy })),
                mouse_delta: Some((dx, dy)),
                ..no_action()
            },
        ),
        WindowInput::Other => (st, no_action()),
    }
}

fn sign(d: i32) -> (r: i32)
    ensures
        r == wheel_sign(d),
        (r == 0) == (d == 0),
        (r == 1) == (d > 0),
        (r == -1) == (d < 0),
{
    if d == 0 {
        0
    } else if d > 0 {
        1
    } else {
        -1
    }
}

fn press(pressed: bool) -> (r: i32)
    ensures
        r == press_state(pressed),
        (r == 1) == pressed,
        (r == -1) == !pressed,
{
    if pressed {
        1
    } else {
        -1
    }
}

impl InputState {
    /// Nothing asked for yet; the cursor at the corner.
    pub fn new() -> (st: Self)
        ensures
            st == (InputState { take_screenshot: false, grab_coords: (0, 0), cursor_position: (0, 0) }),
    {
        InputState { take_screenshot: false, grab_coords: (0, 0), cursor_position: (0, 0) }
    }

    /// Takes one event and returns what the event loop does about it.
    pub fn window_event_step(&mut self, ev: WindowInput) -> (a: LoopAction)
        ensures
            (*final(self), a) == spec_window_step(*old(self), ev),
            ev matches WindowInput::Wheel { dx, dy } ==> (a.send matches Some(GameInput::MouseClick(c)) && c.lmb == 0
                && c.rmb == 0 && c.mmb == 0 && (c.wheel.0 == 0) == (dx == 0) && (c.wheel.0 == 1) == (dx > 0) && (c.wheel.0
                == -1) == (dx < 0) && (c.wheel.1 == 0) == (dy == 0) && (c.wheel.1 == 1) == (dy > 0) && (c.wheel.1 == -1)
                == (dy < 0)),
            ev matches WindowInput::Button { button, pressed } ==> (a.send matches Some(GameInput::MouseClick(c))
                && c.wheel == (0i32, 0i32) && (c.lmb != 0) == (button == 1) && (c.mmb != 0) == (button == 2) && (c.rmb
                != 0) == (button == 3) && (button == 1 ==> c.lmb == (if pressed { 1i32 } else { -1i32 }))
                && (button == 2 ==> c.mmb == (if pressed { 1i32 } else { -1i32 })) && (button == 3 ==> c.rmb == (
                if pressed { 1i32 } else { -1i32 }))),
            a.exit == (ev == WindowInput::CloseRequested || ev == (WindowInput::Key { key: ControlKey::Escape, pressed: true })),
            final(self).take_screenshot == (old(self).take_screenshot || ev == (WindowInput::Key {
                key: ControlKey::F11,
                pressed: true,
            })),
    {
        let none = LoopAction { exit: false, rebuild_swapchain: false, send: None, cursor: CursorAction::Keep, mouse_delta: None };
        match ev {
            WindowInput::CloseRequested => LoopAction { exit: true, ..none },
            WindowInput::Resized => LoopAction { rebuild_swapchain: true, ..none },
            WindowInput::CursorMoved { x, y } => {
                self.cursor_position = (x, y);
                none
            },
            WindowInput::Key { key, pressed } => {
                if key == ControlKey::F11 && pressed {
                    self.take_screenshot = true;
                    none
                } else if key == ControlKey::Escape && pressed {
                    LoopAction { exit: true, ..none }
                } else {
                    LoopAction { send: Some(GameInput::Keyboard(KeyboardEvent { key_id: key, state: press(pressed) })), ..none }
                }
            },
            WindowInput::Wheel { dx, dy } => LoopAction {
                send: Some(GameInput::MouseClick(MouseClickEvent { lmb: 0, rmb: 0, mmb: 0, wheel: (sign(dx), sign(dy)) })),
                ..none
            },
            WindowInput::Button { button, pressed } => {
                let d = press(pressed);
                let click = MouseClickEvent {
                    lmb: if button == 1 { d } else { 0 },
                    rmb: if button == 3 { d } else { 0 },
                    mmb: if button == 2 { d } else { 0 },
                    wheel: (0, 0),
                };
                let cursor = if button == 1 && pressed {
                    self.grab_coords = self.cursor_position;
                    CursorAction::Grab
                } else if button == 1 {
                    CursorAction::Release { x: self.grab_coords.0, y: self.grab_coords.1 }
                } else {
                    CursorAction::Keep
                };
                LoopAction { send: Some(GameInput::MouseClick(click)), cursor, ..none }
            },
            WindowInput::MouseMotion { dx, dy } => LoopAction {
                send: Some(GameInput::MouseMove(MouseMoveEvent { dx, dy })),
                mouse_delta: Some((dx, dy)),
                ..none
            },
            WindowInput::Other => none,
        }
    }

    /// At the end of a frame: whether a screenshot was asked for, which clears
    /// the request.
    pub fn take_screenshot_request(&mut self) -> (r: bool)
        ensures
            r == old(self).take_screenshot,
            *final(self) == (InputState { take_screenshot: false, ..*old(self) }),
    {
        let r = self.take_screenshot;
        self.take_screenshot = false;
        r
    }
}

} // verus!
