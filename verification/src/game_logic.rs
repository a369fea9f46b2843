//! Input events and simple motion behaviours.
use vstd::prelude::*;
use crate::bits::{Mat4Bits, Vec4Bits};

verus! {

/// Relative mouse motion.
#[derive(Clone, Copy, Debug, PartialEq, Eq, Structural)]
pub struct MouseMoveEvent {
    pub dx: i32,
    pub dy: i32,
}

impl Default for MouseMoveEvent {
    fn default() -> (r: Self)
        ensures
            r == (MouseMoveEvent { dx: 0, dy: 0 }),
    {
        MouseMoveEvent { dx: 0, dy: 0 }
    }
}

/// Mouse button states and wheel motion.
#[derive(Clone, Copy, Debug, PartialEq, Eq)]
pub struct MouseClickEvent {
    pub lmb: i32,
    pub rmb: i32,
    pub mmb: i32,
    pub wheel: (i32, i32),
}

impl Default for MouseClickEvent {
    fn default() -> (r: Self)
        ensures
            r == (MouseClickEvent { lmb: 0, rmb: 0, mmb: 0, wheel: (0, 0) }),
    {
        MouseClickEvent { lmb: 0, rmb: 0, mmb: 0, wheel: (0, 0) }
    }
}

/// Rotates its object about the Z axis every frame.
#[derive(Clone, Copy, Debug, PartialEq, Eq, Structural)]
pub struct Spinning;

impl Default for Spinning {
    fn default() -> (r: Self) {
        Spinning
    }
}

/// Bit pattern of the `f32` value `1.0`.
pub const ONE_F32_BITS: u32 = 0x3F80_0000;

/// The identity matrix as `f32` bit patterns.
pub open spec fn spec_identity_bits() -> Mat4Bits {
    Mat4Bits {
        c0: Vec4Bits { x: ONE_F32_BITS, y: 0, z: 0, w: 0 },
        c1: Vec4Bits { x: 0, y: ONE_F32_BITS, z: 0, w: 0 },
        c2: Vec4Bits { x: 0, y: 0, z: ONE_F32_BITS, w: 0 },
        c3: Vec4Bits { x: 0, y: 0, z: 0, w: ONE_F32_BITS },
    }
}

/// Moves its object along a circle around the place where it started.
pub struct LinearMotion {
    initial_transform: Mat4Bits,
}

impl LinearMotion {
    pub closed spec fn spec_initial_transform(&self) -> Mat4Bits {
        self.initial_transform
    }

    /// Starts from the identity transform.
    pub fn new() -> (r: Self)
        ensures
            r.spec_initial_transform() == spec_identity_bits(),
    {
        LinearMotion {
            initial_transform: Mat4Bits {
                c0: Vec4Bits { x: ONE_F32_BITS, y: 0, z: 0, w: 0 },
                c1: Vec4Bits { x: 0, y: ONE_F32_BITS, z: 0, w: 0 },
                c2: Vec4Bits { x: 0, y: 0, z: ONE_F32_BITS, w: 0 },
                c3: Vec4Bits { x: 0, y: 0, z: 0, w: ONE_F32_BITS },
            },
        }
    }

    pub fn initial_transform(&self) -> (m: Mat4Bits)
        ensures
            m == self.spec_initial_transform(),
    {
        self.initial_transform
    }

    /// Remembers the transform the object starts from.
    pub fn init(&mut self, transform: Mat4Bits)
        ensures
            final(self).spec_initial_transform() == transform,
    {
        self.initial_transform = transform;
    }
}

/// The keys that the mouse-look camera reacts to; every other key is `Other`.
#[derive(Clone, Copy, Debug, PartialEq, Eq, Structural)]
pub enum ControlKey {
    Up,
    Down,
    Left,
    Right,
    W,
    A,
    S,
    D,
    Q,
    E,
    LShift,
    RShift,
    Escape,
    F11,
    Other,
}

/// A key changed its state; `state` is 1 while the key is held.
#[derive(Clone, Copy, Debug, PartialEq, Eq, Structural)]
pub struct KeyboardEvent {
    pub key_id: ControlKey,
    pub state: i32,
}

impl Default for KeyboardEvent {
    fn default() -> (r: Self)
        ensures
            r == (KeyboardEvent { key_id: ControlKey::Escape, state: 0 }),
    {
        KeyboardEvent { key_id: ControlKey::Escape, state: 0 }
    }
}

/// A push of the camera's turning inertia by an arrow key.
#[derive(Clone, Copy, Debug, PartialEq, Eq, Structural)]
pub enum LookNudge {
    /// No push.
    Still,
    /// Pitch inertia grows.
    Up,
    /// Pitch inertia shrinks.
    Down,
    /// Yaw inertia grows.
    Left,
    /// Yaw inertia shrinks.
    Right,
}

/// The movement keys of the mouse-look camera that are held; `boost` is the
/// shift key that speeds motion up.
#[derive(Clone, Copy, Debug, PartialEq, Eq, Structural)]
pub struct MovementKeys {
    pub forward: bool,
    pub backward: bool,
    pub left: bool,
    pub right: bool,
    pub down: bool,
    pub up: bool,
    pub boost: bool,
}

/// What a key event does to the held movement keys, and the push it gives to
/// the turning inertia. Arrow keys push whatever their state; W, S, A, D, Q
/// and E set forward, backward, left, right, down and up; either shift key
/// sets the boost; other keys change nothing.
pub open spec fn spec_key_effect(m: MovementKeys, e: KeyboardEvent) -> (MovementKeys, LookNudge) {
    let held = e.state == 1;
    match e.key_id {
        ControlKey::Up => (m, LookNudge::Up),
        ControlKey::Down => (m, LookNudge::Down),
        ControlKey::Left => (m, LookNudge::Left),
        ControlKey::Right => (m, LookNudge::Right),
        ControlKey::W => (MovementKeys { forward: held, ..m }, LookNudge::Still),
        ControlKey::A => (MovementKeys { left: held, ..m }, LookNudge::Still),
        ControlKey::S => (MovementKeys { backward: held, ..m }, LookNudge::Still),
        ControlKey::D => (MovementKeys { right: held, ..m }, LookNudge::Still),
        ControlKey::Q => (MovementKeys { down: held, ..m }, LookNudge::Still),
        ControlKey::E => (MovementKeys { up: held, ..m }, LookNudge::Still),
        ControlKey::LShift | ControlKey::RShift => (MovementKeys { boost: held, ..m }, LookNudge::Still),
        _ => (m, LookNudge::Still),
    }
}

/// Each movement flag follows its own key alone: D sets `right`, A `left`, W
/// `forward`, S `backward`, Q `down`, E `up` and either shift key `boost`, each
/// to whether the key is held (state 1); a flag whose key the event is not
/// about keeps its value. Only the arrow keys push the turning inertia, each in
/// its own direction.
pub proof fn lemma_key_flags(m: MovementKeys, e: KeyboardEvent)
    ensures
        ({
            let (n, nudge) = spec_key_effect(m, e);
            let held = e.state == 1;
            &&& n.right == if e.key_id == ControlKey::D { held } else { m.right }
            &&& n.left == if e.key_id == ControlKey::A { held } else { m.left }
            &&& n.forward == if e.key_id == ControlKey::W { held } else { m.forward }
            &&& n.backward == if e.key_id == ControlKey::S { held } else { m.backward }
            &&& n.down == if e.key_id == ControlKey::Q { held } else { m.down }
            &&& n.up == if e.key_id == ControlKey::E { held } else { m.up }
            &&& n.boost == if e.key_id == ControlKey::LShift || e.key_id == ControlKey::RShift { held } else { m.boost }
            &&& (nudge == LookNudge::Up) == (e.key_id == ControlKey::Up)
            &&& (nudge == LookNudge::Down) == (e.key_id == ControlKey::Down)
            &&& (nudge == LookNudge::Left) == (e.key_id == ControlKey::Left)
            &&& (nudge == LookNudge::Right) == (e.key_id == ControlKey::Right)
        }),
{
}

impl MovementKeys {
    /// No key held.
    pub fn new() -> (r: Self)
        ensures
            r == (MovementKeys {
                forward: false,
                backward: false,
                left: false,
                right: false,
                down: false,
                up: false,
                boost: false,
            }),
    {
        MovementKeys { forward: false, backward: false, left: false, right: false, down: false, up: false, boost: false }
    }

    /// Takes a key event into account and returns the push it gives to the
    /// turning inertia.
    pub fn keys(&mut self, event: KeyboardEvent) -> (r: LookNudge)
        ensures
            (*final(self), r) == spec_key_effect(*old(self), event),
            final(self).right == if event.key_id == ControlKey::D { event.state == 1 } else { old(self).right },
            final(self).left == if event.key_id == ControlKey::A { event.state == 1 } else { old(self).left },
            final(self).forward == if event.key_id == ControlKey::W { event.state == 1 } else { old(self).forward },
            final(self).backward == if event.key_id == ControlKey::S { event.state == 1 } else { old(self).backward },
            final(self).down == if event.key_id == ControlKey::Q { event.state == 1 } else { old(self).down },
            final(self).up == if event.key_id == ControlKey::E { event.state == 1 } else { old(self).up },
            final(self).boost == if event.key_id == ControlKey::LShift || event.key_id == ControlKey::RShift {
                event.state == 1
            } else {
                old(self).boost
            },
    {
        let held = event.state == 1;
        match event.key_id {
            ControlKey::Up => LookNudge::Up,
            ControlKey::Down => LookNudge::Down,
            ControlKey::Left => LookNudge::Left,
            ControlKey::Right => LookNudge::Right,
            ControlKey::W => {
                self.forward = held;
                LookNudge::Still
            },
            ControlKey::A => {
                self.left = held;
                LookNudge::Still
            },
            ControlKey::S => {
                self.backward = held;
                LookNudge::Still
            },
            ControlKey::D => {
                self.right = held;
                LookNudge::Still
            },
            ControlKey::Q => {
                self.down = held;
                LookNudge::Still
            },
            ControlKey::E => {
                self.up = held;
                LookNudge::Still
            },
            ControlKey::LShift | ControlKey::RShift => {
                self.boost = held;
                LookNudge::Still
            },
            _ => LookNudge::Still,
        }
    }
}

} // verus!
