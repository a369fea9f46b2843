use dsge_vk::game_logic::{
    ControlKey, KeyboardEvent, LinearMotion, LookNudge, MouseClickEvent, MouseMoveEvent, MovementKeys, ONE_F32_BITS,
};
use dsge_vk::bits::Mat4Bits;

#[test]
fn movement_keys_follow_key_state() {
    let mut keys = MovementKeys::new();
    assert!(!keys.forward && !keys.boost);
    assert_eq!(keys.keys(KeyboardEvent { key_id: ControlKey::W, state: 1 }), LookNudge::Still);
    assert!(keys.forward);
    keys.keys(KeyboardEvent { key_id: ControlKey::Q, state: 1 });
    keys.keys(KeyboardEvent { key_id: ControlKey::RShift, state: 1 });
    assert!(keys.down && keys.boost);
    keys.keys(KeyboardEvent { key_id: ControlKey::W, state: 0 });
    assert!(!keys.forward);
    keys.keys(KeyboardEvent { key_id: ControlKey::LShift, state: 2 });
    assert!(!keys.boost);
    assert!(keys.down);
}

#[test]
fn arrow_keys_nudge_the_view() {
    let mut keys = MovementKeys::new();
    assert_eq!(keys.keys(KeyboardEvent { key_id: ControlKey::Up, state: 0 }), LookNudge::Up);
    assert_eq!(keys.keys(KeyboardEvent { key_id: ControlKey::Right, state: 1 }), LookNudge::Right);
    assert_eq!(keys.keys(KeyboardEvent { key_id: ControlKey::Other, state: 1 }), LookNudge::Still);
    assert_eq!(keys, MovementKeys::new());
}

#[test]
fn event_defaults() {
    assert_eq!(KeyboardEvent::default(), KeyboardEvent { key_id: ControlKey::Escape, state: 0 });
    assert_eq!(MouseMoveEvent::default(), MouseMoveEvent { dx: 0, dy: 0 });
    assert_eq!(MouseClickEvent::default(), MouseClickEvent { lmb: 0, rmb: 0, mmb: 0, wheel: (0, 0) });
}

#[test]
fn linear_motion_remembers_its_start() {
    let mut motion = LinearMotion::new();
    let start = motion.initial_transform();
    assert_eq!(start.c0.x, ONE_F32_BITS);
    assert_eq!(start.c3.w, ONE_F32_BITS);
    assert_eq!(start.c1.x, 0);
    motion.init(Mat4Bits::zero());
    assert_eq!(motion.initial_transform(), Mat4Bits::zero());
}
