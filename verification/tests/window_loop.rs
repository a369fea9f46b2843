use dsge_vk::events::EventProcessor;
use dsge_vk::game_logic::{ControlKey, KeyboardEvent, MouseClickEvent, MouseMoveEvent};
use dsge_vk::light::{ShadowMapMode, StaticShadowRefresh};
use dsge_vk::render_graph::{PostprocessingPass, RenderStageInputSocket, RenderStageLink, RenderStageOutputSocket};
use dsge_vk::window_input::{CursorAction, GameInput, InputState, WindowInput};

#[test]
fn close_and_escape_end_the_loop() {
    let mut st = InputState::new();
    assert!(st.window_event_step(WindowInput::CloseRequested).exit);
    assert!(st.window_event_step(WindowInput::Key { key: ControlKey::Escape, pressed: true }).exit);
    let a = st.window_event_step(WindowInput::Key { key: ControlKey::Escape, pressed: false });
    assert!(!a.exit);
    assert_eq!(a.send, Some(GameInput::Keyboard(KeyboardEvent { key_id: ControlKey::Escape, state: -1 })));
    assert!(st.window_event_step(WindowInput::Resized).rebuild_swapchain);
}

#[test]
fn keys_wheel_and_motion_become_game_events() {
    let mut st = InputState::new();
    let a = st.window_event_step(WindowInput::Key { key: ControlKey::W, pressed: true });
    assert_eq!(a.send, Some(GameInput::Keyboard(KeyboardEvent { key_id: ControlKey::W, state: 1 })));
    let a = st.window_event_step(WindowInput::Wheel { dx: -3, dy: 7 });
    assert_eq!(
        a.send,
        Some(GameInput::MouseClick(MouseClickEvent { lmb: 0, rmb: 0, mmb: 0, wheel: (-1, 1) }))
    );
    let a = st.window_event_step(WindowInput::MouseMotion { dx: 4, dy: -2 });
    assert_eq!(a.send, Some(GameInput::MouseMove(MouseMoveEvent { dx: 4, dy: -2 })));
    assert_eq!(a.mouse_delta, Some((4, -2)));
    assert_eq!(st.window_event_step(WindowInput::Other).send, None);
}

#[test]
fn left_button_grabs_and_frees_the_cursor() {
    let mut st = InputState::new();
    st.window_event_step(WindowInput::CursorMoved { x: 30, y: 40 });
    let a = st.window_event_step(WindowInput::Button { button: 1, pressed: true });
    assert_eq!(a.cursor, CursorAction::Grab);
    assert_eq!(a.send, Some(GameInput::MouseClick(MouseClickEvent { lmb: 1, rmb: 0, mmb: 0, wheel: (0, 0) })));
    st.window_event_step(WindowInput::CursorMoved { x: 100, y: 5 });
    let a = st.window_event_step(WindowInput::Button { button: 1, pressed: false });
    assert_eq!(a.cursor, CursorAction::Release { x: 30, y: 40 });
    let a = st.window_event_step(WindowInput::Button { button: 3, pressed: true });
    assert_eq!(a.cursor, CursorAction::Keep);
    assert_eq!(a.send, Some(GameInput::MouseClick(MouseClickEvent { lmb: 0, rmb: 1, mmb: 0, wheel: (0, 0) })));
}

#[test]
fn f11_asks_for_one_screenshot() {
    let mut st = InputState::new();
    assert!(!st.take_screenshot_request());
    let a = st.window_event_step(WindowInput::Key { key: ControlKey::F11, pressed: true });
    assert_eq!(a.send, None);
    assert!(st.take_screenshot_request());
    assert!(!st.take_screenshot_request());
}

#[test]
fn events_reach_their_handlers() {
    let mut p: EventProcessor<GameInput> = EventProcessor::new();
    let tick = GameInput::MouseMove(MouseMoveEvent { dx: 0, dy: 0 });
    assert!(p.register_handler(3, 7, 70, tick));
    assert!(p.register_handler(1, 8, 80, tick));
    assert_eq!(p.dispatch_next().map(|(e, hs)| (e, hs)), Some((tick, vec![(8, 80)])));
    assert_eq!(p.dispatch_next().map(|(e, hs)| (e, hs)), Some((tick, vec![(8, 80)])));
    let key = GameInput::Keyboard(KeyboardEvent { key_id: ControlKey::A, state: 1 });
    p.send_event(key);
    assert_eq!(p.dispatch_next(), Some((key, vec![(7, 70)])));
    assert_eq!(p.dispatch_next(), None);
}

#[test]
fn static_shadows_are_drawn_once() {
    let mut r = StaticShadowRefresh::new(ShadowMapMode::SemiDynamic(512));
    assert!(r.take_refresh_flag());
    assert!(!r.take_refresh_flag());
    let mut d = StaticShadowRefresh::new(ShadowMapMode::FullyDynamic(512));
    assert!(!d.take_refresh_flag());
    assert!(ShadowMapMode::Static(64).has_static_shadows());
    assert!(!ShadowMapMode::Disabled.has_static_shadows());
}

#[test]
fn bound_output_survives_other_calls() {
    let mut pass = PostprocessingPass::new();
    let a = pass.register_stage(vec![false]);
    pass.set_output("swapchain_out".to_owned(), 77);
    assert!(pass.link_stages(a, 0, None, 0, "swapchain_out".to_owned()).is_ok());
    pass.set_input(a, "gAlbedo".to_owned(), 3);
    pass.begin_execution();
    let l = RenderStageLink {
        _from: RenderStageOutputSocket { render_stage_id: a, output: 0, stack_index: 0 },
        _to: RenderStageInputSocket { render_stage_id: 0, input: "swapchain_out".to_owned() },
    };
    assert_eq!(pass.request_texture(&l, 8, 8, 1, 90), 77);
    pass.free_texture(&l);
    pass.set_output("other".to_owned(), 5);
    pass.end_execution();
    assert_eq!(pass.input_texture(a, &"gAlbedo".to_owned()), None);
    assert_eq!(pass.get_output("swapchain_out"), Some(77));
    pass.reset();
    assert_eq!(pass.get_output("swapchain_out"), None);
}
