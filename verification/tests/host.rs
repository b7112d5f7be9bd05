//! Window events, key names, wake-ups and scenes.
use solite::events::{KeyPhase, MouseAction, MouseButton, TickResult, TouchPhase};
use solite::scene::Scene;
use solite::winit_integration::{
    key_to_string, logical_key_text, touch_as_mouse, winit_to_solite_button, LogicalKey,
    Modifiers, Wakeup, WindowAction, WindowInput, WinitBridge, WinitForward,
    WinitPollScheduler,
};
use std::time::{Duration, Instant};
use winit::keyboard::{Key, NamedKey, SmolStr};

#[test]
fn key_to_string_returns_whatwg_name_for_named_keys() {
    assert_eq!(key_to_string(&Key::Named(NamedKey::Tab), Some("\t")), "Tab");
    assert_eq!(key_to_string(&Key::Named(NamedKey::Enter), Some("\r")), "Enter");
    assert_eq!(key_to_string(&Key::Named(NamedKey::Escape), Some("\x1b")), "Escape");
    assert_eq!(key_to_string(&Key::Named(NamedKey::Backspace), Some("\u{8}")), "Backspace");
    assert_eq!(key_to_string(&Key::Named(NamedKey::ArrowLeft), None), "ArrowLeft");
}

#[test]
fn key_to_string_returns_literal_space_for_space_key() {
    assert_eq!(key_to_string(&Key::Named(NamedKey::Space), Some(" ")), " ");
}

#[test]
fn key_to_string_prefers_text_for_character_keys() {
    let key = Key::Character(SmolStr::new_inline("a"));
    assert_eq!(key_to_string(&key, Some("A")), "A");
}

#[test]
fn keys_without_text_fall_back() {
    assert_eq!(key_to_string(&Key::Character(SmolStr::new_inline("a")), None), "a");
    assert_eq!(key_to_string(&Key::Character(SmolStr::new_inline("a")), Some("")), "a");
    assert_eq!(key_to_string(&Key::Dead(Some('^')), None), "^");
    assert_eq!(key_to_string(&Key::Dead(None), None), "");
    assert_eq!(logical_key_text(LogicalKey::Unidentified, None), "Unidentified");
}

#[test]
fn winit_button_left_maps_to_solite_left() {
    assert_eq!(
        winit_to_solite_button(winit::event::MouseButton::Left),
        Some(MouseButton::Left)
    );
    assert_eq!(
        winit_to_solite_button(winit::event::MouseButton::Middle),
        Some(MouseButton::Middle)
    );
    assert!(
        winit_to_solite_button(winit::event::MouseButton::Other(7)).is_none(),
        "extra buttons fall back to None"
    );
    assert_eq!(
        winit_to_solite_button(winit::event::MouseButton::Right),
        Some(MouseButton::Right)
    );
}

#[test]
fn keys_carry_the_held_modifiers() {
    let mut bridge = WinitBridge::new((0.0_f32, 0.0_f32));
    let held = Modifiers { shift: true, ctrl: false, alt: false, meta: true };
    let (action, forward) = bridge.handle(WindowInput::ModifiersChanged(held));
    assert!(matches!(action, WindowAction::Nothing));
    assert_eq!(forward, WinitForward::default());
    assert_eq!(bridge.modifiers(), held);
    let (action, _) = bridge.handle(WindowInput::Keyboard {
        key: "a".into(),
        code: "KeyA".into(),
        repeat: true,
        pressed: false,
    });
    match action {
        WindowAction::Key(KeyPhase::Up, event) => {
            assert_eq!(event.key, "a");
            assert_eq!(event.code, "KeyA");
            assert!(event.repeat && event.shift_key && event.meta_key);
            assert!(!event.ctrl_key && !event.alt_key);
        }
        other => panic!("expected a key, got {other:?}"),
    }
}

#[test]
fn buttons_act_at_the_cursor() {
    let mut bridge = WinitBridge::new((0.0_f32, 0.0_f32));
    let at = (12.5, 7.0);
    let (action, forward) = bridge.handle(WindowInput::CursorMoved(at));
    assert!(matches!(action, WindowAction::Mouse { action: MouseAction::Move, at: p } if p == at));
    assert_eq!(forward, WinitForward::default());
    assert_eq!(bridge.cursor(), at);
    let left = Some(MouseButton::Left);
    let (action, _) = bridge.handle(WindowInput::MouseInput { pressed: true, button: left });
    let down = MouseAction::Down(MouseButton::Left);
    assert!(matches!(action, WindowAction::Mouse { action, at: p } if action == down && p == at));
    let (action, _) = bridge.handle(WindowInput::MouseWheel);
    assert!(matches!(action, WindowAction::Mouse { action: MouseAction::Wheel, at: p } if p == at));
    bridge.handle(WindowInput::CursorLeft);
    assert_eq!(bridge.cursor(), at);
    let touch = WindowInput::Touch { phase: TouchPhase::Moved, at: (3.0, 4.0) };
    let (action, _) = bridge.handle(touch);
    assert!(matches!(
        action,
        WindowAction::Touch { phase: TouchPhase::Moved, at: p } if p == (3.0, 4.0)
    ));
    assert_eq!(bridge.cursor(), (3.0, 4.0));
}

#[test]
fn window_events_have_their_meaning() {
    let mut bridge = WinitBridge::new((0.0_f32, 0.0_f32));
    let (_, closing) = bridge.handle(WindowInput::CloseRequested);
    assert!(closing.close_requested && !closing.needs_redraw);
    let (action, resized) = bridge.handle(WindowInput::Resized);
    assert!(matches!(action, WindowAction::Resize) && resized.needs_redraw);
    let (action, _) =
        bridge.handle(WindowInput::MouseInput { pressed: true, button: Some(MouseButton::Right) });
    let down = MouseAction::Down(MouseButton::Right);
    assert!(matches!(action, WindowAction::Mouse { action, .. } if action == down));
    let (action, _) = bridge.handle(WindowInput::MouseInput { pressed: true, button: None });
    assert!(matches!(action, WindowAction::Nothing));
    let (action, _) = bridge.handle(WindowInput::CursorLeft);
    assert!(matches!(action, WindowAction::MoveOutside));
    let forward = WinitForward::from_tick(TickResult { needs_paint: true, jobs_pending: false });
    assert!(forward.needs_redraw && !forward.jobs_pending);
}

#[test]
fn touches_stand_for_the_left_button() {
    assert_eq!(touch_as_mouse(TouchPhase::Started), MouseAction::Down(MouseButton::Left));
    assert_eq!(touch_as_mouse(TouchPhase::Moved), MouseAction::Move);
    assert_eq!(touch_as_mouse(TouchPhase::Cancelled), MouseAction::Up(MouseButton::Left));
}

#[test]
fn polls_come_at_their_interval() {
    let start = Instant::now();
    let interval = Duration::from_millis(40);
    let mut scheduler = WinitPollScheduler::starting_at(start, interval);
    assert!(!scheduler.should_poll_at(start + interval), "disabled");
    scheduler.set_enabled(true);
    assert!(!scheduler.should_poll_at(start + Duration::from_millis(39)));
    assert!(scheduler.should_poll_at(start + interval));
    assert!(!scheduler.should_poll_at(start + Duration::from_millis(79)));
    assert!(scheduler.should_poll_at(start + Duration::from_millis(80)));
}

#[test]
fn late_polls_plan_the_next_from_their_own_moment() {
    let start = Instant::now();
    let interval = Duration::from_millis(40);
    let mut scheduler = WinitPollScheduler::starting_at(start, interval);
    scheduler.set_enabled(true);
    let late = start + Duration::from_millis(100);
    assert!(scheduler.should_poll_at(late));
    let next = late + interval;
    assert!(matches!(scheduler.next_wakeup(None), Wakeup::Until(at) if at == next));
    assert!(!scheduler.should_poll_at(late + Duration::from_millis(39)));
    assert!(scheduler.should_poll_at(next));
}

#[test]
fn wakeups_are_the_earlier_of_poll_and_blink() {
    let start = Instant::now();
    let mut scheduler = WinitPollScheduler::starting_at(start, Duration::from_millis(40));
    assert!(matches!(scheduler.next_wakeup(None), Wakeup::Wait));
    let blink = start + Duration::from_millis(10);
    assert!(matches!(scheduler.next_wakeup(Some(blink)), Wakeup::Until(at) if at == blink));
    scheduler.set_enabled(true);
    let poll = start + Duration::from_millis(40);
    assert!(matches!(scheduler.next_wakeup(None), Wakeup::Until(at) if at == poll));
    assert!(matches!(scheduler.next_wakeup(Some(blink)), Wakeup::Until(at) if at == blink));
    let late = start + Duration::from_millis(90);
    assert!(matches!(scheduler.next_wakeup(Some(late)), Wakeup::Until(at) if at == poll));
}

#[test]
fn the_default_scheduler_polls_every_fifty_milliseconds() {
    let mut scheduler = WinitPollScheduler::with_default_interval();
    assert_eq!(scheduler.interval, Duration::from_millis(50));
    assert!(!scheduler.enabled);
    assert!(!scheduler.should_poll());
    let mut due = WinitPollScheduler::with_interval(Duration::from_millis(0));
    due.set_enabled(true);
    assert!(due.should_poll());
}

#[test]
fn scenes_number_their_surfaces() {
    let mut scene: Scene<&str> = Scene::new();
    assert!(scene.is_empty());
    let a = scene.add_surface("a");
    let b = scene.add_surface("b");
    assert_eq!((a.index(), b.index()), (0, 1));
    assert_eq!(scene.len(), 2);
    assert_eq!(scene.surface_at(&vec![false, true]), Some(b));
    assert_eq!(scene.surface_at(&vec![true, true]), Some(a));
    assert_eq!(scene.surface_at(&vec![false, false]), None);
    *scene.surface_mut(1) = "c";
    assert_eq!(scene.surfaces()[1].data, "c");
    for surface in scene.surfaces_mut() {
        surface.data = "d";
    }
    assert_eq!(scene.surfaces()[0].data, "d");
    scene.clear();
    assert!(scene.is_empty());
    assert_eq!(scene.surface_index(a), None);
}

#[test]
fn the_pointer_is_captured_until_release() {
    let mut scene: Scene<()> = Scene::new();
    let a = scene.add_surface(());
    let b = scene.add_surface(());
    let route = scene.dispatch_mouse(MouseAction::Down(MouseButton::Left), Some(a));
    assert_eq!((route.outside, route.target), (None, Some(a)));
    assert_eq!(scene.pressed_surface(), Some(a));
    assert_eq!(scene.focused_surface(), Some(a));
    let route = scene.dispatch_mouse(MouseAction::Move, Some(b));
    assert_eq!((route.outside, route.target), (None, Some(b)));
    assert_eq!(scene.hovered_surface(), Some(b));
    let route = scene.dispatch_mouse(MouseAction::Up(MouseButton::Left), Some(b));
    assert_eq!(route.target, Some(a));
    assert_eq!(scene.pressed_surface(), None);
}

#[test]
fn surfaces_are_told_when_they_lose_pointer_or_focus() {
    let mut scene: Scene<()> = Scene::new();
    let a = scene.add_surface(());
    let b = scene.add_surface(());
    scene.dispatch_mouse(MouseAction::Move, Some(a));
    let route = scene.dispatch_mouse(MouseAction::Move, None);
    assert_eq!((route.outside, route.target), (Some(a), None));
    scene.dispatch_mouse(MouseAction::Down(MouseButton::Left), Some(a));
    let route = scene.dispatch_mouse(MouseAction::Down(MouseButton::Right), Some(b));
    assert_eq!((route.outside, route.target), (None, Some(b)));
    assert_eq!(scene.dispatch_key(), Some(0));
    let route = scene.dispatch_mouse(MouseAction::Down(MouseButton::Left), Some(b));
    assert_eq!((route.outside, route.target), (Some(a), Some(b)));
    assert_eq!(scene.dispatch_key(), Some(1));
    scene.dispatch_mouse(MouseAction::Down(MouseButton::Left), None);
    assert_eq!(scene.dispatch_key(), None);
    let route = scene.dispatch_mouse(MouseAction::Wheel, Some(a));
    assert_eq!(route.target, Some(a));
}
