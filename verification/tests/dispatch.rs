//! Mouse and key events, driven as a host drives them.
use solite::effects::{Effect, EventName, Stage, Turn};
use solite::events::{
    combine_tick_result, KeyPhase, KeyboardEvent, MouseAction, MouseButton, TickResult,
};
use solite::focus::{collect_tab_order, FocusElement};
use solite::img::ImgEvent;
use solite::inputs::RangeMove;
use solite::instance::{image_effects, Instance, InstanceConfig};
use solite::json::Json;
use solite::pointer::{path_change, ScrollSource, ScrollbarPart};
use solite::popup::PopupAction;
use solite::select::SelectOption;
use solite::state::StateStore;
use std::time::{Duration, Instant};

/// An element of a test document: its node, tag, parent and attributes.
struct Element {
    node: usize,
    tag: &'static str,
    parent: Option<usize>,
    attributes: Vec<(&'static str, &'static str)>,
}

/// A host without layout: the nodes under the pointer are given.
struct Host {
    instance: Instance,
    elements: Vec<Element>,
    log: Vec<Effect>,
    answer: TickResult,
}

const ROOT: usize = 1;

fn key_event(key: &str, shift: bool, ctrl: bool, alt: bool) -> KeyboardEvent {
    KeyboardEvent {
        key: key.to_string(),
        code: key.to_string(),
        key_code: 0,
        repeat: false,
        shift_key: shift,
        ctrl_key: ctrl,
        alt_key: alt,
        meta_key: false,
    }
}

fn plain(key: &str) -> KeyboardEvent {
    key_event(key, false, false, false)
}

impl Host {
    fn new() -> Host {
        let config = InstanceConfig {
            width: 200,
            height: 80,
            stylesheets: vec![],
            document_scroll: false,
            base_url: None,
        };
        Host {
            instance: Instance::new(config, "file:///work/", ROOT).expect("valid base URL"),
            elements: Vec::new(),
            log: Vec::new(),
            answer: TickResult { needs_paint: false, jobs_pending: false },
        }
    }

    fn add(&mut self, node: usize, tag: &'static str, attributes: Vec<(&'static str, &'static str)>) {
        self.instance.element_created(node, tag);
        for (key, value) in &attributes {
            self.instance.set_attribute(node, key, value);
        }
        self.elements.push(Element { node, tag, parent: Some(ROOT), attributes });
    }

    fn options(&mut self, select: usize, options: Vec<SelectOption>, selected: usize) {
        let slot = self.instance.selects.position(select).expect("a select");
        let state = self.instance.selects.state_mut(slot);
        state.set_options(options);
        state.set_selected_index(Some(selected));
    }

    fn handle(&mut self, node: usize, event: &str) {
        self.instance.handlers.insert(node, event.to_string());
    }

    /// A node followed by its ancestors.
    fn chain(&self, node: Option<usize>) -> Vec<usize> {
        let mut chain = Vec::new();
        let mut current = node;
        while let Some(id) = current {
            chain.push(id);
            current = self.elements.iter().find(|e| e.node == id).and_then(|e| e.parent);
        }
        chain
    }

    fn order(&self) -> Vec<usize> {
        self.elements.iter().map(|e| e.node).collect()
    }

    fn tab_order(&self) -> Vec<usize> {
        let elements = self
            .elements
            .iter()
            .map(|e| {
                let attribute = |name: &str| {
                    e.attributes.iter().find(|(key, _)| *key == name).map(|(_, v)| v.to_string())
                };
                FocusElement {
                    node_id: e.node,
                    tag: e.tag.to_string(),
                    tabindex: attribute("tabindex"),
                    has_disabled: attribute("disabled").is_some(),
                    has_hidden: attribute("hidden").is_some(),
                    has_href: attribute("href").is_some(),
                    is_stylesheet: e.tag == "style",
                }
            })
            .collect();
        collect_tab_order(&elements, &self.instance.inputs, &self.instance.selects)
    }

    fn perform(&mut self, effects: &Vec<Effect>) -> TickResult {
        let mut fired = TickResult { needs_paint: false, jobs_pending: false };
        for effect in effects {
            self.log.push(*effect);
            match effect {
                Effect::Popup { select, action: PopupAction::Mount } => {
                    let slot = self.instance.selects.position(*select).expect("a select");
                    let state = self.instance.selects.state_mut(slot);
                    let nodes = state
                        .popup_entries()
                        .iter()
                        .enumerate()
                        .map(|(i, entry)| entry.as_ref().map(|_| select * 100 + 1 + i))
                        .collect();
                    state.record_popup(select * 100, nodes);
                }
                Effect::Popup { select, action: PopupAction::Unmount } => {
                    let slot = self.instance.selects.position(*select).expect("a select");
                    self.instance.selects.state_mut(slot).forget_popup();
                }
                Effect::Fire { .. }
                | Effect::FireRelated { .. }
                | Effect::FireAt { .. }
                | Effect::FireKey { .. }
                | Effect::FireInput(_)
                | Effect::FireChange(_) => {
                    fired = combine_tick_result(fired, self.answer);
                }
                _ => {}
            }
        }
        fired
    }

    fn run(&mut self, turn: Turn, under: Option<usize>) -> TickResult {
        let mut result = TickResult { needs_paint: false, jobs_pending: false };
        let mut turn = turn;
        loop {
            let fired = self.perform(&turn.effects);
            let asked = self.instance.settle(turn.record, turn.paint, fired);
            result = combine_tick_result(result, asked);
            let chain = self.chain(under);
            turn = match turn.next {
                None => return result,
                Some(Stage::Hover) => self.instance.hover(&chain),
                Some(Stage::Wheel) => return result,
                Some(Stage::Press) => self.instance.press(&chain),
                Some(Stage::PressAt) => self.instance.press_at(&chain),
                Some(Stage::Bubble(event)) => self.instance.bubble(event, &chain),
                Some(Stage::Enter { previous, next, after }) => {
                    self.instance.enter(previous, next, after)
                }
                Some(Stage::Target(hit)) => {
                    let chain = self.chain(Some(hit));
                    self.instance.press_target(hit, &chain)
                }
                Some(Stage::Tab { backwards }) => {
                    let order = self.tab_order();
                    self.instance.move_focus(&order, backwards)
                }
                Some(Stage::KeySent(sent)) => {
                    let button = self
                        .elements
                        .iter()
                        .any(|e| e.node == sent.node && e.tag == "button");
                    self.instance.key_sent(sent, button, false)
                }
                Some(Stage::KeyDone { node, edited, emits }) => {
                    self.instance.key_done(node, edited, emits)
                }
            };
        }
    }

    fn mouse(&mut self, action: MouseAction, under: Option<usize>) -> TickResult {
        self.log.clear();
        let turn = self.instance.dispatch_mouse(action, ScrollbarPart::Nothing);
        self.run(turn, under)
    }

    fn press(&mut self, under: Option<usize>) -> TickResult {
        self.mouse(MouseAction::Down(MouseButton::Left), under)
    }

    fn key_down(&mut self, event: &KeyboardEvent) -> TickResult {
        self.log.clear();
        let order = self.order();
        let turn = self.instance.dispatch_key_down(event, &order, Instant::now());
        self.run(turn, None)
    }

    fn key_up(&mut self, event: &KeyboardEvent) -> TickResult {
        self.log.clear();
        let order = self.order();
        let turn = self.instance.dispatch_key_up(event, &order, Instant::now());
        self.run(turn, None)
    }

    fn focused(&self) -> Option<usize> {
        self.instance.ui.focused
    }

    fn value(&self, node: usize) -> Option<String> {
        self.instance.input_value(node)
    }

    fn fired(&self, wanted: Effect) -> bool {
        self.log.contains(&wanted)
    }
}

fn press_fire(node: usize, event: EventName) -> Effect {
    Effect::Fire { node, event }
}

#[test]
fn dispatch_mouse_click_updates_rust_state() {
    let mut state = StateStore::new(Json::Object(vec![]));
    let mut host = Host::new();
    host.add(5, "button", vec![]);
    host.handle(5, "click");
    host.answer = TickResult { needs_paint: true, jobs_pending: false };
    let result = host.press(Some(5));
    assert!(result.needs_paint);
    assert!(host.fired(press_fire(5, EventName::Click)));
    state.set("count", Json::UInt(1));
    assert_eq!(state.get("count"), Some(Json::UInt(1)));
}

#[test]
fn clicks_reach_the_nearest_handler() {
    let mut host = Host::new();
    host.add(5, "div", vec![]);
    host.handle(ROOT, "click");
    host.press(Some(5));
    assert!(host.fired(press_fire(ROOT, EventName::Click)));
    assert_eq!(host.focused(), Some(5));
    host.press(None);
    assert!(!host.fired(press_fire(ROOT, EventName::Click)));
    assert_eq!(host.focused(), None);
}

#[test]
fn dispatch_key_down_and_up_target_focused_node() {
    let mut host = Host::new();
    host.add(5, "div", vec![]);
    host.handle(5, "keydown");
    host.press(Some(5));
    assert_eq!(host.focused(), Some(5));
    host.key_down(&plain("A"));
    assert_eq!(host.log, vec![Effect::FireKey { node: 5, phase: KeyPhase::Down }]);
    host.key_up(&plain("A"));
    assert_eq!(host.log, vec![Effect::FireKey { node: 5, phase: KeyPhase::Up }]);
    host.press(None);
    assert_eq!(host.focused(), None);
    let result = host.key_down(&plain("B"));
    assert!(host.log.is_empty());
    assert!(!result.needs_paint && !result.jobs_pending);
}

#[test]
fn dispatch_focus_events_update_host_state() {
    let mut host = Host::new();
    host.add(5, "input", vec![]);
    host.press(Some(5));
    assert_eq!(
        host.log,
        vec![
            Effect::Activate { from: None, to: Some(5) },
            Effect::SetFocus(5),
            Effect::RefreshInput(5),
            press_fire(5, EventName::Focus),
        ]
    );
    host.press(None);
    assert_eq!(
        host.log,
        vec![
            Effect::Activate { from: Some(5), to: None },
            press_fire(5, EventName::Blur),
            Effect::RefreshInput(5),
            Effect::ClearFocus,
        ]
    );
    assert_eq!(host.focused(), None);
}

#[test]
fn presses_focus_the_node_that_handles_keys() {
    let mut host = Host::new();
    host.add(5, "span", vec![]);
    host.handle(ROOT, "keydown");
    host.press(Some(5));
    assert_eq!(host.focused(), Some(ROOT));
    host.handle(5, "focus");
    host.press(Some(5));
    assert_eq!(host.focused(), Some(5));
}

#[test]
fn resize_updates_size_and_keeps_click_working() {
    let mut host = Host::new();
    host.add(5, "button", vec![]);
    host.handle(5, "click");
    host.answer = TickResult { needs_paint: true, jobs_pending: false };
    assert!(host.press(Some(5)).needs_paint);
    host.instance.painted();
    host.instance.resize(220, 80);
    assert_eq!(host.instance.size(), (220, 80));
    assert!(host.instance.ui.needs_paint);
    assert!(host.press(Some(5)).needs_paint);
    assert!(host.fired(press_fire(5, EventName::Click)));
}

#[test]
fn dispatch_mouse_move_updates_hover_state_and_handlers() {
    let mut host = Host::new();
    host.add(5, "button", vec![]);

    let enter = host.mouse(MouseAction::Move, Some(5));
    assert!(enter.needs_paint);
    assert_eq!(host.instance.ui.hovered, Some(5));
    assert_eq!(
        host.log,
        vec![
            Effect::MoveHover,
            Effect::FireRelated { node: 5, event: EventName::MouseOver, related: None },
            Effect::FireAt { node: 5, event: EventName::MouseEnter, related: None },
            Effect::FireAt { node: 5, event: EventName::Hover, related: None },
            Effect::FireAt { node: 5, event: EventName::HoverEnter, related: None },
            Effect::FireAt { node: 5, event: EventName::MouseMove, related: None },
        ]
    );

    let stay = host.mouse(MouseAction::Move, Some(5));
    assert!(!stay.needs_paint);
    assert_eq!(
        host.log,
        vec![
            Effect::MoveHover,
            Effect::FireAt { node: 5, event: EventName::MouseMove, related: None },
        ]
    );

    let leave = host.mouse(MouseAction::Move, None);
    assert!(leave.needs_paint);
    assert_eq!(host.instance.ui.hovered, None);
    assert_eq!(
        host.log,
        vec![
            Effect::MoveHover,
            Effect::FireRelated { node: 5, event: EventName::MouseOut, related: None },
            Effect::FireAt { node: 5, event: EventName::MouseLeave, related: None },
            Effect::FireAt { node: 5, event: EventName::HoverLeave, related: None },
        ]
    );
}

#[test]
fn moving_between_nodes_leaves_before_entering() {
    let mut host = Host::new();
    host.add(5, "div", vec![]);
    host.add(6, "div", vec![]);
    host.mouse(MouseAction::Move, Some(5));
    host.mouse(MouseAction::Move, Some(6));
    let leave = host
        .log
        .iter()
        .position(|e| *e == Effect::FireAt { node: 5, event: EventName::HoverLeave, related: Some(6) })
        .expect("left");
    let enter = host
        .log
        .iter()
        .position(|e| {
            *e == Effect::FireRelated { node: 6, event: EventName::MouseOver, related: Some(5) }
        })
        .expect("entered");
    assert!(leave < enter);
}

#[test]
fn active_pseudo_class_flips_on_press() {
    let mut host = Host::new();
    host.add(5, "button", vec![]);
    host.press(Some(5));
    assert_eq!(host.instance.ui.active, Some(5));
    host.mouse(MouseAction::Up(MouseButton::Left), Some(5));
    assert_eq!(host.instance.ui.active, None);
    assert!(host.fired(Effect::Activate { from: Some(5), to: None }));
}

#[test]
fn presses_end_when_the_pointer_slips_off() {
    let mut host = Host::new();
    host.add(5, "button", vec![]);
    host.press(Some(5));
    host.mouse(MouseAction::Move, Some(5));
    assert_eq!(host.instance.ui.active, Some(5));
    host.mouse(MouseAction::Move, Some(ROOT));
    assert_eq!(host.instance.ui.active, None);
}

#[test]
fn other_buttons_bubble() {
    let mut host = Host::new();
    host.add(5, "button", vec![]);
    host.handle(ROOT, "contextmenu");
    host.handle(5, "mouseup");
    host.mouse(MouseAction::Down(MouseButton::Right), Some(5));
    assert_eq!(host.log, vec![press_fire(ROOT, EventName::ContextMenu)]);
    host.mouse(MouseAction::Down(MouseButton::Middle), Some(5));
    assert!(host.log.is_empty());
    host.mouse(MouseAction::Up(MouseButton::Right), Some(5));
    assert_eq!(host.log, vec![press_fire(5, EventName::MouseUp)]);
}

#[test]
fn scrollbar_thumb_drag_moves_scroll_offset() {
    let mut host = Host::new();
    host.add(5, "div", vec![]);
    let turn = host
        .instance
        .dispatch_mouse(MouseAction::Down(MouseButton::Left), ScrollbarPart::Thumb);
    assert_eq!(turn.effects, vec![Effect::GrabThumb]);
    host.instance.painted();
    let result = host.mouse(MouseAction::Move, Some(5));
    assert_eq!(host.log, vec![Effect::DragScroll]);
    assert!(result.needs_paint && host.instance.ui.needs_paint);
    assert_eq!(host.instance.ui.hovered, None);
    let result = host.mouse(MouseAction::Up(MouseButton::Left), Some(5));
    assert!(host.log.is_empty() && !result.needs_paint);
    host.mouse(MouseAction::Move, Some(5));
    assert_eq!(host.instance.ui.hovered, Some(5));
}

#[test]
fn track_click_pages_scroll_offset() {
    let mut host = Host::new();
    let turn = host
        .instance
        .dispatch_mouse(MouseAction::Down(MouseButton::Left), ScrollbarPart::Track);
    assert_eq!(turn.effects, vec![Effect::PageScroll]);
    assert!(turn.paint && turn.next.is_none());
    assert!(!host.instance.ui.scroll_drag);
}

#[test]
fn dispatch_wheel_scrolls_and_dispatches_events() {
    let mut host = Host::new();
    host.add(5, "div", vec![]);
    host.handle(5, "wheel");
    let chain = host.chain(Some(5));
    let plan = host.instance.dispatch_wheel(&chain, &vec![true, false], true, false);
    let wheel = plan.wheel.expect("handled");
    assert_eq!((wheel.node, wheel.source), (5, ScrollSource::Node(5)));
    let scroll = plan.scroll.expect("scrolled");
    assert_eq!((scroll.node, scroll.source), (5, ScrollSource::Node(5)));
    let quiet = TickResult { needs_paint: false, jobs_pending: false };
    assert!(host.instance.finish_wheel(true, quiet).needs_paint);
}

#[test]
fn wheels_scroll_the_innermost_node_or_the_viewport() {
    let mut host = Host::new();
    host.add(5, "div", vec![]);
    let chain = host.chain(Some(5));
    let plan = host.instance.dispatch_wheel(&chain, &vec![false, true], true, true);
    assert!(plan.wheel.is_none());
    assert_eq!(plan.scroll.map(|s| s.node), Some(ROOT));
    let plan = host.instance.dispatch_wheel(&chain, &vec![false, false], true, true);
    assert_eq!(plan.scroll.map(|s| s.source), Some(ScrollSource::Viewport));
    assert_eq!(plan.scroll.map(|s| s.node), Some(host.instance.container_id()));
    let plan = host.instance.dispatch_wheel(&chain, &vec![false, false], true, false);
    assert!(plan.scroll.is_none());
    let plan = host.instance.dispatch_wheel(&vec![], &vec![], false, true);
    assert!(plan.wheel.is_none() && plan.scroll.is_none(), "nothing lies under the pointer");
    host.instance.painted();
    let jobs = TickResult { needs_paint: false, jobs_pending: true };
    let result = host.instance.finish_wheel(false, jobs);
    assert!(!result.needs_paint && !result.jobs_pending);
    assert!(!host.instance.ui.needs_paint);
    let paint = TickResult { needs_paint: true, jobs_pending: true };
    let result = host.instance.finish_wheel(false, paint);
    assert!(result.needs_paint && result.jobs_pending && host.instance.ui.needs_paint);
}

#[test]
fn input_element_routes_keys_to_rust_owned_value() {
    let mut host = Host::new();
    host.add(5, "input", vec![]);
    host.press(Some(5));

    host.key_down(&plain("h"));
    host.key_down(&plain("i"));
    assert_eq!(host.value(5).as_deref(), Some("hi"));
    assert_eq!(
        host.log,
        vec![
            Effect::FireKey { node: 5, phase: KeyPhase::Down },
            Effect::RefreshInput(5),
            Effect::RefreshSelect(5),
            Effect::FireInput(5),
        ]
    );

    host.key_down(&plain("Backspace"));
    assert_eq!(host.value(5).as_deref(), Some("h"));

    host.key_down(&plain("ArrowLeft"));
    assert!(!host.fired(Effect::FireInput(5)), "caret moves are no input");
    assert!(host.fired(Effect::RefreshInput(5)));

    host.key_down(&plain("a"));
    assert_eq!(host.value(5).as_deref(), Some("ah"));
    assert_eq!(host.instance.inputs.get(5).map(|s| s.caret()), Some(1));
}

#[test]
fn tab_moves_focus_between_native_inputs() {
    let mut host = Host::new();
    host.add(5, "input", vec![]);
    host.add(6, "input", vec![]);
    host.press(Some(5));
    assert_eq!(host.focused(), Some(5));

    host.key_down(&plain("Tab"));
    assert_eq!(host.focused(), Some(6));
    host.key_down(&plain("x"));
    assert_eq!(host.value(5).as_deref(), Some(""));
    assert_eq!(host.value(6).as_deref(), Some("x"));

    host.key_down(&key_event("Tab", true, false, false));
    assert_eq!(host.focused(), Some(5));
    host.key_down(&plain("y"));
    assert_eq!(host.value(5).as_deref(), Some("y"));
    assert_eq!(host.value(6).as_deref(), Some("x"));
}

fn placeholder_options(first: &str, second: &str) -> Vec<SelectOption> {
    vec![
        SelectOption::new("".into(), "Choose..".into(), true).with_hidden(true),
        SelectOption::new(first.to_lowercase(), first.into(), false),
        SelectOption::new(second.to_lowercase(), second.into(), false),
    ]
}

#[test]
fn tab_commits_open_select_and_advances_focus() {
    let mut host = Host::new();
    host.add(5, "input", vec![]);
    host.add(6, "select", vec![]);
    host.add(7, "input", vec![]);
    host.options(6, placeholder_options("One", "Two"), 0);

    host.press(Some(5));
    assert_eq!(host.focused(), Some(5));
    host.key_down(&plain("Tab"));
    assert_eq!(host.focused(), Some(6));
    host.key_down(&plain("Enter"));
    host.key_down(&plain("ArrowDown"));
    host.key_down(&plain("Tab"));

    assert_eq!(host.instance.selects.get(6).and_then(|s| s.value()).as_deref(), Some("two"));
    assert_eq!(host.focused(), Some(7));
    assert_eq!(host.log[0], Effect::Popup { select: 6, action: PopupAction::Unmount });
    assert!(host.fired(Effect::FireChange(6)));
    let change = host.log.iter().position(|e| *e == Effect::FireChange(6)).expect("changed");
    let blur = host.log.iter().position(|e| *e == press_fire(6, EventName::Blur)).expect("left");
    assert!(change < blur);
}

#[test]
fn open_select_arrow_enter_and_escape_match_keyboard_behavior() {
    let mut host = Host::new();
    host.add(6, "select", vec![]);
    host.options(6, placeholder_options("First", "Second"), 0);

    host.press(Some(6));
    {
        let select = host.instance.selects.get(6).expect("select state");
        assert!(select.is_open());
        assert_eq!(select.active_index(), Some(1));
        assert_eq!(select.selected_index(), Some(0));
    }
    host.key_down(&plain("ArrowDown"));
    {
        let select = host.instance.selects.get(6).expect("select state");
        assert_eq!(select.active_index(), Some(2));
        assert_eq!(select.selected_index(), Some(0));
    }
    host.key_down(&plain("Escape"));
    {
        let select = host.instance.selects.get(6).expect("select state");
        assert!(!select.is_open());
        assert_eq!(select.selected_index(), Some(0));
    }
    assert!(!host.fired(Effect::FireChange(6)));

    host.press(Some(6));
    host.key_down(&plain("ArrowDown"));
    host.key_down(&plain("Enter"));
    let select = host.instance.selects.get(6).expect("select state");
    assert!(!select.is_open());
    assert_eq!(select.selected_index(), Some(2));
    assert!(host.fired(Effect::FireChange(6)));
    assert_eq!(host.instance.select_text(6).map(|t| (t.label, t.value)),
        Some(("Second".to_string(), "second".to_string())));
}

#[test]
fn typing_in_an_open_dropdown_only_highlights() {
    let mut host = Host::new();
    host.add(6, "select", vec![]);
    host.options(6, placeholder_options("First", "Second"), 0);
    host.press(Some(6));
    host.key_down(&plain("s"));
    {
        let select = host.instance.selects.get(6).expect("select state");
        assert!(select.is_open());
        assert_eq!((select.active_index(), select.selected_index()), (Some(2), Some(0)));
    }
    assert!(host.fired(Effect::SyncHighlights(6)));
    assert!(!host.fired(Effect::FireChange(6)));
    host.key_down(&plain("Enter"));
    let select = host.instance.selects.get(6).expect("select state");
    assert_eq!(select.selected_index(), Some(2));
    assert!(host.fired(Effect::FireChange(6)));
}

#[test]
fn popup_options_are_picked_by_a_press() {
    let mut host = Host::new();
    host.add(6, "select", vec![]);
    let mut options = placeholder_options("First", "Second");
    options.push(SelectOption::new("x".into(), "Out".into(), true));
    host.options(6, options, 0);
    host.press(Some(6));
    // The popup lies at node 600, its options follow.
    host.mouse(MouseAction::Move, Some(603));
    assert!(host.fired(Effect::SyncHighlights(6)));
    assert_eq!(host.instance.selects.get(6).and_then(|s| s.active_index()), Some(2));
    host.press(Some(604));
    assert!(host.log.is_empty(), "a disabled option swallows the press");
    assert_eq!(host.instance.selects.get(6).map(|s| s.is_open()), Some(true));
    host.press(Some(603));
    assert_eq!(
        host.log,
        vec![
            Effect::Popup { select: 6, action: PopupAction::Unmount },
            Effect::RefreshSelect(6),
            Effect::FireChange(6),
        ]
    );
    assert_eq!(host.instance.selects.get(6).and_then(|s| s.selected_index()), Some(2));
}

#[test]
fn presses_elsewhere_close_dropdowns() {
    let mut host = Host::new();
    host.add(6, "select", vec![]);
    host.add(7, "select", vec![]);
    host.add(8, "div", vec![]);
    host.press(Some(6));
    host.instance.set_select_dropdown_open(7, true);
    host.press(Some(8));
    assert_eq!(host.instance.selects.get(6).map(|s| s.is_open()), Some(false));
    assert_eq!(host.instance.selects.get(7).map(|s| s.is_open()), Some(false));
    host.press(Some(7));
    assert_eq!(host.instance.selects.get(7).map(|s| s.is_open()), Some(true));
    host.press(Some(7));
    assert_eq!(host.instance.selects.get(7).map(|s| s.is_open()), Some(false));
}

#[test]
fn radio_arrow_keys_move_selection_and_focus() {
    let mut host = Host::new();
    for node in [5, 6, 7] {
        host.add(node, "input", vec![("type", "radio"), ("name", "group-a")]);
    }
    host.press(Some(5));
    assert_eq!(host.focused(), Some(5));
    assert_eq!(host.value(5).as_deref(), Some("on"));

    host.key_down(&plain("ArrowRight"));
    assert_eq!(host.focused(), Some(6));
    assert_eq!(host.value(6).as_deref(), Some("on"));
    assert_eq!(host.value(5).as_deref(), Some("off"));
    assert!(host.fired(Effect::FireInput(6)));

    host.key_down(&plain("ArrowLeft"));
    assert_eq!(host.focused(), Some(5));
    assert_eq!(host.value(5).as_deref(), Some("on"));
    assert_eq!(host.value(6).as_deref(), Some("off"));
}

#[test]
fn input_number_restricts_to_numeric_chars() {
    let mut host = Host::new();
    host.add(5, "input", vec![("type", "number")]);
    host.press(Some(5));
    for key in ["1", "2", ".", "3"] {
        host.key_down(&plain(key));
    }
    assert_eq!(host.value(5).as_deref(), Some("12.3"));
    host.key_down(&plain("a"));
    assert_eq!(host.value(5).as_deref(), Some("12.3"));
}

#[test]
fn input_range_responds_to_step_and_extremes() {
    let mut host = Host::new();
    host.add(5, "input", vec![("type", "range"), ("value", "4")]);
    host.press(Some(5));
    assert!(host.fired(Effect::MoveRange(5)));
    assert_eq!(host.instance.ui.range_drag, Some(5));
    host.mouse(MouseAction::Up(MouseButton::Left), Some(5));
    assert_eq!(host.instance.ui.range_drag, None);

    host.key_down(&plain("Home"));
    assert_eq!(host.log[0], Effect::StepRange { node: 5, by: RangeMove::Extreme(false) });
    host.key_down(&plain("ArrowRight"));
    assert_eq!(host.log[0], Effect::StepRange { node: 5, by: RangeMove::Step(1) });
    host.key_down(&plain("ArrowLeft"));
    assert_eq!(host.log[0], Effect::StepRange { node: 5, by: RangeMove::Step(-1) });
    host.key_down(&plain("End"));
    assert_eq!(host.log[0], Effect::StepRange { node: 5, by: RangeMove::Extreme(true) });

    let turn = host.instance.commit_number(5, "10").expect("an input");
    assert_eq!(turn.effects, vec![Effect::RefreshInput(5), Effect::FireInput(5)]);
    assert_eq!(host.value(5).as_deref(), Some("10"));
    assert!(host.instance.commit_number(5, "10").is_none(), "unchanged");
    assert!(host.instance.commit_number(9, "10").is_none());
}

#[test]
fn input_checkbox_and_radio_types_toggle() {
    let mut host = Host::new();
    host.add(4, "input", vec![("type", "checkbox")]);
    host.add(5, "input", vec![("type", "radio"), ("name", "group-a")]);
    host.add(6, "input", vec![("type", "radio"), ("name", "group-a")]);

    host.press(Some(4));
    assert_eq!(host.value(4).as_deref(), Some("on"));
    assert!(host.fired(Effect::SyncChecked) && host.fired(Effect::FireInput(4)));
    host.key_down(&plain("Space"));
    assert_eq!(host.value(4).as_deref(), Some("off"));
    host.press(Some(4));
    assert_eq!(host.value(4).as_deref(), Some("on"));

    host.press(Some(5));
    host.key_down(&plain(" "));
    assert_eq!(host.value(5).as_deref(), Some("on"));
    assert_eq!(host.value(6).as_deref(), Some("off"));
    host.press(Some(6));
    host.key_down(&plain(" "));
    assert_eq!(host.value(5).as_deref(), Some("off"));
    assert_eq!(host.value(6).as_deref(), Some("on"));
}

#[test]
fn input_named_space_key_is_treated_as_space() {
    let mut host = Host::new();
    host.add(5, "input", vec![]);
    host.press(Some(5));
    host.key_down(&plain("Space"));
    assert_eq!(host.value(5).as_deref(), Some(" "));
}

#[test]
fn input_space_and_caret_movement_refresh_rendered_caret() {
    let mut host = Host::new();
    host.add(5, "input", vec![]);
    host.press(Some(5));
    host.key_down(&plain("h"));
    host.key_down(&plain("i"));
    assert_eq!(host.instance.input_text(5).as_deref(), Some("hi"));
    assert_eq!(host.instance.shown_caret(), Some((5, 2)));
    host.key_down(&plain("ArrowLeft"));
    assert_eq!(host.instance.input_text(5).as_deref(), Some("hi"));
    assert_eq!(host.instance.shown_caret(), Some((5, 1)));
    host.key_down(&plain(" "));
    assert_eq!(host.instance.input_text(5).as_deref(), Some("h i"));
    host.key_down(&plain("a"));
    assert_eq!(host.instance.input_text(5).as_deref(), Some("h ai"));
    let texts = host.instance.input_texts();
    assert_eq!((texts[0].node, texts[0].text.as_str(), texts[0].caret_byte), (5, "h ai", 3));
}

#[test]
fn blink_toggles_visible_text_on_tick() {
    let mut host = Host::new();
    host.add(5, "input", vec![("value", "hi")]);
    host.press(Some(5));
    assert!(host.instance.shown_caret().is_some(), "expected visible caret overlay");
    assert_eq!(host.instance.input_text(5).as_deref(), Some("hi"));
    host.instance.painted();
    let later = Instant::now() + Duration::from_millis(600);
    assert!(host.instance.next_blink_deadline().is_some_and(|at| at <= later));
    assert!(host.instance.advance_input_blink(later));
    assert!(host.instance.ui.needs_paint);
    assert!(host.instance.shown_caret().is_none(), "expected hidden caret overlay after blink");
    assert!(!host.instance.advance_input_blink(later));
}

#[test]
fn selections_are_shown_in_bytes_of_the_displayed_text() {
    let mut host = Host::new();
    host.add(5, "input", vec![("type", "password"), ("value", "supersecret")]);
    host.press(Some(5));
    assert!(host.instance.shown_selection().is_none());
    let slot = host.instance.inputs.position(5).expect("registered");
    host.instance.inputs.state_mut(slot).set_selection(1, 8);
    let span = host.instance.shown_selection().expect("selected");
    assert_eq!((span.node, span.start, span.end), (5, 1, 8));
    assert_eq!((span.start_byte, span.end_byte), (3, 24));
    assert_eq!(host.instance.masked_focus(Some(5)), Some(5));
    assert_eq!(host.instance.masked_focus(Some(6)), None);
}

#[test]
fn tab_walks_inputs_and_buttons_in_doc_order() {
    let mut host = Host::new();
    host.add(5, "input", vec![("type", "text")]);
    host.add(6, "input", vec![("type", "text")]);
    host.add(7, "button", vec![]);
    for wanted in [5, 6, 7] {
        host.key_down(&plain("Tab"));
        assert_eq!(host.focused(), Some(wanted));
    }
    host.key_down(&key_event("Tab", true, false, false));
    assert_eq!(host.focused(), Some(6));
}

#[test]
fn automatic_tab_order_walks_all_default_focusables_in_doc_order() {
    let mut host = Host::new();
    host.add(5, "input", vec![("type", "text")]);
    host.add(6, "button", vec![]);
    host.add(7, "select", vec![]);
    host.add(8, "a", vec![("href", "#x")]);
    host.add(9, "div", vec![]);
    for wanted in [5, 6, 7, 8, 5] {
        host.key_down(&plain("Tab"));
        assert_eq!(host.focused(), Some(wanted));
    }
    for wanted in [8, 7] {
        host.key_down(&key_event("Tab", true, false, false));
        assert_eq!(host.focused(), Some(wanted));
    }
}

#[test]
fn textareas_are_in_automatic_tab_order() {
    let mut host = Host::new();
    host.add(5, "input", vec![]);
    host.add(6, "textarea", vec![]);
    host.add(7, "textarea", vec![("disabled", "")]);
    host.add(8, "textarea", vec![("tabindex", "-1")]);
    host.add(9, "button", vec![]);
    for wanted in [5, 6, 9, 5] {
        host.key_down(&plain("Tab"));
        assert_eq!(host.focused(), Some(wanted));
    }
}

#[test]
fn anchor_without_href_is_not_in_automatic_tab_order() {
    let mut host = Host::new();
    host.add(5, "input", vec![]);
    host.add(6, "a", vec![]);
    host.add(7, "a", vec![("href", "#x")]);
    host.key_down(&plain("Tab"));
    assert_eq!(host.focused(), Some(5));
    host.key_down(&plain("Tab"));
    assert_eq!(host.focused(), Some(7), "<a> without href must NOT receive Tab focus");
}

#[test]
fn disabled_default_focusable_is_skipped_by_automatic_tab_order() {
    let mut host = Host::new();
    host.add(5, "input", vec![]);
    host.add(6, "input", vec![("disabled", "")]);
    host.add(7, "button", vec![("disabled", "")]);
    host.add(8, "input", vec![]);
    host.key_down(&plain("Tab"));
    assert_eq!(host.focused(), Some(5));
    host.key_down(&plain("Tab"));
    assert_eq!(host.focused(), Some(8), "disabled input and disabled button must both be skipped");
}

#[test]
fn tabindex_negative_skips_element_from_tab_order() {
    let mut host = Host::new();
    host.add(5, "input", vec![]);
    host.add(6, "input", vec![("tabindex", "-1")]);
    host.add(7, "input", vec![]);
    host.key_down(&plain("Tab"));
    assert_eq!(host.focused(), Some(5));
    host.key_down(&plain("Tab"));
    assert_eq!(host.focused(), Some(7), "tabindex=-1 input must be skipped");
}

#[test]
fn positive_tabindex_takes_priority_over_doc_order() {
    let mut host = Host::new();
    host.add(5, "input", vec![]);
    host.add(6, "input", vec![("tabindex", "2")]);
    host.add(7, "input", vec![("tabindex", "1")]);
    for wanted in [7, 6, 5] {
        host.key_down(&plain("Tab"));
        assert_eq!(host.focused(), Some(wanted));
    }
}

#[test]
fn tab_without_focusables_does_nothing() {
    let mut host = Host::new();
    host.add(5, "div", vec![]);
    let result = host.key_down(&plain("Tab"));
    assert!(!result.needs_paint);
    assert_eq!(host.focused(), None);
}

#[test]
fn enter_on_focused_button_fires_click() {
    let mut host = Host::new();
    host.add(7, "button", vec![]);
    host.press(Some(7));
    let click = Effect::FireAt { node: 7, event: EventName::Click, related: None };
    host.key_down(&plain("Enter"));
    assert_eq!(host.log.iter().filter(|e| **e == click).count(), 1);
    host.key_down(&key_event("Enter", false, true, false));
    assert!(!host.fired(click));
}

#[test]
fn space_keyup_on_focused_button_fires_click() {
    let mut host = Host::new();
    host.add(7, "button", vec![]);
    host.press(Some(7));
    let click = Effect::FireAt { node: 7, event: EventName::Click, related: None };
    host.key_down(&plain(" "));
    assert!(!host.fired(click));
    host.key_up(&plain(" "));
    assert!(host.fired(click));
}

#[test]
fn ctrl_left_via_dispatch_key_works_end_to_end() {
    let mut host = Host::new();
    host.add(5, "input", vec![("type", "text"), ("value", "hello world")]);
    host.press(Some(5));
    assert_eq!(host.instance.inputs.get(5).map(|s| s.caret()), Some(11));
    host.key_down(&key_event("ArrowLeft", false, true, false));
    assert_eq!(host.instance.inputs.get(5).map(|s| s.caret()), Some(6));
    host.key_down(&key_event("ArrowLeft", true, true, false));
    let state = host.instance.inputs.get(5).expect("registered");
    assert_eq!((state.selection_start(), state.selection_end()), (0, 6));
}

#[test]
fn image_outcomes_fire_load_and_error() {
    let effects =
        image_effects(&vec![ImgEvent::Load { node_id: 3 }, ImgEvent::Error { node_id: 4 }]);
    assert_eq!(effects, vec![press_fire(3, EventName::Load), press_fire(4, EventName::Error)]);
    assert_eq!(EventName::Load.as_str(), "load");
    assert_eq!(EventName::ContextMenu.as_str(), "contextmenu");
}

#[test]
fn ticks_report_what_is_left_to_paint() {
    let mut host = Host::new();
    let quiet = TickResult { needs_paint: false, jobs_pending: false };
    assert!(host.instance.finish_tick(quiet, quiet).needs_paint, "the first frame paints");
    host.instance.painted();
    assert!(!host.instance.finish_tick(quiet, quiet).needs_paint);
    let busy = TickResult { needs_paint: true, jobs_pending: true };
    let result = host.instance.finish_tick(quiet, busy);
    assert!(result.needs_paint && result.jobs_pending);
    assert!(host.instance.ui.needs_paint);
}

#[test]
fn pressed_paths_share_their_ancestors() {
    let (lost, gained) = path_change(&vec![1, 2, 3, 4], &vec![1, 2, 5]);
    assert_eq!(lost, vec![3, 4]);
    assert_eq!(gained, vec![5]);
    let (lost, gained) = path_change(&vec![], &vec![1, 2]);
    assert!(lost.is_empty());
    assert_eq!(gained, vec![1, 2]);
}
