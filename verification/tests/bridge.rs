//! Properties, classes, styles and handlers that scripts set.
use solite::bridge::{
    control_of_tag, enclosing_style_element, extract_event_name, next_sibling, route_property,
    set_style_decl, style_to_refresh, toggle_class, ControlTag, HandlerSet, PropertyRoute,
    PropertyValue,
};
use solite::instance::{Instance, InstanceConfig};

fn instance() -> Instance {
    let config = InstanceConfig {
        width: 100,
        height: 100,
        stylesheets: vec![],
        document_scroll: false,
        base_url: None,
    };
    Instance::new(config, "file:///work/", 1).expect("valid base URL")
}

/// Sets a property to a function, a text or nothing, as a script does.
fn set_property(handlers: &mut HandlerSet, node: usize, key: &str, value: PropertyValue) {
    handlers.property_set(node, &route_property(key, value));
}

#[test]
fn classname_normalizes_to_class_and_matches_selector() {
    match route_property("className", PropertyValue::Text) {
        PropertyRoute::Attribute(key) => assert_eq!(key, "class"),
        other => panic!("expected an attribute, got {other:?}"),
    }
}

#[test]
fn class_directive_toggles_class_token() {
    match route_property("class:tag", PropertyValue::Text) {
        PropertyRoute::ToggleClass(token) => assert_eq!(token, "tag"),
        other => panic!("expected a class token, got {other:?}"),
    }
    assert_eq!(toggle_class("", "tag", false), "");
    assert_eq!(toggle_class("", "tag", true), "tag");
    assert_eq!(toggle_class("tag", "tag", false), "");
}

#[test]
fn class_tokens_keep_their_order() {
    assert_eq!(toggle_class("  a\tb\n c ", "d", true), "a b c d");
    assert_eq!(toggle_class("a b c", "b", true), "a b c");
    assert_eq!(toggle_class("a b a", "a", false), "b a");
    assert_eq!(toggle_class("a\u{a0}b", "b", false), "a");
}

#[test]
fn style_directive_sets_one_declaration() {
    assert_eq!(set_style_decl("color: red; top: 1px", "color", Some("blue")), "color: blue; top: 1px");
    assert_eq!(set_style_decl("color: red", "top", Some("2px")), "color: red; top: 2px");
    assert_eq!(set_style_decl("color: red; top: 1px;", "color", None), "top: 1px");
    assert_eq!(set_style_decl("color: red", "color", Some("")), "");
    assert_eq!(set_style_decl("junk; ; color :red", "color", Some("x")), "junk; color: x");
}

#[test]
fn set_property_string_sets_attribute() {
    match route_property("style", PropertyValue::Text) {
        PropertyRoute::Attribute(key) => assert_eq!(key, "style"),
        other => panic!("expected an attribute, got {other:?}"),
    }
}

#[test]
fn set_property_function_stores_handler() {
    let mut handlers = HandlerSet::new();
    set_property(&mut handlers, 5, "onClick", PropertyValue::Function);
    assert!(handlers.contains(5, "click"), "handler must be stored under 'click'");
}

#[test]
fn set_property_on_colon_event() {
    let mut handlers = HandlerSet::new();
    set_property(&mut handlers, 5, "on:mousedown", PropertyValue::Function);
    assert!(handlers.contains(5, "mousedown"));
}

#[test]
fn set_property_null_removes_handler() {
    let mut handlers = HandlerSet::new();
    set_property(&mut handlers, 5, "onClick", PropertyValue::Function);
    assert!(handlers.contains(5, "click"));
    set_property(&mut handlers, 5, "onClick", PropertyValue::Nothing);
    assert!(!handlers.contains(5, "click"), "handler should be removed after null");
}

#[test]
fn removing_a_handler_keeps_the_others() {
    let mut handlers = HandlerSet::new();
    set_property(&mut handlers, 5, "onKeyDown", PropertyValue::Function);
    set_property(&mut handlers, 6, "onClick", PropertyValue::Function);
    set_property(&mut handlers, 5, "onClick", PropertyValue::Function);
    set_property(&mut handlers, 5, "on:click", PropertyValue::Nothing);
    assert!(!handlers.contains(5, "click"));
    assert!(handlers.contains(5, "keydown") && handlers.contains(6, "click"));
    set_property(&mut handlers, 5, "ref", PropertyValue::Function);
    set_property(&mut handlers, 5, "class:click", PropertyValue::Function);
    assert!(!handlers.contains(5, "ref") && !handlers.contains(5, "click"));
}

#[test]
fn toggling_a_class_on_and_off_keeps_the_tokens() {
    let on = toggle_class("  a\tb ", "c", true);
    assert_eq!(on, "a b c");
    assert_eq!(toggle_class(&on, "c", false), "a b");
}

#[test]
fn functions_under_other_names_are_ignored() {
    assert!(matches!(route_property("ref", PropertyValue::Function), PropertyRoute::Ignore));
    assert!(matches!(route_property("on", PropertyValue::Function), PropertyRoute::Ignore));
    assert_eq!(extract_event_name("onHoverEnter").as_deref(), Some("hoverenter"));
    assert_eq!(extract_event_name("on:").as_deref(), Some(""));
    assert_eq!(extract_event_name("click"), None);
}

#[test]
fn handlers_are_found_up_the_tree() {
    let mut handlers = HandlerSet::new();
    handlers.insert(2, "click".into());
    handlers.insert(4, "click".into());
    assert_eq!(handlers.find_handler_up(&vec![3, 2, 4], "click"), Some(2));
    assert_eq!(handlers.find_handler_up(&vec![3, 4], "click"), Some(4));
    assert_eq!(handlers.find_handler_up(&vec![3, 2, 4], "keydown"), None);
}

#[test]
fn style_elements_are_found_from_their_text() {
    assert_eq!(enclosing_style_element(&vec![(9, false), (8, true), (7, true)]), Some(8));
    assert_eq!(enclosing_style_element(&vec![(9, false)]), None);
    assert_eq!(style_to_refresh(&vec![(1, false)], &vec![(2, true)]), Some(2));
    assert_eq!(style_to_refresh(&vec![(3, true)], &vec![(2, true)]), Some(3));
}

#[test]
fn siblings_follow_each_other() {
    let children = vec![4, 6, 8];
    assert_eq!(next_sibling(&children, 4), Some(6));
    assert_eq!(next_sibling(&children, 8), None);
    assert_eq!(next_sibling(&children, 5), None);
}

#[test]
fn inputs_and_selects_are_registered() {
    let mut instance = instance();
    assert_eq!(instance.element_created(5, "INPUT"), ControlTag::Input);
    assert_eq!(instance.element_created(6, "select"), ControlTag::Select);
    assert_eq!(instance.element_created(7, "div"), ControlTag::Other);
    assert_eq!(control_of_tag("button"), ControlTag::Other);
    assert_eq!(instance.input_value(5).as_deref(), Some(""));
    assert_eq!(instance.input_value(7), None);
    assert_eq!(instance.select_node_ids(), vec![6]);
}

#[test]
fn input_value_attribute_seeds_rust_state() {
    let mut instance = instance();
    instance.element_created(5, "input");
    instance.set_attribute(5, "value", "preset");
    assert_eq!(instance.input_value(5).as_deref(), Some("preset"));
    assert!(instance.set_input_value(5, "from-host"));
    assert_eq!(instance.input_value(5).as_deref(), Some("from-host"));
    assert!(!instance.set_input_value(6, "nobody"));
}

#[test]
fn attributes_reach_the_input() {
    let mut instance = instance();
    instance.element_created(5, "input");
    instance.set_attribute(5, "placeholder", "name");
    assert_eq!(instance.input_text(5).as_deref(), Some("name"));
    instance.set_attribute(5, "value", "abc");
    instance.set_attribute(5, "type", "Password");
    assert_eq!(instance.input_text(5).as_deref(), Some("\u{2022}\u{2022}\u{2022}"));
    instance.set_attribute(5, "type", "checkbox");
    assert_eq!(instance.input_value(5).as_deref(), Some("off"));
    instance.set_attribute(5, "type", "range");
    assert_eq!(instance.input_text(5), None);
    let state = instance.inputs.get(5).expect("registered");
    assert!(!state.readonly() && !state.disabled());
    instance.set_attribute(5, "readonly", "true");
    instance.set_attribute(5, "disabled", "");
    instance.set_attribute(5, "name", "field");
    let state = instance.inputs.get(5).expect("registered");
    assert!(state.readonly() && state.disabled());
    assert_eq!(state.name(), Some("field"));
    instance.set_attribute(5, "readonly", "");
    assert!(!instance.inputs.get(5).expect("registered").readonly());
}
