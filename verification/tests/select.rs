//! Selects and their popups.
use solite::events::KeyboardEvent;
use solite::popup::{select_key_outcome, select_key_outcome_at, PopupAction};
use solite::registry::Registry;
use solite::select::{SelectOption, SelectState};
use solite::selects::{
    hit_popup_node, popup_option_for_hit, select_owning_hit, set_select_open, PopupMarks,
};
use std::time::{Duration, Instant};

fn key(name: &str, alt: bool) -> KeyboardEvent {
    KeyboardEvent {
        key: name.to_string(),
        code: name.to_string(),
        key_code: 0,
        repeat: false,
        shift_key: false,
        ctrl_key: false,
        alt_key: alt,
        meta_key: false,
    }
}

fn abc() -> Vec<SelectOption> {
    vec![
        SelectOption::new("a".into(), "Option A".into(), false),
        SelectOption::new("b".into(), "Option B".into(), false),
        SelectOption::new("c".into(), "Option C".into(), false),
    ]
}

fn fruits() -> SelectState {
    let mut state = SelectState::default();
    let names = [
        "Apple", "Apricot", "Banana", "Blueberry", "Cherry", "Date", "Elderberry", "Fig", "Grape",
        "Honeydew", "Kiwi", "Lemon",
    ];
    let mut options = Vec::new();
    for name in names {
        options.push(SelectOption::new(name.to_lowercase(), name.to_string(), false));
    }
    state.set_options(options);
    state.set_selected_index(Some(0));
    state
}

#[test]
fn move_selection_wraps_around() {
    let mut state = SelectState::default();
    state.set_options(abc());
    state.selected_index = Some(2);

    assert!(state.move_selection(1));
    assert_eq!(state.selected_index, Some(0));
}

#[test]
fn move_selection_skips_disabled() {
    let mut state = SelectState::default();
    state.set_options(vec![
        SelectOption::new("a".into(), "Option A".into(), false),
        SelectOption::new("b".into(), "Option B".into(), true),
        SelectOption::new("c".into(), "Option C".into(), false),
    ]);
    state.selected_index = Some(0);

    assert!(state.move_selection(1));
    assert_eq!(state.selected_index, Some(2));
}

#[test]
fn jump_to_extreme() {
    let mut state = SelectState::default();
    state.set_options(abc());

    assert!(state.jump_to_extreme(true));
    assert_eq!(state.selected_index, Some(2));
    assert!(state.jump_to_extreme(false));
    assert_eq!(state.selected_index, Some(0));
}

#[test]
fn value_returns_selected_option_value() {
    let mut state = SelectState::default();
    state.set_options(vec![
        SelectOption::new("val1".into(), "Label 1".into(), false),
        SelectOption::new("val2".into(), "Label 2".into(), false),
    ]);
    state.selected_index = Some(1);

    assert_eq!(state.value(), Some("val2".into()));
}

#[test]
fn find_first_enabled() {
    let mut state = SelectState::default();
    state.set_options(vec![
        SelectOption::new("a".into(), "Option A".into(), true),
        SelectOption::new("b".into(), "Option B".into(), false),
        SelectOption::new("c".into(), "Option C".into(), false),
    ]);

    assert_eq!(state.find_first_enabled(), Some(1));
}

#[test]
fn hidden_options_are_skipped_for_navigation() {
    let mut state = SelectState::default();
    state.set_options(vec![
        SelectOption::new("placeholder".into(), "Choose..".into(), true).with_hidden(true),
        SelectOption::new("a".into(), "Option A".into(), false),
        SelectOption::new("b".into(), "Option B".into(), false),
    ]);
    state.selected_index = Some(0);

    assert_eq!(state.find_first_enabled(), Some(1));
    assert!(state.move_selection(1));
    assert_eq!(state.selected_index, Some(1));
}

#[test]
fn first_enabled_skips_hidden_placeholder() {
    let mut state = SelectState::default();
    state.set_options(vec![
        SelectOption::new("placeholder".into(), "Choose..".into(), false).with_hidden(true),
        SelectOption::new("a".into(), "Option A".into(), false),
    ]);

    assert_eq!(state.find_first_enabled(), Some(1));
}

#[test]
fn select_type_ahead_jumps_to_first_match_after_current() {
    let mut state = fruits();
    let outcome = select_key_outcome(&mut state, &key("c", false));
    assert!(outcome.emits_change);
    assert_eq!(state.value().as_deref(), Some("cherry"));
}

#[test]
fn select_type_ahead_b_finds_banana() {
    let mut state = fruits();
    select_key_outcome(&mut state, &key("b", false));
    assert_eq!(state.value().as_deref(), Some("banana"));
}

#[test]
fn select_type_ahead_cycles_on_repeat_letter() {
    let mut state = fruits();
    select_key_outcome(&mut state, &key("a", false));
    assert_eq!(state.value().as_deref(), Some("apricot"));
    select_key_outcome(&mut state, &key("a", false));
    assert_eq!(state.value().as_deref(), Some("apple"));
    select_key_outcome(&mut state, &key("a", false));
    assert_eq!(state.value().as_deref(), Some("apricot"));
}

#[test]
fn type_ahead_spells_until_the_pause() {
    let start = Instant::now();
    let mut state = fruits();
    select_key_outcome_at(&mut state, &key("b", false), start);
    select_key_outcome_at(&mut state, &key("l", false), start + Duration::from_millis(100));
    assert_eq!(state.value().as_deref(), Some("blueberry"));
    select_key_outcome_at(&mut state, &key("l", false), start + Duration::from_millis(5_000));
    assert_eq!(state.value().as_deref(), Some("lemon"));
}

#[test]
fn type_ahead_folds_case() {
    let start = Instant::now();
    let mut state = SelectState::default();
    state.set_options(vec![
        SelectOption::new("a".into(), "Apfel".into(), false),
        SelectOption::new("o".into(), "ÄPFEL".into(), false),
    ]);
    state.set_selected_index(Some(0));
    assert_eq!(state.type_ahead('ä', start), Some(1));
}

#[test]
fn type_ahead_in_a_popup_moves_the_highlight_alone() {
    let mut state = SelectState::default();
    state.set_options(vec![
        SelectOption::new("apple".into(), "Apple".into(), false),
        SelectOption::new("banana".into(), "Banana".into(), false),
        SelectOption::new("blueberry".into(), "Blueberry".into(), false),
    ]);
    state.set_selected_index(Some(0));
    state.set_open(true);
    state.set_active_index(Some(0));
    let now = Instant::now();
    let outcome = select_key_outcome_at(&mut state, &key("b", false), now);
    assert_eq!((state.active_index(), state.selected_index()), (Some(1), Some(0)));
    assert!(outcome.edited && outcome.sync_highlights);
    assert!(!outcome.emits_change && !outcome.close_popup);
    select_key_outcome_at(&mut state, &key("b", false), now + Duration::from_millis(100));
    assert_eq!((state.active_index(), state.selected_index()), (Some(2), Some(0)));
    let outcome = select_key_outcome_at(&mut state, &key("Enter", false), now);
    assert_eq!(state.selected_index(), Some(2));
    assert!(outcome.emits_change && outcome.close_popup);
}

#[test]
fn loaded_options_bring_their_selection() {
    let marked = |index: usize| {
        let mut options = abc();
        options[index].selected = true;
        options
    };
    let mut state = SelectState::default();
    state.load_options(abc());
    assert_eq!(state.selected_index(), Some(0));
    state.load_options(marked(2));
    assert_eq!(state.value().as_deref(), Some("c"));
    state.load_options(abc());
    assert_eq!(state.selected_index(), Some(2), "kept while it has an option");
    let mut two = marked(0);
    two[1].selected = true;
    state.load_options(two);
    assert_eq!(state.selected_index(), Some(1), "the last mark counts");
    state.set_selected_index(Some(2));
    state.load_options(vec![
        SelectOption::new("".into(), "Pick".into(), false).with_hidden(true),
        SelectOption::new("x".into(), "X".into(), false),
    ]);
    assert_eq!(state.selected_index(), Some(1), "the first that can be picked");
    state.load_options(vec![]);
    assert_eq!(state.selected_index(), None);
}

#[test]
fn select_page_down_steps_ten() {
    let mut state = fruits();
    select_key_outcome(&mut state, &key("PageDown", false));
    assert_eq!(state.value().as_deref(), Some("kiwi"));
    select_key_outcome(&mut state, &key("PageUp", false));
    assert_eq!(state.value().as_deref(), Some("apple"));
}

#[test]
fn select_alt_down_opens_dropdown() {
    let mut state = fruits();
    assert!(!state.is_open());
    let outcome = select_key_outcome(&mut state, &key("ArrowDown", true));
    assert!(outcome.open_popup);
    assert_eq!(state.switch_open(true), PopupAction::Mount);
    assert!(state.is_open());
}

#[test]
fn select_alt_up_commits_and_closes() {
    let mut state = fruits();
    state.switch_open(true);
    select_key_outcome(&mut state, &key("ArrowDown", false));
    let outcome = select_key_outcome(&mut state, &key("ArrowUp", true));
    assert!(outcome.close_popup);
    assert!(outcome.emits_change);
    assert_eq!(state.switch_open(false), PopupAction::Unmount);
    assert!(!state.is_open());
    assert_eq!(state.value().as_deref(), Some("apricot"));
}

#[test]
fn escape_closes_without_picking() {
    let mut state = fruits();
    state.switch_open(true);
    select_key_outcome(&mut state, &key("ArrowDown", false));
    let outcome = select_key_outcome(&mut state, &key("Escape", false));
    assert!(outcome.close_popup);
    assert!(!outcome.emits_change);
    assert_eq!(state.selected_index(), Some(0));
}

#[test]
fn values_and_labels_follow_the_selection() {
    let mut state = SelectState::default();
    state.set_options(abc());
    assert_eq!(state.current_label(), "");
    assert_eq!(state.selected_value(), None);
    assert_eq!(state.find_index_by_value("c"), Some(2));
    assert_eq!(state.find_index_by_value("d"), None);
    state.set_selected_index(Some(1));
    assert_eq!(state.current_label(), "Option B");
    assert_eq!(state.selected_value(), Some("b"));
    state.set_name(Some("letters".into()));
    assert_eq!(state.name(), Some("letters"));
}

#[test]
fn popup_entries_leave_hidden_options_out() {
    let mut state = SelectState::default();
    state.set_options(vec![
        SelectOption::new("p".into(), "Choose..".into(), true).with_hidden(true),
        SelectOption::new("a".into(), "A".into(), false),
        SelectOption::new("b".into(), "B".into(), true),
    ]);
    state.set_selected_index(Some(1));
    assert_eq!(state.switch_open(true), PopupAction::Mount);
    let entries = state.popup_entries();
    assert_eq!(entries.len(), 3);
    assert!(entries[0].is_none());
    assert_eq!(entries[1].as_ref().map(|e| e.label.as_str()), Some("A"));
    state.record_popup(50, vec![None, Some(51), Some(52)]);
    let classes = state.popup_highlights();
    assert_eq!(classes.len(), 2);
    assert_eq!(classes[0].0, 51);
    assert!(classes[0].1.contains("selected") && classes[0].1.contains("active"));
    assert_eq!(classes[1].0, 52);
    assert!(classes[1].1.contains("disabled"));
    assert_eq!(state.forget_popup(), Some(50));
    assert_eq!(state.forget_popup(), None);
}

#[test]
fn hits_map_back_to_their_select() {
    let mut selects: Registry<SelectState> = Registry::new();
    let mut first = SelectState::default();
    first.set_options(abc());
    selects.insert(10, first);
    selects.insert(20, SelectState::default());
    assert_eq!(set_select_open(&mut selects, 10, true), PopupAction::Mount);
    assert_eq!(set_select_open(&mut selects, 20, true), PopupAction::Mount);
    assert_eq!(set_select_open(&mut selects, 99, true), PopupAction::Keep);
    let slot = selects.position(10).expect("registered");
    selects.state_mut(slot).record_popup(30, vec![Some(31), Some(32), Some(33)]);
    assert_eq!(popup_option_for_hit(&selects, &vec![40, 32, 30]), Some((10, 1)));
    assert_eq!(popup_option_for_hit(&selects, &vec![40, 41]), None);
    assert_eq!(select_owning_hit(&selects, &vec![40, 30]), Some(10));
    assert_eq!(select_owning_hit(&selects, &vec![20, 1]), Some(20));
}

#[test]
fn popups_are_hit_before_the_document() {
    let mut selects: Registry<SelectState> = Registry::new();
    let mut first = SelectState::default();
    first.set_options(abc());
    first.record_popup(30, vec![Some(31), None, Some(33)]);
    selects.insert(10, first);
    selects.insert(20, SelectState::default());
    let marks = |root: bool, options: Vec<bool>| {
        vec![PopupMarks { root, options }, PopupMarks { root: true, options: vec![] }]
    };
    assert_eq!(hit_popup_node(&selects, &marks(true, vec![false, true, true])), Some(33));
    assert_eq!(hit_popup_node(&selects, &marks(true, vec![false, true, false])), Some(30));
    assert_eq!(hit_popup_node(&selects, &marks(false, vec![true, true, true])), None);
}
