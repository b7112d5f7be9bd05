//! Keyboard handling of a focused `<select>` and the dropdown overlay it
//! opens.
use crate::clock;
use crate::events::{KeyName, KeyboardEvent};
use crate::select::{SelectModel, SelectOption, SelectState};
use crate::text::{is_control, push_char};
use std::time::Instant;
use vstd::prelude::*;
use vstd::string::{StrSliceExecFns, StringExecFns};

verus! {

/// CSS classes used on the nodes that make up an open dropdown. Style rules
/// for these live in [`POPUP_UA_CSS`].
pub const POPUP_CLASS: &'static str = "ox-select-popup";

pub const POPUP_OPTION_CLASS: &'static str = "ox-select-popup-option";

pub const POPUP_OPTION_ACTIVE_CLASS: &'static str = "ox-active";

pub const POPUP_OPTION_SELECTED_CLASS: &'static str = "ox-selected";

pub const POPUP_OPTION_DISABLED_CLASS: &'static str = "ox-disabled";

/// User-agent stylesheet that makes select popups visible and clickable.
/// `position: relative` on `<select>` lets the absolutely-positioned popup
/// child anchor to the select's box.
pub const POPUP_UA_CSS: &'static str = r#"
select { position: relative; }
.ox-select-popup {
    position: absolute;
    background: #ffffff;
    border: 1px solid #808080;
    color: #000000;
    z-index: 1000;
    box-sizing: border-box;
    padding: 4px 0;
}
.ox-select-popup-option {
    display: block;
    box-sizing: border-box;
    width: 100%;
    padding: 6px 10px;
    cursor: pointer;
    line-height: 1.4;
}
.ox-select-popup-option.ox-selected { background: #c8dcff; }
.ox-select-popup-option.ox-active { background: #b0c8ff; }
.ox-select-popup-option.ox-disabled { color: #808080; cursor: default; }
"#;

/// Outcome of a keyboard event applied to a select.
#[derive(Debug, Clone, Copy, PartialEq, Eq, Structural)]
pub struct SelectKeyOutcome {
    /// State changed and the displayed label needs re-syncing.
    pub edited: bool,
    /// A `change` event should be dispatched.
    pub emits_change: bool,
    /// The popup overlay should be opened.
    pub open_popup: bool,
    /// The popup overlay should be closed.
    pub close_popup: bool,
    /// The highlighted option changed and class lists need re-syncing.
    pub sync_highlights: bool,
}

/// The outcome that asks for nothing.
pub open spec fn no_outcome() -> SelectKeyOutcome {
    SelectKeyOutcome {
        edited: false,
        emits_change: false,
        open_popup: false,
        close_popup: false,
        sync_highlights: false,
    }
}

impl Default for SelectKeyOutcome {
    fn default() -> (outcome: Self)
        ensures
            outcome == no_outcome(),
    {
        SelectKeyOutcome {
            edited: false,
            emits_change: false,
            open_popup: false,
            close_popup: false,
            sync_highlights: false,
        }
    }
}

/// The character that `event` types into a select, if it types one: a single
/// printable character without Ctrl, Meta or Alt.
pub open spec fn type_ahead_key(event: KeyboardEvent) -> Option<char> {
    if event.modified() {
        None
    } else {
        crate::events::printable_key(event.key@)
    }
}

/// Return `Some(ch)` when `event` represents a single printable character
/// that should drive select type-ahead. Modifier keys (other than Shift) and
/// multi-character key values are filtered out.
pub fn type_ahead_char(event: &KeyboardEvent) -> (ch: Option<char>)
    ensures
        ch == type_ahead_key(*event),
{
    if event.has_modifier() {
        return None;
    }
    let key = event.key.as_str();
    if key.unicode_len() != 1 {
        return None;
    }
    let ch = key.get_char(0);
    if is_control(ch) {
        None
    } else {
        Some(ch)
    }
}

/// Whether `index` names an option that the user can pick.
pub open spec fn pickable_at(options: Seq<SelectOption>, index: usize) -> bool {
    index < options.len() && crate::select::selectable(options[index as int])
}

/// The option that a commit selects: the highlighted one, when the user can
/// pick it and it is not selected already.
pub open spec fn committed(m: SelectModel) -> Option<usize> {
    match m.active {
        Some(active) => if pickable_at(m.options, active) && m.selected != Some(active) {
            Some(active)
        } else {
            None
        },
        None => None,
    }
}

/// The state with `target` highlighted, where there is one.
pub open spec fn with_highlight(m: SelectModel, target: Option<usize>) -> SelectModel {
    match target {
        Some(index) => SelectModel { active: Some(index), ..m },
        None => m,
    }
}

/// The option that a key press on a closed select moves the selection to.
pub open spec fn closed_key_target(m: SelectModel, key: KeyName) -> Option<usize> {
    let current = crate::select::current_or_first(m.selected);
    match key {
        KeyName::ArrowDown | KeyName::Down => crate::select::ring_target(m.options, current, 1),
        KeyName::ArrowUp | KeyName::Up => crate::select::ring_target(m.options, current, -1),
        KeyName::PageDown => crate::select::step_target(m.options, current, 10),
        KeyName::PageUp => crate::select::step_target(m.options, current, -10),
        KeyName::Home => crate::select::next_selectable(m.options, 0),
        KeyName::End => crate::select::prev_selectable(m.options, m.options.len() - 1),
        _ => None,
    }
}

/// The option that a key press on an open select moves the highlight to.
pub open spec fn open_key_target(m: SelectModel, key: KeyName) -> Option<usize> {
    let current = match m.active {
        Some(active) => active as int,
        None => crate::select::current_or_first(m.selected),
    };
    match key {
        KeyName::ArrowDown | KeyName::Down => crate::select::ring_target(m.options, current, 1),
        KeyName::ArrowUp | KeyName::Up => crate::select::ring_target(m.options, current, -1),
        KeyName::Home => crate::select::next_selectable(m.options, 0),
        KeyName::End => crate::select::prev_selectable(m.options, m.options.len() - 1),
        _ => None,
    }
}

/// State and outcome after a key press on a closed select.
pub open spec fn closed_key_effect(m: SelectModel, event: KeyboardEvent, now: Instant) -> (
    SelectModel,
    SelectKeyOutcome,
) {
    let key = event.named();
    let opening = SelectKeyOutcome { edited: true, open_popup: true, ..no_outcome() };
    if event.alt_key && (key is ArrowDown || key is Down) {
        (m, opening)
    } else {
        match key {
            KeyName::Space | KeyName::Enter => (m, opening),
            KeyName::ArrowDown
            | KeyName::Down
            | KeyName::ArrowUp
            | KeyName::Up
            | KeyName::PageDown
            | KeyName::PageUp
            | KeyName::Home
            | KeyName::End => {
                let target = closed_key_target(m, key);
                let moved = target is Some && !((key is PageDown || key is PageUp) && target
                    == m.selected);
                (
                    crate::select::with_selection(m, target),
                    SelectKeyOutcome { edited: moved, emits_change: moved, ..no_outcome() },
                )
            },
            _ => match type_ahead_key(event) {
                Some(ch) => {
                    let found = crate::select::selected_ahead(m, ch, now) is Some;
                    (
                        crate::select::after_type_ahead(m, ch, now),
                        SelectKeyOutcome { edited: found, emits_change: found, ..no_outcome() },
                    )
                },
                None => (m, no_outcome()),
            },
        }
    }
}

/// State and outcome after a key press on an open select.
pub open spec fn open_key_effect(m: SelectModel, event: KeyboardEvent, now: Instant) -> (
    SelectModel,
    SelectKeyOutcome,
) {
    let key = event.named();
    let commits = committed(m) is Some;
    let closing = (
        crate::select::with_selection(m, committed(m)),
        SelectKeyOutcome {
            edited: commits,
            emits_change: commits,
            close_popup: true,
            ..no_outcome()
        },
    );
    if event.alt_key && (key is ArrowUp || key is Up) {
        closing
    } else {
        match key {
            KeyName::Enter | KeyName::Space | KeyName::Tab => closing,
            KeyName::Escape => (
                m,
                SelectKeyOutcome { edited: true, close_popup: true, ..no_outcome() },
            ),
            KeyName::ArrowDown
            | KeyName::Down
            | KeyName::ArrowUp
            | KeyName::Up
            | KeyName::Home
            | KeyName::End => {
                let target = open_key_target(m, key);
                let moved = target is Some;
                (
                    with_highlight(m, target),
                    SelectKeyOutcome { edited: moved, sync_highlights: moved, ..no_outcome() },
                )
            },
            _ => match type_ahead_key(event) {
                Some(ch) => {
                    let found = crate::select::highlighted_ahead(m, ch, now) is Some;
                    (
                        crate::select::after_highlight_ahead(m, ch, now),
                        SelectKeyOutcome {
                            edited: found,
                            sync_highlights: found,
                            ..no_outcome()
                        },
                    )
                },
                None => (m, no_outcome()),
            },
        }
    }
}

/// State and outcome after a key press on a select, with the clock at `now`.
pub open spec fn select_key_effect(m: SelectModel, event: KeyboardEvent, now: Instant) -> (
    SelectModel,
    SelectKeyOutcome,
) {
    if m.open {
        open_key_effect(m, event, now)
    } else {
        closed_key_effect(m, event, now)
    }
}

/// Selects the highlighted option when the user can pick it and it is not
/// selected already. Returns whether it was selected.
fn commit_active(state: &mut SelectState) -> (done: bool)
    ensures
        done == committed(old(state)@) is Some,
        final(state)@ == crate::select::with_selection(old(state)@, committed(old(state)@)),
{
    if let Some(active) = state.active_index() {
        let free = active < state.options.len() && !state.options[active].disabled
            && !state.options[active].hidden;
        let fresh = match state.selected_index() {
            Some(selected) => selected != active,
            None => true,
        };
        if free && fresh {
            state.set_selected_index(Some(active));
            return true;
        }
    }
    false
}

/// Highlights `target`, where there is one.
fn highlight(state: &mut SelectState, target: Option<usize>) -> (outcome: SelectKeyOutcome)
    ensures
        final(state)@ == with_highlight(old(state)@, target),
        outcome == (SelectKeyOutcome {
            edited: target is Some,
            sync_highlights: target is Some,
            ..no_outcome()
        }),
{
    let mut outcome = SelectKeyOutcome::default();
    if target.is_some() {
        state.set_active_index(target);
        outcome.edited = true;
        outcome.sync_highlights = true;
    }
    outcome
}

fn closed_select_key(state: &mut SelectState, event: &KeyboardEvent, now: Instant) -> (outcome:
    SelectKeyOutcome)
    ensures
        (final(state)@, outcome) == closed_key_effect(old(state)@, *event, now),
{
    let mut outcome = SelectKeyOutcome::default();
    let key = event.name();
    if event.alt_key && matches!(key, KeyName::ArrowDown | KeyName::Down) {
        outcome.edited = true;
        outcome.open_popup = true;
        return outcome;
    }
    let edited = match key {
        KeyName::ArrowDown | KeyName::Down => state.move_selection(1),
        KeyName::ArrowUp | KeyName::Up => state.move_selection(-1),
        KeyName::PageDown => state.step_selection(10),
        KeyName::PageUp => state.step_selection(-10),
        KeyName::Home => state.jump_to_extreme(false),
        KeyName::End => state.jump_to_extreme(true),
        KeyName::Space | KeyName::Enter => {
            outcome.edited = true;
            outcome.open_popup = true;
            return outcome;
        },
        _ => match type_ahead_char(event) {
            Some(ch) => state.type_ahead(ch, now).is_some(),
            None => false,
        },
    };
    outcome.edited = edited;
    outcome.emits_change = edited;
    outcome
}

fn open_select_key(state: &mut SelectState, event: &KeyboardEvent, now: Instant) -> (outcome:
    SelectKeyOutcome)
    ensures
        (final(state)@, outcome) == open_key_effect(old(state)@, *event, now),
{
    let key = event.name();
    let current: usize = match state.active_index() {
        Some(active) => active,
        None => match state.selected_index() {
            Some(selected) => selected,
            None => 0,
        },
    };
    let commits = (event.alt_key && matches!(key, KeyName::ArrowUp | KeyName::Up)) || matches!(
        key,
        KeyName::Enter | KeyName::Space | KeyName::Tab
    );
    if commits {
        let mut outcome = SelectKeyOutcome::default();
        let edited = commit_active(state);
        outcome.edited = edited;
        outcome.emits_change = edited;
        outcome.close_popup = true;
        return outcome;
    }
    match key {
        KeyName::ArrowDown | KeyName::Down => {
            let target = state.ring_enabled(current, 1);
            highlight(state, target)
        },
        KeyName::ArrowUp | KeyName::Up => {
            let target = state.ring_enabled(current, -1);
            highlight(state, target)
        },
        KeyName::Home => {
            let target = state.find_first_enabled();
            highlight(state, target)
        },
        KeyName::End => {
            let target = state.find_last_enabled();
            highlight(state, target)
        },
        KeyName::Escape => {
            let mut outcome = SelectKeyOutcome::default();
            outcome.edited = true;
            outcome.close_popup = true;
            outcome
        },
        _ => match type_ahead_char(event) {
            Some(ch) => {
                let target = state.highlight_ahead(ch, now);
                highlight(state, target)
            },
            None => SelectKeyOutcome::default(),
        },
    }
}

/// Applies a key press to a select with the clock at `now`. Moves of the
/// selection and of the highlight are applied in place; opening, closing and
/// restyling the popup is left to the caller.
pub fn select_key_outcome_at(state: &mut SelectState, event: &KeyboardEvent, now: Instant) -> (
    outcome: SelectKeyOutcome)
    ensures
        (final(state)@, outcome) == select_key_effect(old(state)@, *event, now),
{
    if state.is_open() {
        open_select_key(state, event, now)
    } else {
        closed_select_key(state, event, now)
    }
}

/// Applies a key press to a select at the present moment.
pub fn select_key_outcome(state: &mut SelectState, event: &KeyboardEvent) -> (outcome:
    SelectKeyOutcome)
    ensures
        exists|now: Instant|
            (final(state)@, outcome) == #[trigger] select_key_effect(old(state)@, *event, now),
{
    let now = clock::now();
    let outcome = select_key_outcome_at(state, event, now);
    assert((state@, outcome) == select_key_effect(old(state)@, *event, now));
    outcome
}

/// A key press never selects an option that is disabled, hidden or out of
/// range, and never touches the options themselves.
pub proof fn key_selects_only_pickable(m: SelectModel, event: KeyboardEvent, now: Instant)
    requires
        m.options.len() <= usize::MAX,
    ensures
        ({
            let after = select_key_effect(m, event, now).0;
            &&& after.options == m.options
            &&& after.open == m.open
            &&& after.selected != m.selected ==> (after.selected matches Some(index)
                && pickable_at(m.options, index))
        }),
{
    let current = crate::select::current_or_first(m.selected);
    crate::select::single_move_finds_selectable(m.options, current, 1);
    crate::select::single_move_finds_selectable(m.options, current, -1);
    crate::select::step_finds_selectable(m.options, current, 10);
    crate::select::step_finds_selectable(m.options, current, -10);
    crate::select::next_selectable_is_nearest(m.options, 0);
    crate::select::prev_selectable_is_nearest(m.options, m.options.len() - 1);
    if let Some(ch) = type_ahead_key(event) {
        let buffer = crate::select::typed_buffer(m, ch, now);
        crate::select::type_ahead_finds_match(m.options, buffer, m.selected);
    }
}

/// A `change` event is only asked for when a pickable option is selected
/// afterwards.
pub proof fn change_reports_pickable(m: SelectModel, event: KeyboardEvent, now: Instant)
    requires
        m.options.len() <= usize::MAX,
    ensures
        ({
            let (after, outcome) = select_key_effect(m, event, now);
            outcome.emits_change ==> outcome.edited && (after.selected matches Some(index)
                && pickable_at(m.options, index))
        }),
{
    let current = crate::select::current_or_first(m.selected);
    crate::select::single_move_finds_selectable(m.options, current, 1);
    crate::select::single_move_finds_selectable(m.options, current, -1);
    crate::select::step_finds_selectable(m.options, current, 10);
    crate::select::step_finds_selectable(m.options, current, -10);
    crate::select::next_selectable_is_nearest(m.options, 0);
    crate::select::prev_selectable_is_nearest(m.options, m.options.len() - 1);
    if let Some(ch) = type_ahead_key(event) {
        let buffer = crate::select::typed_buffer(m, ch, now);
        crate::select::type_ahead_finds_match(m.options, buffer, m.selected);
    }
}

/// Only a key that closes an open select may change its selection: moving the
/// highlight, by arrows or by type-ahead, commits nothing and asks for no `change`
/// event.
pub proof fn highlight_commits_nothing(m: SelectModel, event: KeyboardEvent, now: Instant)
    requires
        m.open,
        !select_key_effect(m, event, now).1.close_popup,
    ensures
        select_key_effect(m, event, now).0.selected == m.selected,
        !select_key_effect(m, event, now).1.emits_change,
{
}

/// Enter selects what type-ahead highlighted in an open select, and reports it
/// when it was not selected already.
pub proof fn enter_commits_type_ahead(
    m: SelectModel,
    typed: KeyboardEvent,
    now: Instant,
    enter: KeyboardEvent,
    later: Instant,
)
    requires
        m.open,
        m.options.len() <= usize::MAX,
        typed.named() is Other,
        type_ahead_key(typed) is Some,
        enter.named() is Enter,
    ensures
        ({
            let found = crate::select::highlighted_ahead(m, type_ahead_key(typed)->0, now);
            let (after, outcome) = select_key_effect(
                select_key_effect(m, typed, now).0,
                enter,
                later,
            );
            found is Some ==> after.selected == found && outcome.emits_change == (found
                != m.selected)
        }),
{
    let buffer = crate::select::typed_buffer(m, type_ahead_key(typed)->0, now);
    crate::select::type_ahead_finds_match(
        m.options,
        buffer,
        crate::select::highlighted_or_selected(m),
    );
}

/// Escape leaves the selection of an open select alone and closes it without
/// a `change` event.
pub proof fn escape_keeps_selection(m: SelectModel, event: KeyboardEvent, now: Instant)
    requires
        m.open,
        event.named() is Escape,
    ensures
        select_key_effect(m, event, now).0 == m,
        select_key_effect(m, event, now).1.close_popup,
        !select_key_effect(m, event, now).1.emits_change,
{
}

/// What opening or closing a select asks of the document.
#[derive(Debug, Clone, Copy, PartialEq, Eq, Structural)]
pub enum PopupAction {
    /// The popup overlay stays as it is.
    Keep,
    /// The popup overlay is to be built.
    Mount,
    /// The popup overlay is to be removed.
    Unmount,
}

/// The option that is highlighted when a select opens: the selected one, when
/// the user can pick it, or else the first one the user can pick.
pub open spec fn opening_highlight(m: SelectModel) -> Option<usize> {
    match m.selected {
        Some(selected) if pickable_at(m.options, selected) => Some(selected),
        _ => crate::select::next_selectable(m.options, 0),
    }
}

/// The state after opening or closing a select.
pub open spec fn opened(m: SelectModel, open: bool) -> SelectModel {
    SelectModel {
        open,
        active: if !open {
            None
        } else if m.open {
            m.active
        } else {
            opening_highlight(m)
        },
        ..m
    }
}

/// What the document has to do when a select goes from `was` to `open`.
pub open spec fn popup_action(was: bool, open: bool) -> PopupAction {
    if open && !was {
        PopupAction::Mount
    } else if was && !open {
        PopupAction::Unmount
    } else {
        PopupAction::Keep
    }
}

impl SelectState {
    /// Opens or closes the dropdown and says what to do with the popup
    /// overlay.
    pub fn switch_open(&mut self, open: bool) -> (action: PopupAction)
        ensures
            final(self)@ == opened(old(self)@, open),
            action == popup_action(old(self)@.open, open),
    {
        let was = self.is_open();
        if open && !was {
            let active = match self.selected_index() {
                Some(selected) if selected < self.options.len()
                    && !self.options[selected].disabled && !self.options[selected].hidden => Some(
                    selected,
                ),
                _ => self.find_first_enabled(),
            };
            self.set_active_index(active);
        }
        self.set_open(open);
        if open && !was {
            PopupAction::Mount
        } else if was && !open {
            PopupAction::Unmount
        } else {
            PopupAction::Keep
        }
    }
}

/// The class list of the popup node of an option.
pub open spec fn option_classes(disabled: bool, selected: bool, active: bool) -> Seq<char> {
    let base = POPUP_OPTION_CLASS@;
    let first = if disabled {
        base.push(' ') + POPUP_OPTION_DISABLED_CLASS@
    } else {
        base
    };
    let second = if selected {
        first.push(' ') + POPUP_OPTION_SELECTED_CLASS@
    } else {
        first
    };
    if active {
        second.push(' ') + POPUP_OPTION_ACTIVE_CLASS@
    } else {
        second
    }
}

fn option_class_list(disabled: bool, selected: bool, active: bool) -> (classes: String)
    ensures
        classes@ == option_classes(disabled, selected, active),
{
    let mut classes = POPUP_OPTION_CLASS.to_owned();
    if disabled {
        push_char(&mut classes, ' ');
        classes.append(POPUP_OPTION_DISABLED_CLASS);
    }
    if selected {
        push_char(&mut classes, ' ');
        classes.append(POPUP_OPTION_SELECTED_CLASS);
    }
    if active {
        push_char(&mut classes, ' ');
        classes.append(POPUP_OPTION_ACTIVE_CLASS);
    }
    classes
}

/// The popup node to build for one option.
#[derive(Debug)]
pub struct PopupEntry {
    pub label: String,
    pub classes: String,
}

/// Whether `entry` is what the popup shows for the option at `index`: nothing
/// for a hidden option, else its label and class list.
pub open spec fn entry_shows(m: SelectModel, index: int, entry: Option<PopupEntry>) -> bool {
    if m.options[index].hidden {
        entry is None
    } else {
        entry matches Some(shown) && shown.label@ == m.options[index].label@ && shown.classes@
            == option_classes(
            m.options[index].disabled,
            m.selected == Some(index as usize),
            m.active == Some(index as usize),
        )
    }
}

fn is_index(slot: Option<usize>, index: usize) -> (equal: bool)
    ensures
        equal == (slot == Some(index)),
{
    match slot {
        Some(value) => value == index,
        None => false,
    }
}

impl SelectState {
    /// The popup nodes to build, one slot per option. A hidden option keeps
    /// its slot and gets no node.
    pub fn popup_entries(&self) -> (entries: Vec<Option<PopupEntry>>)
        ensures
            entries@.len() == self@.options.len(),
            forall|i: int| 0 <= i < entries@.len() ==> entry_shows(self@, i, #[trigger] entries@[i]),
    {
        let mut entries: Vec<Option<PopupEntry>> = Vec::new();
        let mut i: usize = 0;
        while i < self.options.len()
            invariant
                i <= self@.options.len(),
                entries@.len() == i,
                forall|k: int| 0 <= k < i ==> entry_shows(self@, k, #[trigger] entries@[k]),
            decreases self.options.len() - i,
        {
            let option = &self.options[i];
            if option.hidden {
                entries.push(None);
            } else {
                let classes = option_class_list(
                    option.disabled,
                    is_index(self.selected_index, i),
                    is_index(self.active_index, i),
                );
                entries.push(Some(PopupEntry { label: option.label.clone(), classes }));
            }
            i += 1;
        }
        entries
    }

    /// Records the nodes of a popup that was built.
    pub fn record_popup(&mut self, popup_root: usize, option_nodes: Vec<Option<usize>>)
        ensures
            final(self)@ == (SelectModel {
                popup_root: Some(popup_root),
                option_nodes: option_nodes@,
                ..old(self)@
            }),
    {
        self.popup_root_id = Some(popup_root);
        self.option_node_ids = option_nodes;
    }

    /// Forgets the nodes of the popup and hands out its root for removal.
    pub fn forget_popup(&mut self) -> (popup_root: Option<usize>)
        ensures
            popup_root == old(self)@.popup_root,
            final(self)@ == (SelectModel {
                popup_root: None,
                option_nodes: Seq::empty(),
                ..old(self)@
            }),
    {
        self.option_node_ids = Vec::new();
        self.popup_root_id.take()
    }

    /// The class list of each popup node, in option order. Slots without a
    /// node are left out.
    pub fn popup_highlights(&self) -> (classes: Vec<(usize, String)>)
        ensures
            shows_highlights(self@, classes@, self@.option_nodes.len() as int),
    {
        let mut classes: Vec<(usize, String)> = Vec::new();
        let mut i: usize = 0;
        while i < self.option_node_ids.len()
            invariant
                i <= self.option_node_ids.len(),
                shows_highlights(self@, classes@, i as int),
            decreases self.option_node_ids.len() - i,
        {
            let ghost before = classes@;
            if let Some(node) = self.option_node_ids[i] {
                let disabled = i < self.options.len() && self.options[i].disabled;
                let list = option_class_list(
                    disabled,
                    is_index(self.selected_index, i),
                    is_index(self.active_index, i),
                );
                classes.push((node, list));
                proof {
                    assert(classes@.drop_last() =~= before);
                }
            }
            i += 1;
        }
        classes
    }
}

/// Whether `classes` lists the nodes of the first `upto` option slots with
/// their class lists.
pub open spec fn shows_highlights(m: SelectModel, classes: Seq<(usize, String)>, upto: int) -> bool
    decreases upto,
{
    if upto <= 0 {
        classes.len() == 0
    } else {
        let i = upto - 1;
        match m.option_nodes[i] {
            Some(node) => {
                &&& classes.len() > 0
                &&& classes.last().0 == node
                &&& classes.last().1@ == option_classes(
                    i < m.options.len() && m.options[i].disabled,
                    m.selected == Some(i as usize),
                    m.active == Some(i as usize),
                )
                &&& shows_highlights(m, classes.drop_last(), i)
            },
            None => shows_highlights(m, classes, i),
        }
    }
}

/// Whether the user can pick no option at all.
pub open spec fn nothing_to_pick(options: Seq<SelectOption>) -> bool {
    forall|i: int| 0 <= i < options.len() ==> (#[trigger] options[i]).disabled || options[i].hidden
}

/// Whether `found` is the nearest option below `at` that the user can pick, round
/// the end of the list where there is none below.
pub open spec fn nearest_below(options: Seq<SelectOption>, at: int, found: int) -> bool {
    &&& 0 <= found < options.len()
    &&& !options[found].disabled && !options[found].hidden
    &&& if found > at {
        forall|i: int| at < i < found ==> (#[trigger] options[i]).disabled || options[i].hidden
    } else {
        forall|i: int|
            at < i < options.len() || 0 <= i < found ==> (#[trigger] options[i]).disabled
                || options[i].hidden
    }
}

/// Whether `found` is the nearest option above `at` that the user can pick, round
/// the start of the list where there is none above.
pub open spec fn nearest_above(options: Seq<SelectOption>, at: int, found: int) -> bool {
    &&& 0 <= found < options.len()
    &&& !options[found].disabled && !options[found].hidden
    &&& if found < at {
        forall|i: int| found < i < at ==> (#[trigger] options[i]).disabled || options[i].hidden
    } else {
        forall|i: int|
            0 <= i < at || found < i < options.len() ==> (#[trigger] options[i]).disabled
                || options[i].hidden
    }
}

/// Whether a key press selected `found` and changed nothing else of the select.
pub open spec fn picked(
    m: SelectModel,
    found: usize,
    after: SelectModel,
    outcome: SelectKeyOutcome,
) -> bool {
    &&& after.selected == Some(found)
    &&& after.options == m.options
    &&& after.disabled == m.disabled
    &&& after.name == m.name
    &&& after.open == m.open
    &&& after.active == m.active
    &&& after.popup_root == m.popup_root
    &&& after.option_nodes == m.option_nodes
    &&& after.buffer == m.buffer
    &&& after.last_key_at == m.last_key_at
    &&& outcome.edited && outcome.emits_change
    &&& !outcome.open_popup && !outcome.close_popup && !outcome.sync_highlights
}

/// Whether a key press highlighted `found` and changed nothing else of the select.
pub open spec fn pointed_at(
    m: SelectModel,
    found: usize,
    after: SelectModel,
    outcome: SelectKeyOutcome,
) -> bool {
    &&& after.active == Some(found)
    &&& after.selected == m.selected
    &&& after.options == m.options
    &&& after.disabled == m.disabled
    &&& after.name == m.name
    &&& after.open == m.open
    &&& after.popup_root == m.popup_root
    &&& after.option_nodes == m.option_nodes
    &&& after.buffer == m.buffer
    &&& after.last_key_at == m.last_key_at
    &&& outcome.edited && outcome.sync_highlights
    &&& !outcome.open_popup && !outcome.close_popup && !outcome.emits_change
}

/// Whether a key press asked for nothing.
pub open spec fn asked_nothing(outcome: SelectKeyOutcome) -> bool {
    !outcome.edited && !outcome.emits_change && !outcome.open_popup && !outcome.close_popup
        && !outcome.sync_highlights
}

/// On a closed select the down arrow selects the nearest option below the selected
/// one that the user can pick, and the up arrow the nearest one above, each round
/// the end. Where the user can pick none, nothing happens.
pub proof fn arrows_select_the_nearest(
    m: SelectModel,
    at: usize,
    event: KeyboardEvent,
    now: Instant,
)
    requires
        !m.open,
        at < m.options.len() <= usize::MAX,
        m.selected == Some(at) || (m.selected is None && at == 0),
    ensures
        ({
            let (after, outcome) = select_key_effect(m, event, now);
            let down = event.named() is ArrowDown || event.named() is Down;
            let up = event.named() is ArrowUp || event.named() is Up;
            &&& (down && !event.alt_key || up) && nothing_to_pick(m.options) ==> after == m
                && asked_nothing(outcome)
            &&& down && !event.alt_key && !nothing_to_pick(m.options) ==> (after.selected
                matches Some(found) && nearest_below(m.options, at as int, found as int) && picked(
                m,
                found,
                after,
                outcome,
            ))
            &&& up && !nothing_to_pick(m.options) ==> (after.selected matches Some(found)
                && nearest_above(m.options, at as int, found as int) && picked(
                m,
                found,
                after,
                outcome,
            ))
        }),
{
    crate::select::steps_go_to_the_nearest(m.options, at as int);
}

/// On a closed select whose selected option the user can pick, the up arrow takes
/// back the down arrow, and the down arrow the up arrow.
pub proof fn up_takes_back_down(
    m: SelectModel,
    at: usize,
    down: KeyboardEvent,
    up: KeyboardEvent,
    now: Instant,
    later: Instant,
)
    requires
        !m.open,
        m.selected == Some(at),
        at < m.options.len() <= usize::MAX,
        !m.options[at as int].disabled,
        !m.options[at as int].hidden,
        down.named() is ArrowDown || down.named() is Down,
        up.named() is ArrowUp || up.named() is Up,
        !down.alt_key,
    ensures
        select_key_effect(select_key_effect(m, down, now).0, up, later).0 == m,
        select_key_effect(select_key_effect(m, up, now).0, down, later).0 == m,
{
    crate::select::opposite_steps_return(m.options, at);
}

/// Page Down on a closed select aims ten options down, or at the last one, and Page
/// Up ten options up, or at the first one. Each selects the nearest option from
/// there on that the user can pick, or where there is none, the nearest before, and
/// reports a change only where another option is selected by it.
pub proof fn page_keys_go_ten_options(
    m: SelectModel,
    at: usize,
    event: KeyboardEvent,
    now: Instant,
)
    requires
        !m.open,
        at < m.options.len() <= usize::MAX,
        m.selected == Some(at) || (m.selected is None && at == 0),
        event.named() is PageDown || event.named() is PageUp,
    ensures
        ({
            let (after, outcome) = select_key_effect(m, event, now);
            let options = m.options;
            let last = options.len() - 1;
            let below = if at + 10 < last { at + 10 } else { last };
            let above = if at >= 10 { at - 10 } else { 0 };
            &&& nothing_to_pick(options) ==> after == m && asked_nothing(outcome)
            &&& !nothing_to_pick(options) ==> {
                &&& after.selected matches Some(found)
                &&& found < options.len()
                &&& !options[found as int].disabled && !options[found as int].hidden
                &&& m.selected == Some(found) ==> after == m && asked_nothing(outcome)
                &&& m.selected != Some(found) ==> picked(m, found, after, outcome)
                &&& event.named() is PageDown ==> forall|i: int|
                    (if found >= below {
                        below <= i < found
                    } else {
                        found < i <= last
                    }) ==> (#[trigger] options[i]).disabled || options[i].hidden
                &&& event.named() is PageUp ==> forall|i: int|
                    (if found <= above {
                        found < i <= above
                    } else {
                        0 <= i < found
                    }) ==> (#[trigger] options[i]).disabled || options[i].hidden
            }
        }),
{
    crate::select::page_steps_land_near(m.options, at as int);
    assert forall|i: int| 0 <= i < m.options.len() implies crate::select::selectable(m.options[i])
        == !((#[trigger] m.options[i]).disabled || m.options[i].hidden) by {}
}

/// Home selects the first option of a closed select that the user can pick, and End
/// the last one. In an open select they highlight it.
pub proof fn home_and_end_reach_the_ends(m: SelectModel, event: KeyboardEvent, now: Instant)
    requires
        m.options.len() <= usize::MAX,
        event.named() is Home || event.named() is End,
    ensures
        ({
            let (after, outcome) = select_key_effect(m, event, now);
            &&& nothing_to_pick(m.options) ==> after == m && asked_nothing(outcome)
            &&& !nothing_to_pick(m.options) ==> {
                &&& (if m.open { after.active } else { after.selected }) matches Some(found)
                &&& found < m.options.len()
                &&& !m.options[found as int].disabled && !m.options[found as int].hidden
                &&& forall|i: int|
                    (if event.named() is Home {
                        0 <= i < found
                    } else {
                        found < i < m.options.len()
                    }) ==> (#[trigger] m.options[i]).disabled || m.options[i].hidden
                &&& m.open ==> pointed_at(m, found, after, outcome)
                &&& !m.open ==> picked(m, found, after, outcome)
            }
        }),
{
    crate::select::next_selectable_is_nearest(m.options, 0);
    crate::select::prev_selectable_is_nearest(m.options, m.options.len() - 1);
    assert forall|i: int| 0 <= i < m.options.len() implies crate::select::selectable(m.options[i])
        == !((#[trigger] m.options[i]).disabled || m.options[i].hidden) by {}
}

/// Space, Enter and Alt with the down arrow ask to open a closed select and leave
/// it as it is otherwise.
pub proof fn keys_that_open(m: SelectModel, event: KeyboardEvent, now: Instant)
    requires
        !m.open,
        event.named() is Space || event.named() is Enter || (event.alt_key && (event.named()
            is ArrowDown || event.named() is Down)),
    ensures
        ({
            let (after, outcome) = select_key_effect(m, event, now);
            &&& after == m
            &&& outcome.edited && outcome.open_popup
            &&& !outcome.emits_change && !outcome.close_popup && !outcome.sync_highlights
        }),
{
}

/// In an open select the arrows move the highlight to the nearest option below or
/// above that the user can pick, round the end, and leave the selection alone. They
/// start from the selected option where none is highlighted.
pub proof fn arrows_move_the_highlight(
    m: SelectModel,
    at: usize,
    event: KeyboardEvent,
    now: Instant,
)
    requires
        m.open,
        at < m.options.len() <= usize::MAX,
        m.active == Some(at) || (m.active is None && (m.selected == Some(at) || (m.selected is None
            && at == 0))),
    ensures
        ({
            let (after, outcome) = select_key_effect(m, event, now);
            let down = event.named() is ArrowDown || event.named() is Down;
            let up = event.named() is ArrowUp || event.named() is Up;
            &&& (down || up && !event.alt_key) && nothing_to_pick(m.options) ==> after == m
                && asked_nothing(outcome)
            &&& down && !nothing_to_pick(m.options) ==> (after.active matches Some(found)
                && nearest_below(m.options, at as int, found as int) && pointed_at(
                m,
                found,
                after,
                outcome,
            ))
            &&& up && !event.alt_key && !nothing_to_pick(m.options) ==> (after.active
                matches Some(found) && nearest_above(m.options, at as int, found as int)
                && pointed_at(m, found, after, outcome))
        }),
{
    crate::select::steps_go_to_the_nearest(m.options, at as int);
}

/// Enter, Space, Tab and Alt with the up arrow close an open select. The
/// highlighted option becomes the selected one, with a `change` event, where the
/// user can pick it and it was not selected yet.
pub proof fn keys_that_commit(m: SelectModel, event: KeyboardEvent, now: Instant)
    requires
        m.open,
        event.named() is Enter || event.named() is Space || event.named() is Tab || (event.alt_key
            && (event.named() is ArrowUp || event.named() is Up)),
    ensures
        ({
            let (after, outcome) = select_key_effect(m, event, now);
            let fresh = m.active matches Some(at) && at < m.options.len()
                && !m.options[at as int].disabled && !m.options[at as int].hidden && m.selected
                != Some(at);
            &&& after.selected == (if fresh { m.active } else { m.selected })
            &&& after == (SelectModel { selected: after.selected, ..m })
            &&& outcome.edited == fresh && outcome.emits_change == fresh
            &&& outcome.close_popup && !outcome.open_popup && !outcome.sync_highlights
        }),
{
}

/// A single printable character typed without Ctrl, Meta or Alt goes to type-ahead:
/// in a closed select it selects, in an open one it highlights what it finds. Any
/// other key that the select does not know does nothing.
pub proof fn characters_go_to_type_ahead(m: SelectModel, event: KeyboardEvent, now: Instant)
    requires
        event.named() is Other,
    ensures
        ({
            let (after, outcome) = select_key_effect(m, event, now);
            let typed = event.key@.len() == 1 && !crate::text::is_control_char(event.key@[0])
                && !event.ctrl_key && !event.meta_key && !event.alt_key;
            let buffer = crate::select::typed_buffer(m, event.key@[0], now);
            let from = if m.open && m.active is Some { m.active } else { m.selected };
            let found = crate::select::type_ahead_target(m.options, buffer, from);
            &&& !typed ==> after == m && asked_nothing(outcome)
            &&& typed ==> {
                &&& after.buffer == buffer && after.last_key_at == Some(now)
                &&& after.options == m.options && after.open == m.open
                &&& outcome.edited == found is Some
                &&& !outcome.open_popup && !outcome.close_popup
                &&& m.open ==> after.selected == m.selected && after.active == (if found is Some {
                    found
                } else {
                    m.active
                }) && outcome.sync_highlights == found is Some && !outcome.emits_change
                &&& !m.open ==> after.selected == (if found is Some {
                    found
                } else {
                    m.selected
                }) && outcome.emits_change == found is Some && !outcome.sync_highlights
            }
        }),
{
}

/// Opening a select highlights the selected option where the user can pick it, and
/// else the first one that the user can pick, and asks for the popup. Closing it
/// drops the highlight and the popup. A select that is open or closed already asks
/// for nothing.
pub proof fn opening_highlights_the_selected(m: SelectModel, at: usize)
    requires
        m.options.len() <= usize::MAX,
    ensures
        opened(m, true).open && !opened(m, false).open,
        opened(m, false).active is None,
        m.open ==> opened(m, true) == m,
        !m.open && m.selected == Some(at) && at < m.options.len() && !m.options[at as int].disabled
            && !m.options[at as int].hidden ==> opened(m, true).active == Some(at),
        !m.open && m.selected is None ==> match opened(m, true).active {
            Some(first) => {
                &&& first < m.options.len()
                &&& !m.options[first as int].disabled && !m.options[first as int].hidden
                &&& forall|i: int|
                    0 <= i < first ==> (#[trigger] m.options[i]).disabled || m.options[i].hidden
            },
            None => nothing_to_pick(m.options),
        },
        !m.open && m.selected == Some(at) && (at >= m.options.len() || m.options[at as int].disabled
            || m.options[at as int].hidden) ==> opened(m, true).active == opened(
            SelectModel { selected: None, ..m },
            true,
        ).active,
        opened(m, true) == (SelectModel { open: true, active: opened(m, true).active, ..m }),
        opened(m, false) == (SelectModel { open: false, active: None, ..m }),
        popup_action(m.open, true) == (if m.open { PopupAction::Keep } else { PopupAction::Mount }),
        popup_action(m.open, false) == (if m.open {
            PopupAction::Unmount
        } else {
            PopupAction::Keep
        }),
{
    crate::select::next_selectable_is_nearest(m.options, 0);
    assert forall|i: int| 0 <= i < m.options.len() implies crate::select::selectable(m.options[i])
        == !((#[trigger] m.options[i]).disabled || m.options[i].hidden) by {}
}

/// A popup node has the class of an option and one class for each thing that holds
/// of it: disabled, selected, highlighted.
pub proof fn classes_tell_the_state(disabled: bool, selected: bool, active: bool)
    ensures
        option_classes(false, false, false) == "ox-select-popup-option"@,
        option_classes(true, false, false) == option_classes(false, false, false)
            + " ox-disabled"@,
        option_classes(disabled, true, false) == option_classes(disabled, false, false)
            + " ox-selected"@,
        option_classes(disabled, selected, true) == option_classes(disabled, selected, false)
            + " ox-active"@,
{
    reveal_strlit("ox-select-popup-option");
    reveal_strlit("ox-disabled");
    reveal_strlit("ox-selected");
    reveal_strlit("ox-active");
    reveal_strlit(" ox-disabled");
    reveal_strlit(" ox-selected");
    reveal_strlit(" ox-active");
    assert(option_classes(true, false, false) =~= option_classes(false, false, false)
        + " ox-disabled"@);
    assert(option_classes(disabled, true, false) =~= option_classes(disabled, false, false)
        + " ox-selected"@);
    assert(option_classes(disabled, selected, true) =~= option_classes(disabled, selected, false)
        + " ox-active"@);
}

/// The popup shows every option but the hidden ones, under its label.
pub proof fn popup_shows_the_visible(m: SelectModel, i: int, entry: Option<PopupEntry>)
    requires
        0 <= i < m.options.len(),
        entry_shows(m, i, entry),
    ensures
        entry is None <==> m.options[i].hidden,
        entry matches Some(shown) ==> shown.label@ == m.options[i].label@,
{
}

/// Every option slot with a node is in the list of highlights, with the classes
/// that its option has.
pub proof fn highlights_cover_the_nodes(
    m: SelectModel,
    classes: Seq<(usize, String)>,
    upto: int,
    i: int,
) -> (at: int)
    requires
        0 <= i < upto <= m.option_nodes.len(),
        m.option_nodes[i] is Some,
        shows_highlights(m, classes, upto),
    ensures
        0 <= at < classes.len(),
        classes[at].0 == m.option_nodes[i]->0,
        classes[at].1@ == option_classes(
            i < m.options.len() && m.options[i].disabled,
            m.selected == Some(i as usize),
            m.active == Some(i as usize),
        ),
    decreases upto,
{
    if i == upto - 1 {
        classes.len() - 1
    } else if m.option_nodes[upto - 1] is Some {
        highlights_cover_the_nodes(m, classes.drop_last(), upto - 1, i)
    } else {
        highlights_cover_the_nodes(m, classes, upto - 1, i)
    }
}

} // verus!
