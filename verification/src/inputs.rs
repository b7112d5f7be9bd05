//! The inputs of a document: keystrokes, radio groups and clicks on
//! checkboxes and radios.
use crate::events::{KeyName, KeyboardEvent};
use crate::input::{InputModel, InputState};
use crate::registry::Registry;
use crate::text::{is_control, same};
use vstd::prelude::*;
use vstd::string::StrSliceExecFns;

verus! {

/// What each entry holds, with its id.
pub open spec fn models(entries: Seq<(usize, InputState)>) -> Seq<(usize, InputModel)> {
    entries.map_values(|entry: (usize, InputState)| (entry.0, entry.1@))
}

/// No id is registered twice, and every input is well formed.
pub open spec fn inputs_wf(inputs: Registry<InputState>) -> bool {
    &&& inputs.wf()
    &&& forall|i: int| 0 <= i < inputs@.len() ==> (#[trigger] inputs@[i]).1.wf()
}

/// A move of a range input's value that needs its bounds and step: the
/// numbers are parsed and computed by the host.
#[derive(Debug, Clone, Copy, PartialEq, Eq, Structural)]
pub enum RangeMove {
    /// Move by a number of steps.
    Step(i32),
    /// Move to the upper bound, or to the lower one.
    Extreme(bool),
}

/// Outcome of a keystroke on an input.
#[derive(Debug, Clone, Copy, PartialEq, Eq, Structural)]
pub struct InputKeyOutcome {
    /// Caret or value changed and the displayed text should update.
    pub changed: bool,
    /// The value changed and an `input` event should be dispatched.
    pub emits_input: bool,
    /// The value of a range input is to be moved.
    pub range: Option<RangeMove>,
}

/// The outcome that asks for nothing.
pub open spec fn no_edit() -> InputKeyOutcome {
    InputKeyOutcome { changed: false, emits_input: false, range: None }
}

/// The move that a key makes on a range input.
pub open spec fn range_key(key: KeyName) -> Option<RangeMove> {
    match key {
        KeyName::ArrowLeft | KeyName::ArrowDown => Some(RangeMove::Step((-1) as i32)),
        KeyName::ArrowRight | KeyName::ArrowUp => Some(RangeMove::Step(1)),
        KeyName::PageDown => Some(RangeMove::Step((-10) as i32)),
        KeyName::PageUp => Some(RangeMove::Step(10)),
        KeyName::Home => Some(RangeMove::Extreme(false)),
        KeyName::End => Some(RangeMove::Extreme(true)),
        _ => None,
    }
}

/// The state after typing `ch` into a text or number field.
pub open spec fn typed_into(m: InputModel, ch: char) -> Option<InputModel> {
    if m.kind is Number || m.kind is Range {
        if crate::input::numeric_char(ch) {
            crate::input::typed(m, seq![ch])
        } else {
            None
        }
    } else {
        crate::input::typed(m, seq![ch])
    }
}

/// The state after a keystroke on a text field, where it changes something,
/// and whether the keystroke is one that edits the value.
pub open spec fn text_key_target(m: InputModel, event: KeyboardEvent) -> (
    Option<InputModel>,
    bool,
) {
    let key = event.named();
    let by_word = (event.ctrl_key || event.meta_key) && !event.alt_key;
    let extend = event.shift_key;
    let top = m.value.len() as int;
    let word_start = crate::text::word_start_before(m.value, m.caret);
    let word_end = crate::text::word_end_after(m.value, m.caret);
    if by_word && (event.key@ == "a"@ || event.key@ == "A"@) {
        (
            if m.anchor == 0 && m.caret == top {
                None
            } else {
                Some(InputModel { anchor: 0, caret: top, blink_visible: true, ..m })
            },
            false,
        )
    } else {
        match key {
            KeyName::ArrowLeft => (
                if by_word {
                    crate::input::jumped(m, word_start, extend)
                } else {
                    crate::input::arrowed(m, false, extend)
                },
                false,
            ),
            KeyName::ArrowRight => (
                if by_word {
                    crate::input::jumped(m, word_end, extend)
                } else {
                    crate::input::arrowed(m, true, extend)
                },
                false,
            ),
            KeyName::Backspace => (
                crate::input::erased(
                    m,
                    if by_word {
                        word_start
                    } else {
                        crate::input::char_reach(m, false)
                    },
                ),
                true,
            ),
            KeyName::Delete => (
                crate::input::erased(
                    m,
                    if by_word {
                        word_end
                    } else {
                        crate::input::char_reach(m, true)
                    },
                ),
                true,
            ),
            KeyName::Home => (crate::input::jumped(m, 0, extend), false),
            KeyName::End => (crate::input::jumped(m, top, extend), false),
            KeyName::Space => (
                if m.kind is Number || m.kind is Range {
                    None
                } else {
                    crate::input::typed(m, seq![' '])
                },
                true,
            ),
            _ => (
                match crate::events::printable_key(event.key@) {
                    Some(ch) if !event.modified() => typed_into(m, ch),
                    _ => None,
                },
                true,
            ),
        }
    }
}

/// Applies a keystroke to a text field. Returns whether anything changed, and
/// whether the value did.
fn apply_text_key(state: &mut InputState, event: &KeyboardEvent) -> (edited: (bool, bool))
    requires
        old(state).wf(),
    ensures
        final(state).wf(),
        ({
            let (target, edits) = text_key_target(old(state)@, *event);
            &&& crate::input::edit_result(old(state)@, final(state)@, edited.0, target)
            &&& edited.1 == (edited.0 && edits)
        }),
{
    let by_word = (event.ctrl_key || event.meta_key) && !event.alt_key;
    let extend = event.shift_key;
    let text = event.key.as_str();
    if by_word && (same(text, "a") || same(text, "A")) {
        return (state.select_all(), false);
    }
    match event.name() {
        KeyName::ArrowLeft => if by_word {
            (state.move_word_left_extending(extend), false)
        } else {
            (state.move_left_extending(extend), false)
        },
        KeyName::ArrowRight => if by_word {
            (state.move_word_right_extending(extend), false)
        } else {
            (state.move_right_extending(extend), false)
        },
        KeyName::Backspace => {
            let edited = if by_word {
                state.delete_word_left()
            } else {
                state.backspace()
            };
            (edited, edited)
        },
        KeyName::Delete => {
            let edited = if by_word {
                state.delete_word_right()
            } else {
                state.delete_forward()
            };
            (edited, edited)
        },
        KeyName::Home => (state.move_home_extending(extend), false),
        KeyName::End => (state.move_end_extending(extend), false),
        KeyName::Space => {
            if state.is_numeric_like() {
                return (false, false);
            }
            let edited = state.insert(' ');
            (edited, edited)
        },
        _ => {
            if text.unicode_len() != 1 || event.has_modifier() {
                return (false, false);
            }
            let ch = text.get_char(0);
            if is_control(ch) {
                return (false, false);
            }
            let edited = if state.is_numeric_like() {
                state.insert_numeric_char(ch)
            } else {
                state.insert(ch)
            };
            (edited, edited)
        },
    }
}

/// The models with the radio `id` checked and the other radios of the group
/// `group` unchecked. A radio without a group name unchecks no other.
pub open spec fn radio_picked(
    before: Seq<(usize, InputModel)>,
    id: usize,
    group: Option<Seq<char>>,
) -> Seq<(usize, InputModel)> {
    before.map_values(
        |entry: (usize, InputModel)|
            if entry.0 == id {
                (entry.0, InputModel { checked: true, ..entry.1 })
            } else if group is Some && entry.1.kind is Radio && entry.1.name == group {
                (entry.0, InputModel { checked: false, ..entry.1 })
            } else {
                entry
            },
    )
}

/// Whether `state` is a radio of the group `group`.
fn in_group(state: &InputState, group: &Option<String>) -> (member: bool)
    ensures
        member == (group is Some && state@.kind is Radio && state@.name
            == crate::input::opt_chars(*group)),
{
    if !state.is_radio() {
        return false;
    }
    match (group, state.name()) {
        (Some(group), Some(name)) => same(group.as_str(), name),
        _ => false,
    }
}

fn owned_name(state: &InputState) -> (name: Option<String>)
    ensures
        crate::input::opt_chars(name) == state@.name,
{
    match state.name() {
        Some(name) => Some(name.to_owned()),
        None => None,
    }
}

/// Checks the radio `id` and unchecks the other radios of its group. Returns
/// the ids that were unchecked, in registration order.
fn pick_radio(inputs: &mut Registry<InputState>, id: usize, group: &Option<String>) -> (cleared:
    Vec<usize>)
    requires
        inputs_wf(*old(inputs)),
    ensures
        inputs_wf(*final(inputs)),
        models(final(inputs)@) == radio_picked(
            models(old(inputs)@),
            id,
            crate::input::opt_chars(*group),
        ),
        cleared@ == group_others(
            models(old(inputs)@),
            id,
            crate::input::opt_chars(*group),
            old(inputs)@.len() as int,
        ),
{
    let mut cleared: Vec<usize> = Vec::new();
    let mut i: usize = 0;
    let ghost before = models(inputs@);
    let ghost name = crate::input::opt_chars(*group);
    let ghost after = radio_picked(before, id, name);
    while i < inputs.len()
        invariant
            inputs_wf(*inputs),
            inputs@.len() == before.len(),
            before == models(old(inputs)@),
            name == crate::input::opt_chars(*group),
            after == radio_picked(before, id, name),
            i <= inputs@.len(),
            forall|k: int|
                0 <= k < inputs@.len() ==> (#[trigger] inputs@[k]).0 == before[k].0
                    && inputs@[k].1@ == (if k < i {
                    after[k].1
                } else {
                    before[k].1
                }),
            cleared@ == group_others(before, id, name, i as int),
        decreases inputs@.len() - i,
    {
        let entry_id: usize = inputs.entry(i).0;
        let member = in_group(&inputs.entry(i).1, group);
        assert(before[i as int] == (inputs@[i as int].0, inputs@[i as int].1@));
        if entry_id == id {
            inputs.state_mut(i).set_checked(true);
        } else if member {
            inputs.state_mut(i).set_checked(false);
            cleared.push(entry_id);
        }
        i += 1;
    }
    proof {
        assert(models(inputs@) =~= after);
    }
    cleared
}

/// The other radios of the group `group` among the first `upto` entries.
pub open spec fn group_others(
    before: Seq<(usize, InputModel)>,
    id: usize,
    group: Option<Seq<char>>,
    upto: int,
) -> Seq<usize>
    decreases upto,
{
    if upto <= 0 {
        Seq::empty()
    } else {
        let rest = group_others(before, id, group, upto - 1);
        let entry = before[upto - 1];
        if entry.0 != id && group is Some && entry.1.kind is Radio && entry.1.name == group {
            rest.push(entry.0)
        } else {
            rest
        }
    }
}

/// Models that hold the same, except that `id` now holds `state`.
pub open spec fn with_model(
    before: Seq<(usize, InputModel)>,
    id: usize,
    state: InputModel,
) -> Seq<(usize, InputModel)> {
    before.map_values(
        |entry: (usize, InputModel)|
            if entry.0 == id {
                (entry.0, state)
            } else {
                entry
            },
    )
}

/// What a keystroke on an input that holds `m` reports.
pub open spec fn input_key_outcome(m: InputModel, event: KeyboardEvent) -> InputKeyOutcome {
    let key = event.named();
    if m.kind is Checkbox || m.kind is Radio {
        let acts = (key is Space || key is Enter) && !event.modified();
        let changes = acts && (if m.kind is Radio {
            !m.checked
        } else {
            !m.disabled
        });
        InputKeyOutcome { changed: changes, emits_input: changes, range: None }
    } else if m.kind is Range {
        InputKeyOutcome { changed: false, emits_input: false, range: range_key(key) }
    } else {
        let (target, edits) = text_key_target(m, event);
        InputKeyOutcome {
            changed: target is Some,
            emits_input: target is Some && edits,
            range: None,
        }
    }
}

/// Whether a keystroke on the input `id` that holds `m` may leave the models
/// `after` and report `outcome`.
pub open spec fn input_key_effect(
    before: Seq<(usize, InputModel)>,
    after: Seq<(usize, InputModel)>,
    id: usize,
    m: InputModel,
    event: KeyboardEvent,
    outcome: InputKeyOutcome,
) -> bool {
    &&& outcome == input_key_outcome(m, event)
    &&& if !outcome.changed {
        after == before
    } else if m.kind is Radio {
        after == radio_picked(before, id, m.name)
    } else if m.kind is Checkbox {
        after == with_model(before, id, InputModel { checked: !m.checked, ..m })
    } else {
        let target = text_key_target(m, event).0->0;
        exists|moment: std::time::Instant|
            after == #[trigger] with_model(
                before,
                id,
                InputModel { last_blink: moment, ..target },
            )
    }
}

proof fn lemma_one_model(
    before: Seq<(usize, InputState)>,
    after: Seq<(usize, InputState)>,
    id: usize,
    slot: int,
)
    requires
        crate::registry::distinct_ids(before),
        crate::registry::changed_only(before, after, id),
        0 <= slot < before.len(),
        before[slot].0 == id,
    ensures
        models(after) == with_model(models(before), id, after[slot].1@),
        after[slot].1@ == before[slot].1@ ==> models(after) == models(before),
{
    assert forall|i: int| 0 <= i < before.len() implies models(after)[i] == #[trigger] with_model(
        models(before),
        id,
        after[slot].1@,
    )[i] by {
        assert(after[i].0 == before[i].0);
        if before[i].0 == id && i != slot {
            assert(before[i].0 != before[slot].0);
        }
    }
    assert(models(after) =~= with_model(models(before), id, after[slot].1@));
    if after[slot].1@ == before[slot].1@ {
        assert forall|i: int| 0 <= i < before.len() implies models(after)[i]
            == #[trigger] models(before)[i] by {
            assert(after[i].0 == before[i].0);
            if before[i].0 == id && i != slot {
                assert(before[i].0 != before[slot].0);
            }
        }
        assert(models(after) =~= models(before));
    }
}

/// Applies a single keystroke to the input `id`. An unknown id ignores it.
///
/// Checkboxes and radios toggle on Space and Enter, and checking a radio
/// unchecks its group. Range inputs report the move that the key asks for.
/// Other inputs edit their text.
#[verifier::rlimit(30)]
pub fn apply_input_key(inputs: &mut Registry<InputState>, id: usize, event: &KeyboardEvent) -> (
    outcome: InputKeyOutcome)
    requires
        inputs_wf(*old(inputs)),
    ensures
        inputs_wf(*final(inputs)),
        match old(inputs).at(id) {
            Some(state) => input_key_effect(
                models(old(inputs)@),
                models(final(inputs)@),
                id,
                state@,
                *event,
                outcome,
            ),
            None => final(inputs)@ == old(inputs)@ && outcome == no_edit(),
        },
{
    let mut outcome = InputKeyOutcome { changed: false, emits_input: false, range: None };
    let slot: usize = match inputs.position(id) {
        Some(slot) => slot,
        None => return outcome,
    };
    let key = event.name();
    if inputs.entry(slot).1.is_checked_like() {
        let acts = matches!(key, KeyName::Space | KeyName::Enter) && !event.has_modifier();
        if !acts {
            return outcome;
        }
        if inputs.entry(slot).1.is_radio() {
            if inputs.entry(slot).1.checked() {
                return outcome;
            }
            let group = owned_name(&inputs.entry(slot).1);
            let _cleared = pick_radio(inputs, id, &group);
            outcome.changed = true;
            outcome.emits_input = true;
        } else {
            let toggled = inputs.state_mut(slot).toggle_checked();
            proof {
                lemma_one_model(old(inputs)@, inputs@, id, slot as int);
            }
            outcome.changed = toggled;
            outcome.emits_input = toggled;
        }
        return outcome;
    }
    if inputs.entry(slot).1.is_range() {
        outcome.range =
        match key {
            KeyName::ArrowLeft | KeyName::ArrowDown => Some(RangeMove::Step(-1)),
            KeyName::ArrowRight | KeyName::ArrowUp => Some(RangeMove::Step(1)),
            KeyName::PageDown => Some(RangeMove::Step(-10)),
            KeyName::PageUp => Some(RangeMove::Step(10)),
            KeyName::Home => Some(RangeMove::Extreme(false)),
            KeyName::End => Some(RangeMove::Extreme(true)),
            _ => None,
        };
        return outcome;
    }
    let (changed, emits_input) = apply_text_key(inputs.state_mut(slot), event);
    proof {
        lemma_one_model(old(inputs)@, inputs@, id, slot as int);
        let m = old(inputs)@[slot as int].1@;
        let after = inputs@[slot as int].1@;
        if let Some(target) = text_key_target(m, *event).0 {
            assert(after == (InputModel { last_blink: after.last_blink, ..target }));
            assert(models(inputs@) == with_model(
                models(old(inputs)@),
                id,
                InputModel { last_blink: after.last_blink, ..target },
            ));
        }
    }
    outcome.changed = changed;
    outcome.emits_input = emits_input;
    outcome
}

/// The first position at or after `from` at which `ids` holds `id`.
pub open spec fn index_from(ids: Seq<usize>, id: usize, from: int) -> Option<int>
    decreases ids.len() - from,
{
    if from < 0 || from >= ids.len() {
        None
    } else if ids[from] == id {
        Some(from)
    } else {
        index_from(ids, id, from + 1)
    }
}

/// The first position of `id` in `ids`.
pub fn index_of_id(ids: &Vec<usize>, id: usize) -> (index: Option<usize>)
    ensures
        match index {
            Some(index) => index < ids@.len() && index_from(ids@, id, 0) == Some(index as int)
                && ids@[index as int] == id,
            None => index_from(ids@, id, 0) is None,
        },
{
    let mut i: usize = 0;
    while i < ids.len()
        invariant
            i <= ids.len(),
            index_from(ids@, id, 0) == index_from(ids@, id, i as int),
        decreases ids.len() - i,
    {
        if ids[i] == id {
            return Some(i);
        }
        i += 1;
    }
    None
}

/// Whether `id` is an enabled radio of the group `group`.
pub open spec fn is_member(
    before: Seq<(usize, InputModel)>,
    id: usize,
    group: Option<Seq<char>>,
) -> bool {
    match crate::registry::lookup(before, id) {
        Some(m) => group is Some && m.kind is Radio && !m.disabled && m.name == group,
        None => false,
    }
}

/// The enabled radios of a group among the first `upto` nodes of the document
/// order.
pub open spec fn group_members(
    before: Seq<(usize, InputModel)>,
    order: Seq<usize>,
    group: Option<Seq<char>>,
    upto: int,
) -> Seq<usize>
    decreases upto,
{
    if upto <= 0 {
        Seq::empty()
    } else {
        let rest = group_members(before, order, group, upto - 1);
        if is_member(before, order[upto - 1], group) {
            rest.push(order[upto - 1])
        } else {
            rest
        }
    }
}

/// The radio that a key moves to from `id`: the neighbour in the group with
/// wrap-around, or its first or last member.
pub open spec fn radio_target(members: Seq<usize>, id: usize, key: KeyName) -> Option<usize> {
    match index_from(members, id, 0) {
        Some(current) => match key {
            KeyName::ArrowLeft | KeyName::ArrowUp => Some(
                members[(current + members.len() - 1) % (members.len() as int)],
            ),
            KeyName::ArrowRight | KeyName::ArrowDown => Some(
                members[(current + 1) % (members.len() as int)],
            ),
            KeyName::Home => Some(members[0]),
            KeyName::End => Some(members.last()),
            _ => None,
        },
        None => None,
    }
}

/// The models with `chosen` as the only checked one of `members`.
pub open spec fn members_checked(
    before: Seq<(usize, InputModel)>,
    members: Seq<usize>,
    chosen: usize,
) -> Seq<(usize, InputModel)> {
    before.map_values(
        |entry: (usize, InputModel)|
            if members.contains(entry.0) {
                (entry.0, InputModel { checked: entry.0 == chosen, ..entry.1 })
            } else {
                entry
            },
    )
}

/// The radio that a key press on the focused radio `id` checks and focuses.
/// Nothing happens when the key is no navigation key, when the radio is
/// disabled or has no group, or when the move ends on `id` already checked.
pub open spec fn radio_key_target(
    before: Seq<(usize, InputModel)>,
    order: Seq<usize>,
    id: usize,
    key: KeyName,
) -> Option<usize> {
    match crate::registry::lookup(before, id) {
        Some(m) => if m.kind is Radio && !m.disabled && m.name is Some {
            match radio_target(group_members(before, order, m.name, order.len() as int), id, key) {
                Some(next) => if next == id && m.checked {
                    None
                } else {
                    Some(next)
                },
                None => None,
            }
        } else {
            None
        },
        None => None,
    }
}

proof fn lemma_model_lookup(entries: Seq<(usize, InputState)>, id: usize)
    requires
        crate::registry::distinct_ids(entries),
    ensures
        crate::registry::distinct_ids(models(entries)),
        match crate::registry::lookup(entries, id) {
            Some(state) => crate::registry::lookup(models(entries), id) == Some(state@),
            None => crate::registry::lookup(models(entries), id) is None,
        },
{
    let mapped = models(entries);
    assert forall|i: int, j: int| 0 <= i < j < mapped.len() implies (#[trigger] mapped[i]).0 != (
    #[trigger] mapped[j]).0 by {
        assert(entries[i].0 != entries[j].0);
    }
    if crate::registry::has_id(entries, id) {
        let slot = crate::registry::slot_of(entries, id);
        assert(mapped[slot] == (entries[slot].0, entries[slot].1@));
        crate::registry::lemma_lookup_at(mapped, slot);
        crate::registry::lemma_lookup_at(entries, slot);
    } else if crate::registry::has_id(mapped, id) {
        let slot = crate::registry::slot_of(mapped, id);
        assert(entries[slot].0 == id);
    }
}

/// Keyboard navigation for a focused radio button: moves within the named
/// group in document order, checks the radio it arrives at and unchecks the
/// rest. `order` lists the document's nodes. Returns the radio to focus, or
/// `None` when nothing changed.
pub fn apply_radio_navigation_key(
    inputs: &mut Registry<InputState>,
    order: &Vec<usize>,
    id: usize,
    event: &KeyboardEvent,
) -> (target: Option<usize>)
    requires
        inputs_wf(*old(inputs)),
    ensures
        inputs_wf(*final(inputs)),
        target == radio_key_target(models(old(inputs)@), order@, id, event.named()),
        match target {
            Some(next) => models(final(inputs)@) == members_checked(
                models(old(inputs)@),
                group_members(
                    models(old(inputs)@),
                    order@,
                    old(inputs).at(id)->0@.name,
                    order@.len() as int,
                ),
                next,
            ),
            None => final(inputs)@ == old(inputs)@,
        },
{
    let ghost before = models(inputs@);
    proof {
        lemma_model_lookup(inputs@, id);
    }
    let (group, was_checked) = match inputs.get(id) {
        Some(state) => {
            if !state.is_radio() || state.disabled() {
                return None;
            }
            (owned_name(state), state.checked())
        },
        None => return None,
    };
    if group.is_none() {
        return None;
    }
    let members = collect_members(inputs, order, &group);
    let current: usize = match index_of_id(&members, id) {
        Some(current) => current,
        None => return None,
    };
    let next: usize = match event.name() {
        KeyName::ArrowLeft | KeyName::ArrowUp => if current == 0 {
            members.len() - 1
        } else {
            current - 1
        },
        KeyName::ArrowRight | KeyName::ArrowDown => if current == members.len() - 1 {
            0
        } else {
            current + 1
        },
        KeyName::Home => 0,
        KeyName::End => members.len() - 1,
        _ => return None,
    };
    proof {
        let n = members@.len() as int;
        vstd::arithmetic::div_mod::lemma_small_mod(next as nat, n as nat);
        vstd::arithmetic::div_mod::lemma_mod_self_0(n);
        vstd::arithmetic::div_mod::lemma_mod_multiples_vanish(1, current - 1, n);
        if current > 0 {
            vstd::arithmetic::div_mod::lemma_small_mod((current - 1) as nat, n as nat);
        } else {
            vstd::arithmetic::div_mod::lemma_small_mod((n - 1) as nat, n as nat);
        }
    }
    let chosen: usize = members[next];
    if chosen == id && was_checked {
        return None;
    }
    check_members(inputs, &members, chosen);
    Some(chosen)
}

fn collect_members(inputs: &Registry<InputState>, order: &Vec<usize>, group: &Option<String>) -> (
    members: Vec<usize>)
    requires
        inputs.wf(),
    ensures
        members@ == group_members(
            models(inputs@),
            order@,
            crate::input::opt_chars(*group),
            order@.len() as int,
        ),
{
    let mut members: Vec<usize> = Vec::new();
    let mut i: usize = 0;
    while i < order.len()
        invariant
            inputs.wf(),
            i <= order.len(),
            members@ == group_members(
                models(inputs@),
                order@,
                crate::input::opt_chars(*group),
                i as int,
            ),
        decreases order.len() - i,
    {
        proof {
            lemma_model_lookup(inputs@, order@[i as int]);
        }
        if let Some(state) = inputs.get(order[i]) {
            if in_group(state, group) && !state.disabled() {
                members.push(order[i]);
            }
        }
        i += 1;
    }
    members
}

fn check_members(inputs: &mut Registry<InputState>, members: &Vec<usize>, chosen: usize)
    requires
        inputs_wf(*old(inputs)),
    ensures
        inputs_wf(*final(inputs)),
        models(final(inputs)@) == members_checked(models(old(inputs)@), members@, chosen),
{
    let ghost before = models(inputs@);
    let ghost after = members_checked(before, members@, chosen);
    let mut i: usize = 0;
    while i < inputs.len()
        invariant
            inputs_wf(*inputs),
            inputs@.len() == before.len(),
            before == models(old(inputs)@),
            after == members_checked(before, members@, chosen),
            i <= inputs@.len(),
            forall|k: int|
                0 <= k < inputs@.len() ==> (#[trigger] inputs@[k]).0 == before[k].0
                    && inputs@[k].1@ == (if k < i {
                    after[k].1
                } else {
                    before[k].1
                }),
        decreases inputs@.len() - i,
    {
        let entry_id: usize = inputs.entry(i).0;
        assert(before[i as int] == (inputs@[i as int].0, inputs@[i as int].1@));
        if holds_id(members, entry_id) {
            inputs.state_mut(i).set_checked(entry_id == chosen);
        }
        i += 1;
    }
    proof {
        assert(models(inputs@) =~= after);
    }
}

/// Whether `ids` holds `id`.
pub fn holds_id(ids: &Vec<usize>, id: usize) -> (found: bool)
    ensures
        found == ids@.contains(id),
{
    let mut i: usize = 0;
    while i < ids.len()
        invariant
            i <= ids.len(),
            forall|k: int| 0 <= k < i ==> ids@[k] != id,
        decreases ids.len() - i,
    {
        if ids[i] == id {
            return true;
        }
        i += 1;
    }
    false
}

/// What a click on a checkbox or radio changed.
#[derive(Debug)]
pub struct CheckedClick {
    /// The checked state of the clicked input.
    pub checked: bool,
    /// The radios of its group that were unchecked.
    pub cleared: Vec<usize>,
}

/// What the inputs hold after a click on the checkbox or radio `id`, where the
/// click changes something: a radio that is not checked is picked, a checkbox
/// that is not disabled is flipped.
pub open spec fn after_checked_click(
    before: Seq<(usize, InputModel)>,
    id: usize,
    m: InputModel,
) -> Option<Seq<(usize, InputModel)>> {
    if m.kind is Radio {
        if m.checked {
            None
        } else {
            Some(radio_picked(before, id, m.name))
        }
    } else if m.disabled {
        None
    } else {
        Some(with_model(before, id, InputModel { checked: !m.checked, ..m }))
    }
}

/// Handles a click on a checkbox or radio: checks a radio and unchecks its
/// group, or flips a checkbox. Returns `None` when nothing changed: the radio
/// was checked already, the checkbox is disabled, or the id is unknown.
pub fn handle_checked_input_click(inputs: &mut Registry<InputState>, id: usize) -> (click: Option<
    CheckedClick,
>)
    requires
        inputs_wf(*old(inputs)),
    ensures
        inputs_wf(*final(inputs)),
        match old(inputs).at(id) {
            Some(state) => match after_checked_click(models(old(inputs)@), id, state@) {
                Some(after) => {
                    &&& models(final(inputs)@) == after
                    &&& click matches Some(click) && click.checked == !state@.checked
                        && click.cleared@ == (if state@.kind is Radio {
                        group_others(
                            models(old(inputs)@),
                            id,
                            state@.name,
                            old(inputs)@.len() as int,
                        )
                    } else {
                        Seq::empty()
                    })
                },
                None => click is None && models(final(inputs)@) == models(old(inputs)@),
            },
            None => click is None && final(inputs)@ == old(inputs)@,
        },
{
    let slot: usize = match inputs.position(id) {
        Some(slot) => slot,
        None => return None,
    };
    if inputs.entry(slot).1.is_radio() {
        if inputs.entry(slot).1.checked() {
            return None;
        }
        let group = owned_name(&inputs.entry(slot).1);
        let cleared = pick_radio(inputs, id, &group);
        Some(CheckedClick { checked: true, cleared })
    } else {
        let toggled = inputs.state_mut(slot).toggle_checked();
        proof {
            lemma_one_model(old(inputs)@, inputs@, id, slot as int);
        }
        if !toggled {
            return None;
        }
        Some(CheckedClick { checked: inputs.entry(slot).1.checked(), cleared: Vec::new() })
    }
}

/// Picking a radio of a named group leaves it as the only checked radio of
/// that group.
pub proof fn picked_radio_is_alone(
    before: Seq<(usize, InputModel)>,
    id: usize,
    group: Seq<char>,
    i: int,
)
    requires
        0 <= i < before.len(),
        before[i].1.kind is Radio,
        before[i].1.name == Some(group),
    ensures
        radio_picked(before, id, Some(group))[i].1.checked == (before[i].0 == id),
{
}

/// Moving within a radio group leaves the radio that the move arrives at as
/// the only checked one of the group.
pub proof fn radio_move_leaves_one_checked(
    before: Seq<(usize, InputModel)>,
    members: Seq<usize>,
    id: usize,
    key: KeyName,
    i: int,
)
    requires
        radio_target(members, id, key) is Some,
        0 <= i < before.len(),
        members.contains(before[i].0),
    ensures
        members_checked(before, members, radio_target(members, id, key)->0)[i].1.checked
            == (before[i].0 == radio_target(members, id, key)->0),
{
}

/// A move to the next radio is undone by a move to the previous one.
pub proof fn radio_moves_cancel(members: Seq<usize>, id: usize)
    requires
        members.no_duplicates(),
        members.contains(id),
    ensures
        ({
            let next = radio_target(members, id, KeyName::ArrowRight)->0;
            &&& members.contains(next)
            &&& radio_target(members, next, KeyName::ArrowLeft) == Some(id)
        }),
{
    let n = members.len() as int;
    lemma_index_from(members, id, 0);
    let current = index_from(members, id, 0)->0;
    let at = (current + 1) % n;
    if current + 1 < n {
        vstd::arithmetic::div_mod::lemma_small_mod((current + 1) as nat, n as nat);
        vstd::arithmetic::div_mod::lemma_mod_multiples_vanish(1, current, n);
        vstd::arithmetic::div_mod::lemma_small_mod(current as nat, n as nat);
        assert((at + n - 1) % n == current);
    } else {
        vstd::arithmetic::div_mod::lemma_mod_self_0(n);
        vstd::arithmetic::div_mod::lemma_small_mod((n - 1) as nat, n as nat);
        assert((at + n - 1) % n == current);
    }
    let next = members[at];
    assert(members.contains(next));
    lemma_index_from(members, next, 0);
}

pub proof fn lemma_index_from(ids: Seq<usize>, id: usize, from: int)
    requires
        0 <= from <= ids.len(),
        ids.no_duplicates(),
        exists|k: int| from <= k < ids.len() && ids[k] == id,
    ensures
        index_from(ids, id, from) matches Some(index) && from <= index < ids.len() && ids[index]
            == id,
        forall|k: int| 0 <= k < ids.len() && ids[k] == id ==> index_from(ids, id, from) == Some(k),
    decreases ids.len() - from,
{
    if from < ids.len() && ids[from] != id {
        lemma_index_from(ids, id, from + 1);
    }
}

/// What an `input` event reports of an input.
#[derive(Debug)]
pub struct InputSnapshot {
    pub value: String,
    pub checked: bool,
    pub selection_start: usize,
    pub selection_end: usize,
}

/// What an `input` event on the input `id` reports.
pub fn input_snapshot(inputs: &Registry<InputState>, id: usize) -> (snapshot: Option<
    InputSnapshot,
>)
    requires
        inputs.wf(),
    ensures
        match inputs.at(id) {
            Some(state) => snapshot matches Some(shot) && shot.value@ == state@.value
                && shot.checked == state@.checked && shot.selection_start
                == crate::input::sel_start(state@) && shot.selection_end == crate::input::sel_end(
                state@,
            ),
            None => snapshot is None,
        },
{
    match inputs.get(id) {
        Some(state) => Some(
            InputSnapshot {
                value: state.value().to_owned(),
                checked: state.checked(),
                selection_start: state.selection_start(),
                selection_end: state.selection_end(),
            },
        ),
        None => None,
    }
}

/// Searching an id finds its first place from `from` on, and none only where it
/// does not occur there.
pub proof fn first_place_of_id(ids: Seq<usize>, id: usize, from: int)
    requires
        0 <= from <= ids.len() <= usize::MAX,
    ensures
        match index_from(ids, id, from) {
            Some(found) => {
                &&& from <= found < ids.len()
                &&& ids[found] == id
                &&& forall|k: int| from <= k < found ==> ids[k] != id
            },
            None => forall|k: int| from <= k < ids.len() ==> ids[k] != id,
        },
    decreases ids.len() - from,
{
    if from < ids.len() && ids[from] != id {
        first_place_of_id(ids, id, from + 1);
    }
}

/// Whether a keystroke changed nothing but caret and selection of a field.
pub open spec fn only_moved(m: InputModel, after: InputModel) -> bool {
    after.value == m.value && crate::input::same_field(after, m)
}

/// Without a selection and without Ctrl or Meta, Backspace takes the character
/// before the caret out of a text field and Delete the one behind it. With a
/// selection both take that out. Where they change nothing, there was nothing to take
/// out. Both edit the value.
pub proof fn deleting_keys(m: InputModel, event: KeyboardEvent)
    requires
        crate::input::in_bounds(m),
        !m.readonly,
        !event.ctrl_key && !event.meta_key,
        event.named() is Backspace || event.named() is Delete,
    ensures
        ({
            let (target, edits) = text_key_target(m, event);
            let low = if m.anchor < m.caret { m.anchor } else { m.caret };
            let high = if m.anchor < m.caret { m.caret } else { m.anchor };
            &&& edits
            &&& m.anchor != m.caret ==> (target matches Some(after) && after.value == m.value.take(
                low,
            ) + m.value.skip(high) && after.caret == low && after.anchor == low)
            &&& m.anchor == m.caret && event.named() is Backspace && m.caret > 0 ==> (target
                matches Some(after) && after.value == m.value.remove(m.caret - 1) && after.caret
                == m.caret - 1 && after.anchor == m.caret - 1)
            &&& m.anchor == m.caret && event.named() is Backspace && m.caret == 0 ==> target is None
            &&& m.anchor == m.caret && event.named() is Delete && m.caret < m.value.len() ==> (
            target matches Some(after) && after.value == m.value.remove(m.caret) && after.caret
                == m.caret && after.anchor == m.caret)
            &&& m.anchor == m.caret && event.named() is Delete && m.caret == m.value.len()
                ==> target is None
        }),
{
    if m.anchor != m.caret {
        crate::input::selection_is_deleted(m, crate::input::char_reach(m, false));
        crate::input::selection_is_deleted(m, crate::input::char_reach(m, true));
    } else {
        crate::input::one_character_is_deleted(m);
        if m.caret > 0 {
            assert(m.value.take(m.caret - 1) + m.value.skip(m.caret) =~= m.value.remove(
                m.caret - 1,
            ));
        }
        if m.caret < m.value.len() {
            assert(m.value.take(m.caret) + m.value.skip(m.caret + 1) =~= m.value.remove(m.caret));
        }
    }
}

/// With Ctrl or Meta and without Alt, Backspace takes out the text back to the start
/// of the word before the caret and Delete the text up to the end of the word behind
/// it.
pub proof fn word_deleting_keys(m: InputModel, event: KeyboardEvent)
    requires
        crate::input::in_bounds(m),
        !m.readonly,
        m.anchor == m.caret,
        event.ctrl_key || event.meta_key,
        !event.alt_key,
        event.named() is Backspace || event.named() is Delete,
    ensures
        ({
            let (target, edits) = text_key_target(m, event);
            let start = crate::text::word_start_before(m.value, m.caret);
            let end = crate::text::word_end_after(m.value, m.caret);
            &&& edits
            &&& event.named() is Backspace && start != m.caret ==> (target matches Some(after)
                && after.value == m.value.take(start) + m.value.skip(m.caret) && after.caret
                == start)
            &&& event.named() is Delete && end != m.caret ==> (target matches Some(after)
                && after.value == m.value.take(m.caret) + m.value.skip(end) && after.caret
                == m.caret)
        }),
{
    lemma_letters_name_no_key();
    let start = crate::text::word_start_before(m.value, m.caret);
    let end = crate::text::word_end_after(m.value, m.caret);
    crate::text::word_start_is_boundary(m.value, m.caret);
    crate::text::word_end_is_boundary(m.value, m.caret);
    if start != m.caret {
        crate::input::stretch_is_deleted(m, start);
    }
    if end != m.caret {
        crate::input::stretch_is_deleted(m, end);
    }
}

proof fn lemma_letters_name_no_key()
    ensures
        crate::events::key_name("a"@) is Other,
        crate::events::key_name("A"@) is Other,
{
    reveal_strlit("a");
    reveal_strlit("A");
    reveal_strlit("ArrowLeft");
    reveal_strlit("ArrowRight");
    reveal_strlit("ArrowUp");
    reveal_strlit("ArrowDown");
    reveal_strlit("Up");
    reveal_strlit("Down");
    reveal_strlit("Home");
    reveal_strlit("End");
    reveal_strlit("PageUp");
    reveal_strlit("PageDown");
    reveal_strlit("Enter");
    reveal_strlit("Space");
    reveal_strlit(" ");
    reveal_strlit("Escape");
    reveal_strlit("Tab");
    reveal_strlit("Backspace");
    reveal_strlit("Delete");
    assert("a"@.len() == 1 && "A"@.len() == 1 && " "@.len() == 1);
    assert("a"@[0] == 'a' && "A"@[0] == 'A' && " "@[0] == ' ');
    crate::events::keys_go_by_name("a"@);
    crate::events::keys_go_by_name("A"@);
}

/// The arrow keys move the caret of a text field by one character and Home and End to
/// its start and end. Shift keeps the other end of the selection, and without it
/// nothing is selected afterwards. None of them edits the value.
pub proof fn moving_keys(m: InputModel, event: KeyboardEvent)
    requires
        crate::input::in_bounds(m),
        !event.ctrl_key && !event.meta_key,
        event.named() is ArrowLeft || event.named() is ArrowRight || event.named() is Home
            || event.named() is End,
    ensures
        ({
            let (target, edits) = text_key_target(m, event);
            let step = event.shift_key || m.anchor == m.caret;
            &&& !edits
            &&& target matches Some(after) ==> only_moved(m, after) && after.anchor == (
            if event.shift_key {
                m.anchor
            } else {
                after.caret
            })
            &&& event.named() is ArrowLeft && step && m.caret > 0 ==> (target matches Some(after)
                && after.caret == m.caret - 1)
            &&& event.named() is ArrowLeft && step && m.caret == 0 ==> target is None
            &&& event.named() is ArrowRight && step && m.caret < m.value.len() ==> (target
                matches Some(after) && after.caret == m.caret + 1)
            &&& event.named() is ArrowRight && step && m.caret == m.value.len() ==> target is None
            &&& event.named() is ArrowLeft && !step ==> (target matches Some(after) && after.caret
                == (if m.anchor < m.caret { m.anchor } else { m.caret }))
            &&& event.named() is ArrowRight && !step ==> (target matches Some(after) && after.caret
                == (if m.anchor < m.caret { m.caret } else { m.anchor }))
            &&& event.named() is Home && target is Some ==> (target->0).caret == 0
            &&& event.named() is Home && target is None ==> m.caret == 0 && (event.shift_key
                || m.anchor == 0)
            &&& event.named() is End && target is Some ==> (target->0).caret
                == m.value.len()
            &&& event.named() is End && target is None ==> m.caret == m.value.len() && (
            event.shift_key || m.anchor == m.value.len())
        }),
{
}

/// With Ctrl or Meta and without Alt, the arrow keys go to the start of the word
/// before the caret and to the end of the word behind it.
pub proof fn word_moving_keys(m: InputModel, event: KeyboardEvent)
    requires
        crate::input::in_bounds(m),
        event.ctrl_key || event.meta_key,
        !event.alt_key,
        event.named() is ArrowLeft || event.named() is ArrowRight,
    ensures
        ({
            let (target, edits) = text_key_target(m, event);
            let reached = if event.named() is ArrowLeft {
                crate::text::word_start_before(m.value, m.caret)
            } else {
                crate::text::word_end_after(m.value, m.caret)
            };
            &&& !edits
            &&& match target {
                Some(after) => only_moved(m, after) && after.caret == reached && after.anchor == (
                if event.shift_key {
                    m.anchor
                } else {
                    reached
                }),
                None => m.caret == reached && (event.shift_key || m.anchor == reached),
            }
        }),
{
    lemma_letters_name_no_key();
}

/// Ctrl or Meta with the letter A selects the whole value and edits nothing.
pub proof fn select_all_key(m: InputModel, event: KeyboardEvent)
    requires
        crate::input::in_bounds(m),
        event.ctrl_key || event.meta_key,
        !event.alt_key,
        event.key@ == "a"@ || event.key@ == "A"@,
    ensures
        ({
            let (target, edits) = text_key_target(m, event);
            &&& !edits
            &&& match target {
                Some(after) => only_moved(m, after) && after.anchor == 0 && after.caret
                    == m.value.len(),
                None => m.anchor == 0 && m.caret == m.value.len(),
            }
        }),
{
}

/// A printable character without Ctrl, Meta or Alt is typed at the caret, in place of
/// the selection. A number field takes digits, signs and the point only. A key of
/// several characters types nothing.
pub proof fn typing_keys(m: InputModel, event: KeyboardEvent, ch: char)
    requires
        crate::input::in_bounds(m),
        !m.readonly,
        !event.ctrl_key && !event.meta_key && !event.alt_key,
        event.named() is Other,
    ensures
        ({
            let (target, edits) = text_key_target(m, event);
            let low = if m.anchor < m.caret { m.anchor } else { m.caret };
            let high = if m.anchor < m.caret { m.caret } else { m.anchor };
            let numeric = m.kind is Number || m.kind is Range;
            let fits = '0' <= ch <= '9' || ch == '.' || ch == '-' || ch == '+';
            &&& edits
            &&& event.key@ == seq![ch] && !crate::text::is_control_char(ch) && (!numeric || fits)
                ==> (target matches Some(after) && after.value == m.value.take(low) + seq![ch]
                + m.value.skip(high) && after.caret == low + 1 && after.anchor == low + 1)
            &&& event.key@ == seq![ch] && numeric && !fits ==> target is None
            &&& event.key@.len() != 1 ==> target is None
        }),
{
    if event.key@ == seq![ch] {
        assert(event.key@[0] == ch);
        let low = if m.anchor < m.caret { m.anchor } else { m.caret };
        let high = if m.anchor < m.caret { m.caret } else { m.anchor };
        if let Some(after) = text_key_target(m, event).0 {
            assert(after.value =~= m.value.take(low) + seq![ch] + m.value.skip(high));
        }
    }
}

/// Space types a blank into a text field and nothing into a number field.
pub proof fn space_key(m: InputModel, event: KeyboardEvent)
    requires
        crate::input::in_bounds(m),
        !m.readonly,
        event.named() is Space,
    ensures
        ({
            let (target, edits) = text_key_target(m, event);
            let low = if m.anchor < m.caret { m.anchor } else { m.caret };
            let high = if m.anchor < m.caret { m.caret } else { m.anchor };
            &&& edits
            &&& m.kind is Number || m.kind is Range ==> target is None
            &&& !(m.kind is Number) && !(m.kind is Range) ==> (target matches Some(after)
                && after.value == m.value.take(low) + seq![' '] + m.value.skip(high)
                && after.caret == low + 1)
        }),
{
    lemma_letters_name_no_key();
    let low = if m.anchor < m.caret { m.anchor } else { m.caret };
    let high = if m.anchor < m.caret { m.caret } else { m.anchor };
    if let Some(after) = text_key_target(m, event).0 {
        assert(after.value =~= m.value.take(low) + seq![' '] + m.value.skip(high));
    }
}

/// With Ctrl, Meta or Alt held, a character types nothing.
pub proof fn modified_characters_type_nothing(m: InputModel, event: KeyboardEvent)
    requires
        event.ctrl_key || event.meta_key || event.alt_key,
        event.named() is Other,
        event.key@ != "a"@ && event.key@ != "A"@,
    ensures
        text_key_target(m, event).0 is None,
{
}

/// The arrows move a range by one step, Page Up and Page Down by ten, up and to the
/// right for more, and Home and End go to its lower and upper bound. Other keys leave
/// it alone. Its value is computed later, so that nothing is reported yet.
pub proof fn range_keys(m: InputModel, event: KeyboardEvent)
    requires
        m.kind is Range,
    ensures
        ({
            let outcome = input_key_outcome(m, event);
            let key = event.named();
            &&& !outcome.changed && !outcome.emits_input
            &&& key is ArrowRight || key is ArrowUp ==> outcome.range == Some(RangeMove::Step(1))
            &&& key is ArrowLeft || key is ArrowDown ==> (outcome.range matches Some(
                RangeMove::Step(by),
            ) && by == -1)
            &&& key is PageUp ==> outcome.range == Some(RangeMove::Step(10))
            &&& key is PageDown ==> (outcome.range matches Some(RangeMove::Step(by)) && by == -10)
            &&& key is Home ==> outcome.range == Some(RangeMove::Extreme(false))
            &&& key is End ==> outcome.range == Some(RangeMove::Extreme(true))
            &&& !(key is ArrowRight || key is ArrowUp || key is ArrowLeft || key is ArrowDown
                || key is PageUp || key is PageDown || key is Home || key is End)
                ==> outcome.range is None
        }),
{
}

/// Space and Enter, without Ctrl, Meta or Alt, check a radio that is not checked and
/// flip a checkbox that is not disabled, and report that. Other keys leave both alone.
pub proof fn checking_keys(m: InputModel, event: KeyboardEvent)
    requires
        m.kind is Checkbox || m.kind is Radio,
    ensures
        ({
            let outcome = input_key_outcome(m, event);
            let acts = (event.named() is Space || event.named() is Enter) && !event.ctrl_key
                && !event.meta_key && !event.alt_key;
            &&& m.kind is Radio ==> outcome.changed == (acts && !m.checked)
            &&& m.kind is Checkbox ==> outcome.changed == (acts && !m.disabled)
            &&& outcome.emits_input == outcome.changed
            &&& outcome.range is None
        }),
{
}

/// A key on a text field reports a change exactly where it changes something, and
/// fires `input` exactly where that is an edit.
pub proof fn text_keys_report(m: InputModel, event: KeyboardEvent)
    requires
        m.kind is Text || m.kind is Number,
    ensures
        ({
            let outcome = input_key_outcome(m, event);
            let (target, edits) = text_key_target(m, event);
            &&& outcome.changed <==> target is Some
            &&& outcome.emits_input <==> target is Some && edits
            &&& outcome.range is None
        }),
{
}

/// Picking a radio checks it and unchecks the other radios of its named group. Every
/// other input, and everything else of these, stays.
pub proof fn picking_unchecks_the_group(
    before: Seq<(usize, InputModel)>,
    id: usize,
    group: Option<Seq<char>>,
    i: int,
)
    requires
        0 <= i < before.len(),
    ensures
        ({
            let after = radio_picked(before, id, group);
            let (was, now) = (before[i].1, after[i].1);
            let rival = before[i].0 != id && group is Some && was.kind is Radio && was.name == group;
            &&& after.len() == before.len()
            &&& after[i].0 == before[i].0
            &&& before[i].0 == id ==> now.checked
            &&& rival ==> !now.checked
            &&& before[i].0 != id && !rival ==> now == was
            &&& now == (InputModel { checked: now.checked, ..was })
        }),
{
}

/// Moving to a radio changes no input outside the group, and of those in it nothing
/// but whether they are checked.
pub proof fn radio_moves_stay_in_the_group(
    before: Seq<(usize, InputModel)>,
    members: Seq<usize>,
    chosen: usize,
    i: int,
)
    requires
        0 <= i < before.len(),
    ensures
        ({
            let after = members_checked(before, members, chosen);
            let (was, now) = (before[i].1, after[i].1);
            &&& after.len() == before.len()
            &&& after[i].0 == before[i].0
            &&& members.contains(before[i].0) ==> now.checked == (before[i].0 == chosen)
            &&& !members.contains(before[i].0) ==> now == was
            &&& now == (InputModel { checked: now.checked, ..was })
        }),
{
}

/// A new state for one input leaves every other input as it was.
pub proof fn one_input_changes(
    before: Seq<(usize, InputModel)>,
    id: usize,
    state: InputModel,
    i: int,
)
    requires
        0 <= i < before.len(),
    ensures
        with_model(before, id, state).len() == before.len(),
        with_model(before, id, state)[i].0 == before[i].0,
        before[i].0 == id ==> with_model(before, id, state)[i].1 == state,
        before[i].0 != id ==> with_model(before, id, state)[i].1 == before[i].1,
{
}

/// A click checks a radio that is not checked, with its group unchecked, and flips a
/// checkbox that is not disabled. On a checked radio or a disabled checkbox it does
/// nothing.
pub proof fn clicks_check(
    before: Seq<(usize, InputModel)>,
    id: usize,
    m: InputModel,
    i: int,
)
    requires
        m.kind is Checkbox || m.kind is Radio,
        0 <= i < before.len(),
        before[i] == (id, m),
    ensures
        ({
            let after = after_checked_click(before, id, m);
            &&& m.kind is Radio ==> (after is None <==> m.checked)
            &&& m.kind is Checkbox ==> (after is None <==> m.disabled)
            &&& after matches Some(after) ==> after.len() == before.len() && after[i].0 == id
                && after[i].1.checked == !m.checked && after[i].1 == (InputModel {
                checked: !m.checked,
                ..m
            })
            &&& after is Some && m.kind is Checkbox ==> forall|k: int|
                0 <= k < before.len() && before[k].0 != id ==> #[trigger] (after->0)[k]
                    == before[k]
            &&& after is Some && m.kind is Radio ==> forall|k: int|
                0 <= k < before.len() && before[k].0 != id ==> (
                #[trigger] (after->0)[k]).1.checked == (before[k].1.checked && !(m.name is Some && before[k].1.kind is Radio
                    && before[k].1.name == m.name))
        }),
{
}

/// Clicking a checkbox twice leaves it as it was.
pub proof fn two_clicks_cancel(before: Seq<(usize, InputModel)>, id: usize, m: InputModel)
    requires
        m.kind is Checkbox,
        !m.disabled,
        forall|i: int| 0 <= i < before.len() && (#[trigger] before[i]).0 == id ==> before[i].1 == m,
    ensures
        ({
            let once = after_checked_click(before, id, m);
            let now = InputModel { checked: !m.checked, ..m };
            once matches Some(once) && after_checked_click(once, id, now) == Some(before)
        }),
{
    let once = after_checked_click(before, id, m)->0;
    let now = InputModel { checked: !m.checked, ..m };
    let twice = after_checked_click(once, id, now)->0;
    assert forall|i: int| 0 <= i < before.len() implies twice[i] == #[trigger] before[i] by {}
    assert(twice =~= before);
}

/// The members of a radio group are its enabled radios, each of them, in document
/// order.
pub proof fn group_is_in_document_order(
    before: Seq<(usize, InputModel)>,
    order: Seq<usize>,
    group: Option<Seq<char>>,
    upto: int,
)
    requires
        0 <= upto <= order.len(),
    ensures
        ({
            let members = group_members(before, order, group, upto);
            &&& members.len() <= upto
            &&& forall|i: int|
                0 <= i < upto && is_member(before, #[trigger] order[i], group)
                    ==> members.contains(order[i])
            &&& forall|k: int|
                0 <= k < members.len() ==> is_member(before, #[trigger] members[k], group)
                    && order.take(upto).contains(members[k])
        }),
    decreases upto,
{
    if upto > 0 {
        group_is_in_document_order(before, order, group, upto - 1);
        let rest = group_members(before, order, group, upto - 1);
        let members = group_members(before, order, group, upto);
        assert forall|i: int|
            0 <= i < upto && is_member(before, #[trigger] order[i], group) implies members.contains(
            order[i],
        ) by {
            if i < upto - 1 {
                assert(rest.contains(order[i]));
                let k = rest.index_of(order[i]);
                assert(members[k] == order[i]);
            } else {
                assert(members[members.len() - 1] == order[i]);
            }
        }
        assert forall|k: int| 0 <= k < members.len() implies is_member(
            before,
            #[trigger] members[k],
            group,
        ) && order.take(upto).contains(members[k]) by {
            if k < rest.len() {
                assert(members[k] == rest[k]);
                assert(order.take(upto - 1).contains(rest[k]));
                let at = order.take(upto - 1).index_of(rest[k]);
                assert(order.take(upto)[at] == rest[k]);
            } else {
                assert(order.take(upto)[upto - 1] == members[k]);
            }
        }
    }
}

/// Of two members of a group, the one that comes first in the group comes first in
/// the document.
pub proof fn group_keeps_the_order(
    before: Seq<(usize, InputModel)>,
    order: Seq<usize>,
    group: Option<Seq<char>>,
    upto: int,
    a: int,
    b: int,
) -> (places: (int, int))
    requires
        0 <= upto <= order.len(),
        0 <= a < b < group_members(before, order, group, upto).len(),
    ensures
        0 <= places.0 < places.1 < upto,
        order[places.0] == group_members(before, order, group, upto)[a],
        order[places.1] == group_members(before, order, group, upto)[b],
    decreases upto,
{
    let rest = group_members(before, order, group, upto - 1);
    if b < rest.len() {
        group_keeps_the_order(before, order, group, upto - 1, a, b)
    } else {
        group_is_in_document_order(before, order, group, upto - 1);
        assert(order.take(upto - 1).contains(rest[a]));
        (order.take(upto - 1).index_of(rest[a]), upto - 1)
    }
}

/// A node belongs to a named group while it is an enabled radio of that name.
pub proof fn group_membership(
    before: Seq<(usize, InputModel)>,
    id: usize,
    group: Seq<char>,
    m: InputModel,
)
    requires
        crate::registry::lookup(before, id) == Some(m),
    ensures
        is_member(before, id, Some(group)) <==> m.kind is Radio && !m.disabled && m.name == Some(
            group,
        ),
        !is_member(before, id, None),
{
}

/// The arrows move to the neighbour of a radio in its group, right and down to the
/// next, left and up to the previous one, round the end. Home goes to the first member
/// and End to the last.
pub proof fn radio_keys_move(members: Seq<usize>, at: int, key: KeyName)
    requires
        0 <= at < members.len() <= usize::MAX,
        forall|k: int| 0 <= k < at ==> members[k] != members[at],
    ensures
        ({
            let target = radio_target(members, members[at], key);
            let last = members.len() - 1;
            &&& key is ArrowRight || key is ArrowDown ==> target == Some(
                if at < last {
                    members[at + 1]
                } else {
                    members[0]
                },
            )
            &&& key is ArrowLeft || key is ArrowUp ==> target == Some(
                if at > 0 {
                    members[at - 1]
                } else {
                    members[last]
                },
            )
            &&& key is Home ==> target == Some(members[0])
            &&& key is End ==> target == Some(members[last])
            &&& !(key is ArrowRight || key is ArrowDown || key is ArrowLeft || key is ArrowUp
                || key is Home || key is End) ==> target is None
        }),
{
    let n = members.len() as int;
    first_place_of_id(members, members[at], 0);
    assert(index_from(members, members[at], 0) == Some(at));
    if at + 1 < n {
        vstd::arithmetic::div_mod::lemma_small_mod((at + 1) as nat, n as nat);
    } else {
        vstd::arithmetic::div_mod::lemma_mod_self_0(n);
    }
    if at > 0 {
        vstd::arithmetic::div_mod::lemma_mod_multiples_vanish(1, at - 1, n);
        vstd::arithmetic::div_mod::lemma_small_mod((at - 1) as nat, n as nat);
    } else {
        vstd::arithmetic::div_mod::lemma_small_mod((n - 1) as nat, n as nat);
    }
}

/// A key moves from an enabled radio with a group to where its group says, unless that
/// is the radio itself and it is checked. A disabled radio and one without a group
/// stay.
pub proof fn radio_keys_leave_the_disabled(
    before: Seq<(usize, InputModel)>,
    order: Seq<usize>,
    id: usize,
    key: KeyName,
    m: InputModel,
)
    requires
        crate::registry::lookup(before, id) == Some(m),
    ensures
        ({
            let target = radio_key_target(before, order, id, key);
            let reached = radio_target(
                group_members(before, order, m.name, order.len() as int),
                id,
                key,
            );
            &&& m.disabled || m.name is None || !(m.kind is Radio) ==> target is None
            &&& !m.disabled && m.name is Some && m.kind is Radio && !(reached == Some(id)
                && m.checked) ==> target == reached
            &&& reached == Some(id) && m.checked ==> target is None
        }),
{
}

/// The radios that a pick unchecks are the other radios of the named group.
pub proof fn others_of_the_group(
    before: Seq<(usize, InputModel)>,
    id: usize,
    group: Option<Seq<char>>,
    upto: int,
    i: int,
)
    requires
        0 <= i < upto <= before.len(),
        before[i].0 != id,
        group is Some,
        before[i].1.kind is Radio,
        before[i].1.name == group,
    ensures
        group_others(before, id, group, upto).contains(before[i].0),
        !group_others(before, id, group, upto).contains(id),
    decreases upto,
{
    lemma_others_leave_out(before, id, group, upto);
    let others = group_others(before, id, group, upto);
    if i == upto - 1 {
        assert(others[others.len() - 1] == before[i].0);
    } else {
        others_of_the_group(before, id, group, upto - 1, i);
        let rest = group_others(before, id, group, upto - 1);
        let k = rest.index_of(before[i].0);
        assert(others[k] == before[i].0);
    }
}

proof fn lemma_others_leave_out(
    before: Seq<(usize, InputModel)>,
    id: usize,
    group: Option<Seq<char>>,
    upto: int,
)
    ensures
        !group_others(before, id, group, upto).contains(id),
    decreases upto,
{
    if upto > 0 {
        lemma_others_leave_out(before, id, group, upto - 1);
        let rest = group_others(before, id, group, upto - 1);
        let others = group_others(before, id, group, upto);
        if others.contains(id) {
            let k = others.index_of(id);
            if k < rest.len() {
                assert(rest[k] == id);
            }
        }
    }
}

/// A keystroke that changes nothing leaves every input as it was. Space or Enter on an
/// enabled checkbox flips its mark and leaves every other input as it was.
pub proof fn keystrokes_change_one_input(
    before: Seq<(usize, InputModel)>,
    after: Seq<(usize, InputModel)>,
    id: usize,
    m: InputModel,
    event: KeyboardEvent,
    outcome: InputKeyOutcome,
    i: int,
)
    requires
        input_key_effect(before, after, id, m, event, outcome),
        0 <= i < before.len(),
    ensures
        !outcome.changed ==> after == before,
        after.len() == before.len(),
        after[i].0 == before[i].0,
        !(m.kind is Radio) && before[i].0 != id ==> after[i] == before[i],
        outcome.changed && m.kind is Checkbox && before[i].0 == id ==> after[i].1 == (InputModel {
            checked: !m.checked,
            ..m
        }),
        outcome.changed && m.kind is Radio && before[i].0 == id ==> after[i].1.checked,
        outcome.changed && !(m.kind is Radio) && !(m.kind is Checkbox) && before[i].0 == id ==> (
        text_key_target(m, event).0 matches Some(aim) && after[i].1.value == aim.value
            && after[i].1.caret == aim.caret && after[i].1.anchor == aim.anchor),
        !no_edit().changed && !no_edit().emits_input && no_edit().range is None,
{
}

} // verus!
