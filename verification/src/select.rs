//! Native `<select>` element state.
//!
//! The library owns the options list, the selected index and the open state
//! of a single-select dropdown. Type-ahead and PageUp/PageDown steps are
//! supported.
use crate::clock::nanos_since;
use crate::text::{has_prefix, lowercase_chars, push_char, same, to_lowercase_text};
use std::time::Instant;
use vstd::prelude::*;
use vstd::string::StrSliceExecFns;

verus! {

/// Longest gap between type-ahead keystrokes, in milliseconds, before the
/// buffer resets.
pub const TYPE_AHEAD_TIMEOUT_MILLIS: u64 = 500;

/// One entry of a `<select>`.
#[derive(Debug, Clone)]
pub struct SelectOption {
    pub value: String,
    pub label: String,
    pub disabled: bool,
    /// Mirrors the source `<option hidden>` attribute. The option keeps its
    /// slot, but the popup overlay skips it.
    pub hidden: bool,
    pub selected: bool,
}

/// Whether the user can pick the option.
pub open spec fn selectable(option: SelectOption) -> bool {
    !option.disabled && !option.hidden
}

impl SelectOption {
    /// A visible option that is not marked as selected.
    pub fn new(value: String, label: String, disabled: bool) -> (option: Self)
        ensures
            option == (SelectOption { value, label, disabled, hidden: false, selected: false }),
    {
        SelectOption { value, label, disabled, hidden: false, selected: false }
    }

    /// The same option with its hidden flag set to `hidden`.
    pub fn with_hidden(self, hidden: bool) -> (option: Self)
        ensures
            option == (SelectOption { hidden, ..self }),
    {
        SelectOption {
            value: self.value,
            label: self.label,
            disabled: self.disabled,
            hidden,
            selected: self.selected,
        }
    }
}

/// Per-select editable state.
#[derive(Debug, Clone)]
pub struct SelectState {
    pub options: Vec<SelectOption>,
    pub selected_index: Option<usize>,
    pub disabled: bool,
    pub name: Option<String>,
    pub open: bool,
    pub active_index: Option<usize>,
    /// Node id of the popup overlay while the dropdown is open.
    pub popup_root_id: Option<usize>,
    /// One slot per entry in `options`, in the same order: the popup node of
    /// that entry, or `None` for a hidden option.
    pub option_node_ids: Vec<Option<usize>>,
    /// Characters typed in rapid succession for type-ahead search.
    pub type_ahead_buffer: String,
    pub type_ahead_last_at: Option<Instant>,
}

/// What a [`SelectState`] holds.
#[verifier::ext_equal]
pub struct SelectModel {
    pub options: Seq<SelectOption>,
    pub selected: Option<usize>,
    pub disabled: bool,
    pub name: Option<String>,
    pub open: bool,
    pub active: Option<usize>,
    pub popup_root: Option<usize>,
    pub option_nodes: Seq<Option<usize>>,
    pub buffer: Seq<char>,
    pub last_key_at: Option<Instant>,
}

impl View for SelectState {
    type V = SelectModel;

    open spec fn view(&self) -> SelectModel {
        SelectModel {
            options: self.options@,
            selected: self.selected_index,
            disabled: self.disabled,
            name: self.name,
            open: self.open,
            active: self.active_index,
            popup_root: self.popup_root_id,
            option_nodes: self.option_node_ids@,
            buffer: self.type_ahead_buffer@,
            last_key_at: self.type_ahead_last_at,
        }
    }
}

/// A closed select without options.
pub open spec fn empty_select() -> SelectModel {
    SelectModel {
        options: Seq::empty(),
        selected: None,
        disabled: false,
        name: None,
        open: false,
        active: None,
        popup_root: None,
        option_nodes: Seq::empty(),
        buffer: Seq::empty(),
        last_key_at: None,
    }
}

impl Default for SelectState {
    fn default() -> (state: Self)
        ensures
            state@ == empty_select(),
    {
        SelectState {
            options: Vec::new(),
            selected_index: None,
            disabled: false,
            name: None,
            open: false,
            active_index: None,
            popup_root_id: None,
            option_node_ids: Vec::new(),
            type_ahead_buffer: String::new(),
            type_ahead_last_at: None,
        }
    }
}

/// The first selectable option at or after the position `from`.
pub open spec fn next_selectable(options: Seq<SelectOption>, from: int) -> Option<usize>
    decreases options.len() - from,
{
    if from < 0 || from >= options.len() {
        None
    } else if selectable(options[from]) {
        Some(from as usize)
    } else {
        next_selectable(options, from + 1)
    }
}

/// The last selectable option at or before the position `from`.
pub open spec fn prev_selectable(options: Seq<SelectOption>, from: int) -> Option<usize>
    decreases from + 1,
{
    if from < 0 || from >= options.len() {
        None
    } else if selectable(options[from]) {
        Some(from as usize)
    } else {
        prev_selectable(options, from - 1)
    }
}

/// The last of the first `upto` options that is marked as selected.
pub open spec fn last_marked(options: Seq<SelectOption>, upto: int) -> Option<usize>
    decreases upto,
{
    if upto <= 0 || upto > options.len() {
        None
    } else if options[upto - 1].selected {
        Some((upto - 1) as usize)
    } else {
        last_marked(options, upto - 1)
    }
}

/// The selection of a select that takes over `options`: the last option marked
/// as selected, or the selection it has where that is in range, or the first
/// option that the user can pick.
pub open spec fn loaded_selection(options: Seq<SelectOption>, selected: Option<usize>) -> Option<
    usize,
> {
    match (last_marked(options, options.len() as int), selected) {
        (Some(index), _) => Some(index),
        (None, Some(index)) if index < options.len() => Some(index),
        _ => next_selectable(options, 0),
    }
}

/// Searching forward finds the nearest selectable option at or after `from`,
/// and finds none only when there is none.
pub proof fn next_selectable_is_nearest(options: Seq<SelectOption>, from: int)
    requires
        0 <= from,
        options.len() <= usize::MAX,
    ensures
        match next_selectable(options, from) {
            Some(found) => from <= found < options.len() && selectable(options[found as int])
                && forall|i: int| from <= i < found ==> !selectable(#[trigger] options[i]),
            None => forall|i: int|
                from <= i < options.len() ==> !selectable(#[trigger] options[i]),
        },
    decreases options.len() - from,
{
    if from < options.len() && !selectable(options[from]) {
        next_selectable_is_nearest(options, from + 1);
    }
}

/// Searching backward finds the nearest selectable option at or before
/// `from`, and finds none only when there is none.
pub proof fn prev_selectable_is_nearest(options: Seq<SelectOption>, from: int)
    requires
        from < options.len() <= usize::MAX,
    ensures
        match prev_selectable(options, from) {
            Some(found) => found <= from && selectable(options[found as int]) && forall|i: int|
                found < i <= from ==> !selectable(#[trigger] options[i]),
            None => forall|i: int| 0 <= i <= from ==> !selectable(#[trigger] options[i]),
        },
    decreases from + 1,
{
    if from >= 0 && !selectable(options[from]) {
        prev_selectable_is_nearest(options, from - 1);
    }
}

/// The position `stride` places from `index` in a ring of `len` positions.
pub open spec fn ring_step(index: int, stride: int, len: int) -> int {
    (index + stride) % len
}

/// The first hit among `left` positions of the ring, starting at `from` and
/// advancing by `stride`.
pub open spec fn ring_search(hits: Seq<bool>, from: int, stride: int, left: nat) -> Option<usize>
    decreases left,
{
    if left == 0 || hits.len() == 0 {
        None
    } else if hits[from] {
        Some(from as usize)
    } else {
        ring_search(hits, ring_step(from, stride, hits.len() as int), stride, (left - 1) as nat)
    }
}

/// For each option, whether the user can pick it.
pub open spec fn pickable(options: Seq<SelectOption>) -> Seq<bool> {
    options.map_values(|option: SelectOption| selectable(option))
}

/// The option that stepping by `stride` with wrap-around arrives at: the
/// first selectable one after `current`, in at most one lap.
pub open spec fn ring_target(options: Seq<SelectOption>, current: int, stride: int) -> Option<
    usize,
> {
    if options.len() == 0 {
        None
    } else {
        ring_search(
            pickable(options),
            ring_step(current, stride, options.len() as int),
            stride,
            options.len(),
        )
    }
}

proof fn lemma_ring_search(hits: Seq<bool>, from: int, stride: int, left: nat)
    requires
        0 <= from < hits.len() <= usize::MAX,
    ensures
        match ring_search(hits, from, stride, left) {
            Some(found) => found < hits.len() && hits[found as int],
            None => forall|k: int|
                0 <= k < left ==> !hits[#[trigger] ring_step(from, stride * k, hits.len() as int)],
        },
    decreases left,
{
    let len = hits.len() as int;
    if left > 0 && !hits[from] {
        let next = ring_step(from, stride, len);
        lemma_ring_search(hits, next, stride, (left - 1) as nat);
        if ring_search(hits, from, stride, left) is None {
            assert forall|k: int| 0 <= k < left implies !hits[#[trigger] ring_step(
                from,
                stride * k,
                len,
            )] by {
                if k == 0 {
                    assert(stride * k == 0) by (nonlinear_arith)
                        requires
                            k == 0,
                    ;
                    vstd::arithmetic::div_mod::lemma_small_mod(from as nat, len as nat);
                } else {
                    assert(stride * k == stride + stride * (k - 1)) by (nonlinear_arith);
                    vstd::arithmetic::div_mod::lemma_add_mod_noop(
                        from + stride,
                        stride * (k - 1),
                        len,
                    );
                    vstd::arithmetic::div_mod::lemma_add_mod_noop(
                        next,
                        stride * (k - 1),
                        len,
                    );
                    vstd::arithmetic::div_mod::lemma_mod_twice(from + stride, len);
                    assert(!hits[ring_step(next, stride * (k - 1), len)]);
                }
            }
        }
    }
}

/// A lap round the ring in single steps, in either direction, visits every
/// position: it finds a hit exactly when there is one, and what it finds is
/// a hit.
pub proof fn single_steps_visit_all(hits: Seq<bool>, from: int, stride: int)
    requires
        0 <= from < hits.len() <= usize::MAX,
        stride == 1 || stride == -1,
    ensures
        match ring_search(hits, from, stride, hits.len()) {
            Some(found) => found < hits.len() && hits[found as int],
            None => forall|i: int| 0 <= i < hits.len() ==> !(#[trigger] hits[i]),
        },
{
    let len = hits.len() as int;
    lemma_ring_search(hits, from, stride, hits.len());
    if ring_search(hits, from, stride, hits.len()) is None {
        assert forall|i: int| 0 <= i < len implies !(#[trigger] hits[i]) by {
            let k = if (i - from) * stride >= 0 {
                (i - from) * stride
            } else {
                (i - from) * stride + len
            };
            assert(0 <= k < len && (stride * k == i - from || stride * k == i - from + len
                || stride * k == i - from - len)) by (nonlinear_arith)
                requires
                    stride == 1 || stride == -1,
                    0 <= i < len,
                    0 <= from < len,
                    k == (if (i - from) * stride >= 0 {
                        (i - from) * stride
                    } else {
                        (i - from) * stride + len
                    }),
            ;
            vstd::arithmetic::div_mod::lemma_small_mod(i as nat, len as nat);
            vstd::arithmetic::div_mod::lemma_mod_multiples_vanish(1, i, len);
            vstd::arithmetic::div_mod::lemma_mod_multiples_vanish(-1, i, len);
            assert(ring_step(from, stride * k, len) == i);
        }
    }
}

/// Moving the selection one step in either direction picks a selectable
/// option, and fails only when no option is selectable.
pub proof fn single_move_finds_selectable(options: Seq<SelectOption>, current: int, stride: int)
    requires
        stride == 1 || stride == -1,
        options.len() <= usize::MAX,
    ensures
        match ring_target(options, current, stride) {
            Some(found) => found < options.len() && selectable(options[found as int]),
            None => forall|i: int| 0 <= i < options.len() ==> !selectable(#[trigger] options[i]),
        },
{
    if options.len() > 0 {
        single_steps_visit_all(
            pickable(options),
            ring_step(current, stride, options.len() as int),
            stride,
        );
        assert forall|i: int| 0 <= i < options.len() implies pickable(options)[i] == selectable(
            #[trigger] options[i],
        ) by {}
    }
}

/// `value` held within `0..=top`.
pub open spec fn clamped(value: int, top: int) -> int {
    if value < 0 {
        0
    } else if value > top {
        top
    } else {
        value
    }
}

/// The option that a step of `delta` positions without wrap-around lands on:
/// the nearest selectable one beyond the clamped position in the direction of
/// the step, or failing that the nearest one before it.
pub open spec fn step_target(options: Seq<SelectOption>, current: int, delta: int) -> Option<
    usize,
> {
    let start = clamped(current + delta, options.len() - 1);
    if options.len() == 0 {
        None
    } else if delta >= 0 {
        match next_selectable(options, start) {
            Some(found) => Some(found),
            None => prev_selectable(options, start - 1),
        }
    } else {
        match prev_selectable(options, start) {
            Some(found) => Some(found),
            None => next_selectable(options, start + 1),
        }
    }
}

/// A step lands on an option the user can pick, and on none only when there
/// is no such option.
pub proof fn step_finds_selectable(options: Seq<SelectOption>, current: int, delta: int)
    requires
        options.len() <= usize::MAX,
    ensures
        match step_target(options, current, delta) {
            Some(found) => found < options.len() && selectable(options[found as int]),
            None => forall|i: int| 0 <= i < options.len() ==> !selectable(#[trigger] options[i]),
        },
{
    let start = clamped(current + delta, options.len() - 1);
    if options.len() > 0 {
        next_selectable_is_nearest(options, start);
        next_selectable_is_nearest(options, start + 1);
        prev_selectable_is_nearest(options, start);
        prev_selectable_is_nearest(options, start - 1);
    }
}

/// The selected position, or the first one when nothing is selected.
pub open spec fn current_or_first(selected: Option<usize>) -> int {
    match selected {
        Some(index) => index as int,
        None => 0,
    }
}

/// The character that a keystroke adds to the type-ahead buffer.
pub open spec fn folded_key(ch: char) -> char {
    let lower = crate::text::lowercase_of(ch);
    if lower.len() == 0 {
        ch
    } else {
        lower[0]
    }
}

/// Whether every character of `text` is `ch`.
pub open spec fn repeats(text: Seq<char>, ch: char) -> bool {
    forall|i: int| 0 <= i < text.len() ==> #[trigger] text[i] == ch
}

/// The type-ahead buffer after a keystroke at `now`. It restarts when the
/// last keystroke is too old, and holds a single character again when one
/// letter is typed repeatedly.
pub open spec fn typed_buffer(m: SelectModel, ch: char, now: Instant) -> Seq<char> {
    let stale = match m.last_key_at {
        Some(prev) => crate::clock::millis_exceeded(
            now,
            prev,
            TYPE_AHEAD_TIMEOUT_MILLIS as nat,
        ),
        None => true,
    };
    let kept = if stale {
        Seq::empty()
    } else {
        m.buffer
    };
    let typed = kept.push(folded_key(ch));
    if typed.len() > 1 && repeats(typed, folded_key(ch)) {
        seq![folded_key(ch)]
    } else {
        typed
    }
}

/// Whether type-ahead for `prefix` can land on the option.
pub open spec fn label_matches(option: SelectOption, prefix: Seq<char>) -> bool {
    selectable(option) && crate::text::starts_with(
        crate::text::lowercase_text(option.label@),
        prefix,
    )
}

/// For each option, whether type-ahead for `prefix` can land on it.
pub open spec fn matching(options: Seq<SelectOption>, prefix: Seq<char>) -> Seq<bool> {
    options.map_values(|option: SelectOption| label_matches(option, prefix))
}

/// The option that type-ahead finds for `buffer`. A single letter searches on
/// from the option after `current`; a longer prefix searches from the start.
pub open spec fn type_ahead_target(
    options: Seq<SelectOption>,
    buffer: Seq<char>,
    current: Option<usize>,
) -> Option<usize> {
    if options.len() == 0 {
        None
    } else {
        let from = if buffer.len() == 1 {
            match current {
                Some(index) => ring_step(index as int, 1, options.len() as int),
                None => 0,
            }
        } else {
            0
        };
        ring_search(matching(options, buffer), from, 1, options.len())
    }
}

/// Type-ahead finds an option whose label starts with the buffer and that the
/// user can pick, and none only when there is no such option.
pub proof fn type_ahead_finds_match(
    options: Seq<SelectOption>,
    buffer: Seq<char>,
    current: Option<usize>,
)
    requires
        options.len() <= usize::MAX,
    ensures
        match type_ahead_target(options, buffer, current) {
            Some(found) => found < options.len() && label_matches(options[found as int], buffer),
            None => forall|i: int|
                0 <= i < options.len() ==> !label_matches(#[trigger] options[i], buffer),
        },
{
    if options.len() > 0 {
        let from = if buffer.len() == 1 {
            match current {
                Some(index) => ring_step(index as int, 1, options.len() as int),
                None => 0,
            }
        } else {
            0
        };
        single_steps_visit_all(matching(options, buffer), from, 1);
        assert forall|i: int| 0 <= i < options.len() implies matching(options, buffer)[i]
            == label_matches(#[trigger] options[i], buffer) by {}
    }
}

/// The state with a type-ahead keystroke at `now` noted.
pub open spec fn key_noted(m: SelectModel, ch: char, now: Instant) -> SelectModel {
    SelectModel { buffer: typed_buffer(m, ch, now), last_key_at: Some(now), ..m }
}

/// The option that a type-ahead keystroke at `now` selects.
pub open spec fn selected_ahead(m: SelectModel, ch: char, now: Instant) -> Option<usize> {
    type_ahead_target(m.options, typed_buffer(m, ch, now), m.selected)
}

/// The state after a type-ahead keystroke at `now` that selects.
pub open spec fn after_type_ahead(m: SelectModel, ch: char, now: Instant) -> SelectModel {
    match selected_ahead(m, ch, now) {
        Some(index) => SelectModel {
            selected: Some(index),
            active: Some(index),
            ..key_noted(m, ch, now)
        },
        None => key_noted(m, ch, now),
    }
}

/// The option that is highlighted, or else the one that is selected.
pub open spec fn highlighted_or_selected(m: SelectModel) -> Option<usize> {
    if m.active is Some {
        m.active
    } else {
        m.selected
    }
}

/// The option that a type-ahead keystroke at `now` highlights.
pub open spec fn highlighted_ahead(m: SelectModel, ch: char, now: Instant) -> Option<usize> {
    type_ahead_target(m.options, typed_buffer(m, ch, now), highlighted_or_selected(m))
}

/// The state after a type-ahead keystroke at `now` that highlights and selects
/// nothing.
pub open spec fn after_highlight_ahead(m: SelectModel, ch: char, now: Instant) -> SelectModel {
    match highlighted_ahead(m, ch, now) {
        Some(index) => SelectModel { active: Some(index), ..key_noted(m, ch, now) },
        None => key_noted(m, ch, now),
    }
}

/// The state with `target` selected, where there is one.
pub open spec fn with_selection(m: SelectModel, target: Option<usize>) -> SelectModel {
    match target {
        Some(index) => SelectModel { selected: Some(index), ..m },
        None => m,
    }
}

/// The option at the selected index, where the index is in range.
pub open spec fn selected_option(m: SelectModel) -> Option<SelectOption> {
    match m.selected {
        Some(index) => if index < m.options.len() {
            Some(m.options[index as int])
        } else {
            None
        },
        None => None,
    }
}

/// The first option with the given value.
pub open spec fn value_search(options: Seq<SelectOption>, value: Seq<char>, from: int) -> Option<
    usize,
>
    decreases options.len() - from,
{
    if from < 0 || from >= options.len() {
        None
    } else if options[from].value@ == value {
        Some(from as usize)
    } else {
        value_search(options, value, from + 1)
    }
}

/// Moves `stride` places round a ring of `len` positions.
pub(crate) fn ring_advance(index: usize, stride: i32, len: usize) -> (next: usize)
    requires
        len > 0,
    ensures
        next == ring_step(index as int, stride as int, len as int),
        next < len,
{
    if stride >= 0 {
        let sum: u128 = index as u128 + stride as u128;
        (sum % (len as u128)) as usize
    } else {
        let size: u128 = len as u128;
        let back: u128 = (-(stride as i64)) as u128;
        let rest: u128 = size - back % size;
        let sum: u128 = index as u128 + rest;
        proof {
            let n = len as int;
            let b = -(stride as int);
            vstd::arithmetic::div_mod::lemma_fundamental_div_mod(b, n);
            let q = b / n;
            assert(index + (n - b % n) == (index - b) + n * (q + 1)) by (nonlinear_arith)
                requires
                    b == n * q + b % n,
            ;
            vstd::arithmetic::div_mod::lemma_mod_multiples_vanish(q + 1, index - b, n);
        }
        (sum % size) as usize
    }
}

impl SelectState {
    fn is_user_selectable_option(option: &SelectOption) -> (free: bool)
        ensures
            free == selectable(*option),
    {
        !option.disabled && !option.hidden
    }

    fn next_enabled(&self, from: usize) -> (found: Option<usize>)
        ensures
            found == next_selectable(self@.options, from as int),
            found matches Some(index) ==> index < self@.options.len(),
    {
        let mut i: usize = from;
        while i < self.options.len()
            invariant
                from <= i,
                next_selectable(self@.options, from as int) == next_selectable(
                    self@.options,
                    i as int,
                ),
            decreases self.options.len() - i,
        {
            if Self::is_user_selectable_option(&self.options[i]) {
                return Some(i);
            }
            i += 1;
        }
        None
    }

    fn prev_enabled(&self, from: usize) -> (found: Option<usize>)
        requires
            from < self@.options.len(),
        ensures
            found == prev_selectable(self@.options, from as int),
            found matches Some(index) ==> index < self@.options.len(),
    {
        let mut i: usize = from;
        loop
            invariant
                i <= from < self@.options.len(),
                prev_selectable(self@.options, from as int) == prev_selectable(
                    self@.options,
                    i as int,
                ),
            decreases i,
        {
            if Self::is_user_selectable_option(&self.options[i]) {
                return Some(i);
            }
            if i == 0 {
                assert(prev_selectable(self@.options, i - 1) is None);
                return None;
            }
            i -= 1;
        }
    }

    /// The first selectable option that steps of `stride` round the ring
    /// arrive at from `current`.
    pub(crate) fn ring_enabled(&self, current: usize, stride: i32) -> (found: Option<usize>)
        ensures
            found == ring_target(self@.options, current as int, stride as int),
            found matches Some(index) ==> index < self@.options.len(),
    {
        let len: usize = self.options.len();
        if len == 0 {
            return None;
        }
        let mut next: usize = ring_advance(current, stride, len);
        let mut left: usize = len;
        while left > 0
            invariant
                len == self@.options.len(),
                left <= len,
                next < len,
                ring_target(self@.options, current as int, stride as int) == ring_search(
                    pickable(self@.options),
                    next as int,
                    stride as int,
                    left as nat,
                ),
            decreases left,
        {
            if Self::is_user_selectable_option(&self.options[next]) {
                return Some(next);
            }
            next = ring_advance(next, stride, len);
            left -= 1;
        }
        None
    }

    /// Returns the value of the currently selected option, if any.
    pub fn value(&self) -> (value: Option<String>)
        ensures
            match value {
                Some(value) => selected_option(self@) matches Some(option) && value@
                    == option.value@,
                None => selected_option(self@) is None,
            },
    {
        match self.selected_index {
            Some(index) if index < self.options.len() => Some(self.options[index].value.clone()),
            _ => None,
        }
    }

    pub fn name(&self) -> (name: Option<&str>)
        ensures
            match name {
                Some(name) => self@.name matches Some(own) && name@ == own@,
                None => self@.name is None,
            },
    {
        match &self.name {
            Some(name) => Some(name.as_str()),
            None => None,
        }
    }

    pub fn set_name(&mut self, name: Option<String>)
        ensures
            final(self)@ == (SelectModel { name, ..old(self)@ }),
    {
        self.name = name;
    }

    pub fn disabled(&self) -> (disabled: bool)
        ensures
            disabled == self@.disabled,
    {
        self.disabled
    }

    pub fn set_disabled(&mut self, disabled: bool)
        ensures
            final(self)@ == (SelectModel { disabled, ..old(self)@ }),
    {
        self.disabled = disabled;
    }

    pub fn selected_index(&self) -> (index: Option<usize>)
        ensures
            index == self@.selected,
    {
        self.selected_index
    }

    pub fn set_selected_index(&mut self, index: Option<usize>)
        ensures
            final(self)@ == (SelectModel { selected: index, ..old(self)@ }),
    {
        self.selected_index = index;
    }

    /// The first option whose value is `value`.
    pub fn find_index_by_value(&self, value: &str) -> (index: Option<usize>)
        ensures
            index == value_search(self@.options, value@, 0),
    {
        let mut i: usize = 0;
        while i < self.options.len()
            invariant
                i <= self.options.len(),
                value_search(self@.options, value@, 0) == value_search(
                    self@.options,
                    value@,
                    i as int,
                ),
            decreases self.options.len() - i,
        {
            if same(self.options[i].value.as_str(), value) {
                return Some(i);
            }
            i += 1;
        }
        None
    }

    /// Returns the value of the currently selected option, if any.
    pub fn selected_value(&self) -> (value: Option<&str>)
        ensures
            match value {
                Some(value) => selected_option(self@) matches Some(option) && value@
                    == option.value@,
                None => selected_option(self@) is None,
            },
    {
        match self.selected_index {
            Some(index) if index < self.options.len() => Some(self.options[index].value.as_str()),
            _ => None,
        }
    }

    pub fn is_open(&self) -> (open: bool)
        ensures
            open == self@.open,
    {
        self.open
    }

    /// Opens or closes the dropdown. Closing it drops the highlight.
    pub fn set_open(&mut self, open: bool)
        ensures
            final(self)@ == (SelectModel {
                open,
                active: if open {
                    old(self)@.active
                } else {
                    None
                },
                ..old(self)@
            }),
    {
        self.open = open;
        if !open {
            self.active_index = None;
        }
    }

    pub fn active_index(&self) -> (index: Option<usize>)
        ensures
            index == self@.active,
    {
        self.active_index
    }

    pub fn set_active_index(&mut self, index: Option<usize>)
        ensures
            final(self)@ == (SelectModel { active: index, ..old(self)@ }),
    {
        self.active_index = index;
    }

    /// The label of the selected option, or the empty string.
    pub fn current_label(&self) -> (label: String)
        ensures
            label@ == (match selected_option(self@) {
                Some(option) => option.label@,
                None => Seq::empty(),
            }),
    {
        match self.selected_index {
            Some(index) if index < self.options.len() => self.options[index].label.clone(),
            _ => String::new(),
        }
    }

    /// Replaces the options. A selected index that is no longer in range is
    /// dropped.
    pub fn set_options(&mut self, options: Vec<SelectOption>)
        ensures
            final(self)@ == (SelectModel {
                options: options@,
                selected: match old(self)@.selected {
                    Some(index) => if index < options@.len() {
                        Some(index)
                    } else {
                        None
                    },
                    None => None,
                },
                ..old(self)@
            }),
    {
        self.options = options;
        if let Some(index) = self.selected_index {
            if index >= self.options.len() {
                self.selected_index = None;
            }
        }
    }

    fn last_marked(&self, upto: usize) -> (found: Option<usize>)
        requires
            upto <= self@.options.len(),
        ensures
            found == last_marked(self@.options, upto as int),
    {
        let mut i: usize = upto;
        while i > 0
            invariant
                i <= upto <= self@.options.len(),
                last_marked(self@.options, upto as int) == last_marked(self@.options, i as int),
            decreases i,
        {
            if self.options[i - 1].selected {
                return Some(i - 1);
            }
            i -= 1;
        }
        None
    }

    /// Takes over the options that the document holds, with the option that
    /// they mark as selected. Where they mark none, the selection stays if it
    /// still has an option, and else goes to the first option that the user
    /// can pick.
    pub fn load_options(&mut self, options: Vec<SelectOption>)
        ensures
            final(self)@ == (SelectModel {
                options: options@,
                selected: loaded_selection(options@, old(self)@.selected),
                ..old(self)@
            }),
    {
        self.set_options(options);
        match self.last_marked(self.options.len()) {
            Some(index) => {
                self.selected_index = Some(index);
            },
            None => if self.selected_index.is_none() {
                self.selected_index = self.find_first_enabled();
            },
        }
    }

    /// The first option that is neither disabled nor hidden.
    pub fn find_first_enabled(&self) -> (found: Option<usize>)
        ensures
            found == next_selectable(self@.options, 0),
    {
        self.next_enabled(0)
    }

    /// The last option that is neither disabled nor hidden.
    pub fn find_last_enabled(&self) -> (found: Option<usize>)
        ensures
            found == prev_selectable(self@.options, self@.options.len() - 1),
    {
        if self.options.len() == 0 {
            return None;
        }
        self.prev_enabled(self.options.len() - 1)
    }

    /// Moves the selection by `direction` with wrap-around, skipping options
    /// the user cannot pick. Returns whether an option was selected.
    pub fn move_selection(&mut self, direction: i32) -> (moved: bool)
        ensures
            moved == ring_target(
                old(self)@.options,
                current_or_first(old(self)@.selected),
                direction as int,
            ) is Some,
            final(self)@ == with_selection(
                old(self)@,
                ring_target(
                    old(self)@.options,
                    current_or_first(old(self)@.selected),
                    direction as int,
                ),
            ),
    {
        let current: usize = match self.selected_index {
            Some(index) => index,
            None => 0,
        };
        match self.ring_enabled(current, direction) {
            Some(index) => {
                self.selected_index = Some(index);
                true
            },
            None => false,
        }
    }

    /// Steps the selection by `delta` positions, skipping disabled and hidden
    /// options and clamping at the ends. Returns whether the selection
    /// changed.
    pub fn step_selection(&mut self, delta: i32) -> (moved: bool)
        ensures
            ({
                let target = step_target(
                    old(self)@.options,
                    current_or_first(old(self)@.selected),
                    delta as int,
                );
                &&& moved == (target is Some && target != old(self)@.selected)
                &&& final(self)@ == with_selection(old(self)@, target)
            }),
    {
        let len: usize = self.options.len();
        if len == 0 {
            return false;
        }
        let current: usize = match self.selected_index {
            Some(index) => index,
            None => 0,
        };
        let wished: i128 = current as i128 + delta as i128;
        let last: usize = len - 1;
        let start: usize = if wished < 0 {
            0
        } else if wished > last as i128 {
            last
        } else {
            wished as usize
        };
        let target = if delta >= 0 {
            match self.next_enabled(start) {
                Some(found) => Some(found),
                None => if start > 0 {
                    self.prev_enabled(start - 1)
                } else {
                    None
                },
            }
        } else {
            match self.prev_enabled(start) {
                Some(found) => Some(found),
                None => self.next_enabled(start + 1),
            }
        };
        match target {
            Some(index) => {
                let moved = match self.selected_index {
                    Some(selected) => selected != index,
                    None => true,
                };
                self.selected_index = Some(index);
                moved
            },
            None => false,
        }
    }

    /// Adds `ch` to the type-ahead buffer, which restarts after a pause, and
    /// searches for the next matching option after `current`.
    fn seek_ahead(&mut self, ch: char, now: Instant, current: Option<usize>) -> (found: Option<
        usize,
    >)
        ensures
            found == type_ahead_target(
                old(self)@.options,
                typed_buffer(old(self)@, ch, now),
                current,
            ),
            final(self)@ == key_noted(old(self)@, ch, now),
    {
        let timed_out = match self.type_ahead_last_at {
            Some(prev) => nanos_since(now, prev) > TYPE_AHEAD_TIMEOUT_MILLIS as u128
                * crate::clock::NANOS_PER_MILLI,
            None => true,
        };
        if timed_out {
            self.type_ahead_buffer = String::new();
        }
        let folded = lowercase_chars(ch);
        let lower = if folded.len() == 0 {
            ch
        } else {
            folded[0]
        };
        push_char(&mut self.type_ahead_buffer, lower);
        self.type_ahead_last_at = Some(now);

        let ghost typed = self.type_ahead_buffer@;
        let count: usize = self.type_ahead_buffer.as_str().unicode_len();
        if count > 1 && all_chars_are(self.type_ahead_buffer.as_str(), lower) {
            self.type_ahead_buffer = String::new();
            push_char(&mut self.type_ahead_buffer, lower);
            proof {
                assert(self.type_ahead_buffer@ =~= seq![lower]);
            }
        }
        proof {
            assert(self.type_ahead_buffer@ =~= typed_buffer(old(self)@, ch, now));
        }

        let len: usize = self.options.len();
        if len == 0 {
            return None;
        }
        let mut next: usize = 0;
        if self.type_ahead_buffer.as_str().unicode_len() == 1 {
            if let Some(index) = current {
                next = ring_advance(index, 1, len);
            }
        }
        let ghost buffer = self.type_ahead_buffer@;
        let ghost before = self@;
        let mut left: usize = len;
        while left > 0
            invariant
                self@ == before,
                buffer == before.buffer,
                len == before.options.len(),
                left <= len,
                next < len,
                type_ahead_target(old(self)@.options, buffer, current) == ring_search(
                    matching(before.options, buffer),
                    next as int,
                    1,
                    left as nat,
                ),
                before == (SelectModel { buffer, last_key_at: Some(now), ..old(self)@ }),
                buffer == typed_buffer(old(self)@, ch, now),
            decreases left,
        {
            let option = &self.options[next];
            if Self::is_user_selectable_option(option) {
                let label = to_lowercase_text(option.label.as_str());
                if has_prefix(label.as_str(), self.type_ahead_buffer.as_str()) {
                    return Some(next);
                }
            }
            next = ring_advance(next, 1, len);
            left -= 1;
        }
        None
    }

    /// Adds `ch` to the type-ahead buffer, which restarts after a pause, and
    /// selects the next matching option. Typing one letter repeatedly cycles
    /// through the options that start with it.
    pub fn type_ahead(&mut self, ch: char, now: Instant) -> (found: Option<usize>)
        ensures
            found == selected_ahead(old(self)@, ch, now),
            final(self)@ == after_type_ahead(old(self)@, ch, now),
    {
        let found = self.seek_ahead(ch, now, self.selected_index);
        if found.is_some() {
            self.selected_index = found;
            self.active_index = found;
        }
        found
    }

    /// Adds `ch` to the type-ahead buffer, which restarts after a pause, and
    /// highlights the next matching option. The selection stays as it is.
    pub fn highlight_ahead(&mut self, ch: char, now: Instant) -> (found: Option<usize>)
        ensures
            found == highlighted_ahead(old(self)@, ch, now),
            final(self)@ == after_highlight_ahead(old(self)@, ch, now),
    {
        let current = match self.active_index {
            Some(active) => Some(active),
            None => self.selected_index,
        };
        let found = self.seek_ahead(ch, now, current);
        if found.is_some() {
            self.active_index = found;
        }
        found
    }

    /// Selects the last or the first option the user can pick. Returns
    /// whether there is one.
    pub fn jump_to_extreme(&mut self, to_end: bool) -> (moved: bool)
        ensures
            ({
                let target = if to_end {
                    prev_selectable(old(self)@.options, old(self)@.options.len() - 1)
                } else {
                    next_selectable(old(self)@.options, 0)
                };
                &&& moved == target is Some
                &&& final(self)@ == with_selection(old(self)@, target)
            }),
    {
        let target = if to_end {
            self.find_last_enabled()
        } else {
            self.find_first_enabled()
        };
        match target {
            Some(index) => {
                self.selected_index = Some(index);
                true
            },
            None => false,
        }
    }
}

/// Whether every character of `text` is `ch`.
fn all_chars_are(text: &str, ch: char) -> (all: bool)
    ensures
        all == repeats(text@, ch),
{
    let count: usize = text.unicode_len();
    let mut i: usize = 0;
    while i < count
        invariant
            count == text@.len(),
            i <= count,
            forall|k: int| 0 <= k < i ==> #[trigger] text@[k] == ch,
        decreases count - i,
    {
        if text.get_char(i) != ch {
            assert(text@[i as int] != ch);
            return false;
        }
        i += 1;
    }
    true
}

/// Whether `found` is the first hit that going down from `current` meets, round
/// the end where none lies below.
pub open spec fn next_hit(hits: Seq<bool>, current: int, found: int) -> bool {
    &&& 0 <= found < hits.len()
    &&& hits[found]
    &&& if found > current {
        forall|i: int| current < i < found ==> !(#[trigger] hits[i])
    } else {
        &&& forall|i: int| current < i < hits.len() ==> !(#[trigger] hits[i])
        &&& forall|i: int| 0 <= i < found ==> !(#[trigger] hits[i])
    }
}

/// Whether `found` is the first hit that going up from `current` meets, round the
/// start where none lies above.
pub open spec fn previous_hit(hits: Seq<bool>, current: int, found: int) -> bool {
    &&& 0 <= found < hits.len()
    &&& hits[found]
    &&& if found < current {
        forall|i: int| found < i < current ==> !(#[trigger] hits[i])
    } else {
        &&& forall|i: int| 0 <= i < current ==> !(#[trigger] hits[i])
        &&& forall|i: int| found < i < hits.len() ==> !(#[trigger] hits[i])
    }
}

proof fn lemma_ring_down(hits: Seq<bool>, current: int, at: int, left: nat)
    requires
        0 <= current < hits.len() <= usize::MAX,
        0 <= at < hits.len(),
        0 < left,
        at > current ==> left == hits.len() - at + current + 1,
        at <= current ==> left == current - at + 1,
        at > current ==> forall|i: int| current < i < at ==> !(#[trigger] hits[i]),
        at <= current ==> (forall|i: int| current < i < hits.len() ==> !(#[trigger] hits[i])) && (
        forall|i: int| 0 <= i < at ==> !(#[trigger] hits[i])),
    ensures
        match ring_search(hits, at, 1, left) {
            Some(found) => next_hit(hits, current, found as int),
            None => forall|i: int| 0 <= i < hits.len() ==> !(#[trigger] hits[i]),
        },
    decreases left,
{
    let len = hits.len() as int;
    if !hits[at] {
        let next = ring_step(at, 1, len);
        if at + 1 < len {
            vstd::arithmetic::div_mod::lemma_small_mod((at + 1) as nat, len as nat);
        } else {
            vstd::arithmetic::div_mod::lemma_mod_self_0(len);
        }
        if left > 1 {
            lemma_ring_down(hits, current, next, (left - 1) as nat);
        } else {
            assert(ring_search(hits, next, 1, 0) is None);
        }
    }
}

proof fn lemma_ring_up(hits: Seq<bool>, current: int, at: int, left: nat)
    requires
        0 <= current < hits.len() <= usize::MAX,
        0 <= at < hits.len(),
        0 < left,
        at < current ==> left == at + 1 + hits.len() - current,
        at >= current ==> left == at - current + 1,
        at < current ==> forall|i: int| at < i < current ==> !(#[trigger] hits[i]),
        at >= current ==> (forall|i: int| 0 <= i < current ==> !(#[trigger] hits[i])) && (
        forall|i: int| at < i < hits.len() ==> !(#[trigger] hits[i])),
    ensures
        match ring_search(hits, at, -1, left) {
            Some(found) => previous_hit(hits, current, found as int),
            None => forall|i: int| 0 <= i < hits.len() ==> !(#[trigger] hits[i]),
        },
    decreases left,
{
    let len = hits.len() as int;
    if !hits[at] {
        let next = ring_step(at, -1, len);
        if at > 0 {
            vstd::arithmetic::div_mod::lemma_small_mod((at - 1) as nat, len as nat);
        } else {
            vstd::arithmetic::div_mod::lemma_mod_multiples_vanish(1, -1, len);
            vstd::arithmetic::div_mod::lemma_small_mod((len - 1) as nat, len as nat);
        }
        if left > 1 {
            lemma_ring_up(hits, current, next, (left - 1) as nat);
        } else {
            assert(ring_search(hits, next, -1, 0) is None);
        }
    }
}

/// A lap in single steps finds the nearest hit in its direction: going down the
/// first one below, going up the first one above, each round the end where there
/// is none.
pub proof fn laps_find_the_nearest(hits: Seq<bool>, current: int)
    requires
        0 <= current < hits.len() <= usize::MAX,
    ensures
        match ring_search(hits, ring_step(current, 1, hits.len() as int), 1, hits.len()) {
            Some(found) => next_hit(hits, current, found as int),
            None => forall|i: int| 0 <= i < hits.len() ==> !(#[trigger] hits[i]),
        },
        match ring_search(hits, ring_step(current, -1, hits.len() as int), -1, hits.len()) {
            Some(found) => previous_hit(hits, current, found as int),
            None => forall|i: int| 0 <= i < hits.len() ==> !(#[trigger] hits[i]),
        },
{
    let len = hits.len() as int;
    if current + 1 < len {
        vstd::arithmetic::div_mod::lemma_small_mod((current + 1) as nat, len as nat);
    } else {
        vstd::arithmetic::div_mod::lemma_mod_self_0(len);
    }
    if current > 0 {
        vstd::arithmetic::div_mod::lemma_small_mod((current - 1) as nat, len as nat);
    } else {
        vstd::arithmetic::div_mod::lemma_mod_multiples_vanish(1, -1, len);
        vstd::arithmetic::div_mod::lemma_small_mod((len - 1) as nat, len as nat);
    }
    lemma_ring_down(hits, current, ring_step(current, 1, len), hits.len());
    lemma_ring_up(hits, current, ring_step(current, -1, len), hits.len());
}

/// A step down the options goes to the nearest one below that the user can pick,
/// and a step up to the nearest one above, each round the end. They find none only
/// where the user can pick none.
pub proof fn steps_go_to_the_nearest(options: Seq<SelectOption>, current: int)
    requires
        0 <= current < options.len() <= usize::MAX,
    ensures
        match ring_target(options, current, 1) {
            Some(found) => {
                &&& found < options.len()
                &&& !options[found as int].disabled && !options[found as int].hidden
                &&& if found > current {
                    forall|i: int|
                        current < i < found ==> (#[trigger] options[i]).disabled
                            || options[i].hidden
                } else {
                    &&& forall|i: int|
                        current < i < options.len() ==> (#[trigger] options[i]).disabled
                            || options[i].hidden
                    &&& forall|i: int|
                        0 <= i < found ==> (#[trigger] options[i]).disabled || options[i].hidden
                }
            },
            None => forall|i: int|
                0 <= i < options.len() ==> (#[trigger] options[i]).disabled || options[i].hidden,
        },
        match ring_target(options, current, -1) {
            Some(found) => {
                &&& found < options.len()
                &&& !options[found as int].disabled && !options[found as int].hidden
                &&& if found < current {
                    forall|i: int|
                        found < i < current ==> (#[trigger] options[i]).disabled
                            || options[i].hidden
                } else {
                    &&& forall|i: int|
                        0 <= i < current ==> (#[trigger] options[i]).disabled || options[i].hidden
                    &&& forall|i: int|
                        found < i < options.len() ==> (#[trigger] options[i]).disabled
                            || options[i].hidden
                }
            },
            None => forall|i: int|
                0 <= i < options.len() ==> (#[trigger] options[i]).disabled || options[i].hidden,
        },
{
    let hits = pickable(options);
    laps_find_the_nearest(hits, current);
    assert forall|i: int| 0 <= i < options.len() implies hits[i] == !((
    #[trigger] options[i]).disabled || options[i].hidden) by {}
    if let Some(found) = ring_target(options, current, 1) {
        assert(next_hit(hits, current, found as int));
        assert(hits[found as int]);
    }
    if let Some(found) = ring_target(options, current, -1) {
        assert(previous_hit(hits, current, found as int));
        assert(hits[found as int]);
    }
}

/// From an option that the user can pick, a step up takes back a step down, and a
/// step down a step up.
pub proof fn opposite_steps_return(options: Seq<SelectOption>, current: usize)
    requires
        current < options.len() <= usize::MAX,
        selectable(options[current as int]),
    ensures
        ring_target(options, current as int, 1) matches Some(down) && ring_target(
            options,
            down as int,
            -1,
        ) == Some(current),
        ring_target(options, current as int, -1) matches Some(up) && ring_target(
            options,
            up as int,
            1,
        ) == Some(current),
{
    steps_go_to_the_nearest(options, current as int);
    let down = ring_target(options, current as int, 1)->0;
    let up = ring_target(options, current as int, -1)->0;
    steps_go_to_the_nearest(options, down as int);
    steps_go_to_the_nearest(options, up as int);
    let back = ring_target(options, down as int, -1)->0;
    let forth = ring_target(options, up as int, 1)->0;
    assert(selectable(options[back as int]) && selectable(options[forth as int]));
    assert(selectable(options[down as int]) && selectable(options[up as int]));
}

/// A page step aims ten options on, or at the end, and takes the nearest option
/// there that the user can pick: beyond the aim, or where there is none, before it.
pub proof fn page_steps_land_near(options: Seq<SelectOption>, current: int)
    requires
        0 <= current < options.len() <= usize::MAX,
    ensures
        ({
            let aim = if current + 10 < options.len() { current + 10 } else { options.len() - 1 };
            match step_target(options, current, 10) {
                Some(found) => {
                    &&& found < options.len() && selectable(options[found as int])
                    &&& found >= aim ==> forall|i: int|
                        aim <= i < found ==> !selectable(#[trigger] options[i])
                    &&& found < aim ==> forall|i: int|
                        found < i < options.len() ==> !selectable(#[trigger] options[i])
                },
                None => forall|i: int|
                    0 <= i < options.len() ==> !selectable(#[trigger] options[i]),
            }
        }),
        ({
            let aim = if current >= 10 { current - 10 } else { 0 };
            match step_target(options, current, -10) {
                Some(found) => {
                    &&& found < options.len() && selectable(options[found as int])
                    &&& found <= aim ==> forall|i: int|
                        found < i <= aim ==> !selectable(#[trigger] options[i])
                    &&& found > aim ==> forall|i: int|
                        0 <= i < found ==> !selectable(#[trigger] options[i])
                },
                None => forall|i: int|
                    0 <= i < options.len() ==> !selectable(#[trigger] options[i]),
            }
        }),
{
    let down = if current + 10 < options.len() { current + 10 } else { options.len() - 1 };
    let up = if current >= 10 { current - 10 } else { 0 };
    next_selectable_is_nearest(options, down);
    prev_selectable_is_nearest(options, down - 1);
    prev_selectable_is_nearest(options, up);
    next_selectable_is_nearest(options, up + 1);
}

/// An option can be picked exactly while it is neither disabled nor hidden.
pub proof fn pickable_options(option: SelectOption)
    ensures
        selectable(option) <==> !option.disabled && !option.hidden,
{
}

/// Typing one letter goes to the nearest option below the current one whose label
/// starts with it, round the end; a longer text goes to the first option whose
/// label starts with it.
pub proof fn type_ahead_goes_to_the_nearest(
    options: Seq<SelectOption>,
    buffer: Seq<char>,
    current: Option<usize>,
    found: usize,
    i: int,
)
    requires
        options.len() <= usize::MAX,
        current matches Some(at) ==> at < options.len(),
        type_ahead_target(options, buffer, current) == Some(found),
        0 <= i < options.len(),
    ensures
        found < options.len(),
        label_matches(options[found as int], buffer),
        (buffer.len() != 1 || current is None) && i < found ==> !label_matches(options[i], buffer),
        buffer.len() == 1 ==> match current {
            Some(at) => {
                &&& found > at && at < i < found ==> !label_matches(options[i], buffer)
                &&& found <= at && (i < found || i > at) ==> !label_matches(options[i], buffer)
            },
            None => true,
        },
{
    let hits = matching(options, buffer);
    let len = options.len() as int;
    assert forall|k: int| 0 <= k < options.len() implies hits[k] == label_matches(
        #[trigger] options[k],
        buffer,
    ) by {}
    if buffer.len() == 1 && current is Some {
        laps_find_the_nearest(hits, current->0 as int);
        assert(next_hit(hits, current->0 as int, found as int));
        assert(hits[i] == label_matches(options[i], buffer));
    } else {
        laps_find_the_nearest(hits, len - 1);
        vstd::arithmetic::div_mod::lemma_mod_self_0(len);
        assert(ring_step(len - 1, 1, len) == 0);
        assert(next_hit(hits, len - 1, found as int));
        assert(hits[i] == label_matches(options[i], buffer));
    }
}

/// A label matches what was typed when its lowercase form starts with it and the
/// user can pick the option.
pub proof fn labels_match_by_their_start(option: SelectOption, prefix: Seq<char>)
    ensures
        label_matches(option, prefix) <==> !option.disabled && !option.hidden && prefix.len()
            <= crate::text::lowercase_text(option.label@).len() && crate::text::lowercase_text(
            option.label@,
        ).take(prefix.len() as int) == prefix,
{
}

/// Letters typed within half a second add up to one text. After a longer pause
/// the text starts over with the letter, and one letter typed again and again
/// stays that one letter.
pub proof fn letters_add_up(m: SelectModel, ch: char, now: Instant)
    ensures
        ({
            let letter = folded_key(ch);
            let after = typed_buffer(m, ch, now);
            let stale = match m.last_key_at {
                Some(last) => crate::clock::nanos_between(now, last) > 500_000_000,
                None => true,
            };
            &&& stale ==> after == seq![letter]
            &&& !stale && (exists|i: int| 0 <= i < m.buffer.len() && m.buffer[i] != letter)
                ==> after == m.buffer.push(letter)
            &&& !stale && (forall|i: int| 0 <= i < m.buffer.len() ==> m.buffer[i] == letter)
                ==> after == seq![letter]
        }),
{
    let letter = folded_key(ch);
    let typed = m.buffer.push(letter);
    if exists|i: int| 0 <= i < m.buffer.len() && m.buffer[i] != letter {
        let i = choose|i: int| 0 <= i < m.buffer.len() && m.buffer[i] != letter;
        assert(typed[i] != letter);
    }
    if forall|i: int| 0 <= i < m.buffer.len() ==> m.buffer[i] == letter {
        assert(repeats(typed, letter));
        if m.buffer.len() == 0 {
            assert(typed =~= seq![letter]);
        }
    }
    assert(Seq::<char>::empty().push(letter) =~= seq![letter]);
}

/// A type-ahead letter selects the option it finds, highlights it and notes the
/// letter with its moment. Where it finds none, the selection stays.
pub proof fn type_ahead_selects_what_it_finds(m: SelectModel, ch: char, now: Instant)
    ensures
        ({
            let found = type_ahead_target(m.options, typed_buffer(m, ch, now), m.selected);
            let after = after_type_ahead(m, ch, now);
            &&& after.selected == (if found is Some { found } else { m.selected })
            &&& after.active == (if found is Some { found } else { m.active })
            &&& after.buffer == typed_buffer(m, ch, now)
            &&& after.last_key_at == Some(now)
            &&& after.options == m.options
            &&& after.open == m.open
        }),
        ({
            let current = if m.active is Some { m.active } else { m.selected };
            let found = type_ahead_target(m.options, typed_buffer(m, ch, now), current);
            let after = after_highlight_ahead(m, ch, now);
            &&& after.selected == m.selected
            &&& after.active == (if found is Some { found } else { m.active })
            &&& after.buffer == typed_buffer(m, ch, now)
            &&& after.last_key_at == Some(now)
            &&& after.options == m.options
            &&& after.open == m.open
        }),
{
}

/// Searching by value finds the first option of that value, and none only where
/// no option has it.
pub proof fn first_option_of_value(options: Seq<SelectOption>, value: Seq<char>, from: int)
    requires
        0 <= from <= options.len() <= usize::MAX,
    ensures
        match value_search(options, value, from) {
            Some(found) => {
                &&& from <= found < options.len()
                &&& options[found as int].value@ == value
                &&& forall|i: int| from <= i < found ==> (#[trigger] options[i]).value@ != value
            },
            None => forall|i: int|
                from <= i < options.len() ==> (#[trigger] options[i]).value@ != value,
        },
    decreases options.len() - from,
{
    if from < options.len() && options[from].value@ != value {
        first_option_of_value(options, value, from + 1);
    }
}

/// Options that mark one as selected select the last such one. Otherwise the
/// selection stays while it has an option, and else goes to the first option that
/// the user can pick.
pub proof fn loaded_options_choose(options: Seq<SelectOption>, selected: Option<usize>)
    requires
        options.len() <= usize::MAX,
    ensures
        match loaded_selection(options, selected) {
            Some(chosen) => {
                &&& chosen < options.len()
                &&& options[chosen as int].selected ==> forall|i: int|
                    chosen < i < options.len() ==> !(#[trigger] options[i]).selected
                &&& !options[chosen as int].selected ==> forall|i: int|
                    0 <= i < options.len() ==> !(#[trigger] options[i]).selected
                &&& !options[chosen as int].selected && selected != Some(chosen) ==> (selected
                    matches Some(old) ==> old >= options.len()) && selectable(
                    options[chosen as int],
                ) && forall|i: int| 0 <= i < chosen ==> !selectable(#[trigger] options[i])
            },
            None => {
                &&& forall|i: int|
                    0 <= i < options.len() ==> !(#[trigger] options[i]).selected && !selectable(
                        options[i],
                    )
                &&& selected matches Some(old) ==> old >= options.len()
            },
        },
        selected matches Some(old) && old < options.len() && (forall|i: int|
            0 <= i < options.len() ==> !(#[trigger] options[i]).selected) ==> loaded_selection(
            options,
            selected,
        ) == selected,
{
    lemma_last_marked(options, options.len() as int);
    next_selectable_is_nearest(options, 0);
}

proof fn lemma_last_marked(options: Seq<SelectOption>, upto: int)
    requires
        0 <= upto <= options.len() <= usize::MAX,
    ensures
        match last_marked(options, upto) {
            Some(found) => {
                &&& found < upto
                &&& options[found as int].selected
                &&& forall|i: int| found < i < upto ==> !(#[trigger] options[i]).selected
            },
            None => forall|i: int| 0 <= i < upto ==> !(#[trigger] options[i]).selected,
        },
    decreases upto,
{
    if upto > 0 && !options[upto - 1].selected {
        lemma_last_marked(options, upto - 1);
    }
}

/// A new select is closed and enabled, has no options and nothing selected, highlighted
/// or typed, and has neither a name nor a popup.
pub proof fn new_selects_are_empty()
    ensures
        ({
            let m = empty_select();
            &&& m.options.len() == 0 && m.selected is None && m.active is None
            &&& !m.disabled && !m.open
            &&& m.name is None && m.popup_root is None && m.option_nodes.len() == 0
            &&& m.buffer.len() == 0 && m.last_key_at is None
        }),
{
}

/// The selected option is the one at the selected index. An index without an option, and
/// no index, stand for none.
pub proof fn selected_option_is_at_the_index(m: SelectModel, index: usize)
    ensures
        m.selected == Some(index) && index < m.options.len() ==> selected_option(m) == Some(
            m.options[index as int],
        ),
        m.selected == Some(index) && index >= m.options.len() ==> selected_option(m) is None,
        m.selected is None ==> selected_option(m) is None,
{
}

/// Selecting an option changes the selection and nothing else; without one nothing
/// changes.
pub proof fn selecting_changes_the_selection(m: SelectModel, index: usize)
    ensures
        with_selection(m, Some(index)).selected == Some(index),
        with_selection(m, Some(index)) == (SelectModel { selected: Some(index), ..m }),
        with_selection(m, None) == m,
{
}

} // verus!
