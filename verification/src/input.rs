//! Native `<input>` state.
//!
//! The library owns the text value, caret, selection and checked state of an
//! input. Carets are character indices, so an edit never splits a codepoint.
use crate::clock;
use crate::text::{
    char_index_to_byte_index, next_word_end, previous_word_start, push_char, repeat_char, same,
    splice,
};
use std::time::Instant;
use vstd::prelude::*;
use vstd::string::StrSliceExecFns;

verus! {

/// Time between two flips of the caret, in milliseconds.
pub const BLINK_INTERVAL_MILLIS: u64 = 500;

/// The character shown for each character of a masked value.
pub const MASK_CHAR: char = '\u{2022}';

/// The kinds of input that differ in how keys and clicks act on them.
#[derive(Debug, Clone, Copy, PartialEq, Eq, Structural)]
pub enum InputType {
    Text,
    Password,
    Number,
    Range,
    Checkbox,
    Radio,
}

/// The kind that the `type` attribute names. An unknown type is a text field.
pub open spec fn input_type(name: Seq<char>) -> InputType {
    if name == "password"@ {
        InputType::Password
    } else if name == "number"@ {
        InputType::Number
    } else if name == "range"@ {
        InputType::Range
    } else if name == "checkbox"@ {
        InputType::Checkbox
    } else if name == "radio"@ {
        InputType::Radio
    } else {
        InputType::Text
    }
}

/// Per-input editable state.
#[derive(Debug)]
pub struct InputState {
    kind: InputType,
    value: String,
    caret_chars: usize,
    anchor_chars: usize,
    blink_visible: bool,
    last_blink: Instant,
    placeholder: Option<String>,
    masked: bool,
    readonly: bool,
    disabled: bool,
    checked: bool,
    name: Option<String>,
}

/// What an [`InputState`] holds.
#[verifier::ext_equal]
pub struct InputModel {
    pub kind: InputType,
    pub value: Seq<char>,
    /// Caret position as a character index.
    pub caret: int,
    /// The end of the selection that stays put while it is extended. It is at
    /// the caret while nothing is selected.
    pub anchor: int,
    /// Whether the caret is currently drawn.
    pub blink_visible: bool,
    /// When the caret last flipped or was forced visible.
    pub last_blink: Instant,
    pub placeholder: Option<Seq<char>>,
    /// Masked inputs show a bullet per character.
    pub masked: bool,
    /// Read-only inputs move the caret but ignore edits.
    pub readonly: bool,
    pub disabled: bool,
    pub checked: bool,
    pub name: Option<Seq<char>>,
}

/// The characters of an optional string.
pub open spec fn opt_chars(text: Option<String>) -> Option<Seq<char>> {
    match text {
        Some(text) => Some(text@),
        None => None,
    }
}

impl View for InputState {
    type V = InputModel;

    closed spec fn view(&self) -> InputModel {
        InputModel {
            kind: self.kind,
            value: self.value@,
            caret: self.caret_chars as int,
            anchor: self.anchor_chars as int,
            blink_visible: self.blink_visible,
            last_blink: self.last_blink,
            placeholder: opt_chars(self.placeholder),
            masked: self.masked,
            readonly: self.readonly,
            disabled: self.disabled,
            checked: self.checked,
            name: opt_chars(self.name),
        }
    }
}

/// Caret and selection lie within the value.
pub open spec fn in_bounds(m: InputModel) -> bool {
    0 <= m.caret <= m.value.len() && 0 <= m.anchor <= m.value.len()
}

/// Where the selection starts.
pub open spec fn sel_start(m: InputModel) -> int {
    if m.anchor <= m.caret {
        m.anchor
    } else {
        m.caret
    }
}

/// Where the selection ends.
pub open spec fn sel_end(m: InputModel) -> int {
    if m.anchor <= m.caret {
        m.caret
    } else {
        m.anchor
    }
}

/// The two states are the same, except perhaps for the moment from which the
/// caret's blink is counted.
pub open spec fn same_but_moment(a: InputModel, b: InputModel) -> bool {
    a == (InputModel { last_blink: a.last_blink, ..b })
}

/// The state after the characters from `from` up to `to` were replaced by
/// `text`: the caret stands behind the new text and nothing is selected.
pub open spec fn replaced(m: InputModel, from: int, to: int, text: Seq<char>) -> InputModel {
    InputModel {
        value: crate::text::spliced(m.value, from, to, text),
        caret: from + text.len(),
        anchor: from + text.len(),
        blink_visible: true,
        ..m
    }
}

/// The state after the caret went to `to`, extending the selection or
/// dropping it.
pub open spec fn moved(m: InputModel, to: int, extend: bool) -> InputModel {
    InputModel {
        caret: to,
        anchor: if extend {
            m.anchor
        } else {
            to
        },
        blink_visible: true,
        ..m
    }
}

/// The state after an insertion, which replaces the selection.
pub open spec fn typed(m: InputModel, text: Seq<char>) -> Option<InputModel> {
    if m.readonly || text.len() == 0 {
        None
    } else {
        Some(replaced(m, sel_start(m), sel_end(m), text))
    }
}

/// The state after a deletion that reaches from the caret to `to`. A
/// selection is deleted instead.
pub open spec fn erased(m: InputModel, to: int) -> Option<InputModel> {
    if m.readonly {
        None
    } else if m.anchor != m.caret {
        Some(replaced(m, sel_start(m), sel_end(m), Seq::empty()))
    } else if to < m.caret {
        Some(replaced(m, to, m.caret, Seq::empty()))
    } else if to > m.caret {
        Some(replaced(m, m.caret, to, Seq::empty()))
    } else {
        None
    }
}

/// The state after a move by one character. Without extending, a selection
/// collapses to its edge in the direction of the move.
pub open spec fn arrowed(m: InputModel, right: bool, extend: bool) -> Option<InputModel> {
    if !extend && m.anchor != m.caret {
        Some(
            moved(
                m,
                if right {
                    sel_end(m)
                } else {
                    sel_start(m)
                },
                false,
            ),
        )
    } else if right && m.caret < m.value.len() {
        Some(moved(m, m.caret + 1, extend))
    } else if !right && m.caret > 0 {
        Some(moved(m, m.caret - 1, extend))
    } else {
        None
    }
}

/// The state after a move to `to`, or `None` when caret and selection already
/// are as the move leaves them.
pub open spec fn jumped(m: InputModel, to: int, extend: bool) -> Option<InputModel> {
    if m.caret == to && (extend || m.anchor == to) {
        None
    } else {
        Some(moved(m, to, extend))
    }
}

/// How far a deletion of one character reaches.
pub open spec fn char_reach(m: InputModel, forward: bool) -> int {
    if forward && m.caret < m.value.len() {
        m.caret + 1
    } else if !forward && m.caret > 0 {
        m.caret - 1
    } else {
        m.caret
    }
}

/// Characters that a numeric field accepts.
pub open spec fn numeric_char(ch: char) -> bool {
    '0' <= ch <= '9' || ch == '.' || ch == '-' || ch == '+'
}

/// The text that an input shows for its value.
pub open spec fn display_text(m: InputModel) -> Seq<char> {
    if m.kind is Checkbox || m.kind is Radio {
        if m.checked {
            "on"@
        } else {
            "off"@
        }
    } else if m.masked {
        Seq::new(m.value.len(), |i: int| MASK_CHAR)
    } else {
        m.value
    }
}

/// The text inside an input and whether it is the placeholder, which stands
/// in for an empty text.
pub open spec fn rendered(m: InputModel) -> (Seq<char>, bool) {
    match m.placeholder {
        Some(placeholder) if display_text(m).len() == 0 => (placeholder, true),
        _ => (display_text(m), false),
    }
}

/// An empty text field whose caret was shown at `moment`.
pub open spec fn empty_input(moment: Instant) -> InputModel {
    InputModel {
        kind: InputType::Text,
        value: Seq::empty(),
        caret: 0,
        anchor: 0,
        blink_visible: true,
        last_blink: moment,
        placeholder: None,
        masked: false,
        readonly: false,
        disabled: false,
        checked: false,
        name: None,
    }
}

impl Default for InputState {
    fn default() -> (state: Self)
        ensures
            state.wf(),
            state@ == empty_input(state@.last_blink),
    {
        InputState {
            kind: InputType::Text,
            value: String::new(),
            caret_chars: 0,
            anchor_chars: 0,
            blink_visible: true,
            last_blink: clock::now(),
            placeholder: None,
            masked: false,
            readonly: false,
            disabled: false,
            checked: false,
            name: None,
        }
    }
}

/// Whether `after` is `before` brought to `target` by an edit that reported
/// `done`: without a target the edit reports `false` and changes nothing.
pub open spec fn edit_result(
    before: InputModel,
    after: InputModel,
    done: bool,
    target: Option<InputModel>,
) -> bool {
    match target {
        Some(target) => done && same_but_moment(after, target),
        None => !done && after == before,
    }
}

/// The state after a look at the clock, and whether the caret flipped: it does
/// when its interval has passed.
pub open spec fn blinked(m: InputModel, now: Instant) -> (InputModel, bool) {
    if clock::millis_reached(now, m.last_blink, BLINK_INTERVAL_MILLIS as nat) {
        (InputModel { blink_visible: !m.blink_visible, last_blink: now, ..m }, true)
    } else {
        (m, false)
    }
}

/// The time between two flips of the caret, in nanoseconds.
pub open spec fn blink_nanos() -> nat {
    (BLINK_INTERVAL_MILLIS * clock::NANOS_PER_MILLI) as nat
}

/// Whether a moment is the one that lies one interval after the last flip: all
/// moments before it are within the interval. There is no such moment exactly
/// when the clock cannot represent it.
pub open spec fn blink_deadline(m: InputModel, moment: Option<Instant>) -> bool {
    &&& moment == clock::moment_after(m.last_blink, blink_nanos())
    &&& moment matches Some(at) ==> clock::nanos_between(at, m.last_blink) == blink_nanos()
    &&& moment matches Some(at) ==> forall|now: Instant| #[trigger]
        clock::is_before(now, at) == (clock::nanos_between(now, m.last_blink) < blink_nanos())
}

/// The caret flips exactly from its deadline on. A flip counts the next interval
/// from the moment of the look and changes neither value nor caret; a look before
/// the deadline changes nothing.
pub proof fn blinks_are_due_from_deadline(m: InputModel, deadline: Instant, now: Instant)
    requires
        blink_deadline(m, Some(deadline)),
    ensures
        ({
            let (after, flipped) = blinked(m, now);
            &&& flipped == !clock::is_before(now, deadline)
            &&& flipped ==> after == (InputModel {
                blink_visible: !m.blink_visible,
                last_blink: now,
                ..m
            })
            &&& flipped ==> forall|next: Option<Instant>| #[trigger]
                blink_deadline(after, next) ==> next == clock::moment_after(now, blink_nanos())
            &&& !flipped ==> after == m
        }),
{
}

/// The state with the whole value selected, or `None` where it is already.
pub open spec fn all_selected(m: InputModel) -> Option<InputModel> {
    let top = m.value.len() as int;
    if m.anchor == 0 && m.caret == top {
        None
    } else {
        Some(InputModel { anchor: 0, caret: top, blink_visible: true, ..m })
    }
}

/// The state after a selection from `anchor` to `focus`, both held within the
/// value.
pub open spec fn selecting(m: InputModel, anchor: int, focus: int) -> InputModel {
    let top = m.value.len() as int;
    InputModel {
        caret: crate::select::clamped(focus, top),
        anchor: crate::select::clamped(anchor, top),
        blink_visible: true,
        ..m
    }
}

/// The state after the checked state of an enabled input flipped, or `None` for
/// a disabled one.
pub open spec fn flipped(m: InputModel) -> Option<InputModel> {
    if m.disabled {
        None
    } else {
        Some(InputModel { checked: !m.checked, ..m })
    }
}

/// The state after the whole value was set. The same value again changes
/// nothing.
pub open spec fn revalued(m: InputModel, value: Seq<char>) -> Option<InputModel> {
    if value == m.value {
        None
    } else {
        Some(replaced(m, 0, m.value.len() as int, value))
    }
}

/// Whether an input of this type holds text that can be edited and selected.
pub open spec fn text_like(kind: InputType) -> bool {
    kind is Text || kind is Password || kind is Number
}

impl InputState {
    /// Caret and selection lie within the value.
    pub open spec fn wf(&self) -> bool {
        in_bounds(self@)
    }

    pub fn value(&self) -> (value: &str)
        ensures
            value@ == self@.value,
    {
        self.value.as_str()
    }

    /// Caret position as a character index.
    pub fn caret(&self) -> (caret: usize)
        ensures
            caret == self@.caret,
    {
        self.caret_chars
    }

    /// Caret position as a byte offset into the value.
    pub fn caret_byte_index(&self) -> (offset: usize)
        ensures
            offset == crate::text::byte_offset(self@.value, self@.caret as nat),
    {
        self.byte_index_of(self.caret_chars)
    }

    /// Caret position as a byte offset into the displayed text.
    pub fn display_caret_byte_index(&self) -> (offset: usize)
        ensures
            offset == crate::text::byte_offset(display_text(self@), self@.caret as nat),
    {
        let display = self.display();
        char_index_to_byte_index(display.as_str(), self.caret_chars)
    }

    pub fn len_chars(&self) -> (count: usize)
        ensures
            count == self@.value.len(),
    {
        self.value.as_str().unicode_len()
    }

    pub fn kind(&self) -> (kind: InputType)
        ensures
            kind == self@.kind,
    {
        self.kind
    }

    pub fn is_radio(&self) -> (radio: bool)
        ensures
            radio == (self@.kind is Radio),
    {
        matches!(self.kind, InputType::Radio)
    }

    pub fn is_range(&self) -> (range: bool)
        ensures
            range == (self@.kind is Range),
    {
        matches!(self.kind, InputType::Range)
    }

    /// Checkboxes and radios: inputs that hold a checked state.
    pub fn is_checked_like(&self) -> (checked_like: bool)
        ensures
            checked_like == (self@.kind is Checkbox || self@.kind is Radio),
    {
        matches!(self.kind, InputType::Checkbox | InputType::Radio)
    }

    /// Inputs whose value is a number.
    pub fn is_numeric_like(&self) -> (numeric: bool)
        ensures
            numeric == (self@.kind is Number || self@.kind is Range),
    {
        matches!(self.kind, InputType::Number | InputType::Range)
    }

    /// Inputs that show an editable line of text.
    pub fn is_text_like(&self) -> (holds_text: bool)
        ensures
            holds_text == text_like(self@.kind),
    {
        matches!(self.kind, InputType::Text | InputType::Password | InputType::Number)
    }

    pub fn disabled(&self) -> (disabled: bool)
        ensures
            disabled == self@.disabled,
    {
        self.disabled
    }

    pub fn set_disabled(&mut self, disabled: bool)
        ensures
            final(self)@ == (InputModel { disabled, ..old(self)@ }),
    {
        self.disabled = disabled;
    }

    pub fn name(&self) -> (name: Option<&str>)
        ensures
            match name {
                Some(name) => self@.name == Some(name@),
                None => self@.name is None,
            },
    {
        match &self.name {
            Some(name) => Some(name.as_str()),
            None => None,
        }
    }

    pub fn set_name(&mut self, name: Option<String>)
        ensures
            final(self)@ == (InputModel { name: opt_chars(name), ..old(self)@ }),
    {
        self.name = name;
    }

    pub fn checked(&self) -> (checked: bool)
        ensures
            checked == self@.checked,
    {
        self.checked
    }

    pub fn set_checked(&mut self, checked: bool)
        ensures
            final(self)@ == (InputModel { checked, ..old(self)@ }),
    {
        self.checked = checked;
    }

    /// Flips the checked state of an enabled input. Returns whether it
    /// flipped.
    pub fn toggle_checked(&mut self) -> (toggled: bool)
        ensures
            match flipped(old(self)@) {
                Some(after) => toggled && final(self)@ == after,
                None => !toggled && final(self)@ == old(self)@,
            },
    {
        if self.disabled {
            return false;
        }
        self.checked = !self.checked;
        true
    }

    /// Applies the `type` attribute: the kind of the input, and masking for
    /// passwords.
    pub fn set_type(&mut self, name: &str)
        ensures
            final(self)@ == (InputModel {
                kind: input_type(name@),
                masked: name@ == "password"@,
                ..old(self)@
            }),
    {
        self.kind =
        if same(name, "password") {
            InputType::Password
        } else if same(name, "number") {
            InputType::Number
        } else if same(name, "range") {
            InputType::Range
        } else if same(name, "checkbox") {
            InputType::Checkbox
        } else if same(name, "radio") {
            InputType::Radio
        } else {
            InputType::Text
        };
        self.masked = same(name, "password");
    }

    /// Replaces the value and puts the caret at its end. The same value again
    /// changes nothing.
    pub fn set_value(&mut self, value: &str)
        requires
            old(self).wf(),
        ensures
            final(self).wf(),
            match revalued(old(self)@, value@) {
                Some(after) => same_but_moment(final(self)@, after),
                None => final(self)@ == old(self)@,
            },
    {
        if same(self.value.as_str(), value) {
            return ;
        }
        let count: usize = self.len_chars();
        self.replace(0, count, value);
    }

    /// Takes over a value computed from a slider position or a numeric step.
    /// Returns whether the value changed.
    pub fn commit_numeric_value(&mut self, value: &str) -> (changed: bool)
        requires
            old(self).wf(),
        ensures
            final(self).wf(),
            edit_result(old(self)@, final(self)@, changed, revalued(old(self)@, value@)),
    {
        let changed = !same(self.value.as_str(), value);
        self.set_value(value);
        changed
    }

    pub fn set_placeholder(&mut self, placeholder: Option<String>)
        ensures
            final(self)@ == (InputModel { placeholder: opt_chars(placeholder), ..old(self)@ }),
    {
        self.placeholder = placeholder;
    }

    pub fn set_masked(&mut self, masked: bool)
        ensures
            final(self)@ == (InputModel { masked, ..old(self)@ }),
    {
        self.masked = masked;
    }

    pub fn set_readonly(&mut self, readonly: bool)
        ensures
            final(self)@ == (InputModel { readonly, ..old(self)@ }),
    {
        self.readonly = readonly;
    }

    pub fn readonly(&self) -> (readonly: bool)
        ensures
            readonly == self@.readonly,
    {
        self.readonly
    }

    /// Where the selection starts, as a character index.
    pub fn selection_start(&self) -> (start: usize)
        ensures
            start == sel_start(self@),
    {
        if self.anchor_chars <= self.caret_chars {
            self.anchor_chars
        } else {
            self.caret_chars
        }
    }

    /// Where the selection ends, as a character index.
    pub fn selection_end(&self) -> (end: usize)
        ensures
            end == sel_end(self@),
    {
        if self.anchor_chars <= self.caret_chars {
            self.caret_chars
        } else {
            self.anchor_chars
        }
    }

    /// Selects from `anchor` to `focus`, where the caret goes. Both are held
    /// within the value.
    pub fn set_selection(&mut self, anchor: usize, focus: usize)
        requires
            old(self).wf(),
        ensures
            final(self).wf(),
            same_but_moment(final(self)@, selecting(old(self)@, anchor as int, focus as int)),
    {
        let top: usize = self.len_chars();
        self.anchor_chars =
        if anchor > top {
            top
        } else {
            anchor
        };
        self.caret_chars =
        if focus > top {
            top
        } else {
            focus
        };
        self.touch_blink_on();
    }

    /// Selects the whole value. Returns whether that changed the selection.
    pub fn select_all(&mut self) -> (changed: bool)
        requires
            old(self).wf(),
        ensures
            final(self).wf(),
            edit_result(old(self)@, final(self)@, changed, all_selected(old(self)@)),
    {
        let top: usize = self.len_chars();
        if self.anchor_chars == 0 && self.caret_chars == top {
            return false;
        }
        self.anchor_chars = 0;
        self.caret_chars = top;
        self.touch_blink_on();
        true
    }

    /// Inserts a character at the caret, in place of the selection. Returns
    /// false for a read-only input.
    pub fn insert(&mut self, ch: char) -> (done: bool)
        requires
            old(self).wf(),
        ensures
            final(self).wf(),
            edit_result(old(self)@, final(self)@, done, typed(old(self)@, seq![ch])),
    {
        let mut text = String::new();
        push_char(&mut text, ch);
        proof {
            assert(text@ =~= seq![ch]);
        }
        self.insert_str(text.as_str())
    }

    /// Inserts a string at the caret, in place of the selection. Returns
    /// false for a read-only input or an empty string.
    pub fn insert_str(&mut self, text: &str) -> (done: bool)
        requires
            old(self).wf(),
        ensures
            final(self).wf(),
            edit_result(old(self)@, final(self)@, done, typed(old(self)@, text@)),
    {
        if self.readonly || text.is_empty() {
            return false;
        }
        self.replace(self.selection_start(), self.selection_end(), text);
        true
    }

    /// Inserts a character that may stand in a number. Other characters are
    /// refused.
    pub fn insert_numeric_char(&mut self, ch: char) -> (done: bool)
        requires
            old(self).wf(),
        ensures
            final(self).wf(),
            edit_result(
                old(self)@,
                final(self)@,
                done,
                if numeric_char(ch) {
                    typed(old(self)@, seq![ch])
                } else {
                    None
                },
            ),
    {
        if ('0' <= ch && ch <= '9') || ch == '.' || ch == '-' || ch == '+' {
            self.insert(ch)
        } else {
            false
        }
    }

    /// Deletes the selection, or the character before the caret. No-op at the
    /// start of the field.
    pub fn backspace(&mut self) -> (done: bool)
        requires
            old(self).wf(),
        ensures
            final(self).wf(),
            edit_result(
                old(self)@,
                final(self)@,
                done,
                erased(old(self)@, char_reach(old(self)@, false)),
            ),
    {
        let to: usize = if self.caret_chars > 0 {
            self.caret_chars - 1
        } else {
            0
        };
        self.erase(to)
    }

    /// Deletes the selection, or the character at the caret. No-op at the end
    /// of the field.
    pub fn delete_forward(&mut self) -> (done: bool)
        requires
            old(self).wf(),
        ensures
            final(self).wf(),
            edit_result(
                old(self)@,
                final(self)@,
                done,
                erased(old(self)@, char_reach(old(self)@, true)),
            ),
    {
        let to: usize = if self.caret_chars < self.len_chars() {
            self.caret_chars + 1
        } else {
            self.caret_chars
        };
        self.erase(to)
    }

    /// Deletes the selection, or back to the start of the word before the
    /// caret.
    pub fn delete_word_left(&mut self) -> (done: bool)
        requires
            old(self).wf(),
        ensures
            final(self).wf(),
            edit_result(
                old(self)@,
                final(self)@,
                done,
                erased(
                    old(self)@,
                    crate::text::word_start_before(old(self)@.value, old(self)@.caret),
                ),
            ),
    {
        let to: usize = previous_word_start(self.value.as_str(), self.caret_chars);
        self.erase(to)
    }

    /// Deletes the selection, or up to the end of the word after the caret.
    pub fn delete_word_right(&mut self) -> (done: bool)
        requires
            old(self).wf(),
        ensures
            final(self).wf(),
            edit_result(
                old(self)@,
                final(self)@,
                done,
                erased(
                    old(self)@,
                    crate::text::word_end_after(old(self)@.value, old(self)@.caret),
                ),
            ),
    {
        let to: usize = next_word_end(self.value.as_str(), self.caret_chars);
        self.erase(to)
    }

    pub fn move_left(&mut self) -> (done: bool)
        requires
            old(self).wf(),
        ensures
            final(self).wf(),
            edit_result(old(self)@, final(self)@, done, arrowed(old(self)@, false, false)),
    {
        self.move_left_extending(false)
    }

    pub fn move_right(&mut self) -> (done: bool)
        requires
            old(self).wf(),
        ensures
            final(self).wf(),
            edit_result(old(self)@, final(self)@, done, arrowed(old(self)@, true, false)),
    {
        self.move_right_extending(false)
    }

    pub fn move_home(&mut self) -> (done: bool)
        requires
            old(self).wf(),
        ensures
            final(self).wf(),
            edit_result(old(self)@, final(self)@, done, jumped(old(self)@, 0, false)),
    {
        self.move_home_extending(false)
    }

    pub fn move_end(&mut self) -> (done: bool)
        requires
            old(self).wf(),
        ensures
            final(self).wf(),
            edit_result(
                old(self)@,
                final(self)@,
                done,
                jumped(old(self)@, old(self)@.value.len() as int, false),
            ),
    {
        self.move_end_extending(false)
    }

    /// Moves the caret one character left, extending the selection when
    /// `extend` is set.
    pub fn move_left_extending(&mut self, extend: bool) -> (done: bool)
        requires
            old(self).wf(),
        ensures
            final(self).wf(),
            edit_result(old(self)@, final(self)@, done, arrowed(old(self)@, false, extend)),
    {
        if !extend && self.anchor_chars != self.caret_chars {
            let start: usize = self.selection_start();
            self.go_to(start, false);
            return true;
        }
        if self.caret_chars == 0 {
            return false;
        }
        self.go_to(self.caret_chars - 1, extend);
        true
    }

    /// Moves the caret one character right, extending the selection when
    /// `extend` is set.
    pub fn move_right_extending(&mut self, extend: bool) -> (done: bool)
        requires
            old(self).wf(),
        ensures
            final(self).wf(),
            edit_result(old(self)@, final(self)@, done, arrowed(old(self)@, true, extend)),
    {
        if !extend && self.anchor_chars != self.caret_chars {
            let end: usize = self.selection_end();
            self.go_to(end, false);
            return true;
        }
        if self.caret_chars >= self.len_chars() {
            return false;
        }
        self.go_to(self.caret_chars + 1, extend);
        true
    }

    /// Moves the caret to the start, extending the selection when `extend` is
    /// set.
    pub fn move_home_extending(&mut self, extend: bool) -> (done: bool)
        requires
            old(self).wf(),
        ensures
            final(self).wf(),
            edit_result(old(self)@, final(self)@, done, jumped(old(self)@, 0, extend)),
    {
        self.jump_to(0, extend)
    }

    /// Moves the caret to the end, extending the selection when `extend` is
    /// set.
    pub fn move_end_extending(&mut self, extend: bool) -> (done: bool)
        requires
            old(self).wf(),
        ensures
            final(self).wf(),
            edit_result(
                old(self)@,
                final(self)@,
                done,
                jumped(old(self)@, old(self)@.value.len() as int, extend),
            ),
    {
        let end: usize = self.len_chars();
        self.jump_to(end, extend)
    }

    /// Moves the caret to the start of the word before it.
    pub fn move_word_left_extending(&mut self, extend: bool) -> (done: bool)
        requires
            old(self).wf(),
        ensures
            final(self).wf(),
            edit_result(
                old(self)@,
                final(self)@,
                done,
                jumped(
                    old(self)@,
                    crate::text::word_start_before(old(self)@.value, old(self)@.caret),
                    extend,
                ),
            ),
    {
        let to: usize = previous_word_start(self.value.as_str(), self.caret_chars);
        self.jump_to(to, extend)
    }

    /// Moves the caret to the end of the word after it.
    pub fn move_word_right_extending(&mut self, extend: bool) -> (done: bool)
        requires
            old(self).wf(),
        ensures
            final(self).wf(),
            edit_result(
                old(self)@,
                final(self)@,
                done,
                jumped(
                    old(self)@,
                    crate::text::word_end_after(old(self)@.value, old(self)@.caret),
                    extend,
                ),
            ),
    {
        let to: usize = next_word_end(self.value.as_str(), self.caret_chars);
        self.jump_to(to, extend)
    }

    /// Puts the caret at the end of the value and drops the selection.
    pub fn place_caret_at_end(&mut self)
        requires
            old(self).wf(),
        ensures
            final(self).wf(),
            same_but_moment(
                final(self)@,
                moved(old(self)@, old(self)@.value.len() as int, false),
            ),
    {
        let end: usize = self.len_chars();
        self.go_to(end, false);
    }

    /// Advances the blink timer. Returns whether the caret flipped.
    pub fn tick_blink(&mut self, now: Instant) -> (flipped: bool)
        ensures
            (final(self)@, flipped) == blinked(old(self)@, now),
    {
        if clock::nanos_since(now, self.last_blink) >= BLINK_INTERVAL_MILLIS as u128
            * clock::NANOS_PER_MILLI {
            self.blink_visible = !self.blink_visible;
            self.last_blink = now;
            true
        } else {
            false
        }
    }

    pub fn blink_visible(&self) -> (visible: bool)
        ensures
            visible == self@.blink_visible,
    {
        self.blink_visible
    }

    /// The moment at which the caret flips next, where the platform can
    /// represent it.
    pub fn next_blink_at(&self) -> (moment: Option<Instant>)
        ensures
            blink_deadline(self@, moment),
    {
        clock::checked_add(self.last_blink, clock::from_millis(BLINK_INTERVAL_MILLIS))
    }

    /// Forces the caret visible and counts its blink from `now`.
    pub fn show_caret_from(&mut self, now: Instant)
        ensures
            final(self)@ == (InputModel { blink_visible: true, last_blink: now, ..old(self)@ }),
    {
        self.blink_visible = true;
        self.last_blink = now;
    }

    /// Forces the caret visible. Used after edits, so that the user sees an
    /// immediate response.
    fn touch_blink_on(&mut self)
        ensures
            same_but_moment(final(self)@, InputModel { blink_visible: true, ..old(self)@ }),
    {
        self.show_caret_from(clock::now());
    }

    /// The text that appears inside the input element, and whether it is the
    /// placeholder. The caret is painted separately, so it does not depend on
    /// the focus.
    pub fn render(&self, _focused: bool) -> (shown: (String, bool))
        ensures
            (shown.0@, shown.1) == rendered(self@),
    {
        let display = self.display();
        if display.as_str().is_empty() {
            if let Some(placeholder) = &self.placeholder {
                return (placeholder.clone(), true);
            }
        }
        (display, false)
    }

    fn display(&self) -> (display: String)
        ensures
            display@ == display_text(self@),
    {
        if self.is_checked_like() {
            if self.checked {
                "on".to_owned()
            } else {
                "off".to_owned()
            }
        } else if self.masked {
            let display = repeat_char(MASK_CHAR, self.len_chars());
            proof {
                assert(display@ =~= display_text(self@));
            }
            display
        } else {
            self.value.clone()
        }
    }

    fn byte_index_of(&self, char_idx: usize) -> (offset: usize)
        ensures
            offset == crate::text::byte_offset(self@.value, char_idx as nat),
    {
        char_index_to_byte_index(self.value.as_str(), char_idx)
    }

    fn go_to(&mut self, to: usize, extend: bool)
        requires
            old(self).wf(),
            to <= old(self)@.value.len(),
        ensures
            final(self).wf(),
            same_but_moment(final(self)@, moved(old(self)@, to as int, extend)),
    {
        self.caret_chars = to;
        if !extend {
            self.anchor_chars = to;
        }
        self.touch_blink_on();
    }

    fn jump_to(&mut self, to: usize, extend: bool) -> (done: bool)
        requires
            old(self).wf(),
            to <= old(self)@.value.len(),
        ensures
            final(self).wf(),
            edit_result(old(self)@, final(self)@, done, jumped(old(self)@, to as int, extend)),
    {
        if self.caret_chars == to && (extend || self.anchor_chars == to) {
            return false;
        }
        self.go_to(to, extend);
        true
    }

    fn erase(&mut self, to: usize) -> (done: bool)
        requires
            old(self).wf(),
            to <= old(self)@.value.len(),
        ensures
            final(self).wf(),
            edit_result(old(self)@, final(self)@, done, erased(old(self)@, to as int)),
    {
        if self.readonly {
            return false;
        }
        proof {
            reveal_strlit("");
            assert(""@ =~= Seq::<char>::empty());
        }
        if self.anchor_chars != self.caret_chars {
            self.replace(self.selection_start(), self.selection_end(), "");
            true
        } else if to < self.caret_chars {
            self.replace(to, self.caret_chars, "");
            true
        } else if to > self.caret_chars {
            self.replace(self.caret_chars, to, "");
            true
        } else {
            false
        }
    }

    fn replace(&mut self, from: usize, to: usize, text: &str)
        requires
            old(self).wf(),
            from <= to <= old(self)@.value.len(),
        ensures
            final(self).wf(),
            same_but_moment(final(self)@, replaced(old(self)@, from as int, to as int, text@)),
    {
        let value = splice(self.value.as_str(), from, to, text);
        let total: usize = value.as_str().unicode_len();
        assert(from + text@.len() <= total);
        let caret: usize = from + text.unicode_len();
        self.value = value;
        self.caret_chars = caret;
        self.anchor_chars = caret;
        self.touch_blink_on();
    }
}

/// A character that was typed without a selection is taken back by backspace:
/// value, caret and selection are as before.
pub proof fn backspace_undoes_insert(m: InputModel, ch: char)
    requires
        in_bounds(m),
        m.anchor == m.caret,
        !m.readonly,
    ensures
        typed(m, seq![ch]) matches Some(after) && erased(after, char_reach(after, false)) == Some(
            InputModel { blink_visible: true, ..m },
        ),
{
    let after = replaced(m, m.caret, m.caret, seq![ch]);
    let undone = replaced(after, after.caret - 1, after.caret, Seq::empty());
    assert(undone.value =~= m.value);
}

/// Pasting a text without a selection and deleting as many characters forward
/// from where the caret was gives the value back.
pub proof fn deleting_pasted_text_restores(m: InputModel, text: Seq<char>)
    requires
        in_bounds(m),
        m.anchor == m.caret,
        !m.readonly,
        text.len() > 0,
    ensures
        typed(m, text) matches Some(after) && erased(moved(after, m.caret, false), after.caret)
            == Some(InputModel { blink_visible: true, ..m }),
{
    let after = replaced(m, m.caret, m.caret, text);
    let undone = replaced(moved(after, m.caret, false), m.caret, after.caret, Seq::empty());
    assert(undone.value =~= m.value);
}

/// A read-only input refuses every insertion and every deletion.
pub proof fn readonly_refuses_edits(m: InputModel, text: Seq<char>, to: int)
    requires
        m.readonly,
    ensures
        typed(m, text) is None,
        erased(m, to) is None,
{
}

/// A step right and a step left bring the caret back, and the other way
/// round.
pub proof fn opposite_steps_cancel(m: InputModel, right: bool)
    requires
        in_bounds(m),
        m.anchor == m.caret,
        arrowed(m, right, false) is Some,
    ensures
        arrowed(arrowed(m, right, false)->0, !right, false) == Some(
            InputModel { blink_visible: true, ..m },
        ),
{
}

/// Every edit and every move leaves caret and selection within the value.
pub proof fn edits_stay_in_bounds(m: InputModel, text: Seq<char>, to: int, flag: bool, extend: bool)
    requires
        in_bounds(m),
        0 <= to <= m.value.len(),
    ensures
        typed(m, text) matches Some(after) ==> in_bounds(after),
        erased(m, to) matches Some(after) ==> in_bounds(after),
        arrowed(m, flag, extend) matches Some(after) ==> in_bounds(after),
        jumped(m, to, extend) matches Some(after) ==> in_bounds(after),
{
}

/// A masked text field shows one mask character per character of its value
/// and nothing else of it.
pub proof fn mask_hides_value(m: InputModel, i: int)
    requires
        m.masked,
        m.kind is Password || m.kind is Text || m.kind is Number || m.kind is Range,
        0 <= i < m.value.len(),
    ensures
        display_text(m).len() == m.value.len(),
        display_text(m)[i] == MASK_CHAR,
        rendered(m) == (display_text(m), false),
{
}

/// Whether two states agree in everything but value, caret, selection and blink.
pub open spec fn same_field(a: InputModel, b: InputModel) -> bool {
    &&& a.kind == b.kind
    &&& a.placeholder == b.placeholder
    &&& a.masked == b.masked
    &&& a.readonly == b.readonly
    &&& a.disabled == b.disabled
    &&& a.checked == b.checked
    &&& a.name == b.name
}

/// Delete removes exactly the character at the caret, and Backspace exactly the
/// one before it: the value loses that character and no other, and the caret ends
/// where the character was. At the end of the value Delete does nothing, and at
/// its start Backspace does nothing.
pub proof fn one_character_is_deleted(m: InputModel)
    requires
        in_bounds(m),
        m.anchor == m.caret,
        !m.readonly,
    ensures
        match erased(m, char_reach(m, true)) {
            Some(after) => {
                &&& m.caret < m.value.len()
                &&& after.value == m.value.take(m.caret) + m.value.skip(m.caret + 1)
                &&& after.value.len() == m.value.len() - 1
                &&& after.caret == m.caret
                &&& after.anchor == m.caret
                &&& same_field(after, m)
            },
            None => m.caret == m.value.len(),
        },
        match erased(m, char_reach(m, false)) {
            Some(after) => {
                &&& m.caret > 0
                &&& after.value == m.value.take(m.caret - 1) + m.value.skip(m.caret)
                &&& after.value.len() == m.value.len() - 1
                &&& after.caret == m.caret - 1
                &&& after.anchor == m.caret - 1
                &&& same_field(after, m)
            },
            None => m.caret == 0,
        },
{
    if let Some(after) = erased(m, char_reach(m, true)) {
        assert(after.value =~= m.value.take(m.caret) + m.value.skip(m.caret + 1));
    }
    if let Some(after) = erased(m, char_reach(m, false)) {
        assert(after.value =~= m.value.take(m.caret - 1) + m.value.skip(m.caret));
    }
}

/// Typing a character, stepping left over it and pressing Delete gives value and
/// caret back.
pub proof fn delete_undoes_insert(m: InputModel, ch: char)
    requires
        in_bounds(m),
        m.anchor == m.caret,
        !m.readonly,
    ensures
        ({
            let inserted = typed(m, seq![ch]);
            let back = arrowed(inserted->0, false, false);
            let undone = erased(back->0, char_reach(back->0, true));
            &&& inserted is Some
            &&& back is Some
            &&& undone is Some
            &&& (undone->0).value == m.value
            &&& (undone->0).caret == m.caret
            &&& (undone->0).anchor == m.caret
        }),
{
    let inserted = typed(m, seq![ch])->0;
    let back = arrowed(inserted, false, false)->0;
    let undone = erased(back, char_reach(back, true))->0;
    assert(undone.value =~= m.value);
}

/// Any deletion takes a selection out and nothing else, wherever it would have
/// reached without one: the text before and behind the selection stays, and the
/// caret stands between them.
pub proof fn selection_is_deleted(m: InputModel, to: int)
    requires
        in_bounds(m),
        m.anchor != m.caret,
        !m.readonly,
    ensures
        ({
            let low = if m.anchor < m.caret { m.anchor } else { m.caret };
            let high = if m.anchor < m.caret { m.caret } else { m.anchor };
            &&& erased(m, to) matches Some(after)
            &&& after.value == m.value.take(low) + m.value.skip(high)
            &&& after.caret == low
            &&& after.anchor == low
            &&& same_field(after, m)
        }),
{
    let low = if m.anchor < m.caret { m.anchor } else { m.caret };
    let high = if m.anchor < m.caret { m.caret } else { m.anchor };
    assert((erased(m, to)->0).value =~= m.value.take(low) + m.value.skip(high));
}

/// Without a selection, a deletion to another place takes out exactly the text
/// between the caret and that place.
pub proof fn stretch_is_deleted(m: InputModel, to: int)
    requires
        in_bounds(m),
        0 <= to <= m.value.len(),
        to != m.caret,
        m.anchor == m.caret,
        !m.readonly,
    ensures
        ({
            let low = if to < m.caret { to } else { m.caret };
            let high = if to < m.caret { m.caret } else { to };
            &&& erased(m, to) matches Some(after)
            &&& after.value == m.value.take(low) + m.value.skip(high)
            &&& after.caret == low
            &&& after.anchor == low
            &&& same_field(after, m)
        }),
{
    let low = if to < m.caret { to } else { m.caret };
    let high = if to < m.caret { m.caret } else { to };
    assert((erased(m, to)->0).value =~= m.value.take(low) + m.value.skip(high));
}

/// Typed text stands in place of the selection, between what was before and
/// behind it, with the caret at its end and nothing selected. Only an empty text
/// or a read-only field keeps it out.
pub proof fn typed_text_replaces_selection(m: InputModel, text: Seq<char>)
    requires
        in_bounds(m),
    ensures
        typed(m, text) is Some <==> !m.readonly && text.len() > 0,
        typed(m, text) matches Some(after) ==> {
            let low = if m.anchor < m.caret { m.anchor } else { m.caret };
            let high = if m.anchor < m.caret { m.caret } else { m.anchor };
            &&& after.value.len() == m.value.len() - (high - low) + text.len()
            &&& forall|i: int| 0 <= i < low ==> #[trigger] after.value[i] == m.value[i]
            &&& forall|i: int| 0 <= i < text.len() ==> after.value[low + i] == #[trigger] text[i]
            &&& forall|i: int|
                high <= i < m.value.len() ==> after.value[i - high + low + text.len()]
                    == #[trigger] m.value[i]
            &&& after.caret == low + text.len()
            &&& after.anchor == low + text.len()
            &&& after.blink_visible
            &&& same_field(after, m)
        },
{
}

/// An arrow key moves the caret by one character towards its side and drops the
/// selection; with a selection and without Shift, the caret goes to the edge of
/// the selection on that side. With Shift the other end of the selection stays.
/// The value never changes, and at the edge of the value nothing happens.
pub proof fn arrows_move_by_one(m: InputModel, right: bool, extend: bool)
    requires
        in_bounds(m),
    ensures
        match arrowed(m, right, extend) {
            Some(after) => {
                &&& after.value == m.value
                &&& same_field(after, m)
                &&& after.blink_visible
                &&& !extend ==> after.anchor == after.caret
                &&& extend ==> after.anchor == m.anchor
                &&& extend || m.anchor == m.caret ==> after.caret == m.caret + (if right {
                    1int
                } else {
                    -1
                })
                &&& !extend && m.anchor != m.caret && right ==> after.caret >= m.caret
                    && after.caret >= m.anchor && (after.caret == m.caret || after.caret
                    == m.anchor)
                &&& !extend && m.anchor != m.caret && !right ==> after.caret <= m.caret
                    && after.caret <= m.anchor && (after.caret == m.caret || after.caret
                    == m.anchor)
            },
            None => (extend || m.anchor == m.caret) && (if right {
                m.caret == m.value.len()
            } else {
                m.caret == 0
            }),
        },
{
}

/// A jump puts the caret where it goes. With Shift the other end of the
/// selection stays, without it nothing is selected afterwards. The value stays.
/// Nothing happens exactly where caret and selection are like that already.
pub proof fn jumps_arrive(m: InputModel, to: int, extend: bool)
    ensures
        match jumped(m, to, extend) {
            Some(after) => {
                &&& after.caret == to
                &&& after.anchor == (if extend { m.anchor } else { to })
                &&& after.value == m.value
                &&& same_field(after, m)
                &&& after.caret != m.caret || after.anchor != m.anchor
            },
            None => m.caret == to && (!extend ==> m.anchor == to),
        },
{
}

/// The selection reaches from the smaller of caret and anchor to the larger.
pub proof fn selection_lies_between(m: InputModel)
    ensures
        sel_start(m) <= m.caret <= sel_end(m),
        sel_start(m) <= m.anchor <= sel_end(m),
        sel_start(m) == m.caret || sel_start(m) == m.anchor,
        sel_end(m) == m.caret || sel_end(m) == m.anchor,
{
}

/// Selecting everything selects from the first character to the last and leaves
/// the value alone. Nothing happens where everything is selected that way already.
pub proof fn select_all_covers_value(m: InputModel)
    requires
        in_bounds(m),
    ensures
        match all_selected(m) {
            Some(after) => {
                &&& after.anchor == 0
                &&& after.caret == m.value.len()
                &&& after.value == m.value
                &&& same_field(after, m)
            },
            None => m.anchor == 0 && m.caret == m.value.len(),
        },
{
}

/// A selection within the value is taken over as it is; an end that lies outside
/// is taken to the nearest end of the value.
pub proof fn selection_is_taken_over(m: InputModel, anchor: int, focus: int)
    requires
        0 <= anchor,
        0 <= focus,
    ensures
        ({
            let after = selecting(m, anchor, focus);
            let top = m.value.len();
            &&& after.value == m.value
            &&& same_field(after, m)
            &&& focus <= top ==> after.caret == focus
            &&& focus > top ==> after.caret == top
            &&& anchor <= top ==> after.anchor == anchor
            &&& anchor > top ==> after.anchor == top
        }),
{
}

/// A value that is set stands in the field alone, with the caret at its end and
/// nothing selected. Setting the value that is there changes nothing.
pub proof fn set_value_stands_alone(m: InputModel, value: Seq<char>)
    ensures
        match revalued(m, value) {
            Some(after) => {
                &&& value != m.value
                &&& after.value == value
                &&& after.caret == value.len()
                &&& after.anchor == value.len()
                &&& after.blink_visible
                &&& same_field(after, m)
            },
            None => value == m.value,
        },
{
    if let Some(after) = revalued(m, value) {
        assert(after.value =~= value);
    }
}

/// Flipping an enabled checkbox changes its mark and nothing else, and flipping
/// it again gives the state back. A disabled one does not flip.
pub proof fn flipping_twice_restores(m: InputModel)
    ensures
        flipped(m) is Some <==> !m.disabled,
        flipped(m) matches Some(after) ==> {
            &&& after.checked != m.checked
            &&& after.value == m.value
            &&& after.caret == m.caret
            &&& after.anchor == m.anchor
            &&& after.kind == m.kind
            &&& after.name == m.name
            &&& after.disabled == m.disabled
            &&& flipped(after) == Some(m)
        },
{
}

/// A field shows its value as it is where it is neither masked nor a checkbox or
/// radio; these show whether they are checked. The placeholder is shown exactly
/// while there is nothing else to show.
pub proof fn fields_show_their_value(m: InputModel)
    ensures
        !m.masked && !(m.kind is Checkbox) && !(m.kind is Radio) ==> display_text(m) == m.value,
        m.kind is Checkbox || m.kind is Radio ==> (display_text(m) == "on"@ <==> m.checked),
        m.kind is Checkbox || m.kind is Radio ==> (display_text(m) == "off"@ <==> !m.checked),
        m.placeholder matches Some(hint) && display_text(m).len() == 0 ==> rendered(m) == (
            m.placeholder->0,
            true,
        ),
        display_text(m).len() > 0 || m.placeholder is None ==> rendered(m) == (
            display_text(m),
            false,
        ),
{
    reveal_strlit("on");
    reveal_strlit("off");
    assert("on"@.len() == 2 && "off"@.len() == 3);
}

/// A number field takes the ten digits, the point and the two signs, and no
/// other character.
pub proof fn numbers_are_written_in_digits(ch: char)
    ensures
        numeric_char(ch) <==> seq!['0', '1', '2', '3', '4', '5', '6', '7', '8', '9', '.', '-', '+'].contains(
            ch,
        ),
{
    let allowed = seq!['0', '1', '2', '3', '4', '5', '6', '7', '8', '9', '.', '-', '+'];
    if numeric_char(ch) {
        if '0' <= ch <= '9' {
            assert(allowed[ch as int - '0' as int] == ch);
        } else if ch == '.' {
            assert(allowed[10] == ch);
        } else if ch == '-' {
            assert(allowed[11] == ch);
        } else {
            assert(allowed[12] == ch);
        }
    }
}

/// Each type of input goes by its own name; any other name is a text field.
pub proof fn types_go_by_name(name: Seq<char>)
    ensures
        input_type(name) is Password <==> name == "password"@,
        input_type(name) is Number <==> name == "number"@,
        input_type(name) is Range <==> name == "range"@,
        input_type(name) is Checkbox <==> name == "checkbox"@,
        input_type(name) is Radio <==> name == "radio"@,
{
    reveal_strlit("password");
    reveal_strlit("number");
    reveal_strlit("range");
    reveal_strlit("checkbox");
    reveal_strlit("radio");
    assert("password"@[0] == 'p' && "number"@[0] == 'n' && "checkbox"@[0] == 'c');
    assert("range"@[1] == 'a' && "radio"@.len() == 5 && "range"@[2] == 'n' && "radio"@[2] == 'd');
    assert("range"@[0] == 'r' && "radio"@[0] == 'r');
}

/// The caret flips after half a second, not before, and is shown from the
/// moment of an edit on.
pub proof fn caret_flips_every_half_second(m: InputModel, now: Instant)
    ensures
        blinked(m, now).1 <==> clock::nanos_between(now, m.last_blink) >= 500_000_000,
        blinked(m, now).1 ==> blinked(m, now).0 == (InputModel {
            blink_visible: !m.blink_visible,
            last_blink: now,
            ..m
        }),
        !blinked(m, now).1 ==> blinked(m, now).0 == m,
{
}

/// Text, password and number fields hold text to edit and select. Checkboxes, radios
/// and ranges do not.
pub proof fn fields_that_hold_text(kind: InputType)
    ensures
        text_like(InputType::Text) && text_like(InputType::Password) && text_like(
            InputType::Number,
        ),
        kind is Checkbox || kind is Radio || kind is Range ==> !text_like(kind),
{
}

/// A new input is an empty text field with the caret shown at its start. It is neither
/// masked, read-only, disabled nor checked, and has no placeholder and no name.
pub proof fn new_inputs_are_empty(moment: Instant)
    ensures
        ({
            let m = empty_input(moment);
            &&& m.kind is Text && m.value.len() == 0
            &&& m.caret == 0 && m.anchor == 0 && m.blink_visible
            &&& !m.masked && !m.readonly && !m.disabled && !m.checked
            &&& m.placeholder is None && m.name is None
        }),
{
}

/// Selecting anything shows the caret at once.
pub proof fn selecting_shows_the_caret(m: InputModel, anchor: int, focus: int)
    ensures
        selecting(m, anchor, focus).blink_visible,
        all_selected(m) matches Some(after) ==> after.blink_visible,
{
}

/// An edit that has something to do reports that it was done and leaves what it aims at.
/// One that has nothing to do reports that and changes nothing.
pub proof fn edits_report_what_they_do(
    before: InputModel,
    after: InputModel,
    done: bool,
    target: Option<InputModel>,
)
    requires
        edit_result(before, after, done, target),
    ensures
        done <==> target is Some,
        !done ==> after == before,
        target matches Some(aim) ==> after.value == aim.value && after.caret == aim.caret
            && after.anchor == aim.anchor && after.checked == aim.checked && after.kind
            == aim.kind && after.name == aim.name && after.blink_visible == aim.blink_visible,
{
}

} // verus!
