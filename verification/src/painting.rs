//! What the document shows of native controls: displayed texts, the caret and
//! the selection.
use crate::input::InputState;
use crate::instance::Instance;
use crate::text::char_index_to_byte_index;
use vstd::prelude::*;

verus! {

/// The text that an input shows.
#[derive(Debug)]
pub struct InputText {
    pub node: usize,
    pub text: String,
    /// The text is the placeholder.
    pub placeholder: bool,
    /// The byte offset of the caret in the text.
    pub caret_byte: usize,
}

/// Whether `shown` is what an input shows.
pub open spec fn shows_input(entry: (usize, InputState), shown: InputText) -> bool {
    &&& shown.node == entry.0
    &&& (shown.text@, shown.placeholder) == crate::input::rendered(entry.1@)
    &&& shown.caret_byte == crate::text::byte_offset(
        crate::input::display_text(entry.1@),
        entry.1@.caret as nat,
    )
}

/// A stretch of selected text.
#[derive(Debug, Clone, Copy, PartialEq, Eq, Structural)]
pub struct SelectionSpan {
    pub node: usize,
    /// Where it starts and ends, in characters.
    pub start: usize,
    pub end: usize,
    /// Where it starts and ends, in bytes of the displayed text.
    pub start_byte: usize,
    pub end_byte: usize,
}

/// The label that a select shows, and its value.
#[derive(Debug)]
pub struct SelectText {
    pub label: String,
    pub value: String,
}

impl Instance {
    /// The input with the focus.
    pub open spec fn focused_input(&self) -> Option<(usize, InputState)> {
        match self.ui.focused {
            Some(node) => match self.inputs.at(node) {
                Some(state) => Some((node, state)),
                None => None,
            },
            None => None,
        }
    }

    /// What every input shows, in the order of their registration.
    pub fn input_texts(&self) -> (shown: Vec<InputText>)
        ensures
            shown@.len() == self.inputs@.len(),
            forall|i: int|
                0 <= i < shown@.len() ==> shows_input(self.inputs@[i], #[trigger] shown@[i]),
    {
        let mut shown: Vec<InputText> = Vec::new();
        let mut i: usize = 0;
        while i < self.inputs.len()
            invariant
                i <= self.inputs@.len(),
                shown@.len() == i,
                forall|k: int|
                    0 <= k < i ==> shows_input(self.inputs@[k], #[trigger] shown@[k]),
            decreases self.inputs@.len() - i,
        {
            let entry = self.inputs.entry(i);
            let (text, placeholder) = entry.1.render(false);
            shown.push(
                InputText {
                    node: entry.0,
                    text,
                    placeholder,
                    caret_byte: entry.1.display_caret_byte_index(),
                },
            );
            i += 1;
        }
        shown
    }

    /// The text to write into an input. A range input has none.
    pub fn input_text(&self, node: usize) -> (text: Option<String>)
        requires
            self.wf(),
        ensures
            match self.inputs.at(node) {
                Some(state) if !(state@.kind is Range) => text matches Some(text) && text@
                    == crate::input::rendered(state@).0,
                _ => text is None,
            },
    {
        match self.inputs.get(node) {
            Some(state) => if state.is_range() {
                None
            } else {
                Some(state.render(false).0)
            },
            None => None,
        }
    }

    /// The label to write into a select, and the value that it holds. Without
    /// a selection the value is empty.
    pub fn select_text(&self, node: usize) -> (shown: Option<SelectText>)
        requires
            self.wf(),
        ensures
            match self.selects.at(node) {
                Some(state) => {
                    &&& shown matches Some(shown)
                    &&& match crate::select::selected_option(state@) {
                        Some(option) => shown.label@ == option.label@ && shown.value@
                            == option.value@,
                        None => shown.label@.len() == 0 && shown.value@.len() == 0,
                    }
                },
                None => shown is None,
            },
    {
        match self.selects.get(node) {
            Some(state) => {
                let value = match state.selected_value() {
                    Some(value) => value.to_owned(),
                    None => String::new(),
                };
                Some(SelectText { label: state.current_label(), value })
            },
            None => None,
        }
    }

    /// The input whose caret is shown, with the caret's place in characters.
    pub fn shown_caret(&self) -> (caret: Option<(usize, usize)>)
        requires
            self.wf(),
        ensures
            match self.focused_input() {
                Some((node, state)) if state@.blink_visible => caret matches Some((at, chars))
                    && at == node && chars == state@.caret,
                _ => caret is None,
            },
    {
        match self.ui.focused {
            Some(node) => match self.inputs.get(node) {
                Some(state) => if state.blink_visible() {
                    Some((node, state.caret()))
                } else {
                    None
                },
                None => None,
            },
            None => None,
        }
    }

    /// The selection to show: that of the focused input, if it is a text field
    /// with anything selected.
    pub fn shown_selection(&self) -> (span: Option<SelectionSpan>)
        requires
            self.wf(),
        ensures
            match self.focused_input() {
                Some((node, state)) if crate::input::text_like(state@.kind)
                    && crate::input::sel_start(state@) != crate::input::sel_end(state@) => {
                    let text = crate::input::rendered(state@).0;
                    let start = crate::input::sel_start(state@);
                    let end = crate::input::sel_end(state@);
                    &&& span matches Some(span)
                    &&& span.node == node
                    &&& span.start == start
                    &&& span.end == end
                    &&& span.start_byte == crate::text::byte_offset(text, start as nat)
                    &&& span.end_byte == crate::text::byte_offset(text, end as nat)
                },
                _ => span is None,
            },
    {
        let node: usize = match self.ui.focused {
            Some(node) => node,
            None => return None,
        };
        let state = match self.inputs.get(node) {
            Some(state) => state,
            None => return None,
        };
        let start: usize = state.selection_start();
        let end: usize = state.selection_end();
        if start == end || !state.is_text_like() {
            return None;
        }
        let (text, _) = state.render(true);
        Some(
            SelectionSpan {
                node,
                start,
                end,
                start_byte: char_index_to_byte_index(text.as_str(), start),
                end_byte: char_index_to_byte_index(text.as_str(), end),
            },
        )
    }

    /// The input whose focus mark is to be hidden while the document paints,
    /// because its caret is painted on top. `document_focus` is the node that
    /// the document itself holds focused.
    pub fn masked_focus(&self, document_focus: Option<usize>) -> (node: Option<usize>)
        requires
            self.wf(),
        ensures
            node == (if self.focused_input() is Some && document_focus == self.ui.focused {
                self.ui.focused
            } else {
                None
            }),
    {
        match (self.ui.focused, document_focus) {
            (Some(node), Some(focus)) => if node == focus && self.inputs.contains_key(node) {
                Some(node)
            } else {
                None
            },
            _ => None,
        }
    }
}

/// An input is shown under its own node. A text field with a value shows the value,
/// without one its placeholder, and the caret stands behind the characters before it.
pub proof fn shown_inputs_are_their_own(entry: (usize, InputState), shown: InputText)
    requires
        shows_input(entry, shown),
    ensures
        shown.node == entry.0,
        ({
            let m = entry.1@;
            let plain = !(m.kind is Checkbox) && !(m.kind is Radio) && !m.masked;
            &&& plain && m.value.len() > 0 ==> shown.text@ == m.value && !shown.placeholder
            &&& plain && m.value.len() == 0 && m.placeholder is Some ==> shown.text@
                == m.placeholder->0 && shown.placeholder
            &&& plain ==> shown.caret_byte == crate::text::byte_offset(m.value, m.caret as nat)
        }),
{
}

/// The focused input is the one registered at the node with the focus.
pub proof fn focused_input_has_the_focus(instance: Instance, node: usize, state: InputState)
    ensures
        instance.ui.focused == Some(node) && instance.inputs.at(node) == Some(state)
            ==> instance.focused_input() == Some((node, state)),
        instance.ui.focused is None ==> instance.focused_input() is None,
        instance.ui.focused == Some(node) && instance.inputs.at(node) is None
            ==> instance.focused_input() is None,
{
}

} // verus!
