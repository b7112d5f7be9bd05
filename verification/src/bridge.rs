//! Rules of the script-to-document bridge: what setting a property means,
//! which handler an event reaches, and which stylesheet a change concerns.
use crate::input::{InputModel, InputState};
use crate::inputs::index_of_id;
use crate::instance::Instance;
use crate::select::SelectState;
use crate::text::{
    has_prefix, join_text, lowercase, push_char, same, split_text, to_ascii_lowercase_text,
};
use vstd::prelude::*;
use vstd::string::{StrSliceExecFns, StringExecFns};

verus! {

/// The characters that separate class tokens and that trimming removes.
pub open spec fn script_space(ch: char) -> bool {
    let code = ch as u32;
    0x9 <= code <= 0xd || code == 0x20 || code == 0xa0 || code == 0x1680 || 0x2000 <= code
        <= 0x200a || code == 0x2028 || code == 0x2029 || code == 0x202f || code == 0x205f || code
        == 0x3000 || code == 0xfeff
}

fn is_script_space(ch: char) -> (space: bool)
    ensures
        space == script_space(ch),
{
    let code: u32 = ch as u32;
    (0x9 <= code && code <= 0xd) || code == 0x20 || code == 0xa0 || code == 0x1680 || (0x2000
        <= code && code <= 0x200a) || code == 0x2028 || code == 0x2029 || code == 0x202f || code
        == 0x205f || code == 0x3000 || code == 0xfeff
}

/// The tokens of a class attribute: the runs of characters between spaces.
pub open spec fn class_tokens(text: Seq<char>) -> Seq<Seq<char>>
    decreases text.len(),
{
    if text.len() == 0 {
        Seq::empty()
    } else {
        let before = class_tokens(text.drop_last());
        if script_space(text.last()) {
            before
        } else if text.len() > 1 && !script_space(text[text.len() - 2]) {
            before.drop_last().push(before.last().push(text.last()))
        } else {
            before.push(seq![text.last()])
        }
    }
}

fn tokenize(text: &str) -> (tokens: Vec<String>)
    ensures
        crate::text::texts(tokens@) == class_tokens(text@),
{
    let mut tokens: Vec<String> = Vec::new();
    let mut token = String::new();
    let count: usize = text.unicode_len();
    let mut i: usize = 0;
    while i < count
        invariant
            i <= count,
            count == text@.len(),
            token@.len() == 0 <==> (i == 0 || script_space(text@[i - 1])),
            class_tokens(text@.take(i as int)) == (if token@.len() == 0 {
                crate::text::texts(tokens@)
            } else {
                crate::text::texts(tokens@).push(token@)
            }),
        decreases count - i,
    {
        let ch = text.get_char(i);
        let ghost done = crate::text::texts(tokens@);
        let ghost open = token@;
        proof {
            assert(text@.take(i + 1).drop_last() =~= text@.take(i as int));
            assert(done.push(open).drop_last() =~= done);
        }
        if is_script_space(ch) {
            if !token.as_str().is_empty() {
                tokens.push(token);
                token = String::new();
                proof {
                    assert(crate::text::texts(tokens@) =~= done.push(open));
                }
            }
        } else {
            push_char(&mut token, ch);
            proof {
                if open.len() == 0 {
                    assert(token@ =~= seq![ch]);
                }
            }
        }
        i += 1;
    }
    proof {
        assert(text@.take(i as int) =~= text@);
        assert(crate::text::texts(tokens@.push(token)) =~= crate::text::texts(tokens@).push(
            token@,
        ));
    }
    if !token.as_str().is_empty() {
        tokens.push(token);
    }
    tokens
}

/// The first position of `token` at or after `from`.
pub open spec fn token_index(tokens: Seq<Seq<char>>, token: Seq<char>, from: int) -> Option<int>
    decreases tokens.len() - from,
{
    if from < 0 || from >= tokens.len() {
        None
    } else if tokens[from] == token {
        Some(from)
    } else {
        token_index(tokens, token, from + 1)
    }
}

/// The tokens with `token` present or absent. An absent token is appended; a
/// present one is removed at its first occurrence.
pub open spec fn toggled_tokens(tokens: Seq<Seq<char>>, token: Seq<char>, active: bool) -> Seq<
    Seq<char>,
> {
    match token_index(tokens, token, 0) {
        Some(at) => if active {
            tokens
        } else {
            tokens.remove(at)
        },
        None => if active {
            tokens.push(token)
        } else {
            tokens
        },
    }
}

/// The class attribute `current` with `token` switched on or off.
pub open spec fn toggled_class(current: Seq<char>, token: Seq<char>, active: bool) -> Seq<char> {
    crate::text::joined(toggled_tokens(class_tokens(current), token, active), " "@)
}

/// The class attribute `current` with `token` switched on or off.
pub fn toggle_class(current: &str, token: &str, active: bool) -> (class: String)
    ensures
        class@ == toggled_class(current@, token@, active),
{
    let mut tokens = tokenize(current);
    let ghost before = crate::text::texts(tokens@);
    let mut found: Option<usize> = None;
    let mut i: usize = 0;
    while i < tokens.len() && found.is_none()
        invariant
            i <= tokens@.len(),
            before == crate::text::texts(tokens@),
            match found {
                Some(at) => at < tokens@.len() && token_index(before, token@, 0) == Some(at as int),
                None => token_index(before, token@, 0) == token_index(before, token@, i as int),
            },
        decreases tokens@.len() - i, found.is_none() as int,
    {
        assert(before[i as int] == tokens@[i as int]@);
        if same(tokens[i].as_str(), token) {
            found = Some(i);
        } else {
            i += 1;
        }
    }
    match found {
        Some(at) => {
            if !active {
                let _removed = tokens.remove(at);
                proof {
                    assert(crate::text::texts(tokens@) =~= before.remove(at as int));
                }
            }
        },
        None => {
            if active {
                tokens.push(token.to_owned());
                proof {
                    assert(crate::text::texts(tokens@) =~= before.push(token@));
                }
            }
        },
    }
    join_text(&tokens, " ")
}

/// Where the spaces at the start of a text end.
pub open spec fn spaces_end(text: Seq<char>, from: int) -> int
    decreases text.len() - from,
{
    if from < 0 || from >= text.len() || !script_space(text[from]) {
        from
    } else {
        spaces_end(text, from + 1)
    }
}

/// Where the spaces that end at `to` start.
pub open spec fn spaces_start(text: Seq<char>, from: int, to: int) -> int
    decreases to - from,
{
    if to <= from || to > text.len() || !script_space(text[to - 1]) {
        to
    } else {
        spaces_start(text, from, to - 1)
    }
}

/// A text without the spaces at its ends.
pub open spec fn script_trimmed(text: Seq<char>) -> Seq<char> {
    let start = spaces_end(text, 0);
    text.subrange(start, spaces_start(text, start, text.len() as int))
}

fn script_trim(text: &str) -> (inner: &str)
    ensures
        inner@ == script_trimmed(text@),
{
    let count: usize = text.unicode_len();
    let mut start: usize = 0;
    while start < count && is_script_space(text.get_char(start))
        invariant
            start <= count,
            count == text@.len(),
            spaces_end(text@, 0) == spaces_end(text@, start as int),
        decreases count - start,
    {
        start += 1;
    }
    let mut end: usize = count;
    while end > start && is_script_space(text.get_char(end - 1))
        invariant
            start <= end <= count,
            count == text@.len(),
            spaces_start(text@, start as int, count as int) == spaces_start(
                text@,
                start as int,
                end as int,
            ),
        decreases end,
    {
        end -= 1;
    }
    text.substring_char(start, end)
}

/// The name of a style declaration: what stands before its first colon.
pub open spec fn declared_name(declaration: Seq<char>) -> Option<Seq<char>> {
    let parts = crate::text::split_parts(declaration, ':');
    if parts.len() > 1 {
        Some(script_trimmed(parts[0]))
    } else {
        None
    }
}

/// A declaration as text.
pub open spec fn declaration(prop: Seq<char>, value: Seq<char>) -> Seq<char> {
    prop + ": "@ + value
}

/// The declarations among the first `upto` parts of a style attribute, with
/// those of `prop` replaced by `value`, or dropped without a value. Empty
/// parts are dropped too.
pub open spec fn restyled(
    parts: Seq<Seq<char>>,
    prop: Seq<char>,
    value: Option<Seq<char>>,
    upto: int,
) -> Seq<Seq<char>>
    decreases upto,
{
    if upto <= 0 {
        Seq::empty()
    } else {
        let before = restyled(parts, prop, value, upto - 1);
        let part = script_trimmed(parts[upto - 1]);
        if part.len() == 0 {
            before
        } else if declared_name(part) == Some(prop) {
            match value {
                Some(value) => before.push(declaration(prop, value)),
                None => before,
            }
        } else {
            before.push(part)
        }
    }
}

/// Whether one of the first `upto` parts of a style attribute declares
/// `prop`.
pub open spec fn declares(parts: Seq<Seq<char>>, prop: Seq<char>, upto: int) -> bool
    decreases upto,
{
    upto > 0 && (declares(parts, prop, upto - 1) || (script_trimmed(parts[upto - 1]).len() > 0
        && declared_name(script_trimmed(parts[upto - 1])) == Some(prop)))
}

/// The value of a declaration that is to be set. The empty value sets none.
pub open spec fn set_value_of(value: Option<Seq<char>>) -> Option<Seq<char>> {
    match value {
        Some(value) => if value.len() == 0 {
            None
        } else {
            Some(value)
        },
        None => None,
    }
}

/// The declarations of a style attribute with `prop` set to `value`: in place
/// where it is declared, else at the end.
pub open spec fn style_with(current: Seq<char>, prop: Seq<char>, value: Option<Seq<char>>) -> Seq<
    Seq<char>,
> {
    let parts = crate::text::split_parts(current, ';');
    let count = parts.len() as int;
    let kept = restyled(parts, prop, set_value_of(value), count);
    match set_value_of(value) {
        Some(value) => if declares(parts, prop, count) {
            kept
        } else {
            kept.push(declaration(prop, value))
        },
        None => kept,
    }
}

fn declares_prop(part: &str, prop: &str) -> (found: bool)
    ensures
        found == (declared_name(part@) == Some(prop@)),
{
    let parts = split_text(part, ':');
    proof {
        assert(crate::text::texts(parts@).len() == parts@.len());
    }
    if parts.len() > 1 {
        assert(crate::text::texts(parts@)[0] == parts@[0]@);
        same(script_trim(parts[0].as_str()), prop)
    } else {
        false
    }
}

fn declaration_text(prop: &str, value: &str) -> (text: String)
    ensures
        text@ == declaration(prop@, value@),
{
    let mut text = prop.to_owned();
    text.append(": ");
    text.append(value);
    text
}

/// The style attribute `current` with the declaration of `prop` set to
/// `value`, or removed when there is no value or an empty one. Other
/// declarations stay as they are.
pub fn set_style_decl(current: &str, prop: &str, value: Option<&str>) -> (style: String)
    ensures
        style@ == crate::text::joined(
            style_with(
                current@,
                prop@,
                match value {
                    Some(value) => Some(value@),
                    None => None,
                },
            ),
            "; "@,
        ),
{
    let wanted: Option<&str> = match value {
        Some(value) => if value.is_empty() {
            None
        } else {
            Some(value)
        },
        None => None,
    };
    let parts = split_text(current, ';');
    let ghost texts = crate::text::texts(parts@);
    let ghost set = match wanted {
        Some(value) => Some(value@),
        None => None,
    };
    let mut out: Vec<String> = Vec::new();
    let mut found = false;
    let mut i: usize = 0;
    proof {
        assert(crate::text::texts(out@) =~= restyled(texts, prop@, set, 0));
    }
    while i < parts.len()
        invariant
            i <= parts@.len(),
            texts == crate::text::texts(parts@),
            set == (match wanted {
                Some(value) => Some(value@),
                None => None,
            }),
            found == declares(texts, prop@, i as int),
            crate::text::texts(out@) == restyled(texts, prop@, set, i as int),
        decreases parts@.len() - i,
    {
        let ghost before = out@;
        assert(texts[i as int] == parts@[i as int]@);
        let part = script_trim(parts[i].as_str());
        if !part.is_empty() {
            if declares_prop(part, prop) {
                if let Some(value) = wanted {
                    out.push(declaration_text(prop, value));
                    proof {
                        assert(crate::text::texts(out@) =~= crate::text::texts(before).push(
                            declaration(prop@, value@),
                        ));
                    }
                }
                found = true;
            } else {
                out.push(part.to_owned());
                proof {
                    assert(crate::text::texts(out@) =~= crate::text::texts(before).push(part@));
                }
            }
        }
        i += 1;
    }
    if let Some(value) = wanted {
        if !found {
            let ghost before = out@;
            out.push(declaration_text(prop, value));
            proof {
                assert(crate::text::texts(out@) =~= crate::text::texts(before).push(
                    declaration(prop@, value@),
                ));
            }
        }
    }
    join_text(&out, "; ")
}

/// The event that a handler property names: `on:event` or `onEvent`, in
/// lowercase.
pub open spec fn event_of(key: Seq<char>) -> Option<Seq<char>> {
    if crate::text::starts_with(key, "on:"@) {
        Some(crate::text::lowered(key.skip(3)))
    } else if crate::text::starts_with(key, "on"@) && key.len() > 2 {
        Some(crate::text::lowered(key.skip(2)))
    } else {
        None
    }
}

/// The event that a handler property names, if it names one.
pub fn extract_event_name(key: &str) -> (event: Option<String>)
    ensures
        match event {
            Some(event) => event_of(key@) == Some(event@),
            None => event_of(key@) is None,
        },
{
    proof {
        reveal_strlit("on:");
        reveal_strlit("on");
    }
    let count: usize = key.unicode_len();
    if has_prefix(key, "on:") {
        proof {
            assert(key@.subrange(3, count as int) =~= key@.skip(3));
        }
        Some(lowercase(key.substring_char(3, count)))
    } else if has_prefix(key, "on") && count > 2 {
        proof {
            assert(key@.subrange(2, count as int) =~= key@.skip(2));
        }
        Some(lowercase(key.substring_char(2, count)))
    } else {
        None
    }
}

/// The kinds of value that a script sets a property to.
#[derive(Debug, Clone, Copy, PartialEq, Eq, Structural)]
pub enum PropertyValue {
    /// A function.
    Function,
    /// Null or undefined.
    Nothing,
    /// Any other value, which is taken as text.
    Text,
}

/// What setting a property means.
#[derive(Debug)]
pub enum PropertyRoute {
    /// Switch a class token on or off by the truth of the value.
    ToggleClass(String),
    /// Set one style declaration.
    StyleDecl(String),
    /// Store the value as the handler of an event.
    SetHandler(String),
    /// Drop the handler of an event.
    RemoveHandler(String),
    /// Set an attribute to the value as text.
    Attribute(String),
    /// Do nothing.
    Ignore,
}

/// What a [`PropertyRoute`] holds.
pub enum Route {
    ToggleClass(Seq<char>),
    StyleDecl(Seq<char>),
    SetHandler(Seq<char>),
    RemoveHandler(Seq<char>),
    Attribute(Seq<char>),
    Ignore,
}

impl View for PropertyRoute {
    type V = Route;

    open spec fn view(&self) -> Route {
        match *self {
            PropertyRoute::ToggleClass(token) => Route::ToggleClass(token@),
            PropertyRoute::StyleDecl(prop) => Route::StyleDecl(prop@),
            PropertyRoute::SetHandler(event) => Route::SetHandler(event@),
            PropertyRoute::RemoveHandler(event) => Route::RemoveHandler(event@),
            PropertyRoute::Attribute(key) => Route::Attribute(key@),
            PropertyRoute::Ignore => Route::Ignore,
        }
    }
}

/// What setting the property `key` to a value of the given kind means.
/// `className` stands for `class`; `class:` and `style:` are directives;
/// functions become handlers, other values attributes, and nothing removes a
/// handler.
pub open spec fn property_route(key: Seq<char>, value: PropertyValue) -> Route {
    if crate::text::starts_with(key, "class:"@) {
        Route::ToggleClass(key.skip(6))
    } else if crate::text::starts_with(key, "style:"@) {
        Route::StyleDecl(key.skip(6))
    } else {
        match value {
            PropertyValue::Function => match event_of(key) {
                Some(event) => Route::SetHandler(event),
                None => Route::Ignore,
            },
            PropertyValue::Text => Route::Attribute(
                if key == "className"@ {
                    "class"@
                } else {
                    key
                },
            ),
            PropertyValue::Nothing => match event_of(key) {
                Some(event) => Route::RemoveHandler(event),
                None => Route::Ignore,
            },
        }
    }
}

/// Decides what setting the property `key` to a value of the given kind
/// means.
pub fn route_property(key: &str, value: PropertyValue) -> (route: PropertyRoute)
    ensures
        route@ == property_route(key@, value),
{
    proof {
        reveal_strlit("class:");
        reveal_strlit("style:");
    }
    let count: usize = key.unicode_len();
    if has_prefix(key, "class:") {
        proof {
            assert(key@.subrange(6, count as int) =~= key@.skip(6));
        }
        return PropertyRoute::ToggleClass(key.substring_char(6, count).to_owned());
    }
    if has_prefix(key, "style:") {
        proof {
            assert(key@.subrange(6, count as int) =~= key@.skip(6));
        }
        return PropertyRoute::StyleDecl(key.substring_char(6, count).to_owned());
    }
    match value {
        PropertyValue::Function => match extract_event_name(key) {
            Some(event) => PropertyRoute::SetHandler(event),
            None => PropertyRoute::Ignore,
        },
        PropertyValue::Text => if same(key, "className") {
            PropertyRoute::Attribute("class".to_owned())
        } else {
            PropertyRoute::Attribute(key.to_owned())
        },
        PropertyValue::Nothing => match extract_event_name(key) {
            Some(event) => PropertyRoute::RemoveHandler(event),
            None => PropertyRoute::Ignore,
        },
    }
}

/// The state of an input after the attribute `key` was set to `value`.
pub open spec fn with_attribute(m: InputModel, key: Seq<char>, value: Seq<char>) -> InputModel {
    if key == "value"@ {
        if value == m.value {
            m
        } else {
            crate::input::replaced(m, 0, m.value.len() as int, value)
        }
    } else if key == "placeholder"@ {
        InputModel { placeholder: Some(value), ..m }
    } else if key == "type"@ {
        let name = crate::text::ascii_lower_text(value);
        InputModel { kind: crate::input::input_type(name), masked: name == "password"@, ..m }
    } else if key == "readonly"@ {
        InputModel { readonly: value.len() > 0, ..m }
    } else if key == "disabled"@ {
        InputModel { disabled: true, ..m }
    } else if key == "name"@ {
        InputModel { name: Some(value), ..m }
    } else {
        m
    }
}

impl InputState {
    /// Mirrors an attribute that a script set on the input: value,
    /// placeholder, type, read-only and disabled flags, and the name of a
    /// radio group. Other attributes do not concern the input's state.
    pub fn set_attribute(&mut self, key: &str, value: &str)
        requires
            old(self).wf(),
        ensures
            final(self).wf(),
            crate::input::same_but_moment(
                final(self)@,
                with_attribute(old(self)@, key@, value@),
            ),
    {
        if same(key, "value") {
            self.set_value(value);
        } else if same(key, "placeholder") {
            self.set_placeholder(Some(value.to_owned()));
        } else if same(key, "type") {
            let name = to_ascii_lowercase_text(value);
            self.set_type(name.as_str());
        } else if same(key, "readonly") {
            self.set_readonly(!value.is_empty());
        } else if same(key, "disabled") {
            self.set_disabled(true);
        } else if same(key, "name") {
            self.set_name(Some(value.to_owned()));
        }
    }
}

/// The native control that an element is.
#[derive(Debug, Clone, Copy, PartialEq, Eq, Structural)]
pub enum ControlTag {
    Input,
    Select,
    Other,
}

/// The native control that a tag stands for, in any case.
pub open spec fn tag_control(tag: Seq<char>) -> ControlTag {
    let lower = crate::text::ascii_lower_text(tag);
    if lower == "input"@ {
        ControlTag::Input
    } else if lower == "select"@ {
        ControlTag::Select
    } else {
        ControlTag::Other
    }
}

/// The native control that a tag stands for, in any case.
pub fn control_of_tag(tag: &str) -> (control: ControlTag)
    ensures
        control == tag_control(tag@),
{
    let lower = to_ascii_lowercase_text(tag);
    if same(lower.as_str(), "input") {
        ControlTag::Input
    } else if same(lower.as_str(), "select") {
        ControlTag::Select
    } else {
        ControlTag::Other
    }
}

impl Instance {
    /// Notes that a script created an element. Inputs and selects are
    /// registered; both show their text in a child that the host adds. Returns
    /// the control that the element is.
    pub fn element_created(&mut self, node: usize, tag: &str) -> (control: ControlTag)
        requires
            old(self).wf(),
        ensures
            final(self).wf(),
            control == tag_control(tag@),
            final(self).same_but_controls(old(self)),
            final(self).ui == old(self).ui,
            if control is Input {
                &&& final(self).inputs.at(node) matches Some(state) && state@
                    == crate::input::empty_input(state@.last_blink)
                &&& forall|other: usize|
                    other != node ==> final(self).inputs.at(other) == old(self).inputs.at(other)
            } else {
                final(self).inputs@ == old(self).inputs@
            },
            if control is Select {
                &&& final(self).selects.at(node) matches Some(state) && state@
                    == crate::select::empty_select()
                &&& forall|other: usize|
                    other != node ==> final(self).selects.at(other) == old(self).selects.at(other)
            } else {
                final(self).selects@ == old(self).selects@
            },
    {
        let control = control_of_tag(tag);
        match control {
            ControlTag::Input => {
                let state: InputState = Default::default();
                self.inputs.insert(node, state);
                proof {
                    assert forall|i: int| 0 <= i < self.inputs@.len() implies (
                    #[trigger] self.inputs@[i]).1.wf() by {
                        if i < old(self).inputs@.len() {
                            assert(old(self).inputs@[i].1.wf());
                        }
                    }
                }
            },
            ControlTag::Select => {
                let state: SelectState = Default::default();
                self.selects.insert(node, state);
            },
            ControlTag::Other => {},
        }
        control
    }

    /// Mirrors an attribute that a script set on a node into the input
    /// registered for it.
    pub fn set_attribute(&mut self, node: usize, key: &str, value: &str)
        requires
            old(self).wf(),
        ensures
            final(self).wf(),
            final(self).same_but_inputs(old(self)),
            final(self).ui == old(self).ui,
            crate::registry::changed_only(old(self).inputs@, final(self).inputs@, node),
            match old(self).inputs.at(node) {
                Some(before) => final(self).inputs.at(node) matches Some(after)
                    && crate::input::same_but_moment(
                    after@,
                    with_attribute(before@, key@, value@),
                ),
                None => final(self).inputs@ == old(self).inputs@,
            },
    {
        if let Some(slot) = self.inputs.position(node) {
            self.inputs.state_mut(slot).set_attribute(key, value);
        }
    }
}

/// The nearest `<style>` element of a chain of nodes, each with whether it is
/// one.
pub open spec fn nearest_style(chain: Seq<(usize, bool)>, from: int) -> Option<usize>
    decreases chain.len() - from,
{
    if from < 0 || from >= chain.len() {
        None
    } else if chain[from].1 {
        Some(chain[from].0)
    } else {
        nearest_style(chain, from + 1)
    }
}

/// The `<style>` element that a node belongs to. `chain` is the node followed
/// by its ancestors, each with whether it is a `<style>` element.
pub fn enclosing_style_element(chain: &Vec<(usize, bool)>) -> (style: Option<usize>)
    ensures
        style == nearest_style(chain@, 0),
{
    let mut i: usize = 0;
    while i < chain.len()
        invariant
            i <= chain@.len(),
            nearest_style(chain@, 0) == nearest_style(chain@, i as int),
        decreases chain@.len() - i,
    {
        if chain[i].1 {
            return Some(chain[i].0);
        }
        i += 1;
    }
    None
}

/// The `<style>` element whose stylesheet an insertion concerns: one that
/// holds the parent, or else one that holds the inserted node.
pub fn style_to_refresh(parent: &Vec<(usize, bool)>, node: &Vec<(usize, bool)>) -> (style: Option<
    usize,
>)
    ensures
        style == style_concerned(parent@, node@),
{
    match enclosing_style_element(parent) {
        Some(style) => Some(style),
        None => enclosing_style_element(node),
    }
}

/// The node that follows `node` among the children of its parent.
pub fn next_sibling(children: &Vec<usize>, node: usize) -> (next: Option<usize>)
    ensures
        next == sibling_after(children@, node),
{
    match index_of_id(children, node) {
        Some(at) => if at < children.len() - 1 {
            Some(children[at + 1])
        } else {
            None
        },
        None => None,
    }
}

/// The events that nodes have handlers for.
#[derive(Debug)]
pub struct HandlerSet {
    entries: Vec<(usize, String)>,
}

/// The node and event of each entry.
pub open spec fn handled(entries: Seq<(usize, String)>) -> Set<(usize, Seq<char>)> {
    Set::new(
        |key: (usize, Seq<char>)|
            exists|i: int|
                0 <= i < entries.len() && (#[trigger] entries[i]).0 == key.0 && entries[i].1@
                    == key.1,
    )
}

impl View for HandlerSet {
    type V = Set<(usize, Seq<char>)>;

    closed spec fn view(&self) -> Set<(usize, Seq<char>)> {
        handled(self.entries@)
    }
}

/// The nearest node of `chain` with a handler for `event`.
pub open spec fn handler_up(
    handlers: Set<(usize, Seq<char>)>,
    chain: Seq<usize>,
    event: Seq<char>,
    from: int,
) -> Option<usize>
    decreases chain.len() - from,
{
    if from < 0 || from >= chain.len() {
        None
    } else if handlers.contains((chain[from], event)) {
        Some(chain[from])
    } else {
        handler_up(handlers, chain, event, from + 1)
    }
}

/// The handlers after a property of `node` was set and meant `route`.
pub open spec fn handlers_after(
    handlers: Set<(usize, Seq<char>)>,
    node: usize,
    route: Route,
) -> Set<(usize, Seq<char>)> {
    match route {
        Route::SetHandler(event) => handlers.insert((node, event)),
        Route::RemoveHandler(event) => handlers.remove((node, event)),
        _ => handlers,
    }
}

impl HandlerSet {
    /// No handlers.
    pub fn new() -> (handlers: Self)
        ensures
            handlers@ == Set::<(usize, Seq<char>)>::empty(),
    {
        let handlers = HandlerSet { entries: Vec::new() };
        proof {
            assert(handlers@ =~= Set::empty());
        }
        handlers
    }

    /// Whether the node has a handler for the event.
    pub fn contains(&self, node: usize, event: &str) -> (found: bool)
        ensures
            found == self@.contains((node, event@)),
    {
        let mut i: usize = 0;
        while i < self.entries.len()
            invariant
                i <= self.entries@.len(),
                forall|k: int|
                    0 <= k < i ==> !((#[trigger] self.entries@[k]).0 == node
                        && self.entries@[k].1@ == event@),
            decreases self.entries@.len() - i,
        {
            if self.entries[i].0 == node && same(self.entries[i].1.as_str(), event) {
                return true;
            }
            i += 1;
        }
        false
    }

    /// Notes a handler of the node for the event.
    pub fn insert(&mut self, node: usize, event: String)
        ensures
            final(self)@ == old(self)@.insert((node, event@)),
    {
        if !self.contains(node, event.as_str()) {
            let ghost before = self.entries@;
            self.entries.push((node, event));
            proof {
                let key = (node, event@);
                assert forall|other: (usize, Seq<char>)| #[trigger] handled(
                    self.entries@,
                ).contains(other) == (handled(before).contains(other) || other == key) by {
                    if handled(before).contains(other) {
                        let i = choose|i: int|
                            0 <= i < before.len() && (#[trigger] before[i]).0 == other.0
                                && before[i].1@ == other.1;
                        assert(self.entries@[i] == before[i]);
                    }
                    assert(self.entries@[before.len() as int] == (node, event));
                    if handled(self.entries@).contains(other) && other != key {
                        let i = choose|i: int|
                            0 <= i < self.entries@.len() && (#[trigger] self.entries@[i]).0
                                == other.0 && self.entries@[i].1@ == other.1;
                        assert(before[i] == self.entries@[i]);
                    }
                }
                assert(self@ =~= old(self)@.insert(key));
            }
        } else {
            proof {
                assert(self@ =~= old(self)@.insert((node, event@)));
            }
        }
    }

    /// Forgets the handler of the node for the event.
    pub fn remove(&mut self, node: usize, event: &str)
        ensures
            final(self)@ == old(self)@.remove((node, event@)),
    {
        let ghost before = self.entries@;
        let ghost key = (node, event@);
        let mut kept: Vec<(usize, String)> = Vec::new();
        let mut i: usize = 0;
        while i < self.entries.len()
            invariant
                before == self.entries@,
                key == (node, event@),
                i <= before.len(),
                forall|other: (usize, Seq<char>)| #[trigger]
                    handled(kept@).contains(other) == (other != key && exists|k: int|
                        0 <= k < i && (#[trigger] before[k]).0 == other.0 && before[k].1@
                            == other.1),
            decreases before.len() - i,
        {
            let ghost so_far = kept@;
            let ghost entry = before[i as int];
            if !(self.entries[i].0 == node && same(self.entries[i].1.as_str(), event)) {
                kept.push((self.entries[i].0, self.entries[i].1.clone()));
            }
            proof {
                assert forall|other: (usize, Seq<char>)| #[trigger] handled(kept@).contains(other)
                    == (other != key && exists|k: int|
                    0 <= k < i + 1 && (#[trigger] before[k]).0 == other.0 && before[k].1@
                        == other.1) by {
                    let own = (entry.0, entry.1@);
                    if handled(kept@).contains(other) {
                        let k = choose|k: int|
                            0 <= k < kept@.len() && (#[trigger] kept@[k]).0 == other.0
                                && kept@[k].1@ == other.1;
                        if k < so_far.len() {
                            assert(so_far[k] == kept@[k]);
                            assert(handled(so_far).contains(other));
                        } else {
                            assert(before[i as int].0 == other.0 && before[i as int].1@
                                == other.1);
                        }
                    }
                    if handled(so_far).contains(other) {
                        let k = choose|k: int|
                            0 <= k < so_far.len() && (#[trigger] so_far[k]).0 == other.0
                                && so_far[k].1@ == other.1;
                        assert(kept@[k] == so_far[k]);
                        assert(handled(kept@).contains(other));
                    }
                    if own == other && own != key {
                        assert(kept@[so_far.len() as int].0 == other.0);
                        assert(kept@[so_far.len() as int].1@ == other.1);
                        assert(handled(kept@).contains(other));
                    }
                }
            }
            i += 1;
        }
        self.entries = kept;
        proof {
            assert(self@ =~= old(self)@.remove(key));
        }
    }

    /// Takes note that a property of `node` was set and means `route`.
    pub fn property_set(&mut self, node: usize, route: &PropertyRoute)
        ensures
            final(self)@ == handlers_after(old(self)@, node, route@),
    {
        match route {
            PropertyRoute::SetHandler(event) => self.insert(node, event.clone()),
            PropertyRoute::RemoveHandler(event) => self.remove(node, event.as_str()),
            _ => {},
        }
    }

    /// The nearest node of `chain` that has a handler for `event`. `chain` is
    /// a node followed by its ancestors.
    pub fn find_handler_up(&self, chain: &Vec<usize>, event: &str) -> (node: Option<usize>)
        ensures
            node == handler_up(self@, chain@, event@, 0),
    {
        let mut i: usize = 0;
        while i < chain.len()
            invariant
                i <= chain@.len(),
                handler_up(self@, chain@, event@, 0) == handler_up(
                    self@,
                    chain@,
                    event@,
                    i as int,
                ),
            decreases chain@.len() - i,
        {
            if self.contains(chain[i], event) {
                return Some(chain[i]);
            }
            i += 1;
        }
        None
    }
}

/// A search for a token finds its first occurrence.
proof fn lemma_token_index(tokens: Seq<Seq<char>>, token: Seq<char>, from: int)
    requires
        0 <= from <= tokens.len(),
    ensures
        match token_index(tokens, token, from) {
            Some(at) => {
                &&& from <= at < tokens.len()
                &&& tokens[at] == token
                &&& forall|i: int| from <= i < at ==> #[trigger] tokens[i] != token
            },
            None => forall|i: int| from <= i < tokens.len() ==> #[trigger] tokens[i] != token,
        },
    decreases tokens.len() - from,
{
    if from < tokens.len() && tokens[from] != token {
        lemma_token_index(tokens, token, from + 1);
    }
}

/// A token that was switched on is there, and switching it on again changes
/// nothing. Every token that was there before is still there.
pub proof fn toggled_on_is_present(tokens: Seq<Seq<char>>, token: Seq<char>, other: Seq<char>)
    ensures
        toggled_tokens(tokens, token, true).contains(token),
        toggled_tokens(toggled_tokens(tokens, token, true), token, true) == toggled_tokens(
            tokens,
            token,
            true,
        ),
        tokens.contains(other) ==> toggled_tokens(tokens, token, true).contains(other),
{
    lemma_token_index(tokens, token, 0);
    let on = toggled_tokens(tokens, token, true);
    match token_index(tokens, token, 0) {
        Some(at) => {
            assert(on[at] == token);
        },
        None => {
            assert(on[tokens.len() as int] == token);
            if tokens.contains(other) {
                assert(on[tokens.index_of(other)] == other);
            }
        },
    }
    lemma_token_index(on, token, 0);
    assert(token_index(on, token, 0) is Some) by {
        let at = on.index_of(token);
        assert(on[at] == token);
    }
}

/// Switching a token off undoes switching it on where it was absent.
pub proof fn toggling_off_undoes_on(tokens: Seq<Seq<char>>, token: Seq<char>)
    requires
        !tokens.contains(token),
    ensures
        toggled_tokens(toggled_tokens(tokens, token, true), token, false) == tokens,
{
    lemma_token_index(tokens, token, 0);
    if let Some(at) = token_index(tokens, token, 0) {
        assert(tokens.contains(tokens[at]));
    }
    let on = tokens.push(token);
    lemma_token_index(on, token, 0);
    assert(on[tokens.len() as int] == token);
    let at = token_index(on, token, 0)->0;
    if at < tokens.len() {
        assert(tokens[at] == on[at]);
        assert(tokens.contains(token));
    }
    assert(on.remove(at) =~= tokens);
}

/// A word is not empty and holds no space.
pub open spec fn is_word(word: Seq<char>) -> bool {
    word.len() > 0 && forall|i: int| 0 <= i < word.len() ==> !script_space(#[trigger] word[i])
}

proof fn lemma_word_after_space(text: Seq<char>, word: Seq<char>)
    requires
        is_word(word),
        text.len() > 0 ==> script_space(text.last()),
    ensures
        class_tokens(text + word) == class_tokens(text).push(word),
    decreases word.len(),
{
    let whole = text + word;
    assert(whole.last() == word.last());
    assert(whole.drop_last() =~= text + word.drop_last());
    if word.len() == 1 {
        assert(whole.drop_last() =~= text);
        assert(word =~= seq![word.last()]);
    } else {
        assert(whole[whole.len() - 2] == word[word.len() - 2]);
        lemma_word_after_space(text, word.drop_last());
        let before = class_tokens(text).push(word.drop_last());
        assert(before.drop_last() =~= class_tokens(text));
        assert(word.drop_last().push(word.last()) =~= word);
    }
}

/// A class attribute made of words is read back as those words.
pub proof fn joined_words_are_tokens(words: Seq<Seq<char>>)
    requires
        forall|i: int| 0 <= i < words.len() ==> is_word(#[trigger] words[i]),
    ensures
        class_tokens(crate::text::joined(words, " "@)) == words,
    decreases words.len(),
{
    reveal_strlit(" ");
    let text = crate::text::joined(words, " "@);
    if words.len() == 0 {
        assert(text =~= Seq::<char>::empty());
        assert(class_tokens(text) =~= words);
    } else if words.len() == 1 {
        lemma_word_after_space(Seq::empty(), words[0]);
        assert(text =~= Seq::<char>::empty() + words[0]);
        assert(class_tokens(text) =~= words);
    } else {
        let rest = words.drop_last();
        assert forall|i: int| 0 <= i < rest.len() implies is_word(#[trigger] rest[i]) by {
            assert(rest[i] == words[i]);
        }
        joined_words_are_tokens(rest);
        let head = crate::text::joined(rest, " "@) + " "@;
        assert(head.drop_last() =~= crate::text::joined(rest, " "@));
        assert(class_tokens(head) == rest);
        lemma_word_after_space(head, words.last());
        assert(text =~= head + words.last());
        assert(rest.push(words.last()) =~= words);
    }
}

proof fn lemma_tokens_are_words(text: Seq<char>, at: int)
    requires
        0 <= at < class_tokens(text).len(),
    ensures
        is_word(class_tokens(text)[at]),
    decreases text.len(),
{
    if text.len() > 0 {
        let before = class_tokens(text.drop_last());
        if at < before.len() {
            lemma_tokens_are_words(text.drop_last(), at);
        }
    }
}

/// The class attribute after switching a token on or off holds the toggled
/// tokens: what a script reads back is what was written.
pub proof fn toggled_class_holds_tokens(current: Seq<char>, token: Seq<char>, active: bool)
    requires
        is_word(token),
    ensures
        class_tokens(toggled_class(current, token, active)) == toggled_tokens(
            class_tokens(current),
            token,
            active,
        ),
{
    let before = class_tokens(current);
    let after = toggled_tokens(before, token, active);
    lemma_token_index(before, token, 0);
    assert forall|i: int| 0 <= i < after.len() implies is_word(#[trigger] after[i]) by {
        if after == before || (after == before.push(token) && i < before.len()) {
            lemma_tokens_are_words(current, i);
        } else if active {
            assert(after[i] == token);
        } else {
            let at = token_index(before, token, 0)->0;
            let old_place = if i < at {
                i
            } else {
                i + 1
            };
            assert(after[i] == before[old_place]);
            lemma_tokens_are_words(current, old_place);
        }
    }
    joined_words_are_tokens(after);
}

/// Switching a word on in a class attribute that lacks it, and off again,
/// leaves the tokens of the attribute as they were.
pub proof fn class_round_trip(current: Seq<char>, token: Seq<char>)
    requires
        is_word(token),
        !class_tokens(current).contains(token),
    ensures
        class_tokens(toggled_class(toggled_class(current, token, true), token, false))
            == class_tokens(current),
{
    toggled_class_holds_tokens(current, token, true);
    toggled_class_holds_tokens(toggled_class(current, token, true), token, false);
    toggling_off_undoes_on(class_tokens(current), token);
}

proof fn lemma_restyled_keeps(
    parts: Seq<Seq<char>>,
    prop: Seq<char>,
    value: Option<Seq<char>>,
    at: int,
    upto: int,
)
    requires
        0 <= at < upto <= parts.len(),
        script_trimmed(parts[at]).len() > 0,
        declared_name(script_trimmed(parts[at])) != Some(prop),
    ensures
        restyled(parts, prop, value, upto).contains(script_trimmed(parts[at])),
    decreases upto,
{
    let kept = script_trimmed(parts[at]);
    let after = restyled(parts, prop, value, upto);
    let before = restyled(parts, prop, value, upto - 1);
    if at == upto - 1 {
        assert(after[before.len() as int] == kept);
    } else {
        lemma_restyled_keeps(parts, prop, value, at, upto - 1);
        let i = before.index_of(kept);
        assert(before[i] == kept);
        assert(after[i] == kept);
    }
}

/// Setting one style declaration leaves every other declaration alone.
pub proof fn style_change_keeps_others(
    current: Seq<char>,
    prop: Seq<char>,
    value: Option<Seq<char>>,
    at: int,
)
    requires
        0 <= at < crate::text::split_parts(current, ';').len(),
        script_trimmed(crate::text::split_parts(current, ';')[at]).len() > 0,
        declared_name(script_trimmed(crate::text::split_parts(current, ';')[at])) != Some(prop),
    ensures
        style_with(current, prop, value).contains(
            script_trimmed(crate::text::split_parts(current, ';')[at]),
        ),
{
    let parts = crate::text::split_parts(current, ';');
    let kept = restyled(parts, prop, set_value_of(value), parts.len() as int);
    lemma_restyled_keeps(parts, prop, set_value_of(value), at, parts.len() as int);
    let i = kept.index_of(script_trimmed(parts[at]));
    assert(style_with(current, prop, value)[i] == script_trimmed(parts[at]));
}

proof fn lemma_restyled_sets(
    parts: Seq<Seq<char>>,
    prop: Seq<char>,
    value: Seq<char>,
    upto: int,
)
    requires
        0 <= upto <= parts.len(),
        declares(parts, prop, upto),
    ensures
        restyled(parts, prop, Some(value), upto).contains(declaration(prop, value)),
    decreases upto,
{
    if upto > 0 {
        let part = script_trimmed(parts[upto - 1]);
        let after = restyled(parts, prop, Some(value), upto);
        let before = restyled(parts, prop, Some(value), upto - 1);
        if part.len() > 0 && declared_name(part) == Some(prop) {
            assert(after[before.len() as int] == declaration(prop, value));
        } else {
            lemma_restyled_sets(parts, prop, value, upto - 1);
            let i = before.index_of(declaration(prop, value));
            assert(after[i] == declaration(prop, value));
        }
    }
}

/// A style declaration that was set to a value is there with that value.
pub proof fn style_change_sets_value(current: Seq<char>, prop: Seq<char>, value: Seq<char>)
    requires
        value.len() > 0,
    ensures
        style_with(current, prop, Some(value)).contains(declaration(prop, value)),
{
    let parts = crate::text::split_parts(current, ';');
    let count = parts.len() as int;
    let kept = restyled(parts, prop, Some(value), count);
    let styled = style_with(current, prop, Some(value));
    if declares(parts, prop, count) {
        lemma_restyled_sets(parts, prop, value, count);
    } else {
        assert(styled[kept.len() as int] == declaration(prop, value));
    }
}

/// A property that stores a function as the handler of an event drops that
/// handler when it is set to nothing, and no property does one without the
/// other.
pub proof fn handler_properties_pair(key: Seq<char>, event: Seq<char>)
    ensures
        (property_route(key, PropertyValue::Function) == Route::SetHandler(event)) == (
        property_route(key, PropertyValue::Nothing) == Route::RemoveHandler(event)),
{
}

/// Setting an event property to a function gives the node a handler for that
/// event; setting it to nothing afterwards takes that handler away. No other
/// handler changes, neither of this node nor of another.
pub proof fn handler_round_trip(
    handlers: Set<(usize, Seq<char>)>,
    node: usize,
    key: Seq<char>,
    event: Seq<char>,
    other: (usize, Seq<char>),
)
    requires
        property_route(key, PropertyValue::Function) == Route::SetHandler(event),
        other != (node, event),
    ensures
        ({
            let set = handlers_after(
                handlers,
                node,
                property_route(key, PropertyValue::Function),
            );
            let dropped = handlers_after(set, node, property_route(key, PropertyValue::Nothing));
            &&& set.contains((node, event))
            &&& !dropped.contains((node, event))
            &&& set.contains(other) == handlers.contains(other)
            &&& dropped.contains(other) == handlers.contains(other)
        }),
{
    handler_properties_pair(key, event);
}

/// `onEvent` and `on:event` name the event in lowercase: a function set under
/// either is stored for it.
pub proof fn event_keys_name_their_event(name: Seq<char>)
    ensures
        property_route("on:"@ + name, PropertyValue::Function) == Route::SetHandler(
            crate::text::lowered(name),
        ),
        name.len() > 0 && name[0] != ':' ==> property_route("on"@ + name, PropertyValue::Function)
            == Route::SetHandler(crate::text::lowered(name)),
{
    reveal_strlit("on:");
    reveal_strlit("on");
    reveal_strlit("class:");
    reveal_strlit("style:");
    let colon = "on:"@ + name;
    let plain = "on"@ + name;
    assert(colon[0] == 'o' && plain[0] == 'o');
    assert("class:"@[0] == 'c' && "style:"@[0] == 's');
    assert(colon.take(3) =~= "on:"@);
    assert(colon.skip(3) =~= name);
    assert(plain.take(2) =~= "on"@);
    assert(plain.skip(2) =~= name);
    if name.len() > 0 && name[0] != ':' {
        assert(plain.take(3)[2] == name[0]);
        assert("on:"@[2] == ':');
        if plain.len() >= 6 {
            assert(plain.take(6)[0] == 'o');
        }
    }
}

/// A property whose name does not start with `on` leaves the handlers alone,
/// whatever it is set to.
pub proof fn other_keys_keep_handlers(
    handlers: Set<(usize, Seq<char>)>,
    node: usize,
    key: Seq<char>,
    value: PropertyValue,
)
    requires
        !crate::text::starts_with(key, "on"@),
    ensures
        handlers_after(handlers, node, property_route(key, value)) == handlers,
{
    reveal_strlit("on:");
    reveal_strlit("on");
    if crate::text::starts_with(key, "on:"@) {
        assert(key.take(2) =~= "on"@);
    }
}

/// The search up a chain finds the first node from `from` on that handles the
/// event, and none only where no node there does.
pub proof fn nearest_handler_is_found(
    handlers: Set<(usize, Seq<char>)>,
    chain: Seq<usize>,
    event: Seq<char>,
    from: int,
)
    requires
        0 <= from <= chain.len(),
    ensures
        match handler_up(handlers, chain, event, from) {
            Some(node) => exists|at: int|
                {
                    &&& from <= at < chain.len()
                    &&& node == #[trigger] chain[at]
                    &&& handlers.contains((node, event))
                    &&& forall|k: int|
                        from <= k < at ==> !handlers.contains((#[trigger] chain[k], event))
                },
            None => forall|k: int|
                from <= k < chain.len() ==> !handlers.contains((#[trigger] chain[k], event)),
        },
    decreases chain.len() - from,
{
    if from < chain.len() && !handlers.contains((chain[from], event)) {
        nearest_handler_is_found(handlers, chain, event, from + 1);
    }
}

/// `class:` and `style:` before a name make a directive on that name, whatever the
/// value.
pub proof fn directives_go_by_prefix(name: Seq<char>, value: PropertyValue)
    ensures
        property_route("class:"@ + name, value) == Route::ToggleClass(name),
        property_route("style:"@ + name, value) == Route::StyleDecl(name),
{
    reveal_strlit("class:");
    reveal_strlit("style:");
    let class = "class:"@ + name;
    let style = "style:"@ + name;
    assert(class.take(6) =~= "class:"@ && class.skip(6) =~= name);
    assert(style.take(6) =~= "style:"@ && style.skip(6) =~= name);
    assert("class:"@[0] == 'c' && "style:"@[0] == 's');
    assert(style.take(6)[0] == 's');
}

/// A text sets the attribute of the property's name, and that of `className` sets
/// `class`. A function or nothing under a name that names no event is ignored.
pub proof fn texts_set_attributes(key: Seq<char>)
    requires
        !crate::text::starts_with(key, "class:"@),
        !crate::text::starts_with(key, "style:"@),
    ensures
        key != "className"@ ==> property_route(key, PropertyValue::Text) == Route::Attribute(key),
        key == "className"@ ==> property_route(key, PropertyValue::Text) == Route::Attribute(
            "class"@,
        ),
        !crate::text::starts_with(key, "on"@) ==> property_route(key, PropertyValue::Function)
            is Ignore && property_route(key, PropertyValue::Nothing) is Ignore,
{
    reveal_strlit("on:");
    reveal_strlit("on");
    if crate::text::starts_with(key, "on:"@) {
        assert(key.take(2) =~= "on"@);
    }
}

/// An attribute changes what it names of an input, and nothing else: a value puts the
/// caret behind it, a type is read in any case and masks passwords, `readonly` holds
/// while it is not empty, and `disabled` holds once it is set.
pub proof fn attributes_change_what_they_name(m: InputModel, key: Seq<char>, value: Seq<char>)
    ensures
        with_attribute(m, "placeholder"@, value) == (InputModel { placeholder: Some(value), ..m }),
        with_attribute(m, "readonly"@, value) == (InputModel { readonly: value.len() > 0, ..m }),
        with_attribute(m, "disabled"@, value) == (InputModel { disabled: true, ..m }),
        with_attribute(m, "name"@, value) == (InputModel { name: Some(value), ..m }),
        with_attribute(m, "type"@, value) == (InputModel {
            kind: crate::input::input_type(crate::text::ascii_lower_text(value)),
            masked: crate::text::ascii_lower_text(value) == "password"@,
            ..m
        }),
        value == m.value ==> with_attribute(m, "value"@, value) == m,
        value != m.value ==> with_attribute(m, "value"@, value) == (InputModel {
            value,
            caret: value.len() as int,
            anchor: value.len() as int,
            blink_visible: true,
            ..m
        }),
        key != "value"@ && key != "placeholder"@ && key != "type"@ && key != "readonly"@ && key
            != "disabled"@ && key != "name"@ ==> with_attribute(m, key, value) == m,
{
    reveal_strlit("value");
    reveal_strlit("placeholder");
    reveal_strlit("type");
    reveal_strlit("readonly");
    reveal_strlit("disabled");
    reveal_strlit("name");
    assert("value"@.len() == 5 && "placeholder"@.len() == 11 && "type"@.len() == 4);
    assert("readonly"@.len() == 8 && "disabled"@.len() == 8 && "name"@.len() == 4);
    assert("readonly"@[0] == 'r' && "disabled"@[0] == 'd' && "type"@[0] == 't' && "name"@[0]
        == 'n');
    assert(crate::text::spliced(m.value, 0, m.value.len() as int, value) =~= value);
}

/// Inputs and selects are known by their tag, in any mix of capital and small letters.
pub proof fn controls_go_by_tag(tag: Seq<char>)
    ensures
        ({
            let lower = crate::text::ascii_lower_text(tag);
            &&& lower == "input"@ ==> tag_control(tag) is Input
            &&& lower == "select"@ ==> tag_control(tag) is Select
            &&& lower != "input"@ && lower != "select"@ ==> tag_control(tag) is Other
        }),
{
    reveal_strlit("input");
    reveal_strlit("select");
    assert("input"@.len() == 5 && "select"@.len() == 6);
}

/// The first `<style>` element of a chain is found, and none only where the chain has
/// none.
pub proof fn nearest_style_is_found(chain: Seq<(usize, bool)>, from: int)
    requires
        0 <= from <= chain.len(),
    ensures
        match nearest_style(chain, from) {
            Some(node) => exists|at: int|
                {
                    &&& from <= at < chain.len()
                    &&& (#[trigger] chain[at]) == (node, true)
                    &&& forall|k: int| from <= k < at ==> !(#[trigger] chain[k]).1
                },
            None => forall|k: int| from <= k < chain.len() ==> !(#[trigger] chain[k]).1,
        },
    decreases chain.len() - from,
{
    if from < chain.len() {
        if chain[from].1 {
            assert(chain[from] == (chain[from].0, true));
        } else {
            nearest_style_is_found(chain, from + 1);
        }
    }
}

/// Of the characters of ASCII, the blank and those from tab to carriage return count as
/// spaces.
pub proof fn ascii_spaces(ch: char)
    requires
        (ch as u32) < 0x80,
    ensures
        script_space(ch) <==> ch == ' ' || '\t' <= ch <= '\r',
{
}

/// A trimmed text is the text between the spaces at its ends: it neither starts nor
/// ends with a space, and only spaces are cut off.
pub proof fn trimming_cuts_the_ends(text: Seq<char>) -> (cut: (int, int))
    ensures
        0 <= cut.0 <= cut.1 <= text.len(),
        script_trimmed(text) == text.subrange(cut.0, cut.1),
        forall|i: int| 0 <= i < cut.0 ==> script_space(#[trigger] text[i]),
        forall|i: int| cut.1 <= i < text.len() ==> script_space(#[trigger] text[i]),
        cut.0 < cut.1 ==> !script_space(text[cut.0]) && !script_space(text[cut.1 - 1]),
{
    let start = spaces_end(text, 0);
    lemma_spaces_end(text, 0);
    lemma_spaces_start(text, start, text.len() as int);
    (start, spaces_start(text, start, text.len() as int))
}

proof fn lemma_spaces_end(text: Seq<char>, from: int)
    requires
        0 <= from <= text.len(),
    ensures
        from <= spaces_end(text, from) <= text.len(),
        forall|i: int| from <= i < spaces_end(text, from) ==> script_space(#[trigger] text[i]),
        spaces_end(text, from) < text.len() ==> !script_space(text[spaces_end(text, from)]),
    decreases text.len() - from,
{
    if from < text.len() && script_space(text[from]) {
        lemma_spaces_end(text, from + 1);
    }
}

proof fn lemma_spaces_start(text: Seq<char>, from: int, to: int)
    requires
        0 <= from <= to <= text.len(),
    ensures
        from <= spaces_start(text, from, to) <= to,
        forall|i: int| spaces_start(text, from, to) <= i < to ==> script_space(#[trigger] text[i]),
        spaces_start(text, from, to) > from ==> !script_space(
            text[spaces_start(text, from, to) - 1],
        ),
    decreases to - from,
{
    if to > from && script_space(text[to - 1]) {
        lemma_spaces_start(text, from, to - 1);
    }
}

/// Switching a token off takes out its first occurrence and leaves the other tokens in
/// their order. Where it does not occur, nothing changes.
pub proof fn switching_off_takes_out_one(tokens: Seq<Seq<char>>, token: Seq<char>, at: int)
    requires
        0 <= at <= tokens.len(),
        forall|k: int| 0 <= k < at ==> tokens[k] != token,
    ensures
        at < tokens.len() && tokens[at] == token ==> toggled_tokens(tokens, token, false)
            == tokens.take(at) + tokens.skip(at + 1),
        at == tokens.len() ==> toggled_tokens(tokens, token, false) == tokens && toggled_tokens(
            tokens,
            token,
            true,
        ) == tokens + seq![token],
        at < tokens.len() && tokens[at] == token ==> toggled_tokens(tokens, token, true) == tokens,
{
    lemma_token_index(tokens, token, 0);
    if at < tokens.len() && tokens[at] == token {
        let found = token_index(tokens, token, 0)->0;
        assert(found == at);
        assert(tokens.remove(at) =~= tokens.take(at) + tokens.skip(at + 1));
    }
    assert(tokens.push(token) =~= tokens + seq![token]);
}

/// A style declaration that is set to nothing, or to the empty text, is gone: no part of
/// the style declares it any more.
pub proof fn cleared_styles_are_gone(current: Seq<char>, prop: Seq<char>, i: int)
    requires
        0 <= i < style_with(current, prop, None).len(),
    ensures
        declared_name(style_with(current, prop, None)[i]) != Some(prop),
        style_with(current, prop, Some(Seq::empty())) == style_with(current, prop, None),
{
    let parts = crate::text::split_parts(current, ';');
    lemma_restyled_drops(parts, prop, parts.len() as int, i);
}

proof fn lemma_restyled_drops(parts: Seq<Seq<char>>, prop: Seq<char>, upto: int, i: int)
    requires
        0 <= upto <= parts.len(),
        0 <= i < restyled(parts, prop, None, upto).len(),
    ensures
        declared_name(restyled(parts, prop, None, upto)[i]) != Some(prop),
    decreases upto,
{
    if upto > 0 {
        let before = restyled(parts, prop, None, upto - 1);
        if i < before.len() {
            lemma_restyled_drops(parts, prop, upto - 1, i);
        }
    }
}

/// A declaration is the property, a colon, a blank and the value. Its name is what stands
/// before the first colon, without spaces around it; a part without a colon has none.
pub proof fn declarations_have_names(name: Seq<char>, value: Seq<char>)
    requires
        !name.contains(':'),
    ensures
        declaration(name, value) == name + seq![':', ' '] + value,
        declared_name(name + seq![':'] + value) == Some(script_trimmed(name)),
        declared_name(name) is None,
{
    reveal_strlit(": ");
    assert(": "@ =~= seq![':', ' ']);
    crate::text::first_part_ends_at_separator(name, value, ':');
}

/// Beyond ASCII, the characters that count as spaces are these and no others.
pub proof fn wide_script_spaces(ch: char)
    requires
        ch as u32 >= 0x80,
    ensures
        script_space(ch) <==> ch == '\u{a0}' || ch == '\u{1680}' || '\u{2000}' <= ch <= '\u{200a}'
            || ch == '\u{2028}' || ch == '\u{2029}' || ch == '\u{202f}' || ch == '\u{205f}' || ch
            == '\u{3000}' || ch == '\u{feff}',
{
}

/// The bare word `on` names no event, nor does a name that does not start with it.
pub proof fn bare_prefix_names_no_event(key: Seq<char>)
    ensures
        event_of("on"@) is None,
        !crate::text::starts_with(key, "on"@) ==> event_of(key) is None,
{
    reveal_strlit("on");
    reveal_strlit("on:");
    assert("on"@.len() == 2 && "on:"@.len() == 3);
    if crate::text::starts_with(key, "on:"@) {
        assert(key.take(2) =~= "on"@);
    }
}

/// The node that follows `node` among `children`.
pub open spec fn sibling_after(children: Seq<usize>, node: usize) -> Option<usize> {
    match crate::inputs::index_from(children, node, 0) {
        Some(at) => if at + 1 < children.len() {
            Some(children[at + 1])
        } else {
            None
        },
        None => None,
    }
}

/// The `<style>` element that an insertion of a node under a parent concerns, given the
/// chains of both.
pub open spec fn style_concerned(parent: Seq<(usize, bool)>, node: Seq<(usize, bool)>) -> Option<
    usize,
> {
    match nearest_style(parent, 0) {
        Some(style) => Some(style),
        None => nearest_style(node, 0),
    }
}

/// The sibling after a child is the next one. The last child, and a node that is no
/// child, have none.
pub proof fn siblings_follow(children: Seq<usize>, at: int, stranger: usize)
    requires
        0 <= at < children.len() <= usize::MAX,
        children.no_duplicates(),
        !children.contains(stranger),
    ensures
        at + 1 < children.len() ==> sibling_after(children, children[at]) == Some(children[at + 1]),
        at + 1 == children.len() ==> sibling_after(children, children[at]) is None,
        sibling_after(children, stranger) is None,
{
    crate::inputs::first_place_of_id(children, children[at], 0);
    crate::inputs::first_place_of_id(children, stranger, 0);
}

/// An insertion concerns the `<style>` element around the parent before one around the
/// node itself, and none where neither lies in one.
pub proof fn parents_style_comes_first(
    parent: Seq<(usize, bool)>,
    node: Seq<(usize, bool)>,
    style: usize,
)
    ensures
        parent.len() > 0 && parent[0] == (style, true) ==> style_concerned(parent, node) == Some(
            style,
        ),
        (forall|k: int| 0 <= k < parent.len() ==> !(#[trigger] parent[k]).1) && node.len() > 0
            && node[0] == (style, true) ==> style_concerned(parent, node) == Some(style),
        (forall|k: int| 0 <= k < parent.len() ==> !(#[trigger] parent[k]).1) && (forall|k: int|
            0 <= k < node.len() ==> !(#[trigger] node[k]).1) ==> style_concerned(parent, node)
            is None,
{
    nearest_style_is_found(parent, 0);
    nearest_style_is_found(node, 0);
}

} // verus!
