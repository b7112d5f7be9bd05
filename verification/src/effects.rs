//! What the host performs on the document, and in which order.
//!
//! Dispatching an event alternates between decisions and work on the document
//! and the scripts. A [`Turn`] holds the work that follows one decision; the
//! stage it names says which decision comes after that work.
use crate::events::KeyPhase;
use crate::inputs::RangeMove;
use crate::popup::PopupAction;
use vstd::prelude::*;

verus! {

/// The events that scripts can handle.
#[derive(Debug, Clone, Copy, PartialEq, Eq, Structural)]
pub enum EventName {
    AuxClick,
    Blur,
    Click,
    ContextMenu,
    Error,
    Focus,
    Hover,
    HoverEnter,
    HoverLeave,
    KeyDown,
    KeyUp,
    Load,
    MouseEnter,
    MouseLeave,
    MouseMove,
    MouseOut,
    MouseOver,
    MouseUp,
    Wheel,
}

/// The name under which handlers of an event are registered.
pub open spec fn event_text(event: EventName) -> Seq<char> {
    match event {
        EventName::AuxClick => "auxclick"@,
        EventName::Blur => "blur"@,
        EventName::Click => "click"@,
        EventName::ContextMenu => "contextmenu"@,
        EventName::Error => "error"@,
        EventName::Focus => "focus"@,
        EventName::Hover => "hover"@,
        EventName::HoverEnter => "hoverenter"@,
        EventName::HoverLeave => "hoverleave"@,
        EventName::KeyDown => "keydown"@,
        EventName::KeyUp => "keyup"@,
        EventName::Load => "load"@,
        EventName::MouseEnter => "mouseenter"@,
        EventName::MouseLeave => "mouseleave"@,
        EventName::MouseMove => "mousemove"@,
        EventName::MouseOut => "mouseout"@,
        EventName::MouseOver => "mouseover"@,
        EventName::MouseUp => "mouseup"@,
        EventName::Wheel => "wheel"@,
    }
}

impl EventName {
    /// The name under which handlers of this event are registered.
    pub fn as_str(&self) -> (text: &'static str)
        ensures
            text@ == event_text(*self),
    {
        match self {
            EventName::AuxClick => "auxclick",
            EventName::Blur => "blur",
            EventName::Click => "click",
            EventName::ContextMenu => "contextmenu",
            EventName::Error => "error",
            EventName::Focus => "focus",
            EventName::Hover => "hover",
            EventName::HoverEnter => "hoverenter",
            EventName::HoverLeave => "hoverleave",
            EventName::KeyDown => "keydown",
            EventName::KeyUp => "keyup",
            EventName::Load => "load",
            EventName::MouseEnter => "mouseenter",
            EventName::MouseLeave => "mouseleave",
            EventName::MouseMove => "mousemove",
            EventName::MouseOut => "mouseout",
            EventName::MouseOver => "mouseover",
            EventName::MouseUp => "mouseup",
            EventName::Wheel => "wheel",
        }
    }
}

/// One piece of work for the host.
#[derive(Debug, Clone, Copy, PartialEq, Eq, Structural)]
pub enum Effect {
    /// Fire an event on a node.
    Fire { node: usize, event: EventName },
    /// Fire an event on a node that names the node on the other side of the
    /// pointer's way.
    FireRelated { node: usize, event: EventName, related: Option<usize> },
    /// Fire an event on a node alone, with no ancestor asked for a handler.
    FireAt { node: usize, event: EventName, related: Option<usize> },
    /// Fire the key event that is being dispatched.
    FireKey { node: usize, phase: KeyPhase },
    /// Fire `input` with the state of the input at that moment.
    FireInput(usize),
    /// Fire `change` with the selection of the select at that moment.
    FireChange(usize),
    /// Mount or unmount the popup of a select.
    Popup { select: usize, action: PopupAction },
    /// Write the classes of the popup options of a select.
    SyncHighlights(usize),
    /// Write the displayed text of an input.
    RefreshInput(usize),
    /// Write the displayed label and the value of a select.
    RefreshSelect(usize),
    /// Write the checked marks of checkboxes and radios.
    SyncChecked,
    /// Take the document's focus away.
    ClearFocus,
    /// Give the document's focus to a node.
    SetFocus(usize),
    /// Move the document's hover to the pointer. Counts as a repaint when the
    /// document says that its hover changed.
    MoveHover,
    /// Move the pressed state from one node's ancestors to another's.
    Activate { from: Option<usize>, to: Option<usize> },
    /// Scroll by the thumb that is being dragged.
    DragScroll,
    /// Keep the thumb under the pointer for dragging.
    GrabThumb,
    /// Scroll by a page towards the pointer.
    PageScroll,
    /// Set a range input from the pointer. If that changed its value, fire
    /// `input` and repaint the document.
    MoveRange(usize),
    /// Move the value of a range input.
    StepRange { node: usize, by: RangeMove },
}

/// What follows once a focus change is through.
#[derive(Debug, Clone, Copy, PartialEq, Eq, Structural)]
pub enum After {
    /// Nothing.
    Stop,
    /// The press goes on at the node that was hit.
    Press(usize),
    /// The key press goes on at this node.
    Key { node: usize, edited: bool, emits: bool },
}

/// A key event that scripts have seen.
#[derive(Debug, Clone, Copy, PartialEq, Eq, Structural)]
pub struct SentKey {
    /// The node that has the focus.
    pub node: usize,
    /// The key activates a button.
    pub activates: bool,
    /// The displayed value or caret changed.
    pub edited: bool,
    /// An `input` or `change` event follows.
    pub emits: bool,
    /// The key moves the value of a range input: it counts as edited if the
    /// value changed.
    pub ranged: bool,
    /// The node that the focus moves to.
    pub target: Option<usize>,
}

/// The decision that comes next.
#[derive(Debug, Clone, Copy, PartialEq, Eq, Structural)]
pub enum Stage {
    /// The pointer moved. Needs the nodes under the pointer.
    Hover,
    /// The wheel turned. Needs the nodes under the pointer.
    Wheel,
    /// The left button went down. Needs the nodes under the pointer.
    Press,
    /// Popups outside the press are closed. Needs the nodes that are under the
    /// pointer now.
    PressAt,
    /// An event goes to the handler nearest to the pointer. Needs the nodes
    /// under the pointer.
    Bubble(EventName),
    /// The previous node was told that it loses the focus.
    Enter { previous: Option<usize>, next: Option<usize>, after: After },
    /// The press reached the node that was hit. Needs that node and its
    /// ancestors.
    Target(usize),
    /// The focus moves to a neighbour. Needs the tab order.
    Tab { backwards: bool },
    /// The key event was fired. Needs to know whether the node is a button,
    /// and whether the value of a range input moved.
    KeySent(SentKey),
    /// The key press is through at this node.
    KeyDone { node: usize, edited: bool, emits: bool },
}

/// Work for the host and the decision that follows it.
#[derive(Debug)]
pub struct Turn {
    /// The work, in order.
    pub effects: Vec<Effect>,
    /// Whether a repaint that the fired events ask for is remembered.
    pub record: bool,
    /// Whether a repaint is asked for whatever the fired events ask.
    pub paint: bool,
    /// The decision that follows, if any.
    pub next: Option<Stage>,
}

/// What a [`Turn`] holds.
#[verifier::ext_equal]
pub struct TurnModel {
    pub effects: Seq<Effect>,
    pub record: bool,
    pub paint: bool,
    pub next: Option<Stage>,
}

impl View for Turn {
    type V = TurnModel;

    open spec fn view(&self) -> TurnModel {
        TurnModel {
            effects: self.effects@,
            record: self.record,
            paint: self.paint,
            next: self.next,
        }
    }
}

/// The turn with which nothing happens any more.
pub open spec fn idle() -> TurnModel {
    TurnModel { effects: Seq::empty(), record: false, paint: false, next: None }
}

/// A turn that ends the dispatch after one piece of work.
pub open spec fn only(effect: Effect) -> TurnModel {
    TurnModel { effects: seq![effect], record: false, paint: false, next: None }
}

/// A turn without work that goes on with `stage`.
pub open spec fn going_on(stage: Stage) -> TurnModel {
    TurnModel { effects: Seq::empty(), record: false, paint: false, next: Some(stage) }
}

impl Turn {
    pub(crate) fn idle() -> (turn: Self)
        ensures
            turn@ == idle(),
    {
        Turn { effects: Vec::new(), record: false, paint: false, next: None }
    }

    pub(crate) fn only(effect: Effect) -> (turn: Self)
        ensures
            turn@ == only(effect),
    {
        let mut effects: Vec<Effect> = Vec::new();
        effects.push(effect);
        Turn { effects, record: false, paint: false, next: None }
    }

    pub(crate) fn going_on(stage: Stage) -> (turn: Self)
        ensures
            turn@ == going_on(stage),
    {
        Turn { effects: Vec::new(), record: false, paint: false, next: Some(stage) }
    }
}

/// One piece of work or none.
pub open spec fn effect_if(wanted: bool, effect: Effect) -> Seq<Effect> {
    if wanted {
        seq![effect]
    } else {
        Seq::empty()
    }
}

pub(crate) fn push_if(effects: &mut Vec<Effect>, wanted: bool, effect: Effect)
    ensures
        final(effects)@ == old(effects)@ + effect_if(wanted, effect),
{
    if wanted {
        effects.push(effect);
    }
    proof {
        assert(effects@ =~= old(effects)@ + effect_if(wanted, effect));
    }
}

/// Handlers are registered under the name of the event in small letters.
pub proof fn events_go_by_name(event: EventName)
    ensures
        event is AuxClick ==> event_text(event) == "auxclick"@,
        event is Blur ==> event_text(event) == "blur"@,
        event is Click ==> event_text(event) == "click"@,
        event is ContextMenu ==> event_text(event) == "contextmenu"@,
        event is Error ==> event_text(event) == "error"@,
        event is Focus ==> event_text(event) == "focus"@,
        event is Hover ==> event_text(event) == "hover"@,
        event is HoverEnter ==> event_text(event) == "hoverenter"@,
        event is HoverLeave ==> event_text(event) == "hoverleave"@,
        event is KeyDown ==> event_text(event) == "keydown"@,
        event is KeyUp ==> event_text(event) == "keyup"@,
        event is Load ==> event_text(event) == "load"@,
        event is MouseEnter ==> event_text(event) == "mouseenter"@,
        event is MouseLeave ==> event_text(event) == "mouseleave"@,
        event is MouseMove ==> event_text(event) == "mousemove"@,
        event is MouseOut ==> event_text(event) == "mouseout"@,
        event is MouseOver ==> event_text(event) == "mouseover"@,
        event is MouseUp ==> event_text(event) == "mouseup"@,
        event is Wheel ==> event_text(event) == "wheel"@,
{
}

/// Two events never share a name, so that a handler hears of one event only.
pub proof fn names_tell_events_apart(a: EventName, b: EventName)
    requires
        event_text(a) == event_text(b),
    ensures
        a == b,
{
    reveal_strlit("auxclick");
    reveal_strlit("blur");
    reveal_strlit("click");
    reveal_strlit("contextmenu");
    reveal_strlit("error");
    reveal_strlit("focus");
    reveal_strlit("hover");
    reveal_strlit("hoverenter");
    reveal_strlit("hoverleave");
    reveal_strlit("keydown");
    reveal_strlit("keyup");
    reveal_strlit("load");
    reveal_strlit("mouseenter");
    reveal_strlit("mouseleave");
    reveal_strlit("mousemove");
    reveal_strlit("mouseout");
    reveal_strlit("mouseover");
    reveal_strlit("mouseup");
    reveal_strlit("wheel");
    let (x, y) = (event_text(a), event_text(b));
    assert(x[0] == y[0] && x.len() == y.len());
    if x.len() > 4 {
        assert(x[4] == y[4]);
    }
    if x.len() > 5 {
        assert(x[5] == y[5]);
    }
    if x.len() > 6 {
        assert(x[6] == y[6]);
    }
}

/// An idle turn asks for nothing and ends the dispatch. A turn of one effect asks
/// for that effect alone. A turn that goes on asks for nothing but its stage.
pub proof fn plain_turns(effect: Effect, stage: Stage)
    ensures
        idle().effects.len() == 0 && !idle().record && !idle().paint && idle().next is None,
        only(effect).effects.len() == 1 && only(effect).effects[0] == effect,
        !only(effect).record && !only(effect).paint && only(effect).next is None,
        going_on(stage).effects.len() == 0 && going_on(stage).next == Some(stage),
        !going_on(stage).record && !going_on(stage).paint,
{
}

/// Work is in the list where it is wanted, and else nothing is.
pub proof fn wanted_work_is_listed(wanted: bool, effect: Effect)
    ensures
        effect_if(wanted, effect).contains(effect) <==> wanted,
        wanted ==> effect_if(wanted, effect).len() == 1,
        !wanted ==> effect_if(wanted, effect).len() == 0,
{
    if wanted {
        assert(effect_if(wanted, effect)[0] == effect);
    }
}

} // verus!
