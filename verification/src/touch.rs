//! Single-finger touch gestures: telling a tap from a pan.
//!
//! A mouse press fires `click` at once, so what a touch is has to be settled
//! before the document sees a press: else every attempt to scroll content inside
//! a click handler would click it.
use crate::events::TouchPhase;
use crate::instance::Instance;
use vstd::prelude::*;

verus! {

/// How a finger drag is routed after the first contact.
#[derive(Debug, Clone, Copy, PartialEq, Eq, Structural)]
pub enum GestureMode {
    /// The finger is on a control that is dragged or pressed: it acts as the
    /// mouse.
    Control,
    /// The finger is on content: dragging scrolls the node, and lifting the
    /// finger without a drag is a tap.
    Pan { node_id: usize },
}

/// What a finger that comes down on the node `hit` does. `on_overlay` tells
/// whether it is on a scrollbar or a spinner button, `is_button` whether the
/// node is a button. Controls and overlays are pressed and dragged at once, all
/// other content is panned.
pub open spec fn touch_mode(
    instance: Instance,
    hit: Option<usize>,
    on_overlay: bool,
    is_button: bool,
) -> GestureMode {
    match hit {
        Some(node_id) => {
            let control = is_button || instance.inputs.at(node_id) is Some
                || instance.selects.at(node_id) is Some;
            if on_overlay || control {
                GestureMode::Control
            } else {
                GestureMode::Pan { node_id }
            }
        },
        None => GestureMode::Control,
    }
}

impl Instance {
    /// Settles what a finger that comes down on the node `hit` does, before the
    /// document sees anything of it.
    pub fn classify_touch_start(
        &self,
        hit: Option<usize>,
        on_overlay: bool,
        is_button: bool,
    ) -> (mode: GestureMode)
        requires
            self.wf(),
        ensures
            mode == touch_mode(*self, hit, on_overlay, is_button),
    {
        match hit {
            Some(node_id) => {
                let control = is_button || self.inputs.contains_key(node_id)
                    || self.selects.contains_key(node_id);
                if on_overlay || control {
                    GestureMode::Control
                } else {
                    GestureMode::Pan { node_id }
                }
            },
            None => GestureMode::Control,
        }
    }
}

/// The finger in contact with the surface.
#[derive(Debug, Clone, Copy, PartialEq, Eq, Structural)]
pub struct ActiveTouch {
    pub id: u64,
    pub mode: GestureMode,
    /// The finger has come too far from where it started to be a tap.
    pub panned: bool,
}

/// What a touch event does to the document.
#[derive(Debug, Clone, Copy, PartialEq, Eq, Structural)]
pub enum GestureAction {
    Nothing,
    /// Press the left mouse button under the finger.
    Press,
    /// Move the mouse to the finger.
    Move,
    /// Release the left mouse button under the finger.
    Release,
    /// Press and release the left mouse button under the finger.
    Tap,
    /// Scroll the node by the way of the finger.
    Pan(usize),
    /// Let the node go on scrolling at the speed of the finger.
    Fling(usize),
}

impl ActiveTouch {
    /// A finger that has just come down.
    pub fn new(id: u64, mode: GestureMode) -> (touch: Self)
        ensures
            touch == (ActiveTouch { id, mode, panned: false }),
    {
        ActiveTouch { id, mode, panned: false }
    }

    /// Whether the finger has come too far to be a tap.
    pub fn panned(&self) -> (panned: bool)
        ensures
            panned == self.panned,
    {
        self.panned
    }

    /// Records a move of the finger. `past_slop` tells whether the finger is
    /// further from where it started than a tap may stray.
    pub fn record_move(&mut self, past_slop: bool)
        ensures
            *final(self) == (ActiveTouch { panned: old(self).panned || past_slop, ..*old(self) }),
    {
        if past_slop {
            self.panned = true;
        }
    }

    /// What a touch event of this finger does.
    pub open spec fn gesture(&self, phase: TouchPhase) -> GestureAction {
        match (self.mode, phase) {
            (GestureMode::Control, TouchPhase::Started) => GestureAction::Press,
            (GestureMode::Control, TouchPhase::Moved) => GestureAction::Move,
            (GestureMode::Control, _) => GestureAction::Release,
            (GestureMode::Pan { .. }, TouchPhase::Started) => GestureAction::Nothing,
            (GestureMode::Pan { node_id }, TouchPhase::Moved) => if self.panned {
                GestureAction::Pan(node_id)
            } else {
                GestureAction::Nothing
            },
            (GestureMode::Pan { node_id }, TouchPhase::Ended) => if self.panned {
                GestureAction::Fling(node_id)
            } else {
                GestureAction::Tap
            },
            (GestureMode::Pan { .. }, TouchPhase::Cancelled) => GestureAction::Nothing,
        }
    }

    /// What a touch event of this finger does. A move is recorded before.
    pub fn action(&self, phase: TouchPhase) -> (action: GestureAction)
        ensures
            action == self.gesture(phase),
    {
        match (self.mode, phase) {
            (GestureMode::Control, TouchPhase::Started) => GestureAction::Press,
            (GestureMode::Control, TouchPhase::Moved) => GestureAction::Move,
            (GestureMode::Control, _) => GestureAction::Release,
            (GestureMode::Pan { .. }, TouchPhase::Started) => GestureAction::Nothing,
            (GestureMode::Pan { node_id }, TouchPhase::Moved) => if self.panned {
                GestureAction::Pan(node_id)
            } else {
                GestureAction::Nothing
            },
            (GestureMode::Pan { node_id }, TouchPhase::Ended) => if self.panned {
                GestureAction::Fling(node_id)
            } else {
                GestureAction::Tap
            },
            (GestureMode::Pan { .. }, TouchPhase::Cancelled) => GestureAction::Nothing,
        }
    }
}

/// The finger after a series of moves, each of which tells whether the finger
/// was then too far for a tap.
pub open spec fn after_moves(touch: ActiveTouch, moves: Seq<bool>) -> ActiveTouch
    decreases moves.len(),
{
    if moves.len() == 0 {
        touch
    } else {
        let before = after_moves(touch, moves.drop_last());
        ActiveTouch { panned: before.panned || moves.last(), ..before }
    }
}

/// A finger that comes down on content and lifts again taps exactly when none
/// of its moves strayed too far; once one did, coming back makes no tap of it.
pub proof fn taps_never_strayed(id: u64, node_id: usize, moves: Seq<bool>)
    ensures
        after_moves(
            ActiveTouch { id, mode: GestureMode::Pan { node_id }, panned: false },
            moves,
        ).gesture(TouchPhase::Ended) == (if moves.contains(true) {
            GestureAction::Fling(node_id)
        } else {
            GestureAction::Tap
        }),
    decreases moves.len(),
{
    let touch = ActiveTouch { id, mode: GestureMode::Pan { node_id }, panned: false };
    if moves.len() > 0 {
        taps_never_strayed(id, node_id, moves.drop_last());
        lemma_moves_keep(touch, moves.drop_last());
        let last = moves.len() - 1;
        if moves.contains(true) {
            let i = moves.index_of(true);
            assert(i < last ==> moves.drop_last()[i]);
        }
        if moves.drop_last().contains(true) {
            assert(moves[moves.drop_last().index_of(true)]);
        }
        assert(moves.last() ==> moves[last]);
    }
}

proof fn lemma_moves_keep(touch: ActiveTouch, moves: Seq<bool>)
    ensures
        after_moves(touch, moves).id == touch.id,
        after_moves(touch, moves).mode == touch.mode,
    decreases moves.len(),
{
    if moves.len() > 0 {
        lemma_moves_keep(touch, moves.drop_last());
    }
}

/// Touching content presses nothing before the finger lifts, and nothing at all
/// where the touch is cancelled.
pub proof fn content_waits_for_release(touch: ActiveTouch, phase: TouchPhase)
    requires
        touch.mode is Pan,
        !(phase is Ended),
    ensures
        !(touch.gesture(phase) is Press),
        !(touch.gesture(phase) is Tap),
{
}

/// A finger acts as the mouse on a scrollbar, a spinner button, a button, an input or
/// a select, and where it hits nothing. On any other node it pans that node.
pub proof fn fingers_press_controls_and_pan_content(
    instance: Instance,
    node_id: usize,
    on_overlay: bool,
    is_button: bool,
)
    ensures
        ({
            let control = on_overlay || is_button || instance.inputs.at(node_id) is Some
                || instance.selects.at(node_id) is Some;
            &&& control ==> touch_mode(instance, Some(node_id), on_overlay, is_button) is Control
            &&& !control ==> touch_mode(instance, Some(node_id), on_overlay, is_button) == (
            GestureMode::Pan { node_id })
            &&& touch_mode(instance, None, on_overlay, is_button) is Control
        }),
{
}

/// On a control a finger presses the left button when it comes down, moves the mouse,
/// and releases the button when it lifts or the touch is cancelled.
pub proof fn fingers_on_controls_are_the_mouse(touch: ActiveTouch)
    requires
        touch.mode is Control,
    ensures
        touch.gesture(TouchPhase::Started) is Press,
        touch.gesture(TouchPhase::Moved) is Move,
        touch.gesture(TouchPhase::Ended) is Release,
        touch.gesture(TouchPhase::Cancelled) is Release,
{
}

/// On content a finger scrolls the node once it has come too far for a tap, and lets it
/// go on scrolling when it lifts. Before that, moving does nothing and lifting is a tap.
/// A cancelled touch does nothing.
pub proof fn fingers_on_content_pan(touch: ActiveTouch, node_id: usize)
    requires
        touch.mode == (GestureMode::Pan { node_id }),
    ensures
        touch.gesture(TouchPhase::Started) is Nothing,
        touch.gesture(TouchPhase::Cancelled) is Nothing,
        touch.panned ==> touch.gesture(TouchPhase::Moved) == GestureAction::Pan(node_id),
        touch.panned ==> touch.gesture(TouchPhase::Ended) == GestureAction::Fling(node_id),
        !touch.panned ==> touch.gesture(TouchPhase::Moved) is Nothing,
        !touch.panned ==> touch.gesture(TouchPhase::Ended) is Tap,
{
}

} // verus!
