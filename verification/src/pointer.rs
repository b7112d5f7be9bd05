//! What mouse events do: hovering, pressing, dragging and scrolling.
use crate::effects::{push_if, After, Effect, EventName, Stage, Turn};
use crate::events::{MouseAction, MouseButton, TickResult};
use crate::inputs::handle_checked_input_click;
use crate::popup::PopupAction;
use crate::registry::Registry;
use crate::select::SelectState;
use crate::selects::{handle_select_click, popup_option_for_hit, select_owning_hit};
use crate::instance::{Instance, UiState};
use vstd::prelude::*;

verus! {

/// The part of a scrollbar under the pointer.
#[derive(Debug, Clone, Copy, PartialEq, Eq, Structural)]
pub enum ScrollbarPart {
    Nothing,
    Thumb,
    Track,
}

/// The first decision on a mouse event and the state after it. A drag takes
/// moves and releases for itself; a press on a scrollbar stays there; all else
/// goes to the document.
pub open spec fn mouse_start(ui: UiState, action: MouseAction, over: ScrollbarPart) -> (
    crate::effects::TurnModel,
    UiState,
) {
    let to_document = document_start(ui, action, over);
    if ui.scroll_drag {
        match action {
            MouseAction::Move => (
                crate::effects::TurnModel {
                    paint: true,
                    ..crate::effects::only(Effect::DragScroll)
                },
                UiState { needs_paint: true, ..ui },
            ),
            MouseAction::Up(_) => (crate::effects::idle(), UiState { scroll_drag: false, ..ui }),
            _ => to_document,
        }
    } else if ui.range_drag is Some {
        match action {
            MouseAction::Move => (
                crate::effects::TurnModel {
                    record: true,
                    ..crate::effects::only(Effect::MoveRange(ui.range_drag->0))
                },
                ui,
            ),
            MouseAction::Up(_) => (crate::effects::idle(), UiState { range_drag: None, ..ui }),
            _ => to_document,
        }
    } else {
        to_document
    }
}

/// The first decision on a mouse event that no drag takes.
pub open spec fn document_start(ui: UiState, action: MouseAction, over: ScrollbarPart) -> (
    crate::effects::TurnModel,
    UiState,
) {
    match action {
        MouseAction::Move => (crate::effects::going_on(Stage::Hover), ui),
        MouseAction::Wheel => (crate::effects::going_on(Stage::Wheel), ui),
        MouseAction::Down(MouseButton::Left) => match over {
            ScrollbarPart::Thumb => (
                crate::effects::only(Effect::GrabThumb),
                UiState { scroll_drag: true, ..ui },
            ),
            ScrollbarPart::Track => (
                crate::effects::TurnModel {
                    paint: true,
                    ..crate::effects::only(Effect::PageScroll)
                },
                UiState { needs_paint: true, ..ui },
            ),
            ScrollbarPart::Nothing => (crate::effects::going_on(Stage::Press), ui),
        },
        MouseAction::Down(MouseButton::Right) => (
            crate::effects::going_on(Stage::Bubble(EventName::ContextMenu)),
            ui,
        ),
        MouseAction::Down(MouseButton::Middle) => (
            crate::effects::going_on(Stage::Bubble(EventName::AuxClick)),
            ui,
        ),
        MouseAction::Up(_) => (
            crate::effects::TurnModel {
                effects: active_effects(ui.active, None),
                ..crate::effects::going_on(Stage::Bubble(EventName::MouseUp))
            },
            activated(ui, None),
        ),
    }
}

/// The work that moves the pressed state.
pub open spec fn active_effects(from: Option<usize>, to: Option<usize>) -> Seq<Effect> {
    crate::effects::effect_if(from != to, Effect::Activate { from, to })
}

/// The state with another node pressed.
pub open spec fn activated(ui: UiState, to: Option<usize>) -> UiState {
    UiState { active: to, ..crate::instance::repainted(ui, ui.active != to) }
}

/// The events that a move from one node to another fires: the old node is left
/// before the new one is entered, and only when they differ; the node under
/// the pointer is told of the move last.
pub open spec fn hover_events(from: Option<usize>, to: Option<usize>) -> Seq<Effect> {
    let left = match from {
        Some(node) if from != to => seq![
            Effect::FireRelated { node, event: EventName::MouseOut, related: to },
            Effect::FireAt { node, event: EventName::MouseLeave, related: to },
            Effect::FireAt { node, event: EventName::HoverLeave, related: to },
        ],
        _ => Seq::empty(),
    };
    let entered = match to {
        Some(node) if from != to => seq![
            Effect::FireRelated { node, event: EventName::MouseOver, related: from },
            Effect::FireAt { node, event: EventName::MouseEnter, related: from },
            Effect::FireAt { node, event: EventName::Hover, related: from },
            Effect::FireAt { node, event: EventName::HoverEnter, related: from },
        ],
        _ => Seq::empty(),
    };
    let moved = match to {
        Some(node) => seq![Effect::FireAt { node, event: EventName::MouseMove, related: None }],
        None => Seq::empty(),
    };
    left + entered + moved
}

fn push_hover_events(effects: &mut Vec<Effect>, from: Option<usize>, to: Option<usize>)
    ensures
        final(effects)@ == old(effects)@ + hover_events(from, to),
{
    if !same_node(from, to) {
        if let Some(node) = from {
            effects.push(Effect::FireRelated { node, event: EventName::MouseOut, related: to });
            effects.push(Effect::FireAt { node, event: EventName::MouseLeave, related: to });
            effects.push(Effect::FireAt { node, event: EventName::HoverLeave, related: to });
        }
        if let Some(node) = to {
            effects.push(Effect::FireRelated { node, event: EventName::MouseOver, related: from });
            effects.push(Effect::FireAt { node, event: EventName::MouseEnter, related: from });
            effects.push(Effect::FireAt { node, event: EventName::Hover, related: from });
            effects.push(Effect::FireAt { node, event: EventName::HoverEnter, related: from });
        }
    }
    if let Some(node) = to {
        effects.push(Effect::FireAt { node, event: EventName::MouseMove, related: None });
    }
    proof {
        assert(effects@ =~= old(effects)@ + hover_events(from, to));
    }
}

/// The first node of a chain.
pub open spec fn first(chain: Seq<usize>) -> Option<usize> {
    if chain.len() > 0 {
        Some(chain[0])
    } else {
        None
    }
}

fn first_of(chain: &Vec<usize>) -> (node: Option<usize>)
    ensures
        node == first(chain@),
{
    if chain.len() > 0 {
        Some(chain[0])
    } else {
        None
    }
}

fn same_node(a: Option<usize>, b: Option<usize>) -> (equal: bool)
    ensures
        equal == (a == b),
{
    match (a, b) {
        (Some(a), Some(b)) => a == b,
        (None, None) => true,
        _ => false,
    }
}

/// The popup option under the pointer that is not highlighted yet.
pub open spec fn new_highlight(selects: Registry<SelectState>, chain: Seq<usize>) -> Option<
    (usize, usize),
> {
    match crate::selects::option_for_chain(selects@, chain, 0) {
        Some((select, option)) => match selects.at(select) {
            Some(state) if state@.active != Some(option) => Some((select, option)),
            _ => None,
        },
        None => None,
    }
}

/// The selects after the option under the pointer was highlighted.
pub open spec fn highlighted(
    before: Registry<SelectState>,
    after: Registry<SelectState>,
    highlight: Option<(usize, usize)>,
) -> bool {
    match highlight {
        Some((select, option)) => {
            &&& crate::registry::changed_only(before@, after@, select)
            &&& after.at(select) matches Some(state) && state@ == (
            crate::select::SelectModel {
                active: Some(option),
                ..before.at(select)->0@
            })
        },
        None => after@ == before@,
    }
}

/// Whether a move of the pointer to `to` ends the pressed state.
pub open spec fn press_slips(active: Option<usize>, to: Option<usize>) -> bool {
    active is Some && active != to
}

/// The turn of a move of the pointer to `to`, with the popup option that it newly
/// highlights.
pub open spec fn hover_turn(
    ui: UiState,
    highlight: Option<(usize, usize)>,
    to: Option<usize>,
) -> crate::effects::TurnModel {
    crate::effects::TurnModel {
        effects: crate::effects::effect_if(
            highlight is Some,
            Effect::SyncHighlights((highlight->0).0),
        ) + seq![Effect::MoveHover] + crate::effects::effect_if(
            press_slips(ui.active, to),
            Effect::Activate { from: ui.active, to: None },
        ) + hover_events(ui.hovered, to),
        record: true,
        paint: ui.hovered != to,
        next: None,
    }
}

/// The state after a move of the pointer to `to`.
pub open spec fn hover_ui(
    ui: UiState,
    highlight: Option<(usize, usize)>,
    to: Option<usize>,
) -> UiState {
    let slips = press_slips(ui.active, to);
    UiState {
        hovered: to,
        active: if slips {
            None
        } else {
            ui.active
        },
        ..crate::instance::repainted(ui, highlight is Some || slips || ui.hovered != to)
    }
}

/// The turn that sends an event to the handler nearest to the pointer.
pub open spec fn bubble_turn(
    handlers: Set<(usize, Seq<char>)>,
    event: EventName,
    chain: Seq<usize>,
) -> crate::effects::TurnModel {
    match crate::bridge::handler_up(handlers, chain, crate::effects::event_text(event), 0) {
        Some(node) => crate::effects::TurnModel {
            record: true,
            ..crate::effects::only(Effect::Fire { node, event })
        },
        None => crate::effects::idle(),
    }
}

/// Whether a press on the first node of `chain` leads from one instance to another
/// with the given turn.
pub open spec fn pressed(
    before: Instance,
    after: Instance,
    turn: crate::effects::TurnModel,
    chain: Seq<usize>,
) -> bool {
    match crate::selects::option_for_chain(before.selects@, chain, 0) {
        Some((select, option)) => if option_enabled(before.selects, select, option) {
            let state = before.selects.at(select)->0@;
            let action = crate::popup::popup_action(state.open, false);
            &&& turn == (crate::effects::TurnModel {
                effects: crate::effects::effect_if(
                    !(action is Keep),
                    Effect::Popup { select, action },
                ) + seq![Effect::RefreshSelect(select), Effect::FireChange(select)],
                ..crate::effects::idle()
            })
            &&& after.ui == crate::instance::repainted(before.ui, true)
            &&& crate::registry::changed_only(before.selects@, after.selects@, select)
            &&& after.selects.at(select) matches Some(picked) && picked@ == crate::popup::opened(
                crate::select::SelectModel { selected: Some(option), ..state },
                false,
            )
        } else {
            &&& turn == crate::effects::idle()
            &&& after.ui == before.ui
            &&& after.selects@ == before.selects@
        },
        None => {
            let owner = crate::selects::owner_for_chain(before.selects@, chain, 0);
            let len = before.selects@.len() as int;
            let closing = crate::selects::open_others(before.selects@, owner, len);
            &&& turn == (crate::effects::TurnModel {
                effects: closing_effects(closing),
                ..crate::effects::going_on(Stage::PressAt)
            })
            &&& after.ui == crate::instance::repainted(before.ui, closing.len() > 0)
            &&& others_closed(before.selects@, after.selects@, owner, len)
        },
    }
}

/// Whether a press on `chain` moves the focus.
pub open spec fn press_moves_focus(before: Instance, chain: Seq<usize>) -> bool {
    focus_target(before.handlers@, chain) != before.ui.focused
}

/// The turn of a press that goes on at the first node of `chain`.
pub open spec fn press_at_turn(before: Instance, chain: Seq<usize>) -> crate::effects::TurnModel {
    let hit = first(chain);
    let focused = before.ui.focused;
    let moves = press_moves_focus(before, chain);
    let after = match hit {
        Some(hit) => After::Press(hit),
        None => After::Stop,
    };
    crate::effects::TurnModel {
        effects: active_effects(before.ui.active, hit) + (if moves {
            crate::instance::leave_effects(
                focused,
                crate::instance::dropdown_open(before.selects, focused),
            )
        } else {
            Seq::empty()
        }),
        record: true,
        paint: false,
        next: if moves {
            Some(
                Stage::Enter {
                    previous: focused,
                    next: focus_target(before.handlers@, chain),
                    after,
                },
            )
        } else {
            crate::instance::stage_after(after)
        },
    }
}

/// The state after a press that goes on at the first node of `chain`.
pub open spec fn press_at_ui(before: Instance, chain: Seq<usize>) -> UiState {
    crate::instance::repainted(
        activated(before.ui, first(chain)),
        press_moves_focus(before, chain) && crate::instance::dropdown_open(
            before.selects,
            before.ui.focused,
        ),
    )
}

/// Where a press that hit `chain` puts the focus: on the nearest node with a
/// focus handler, or else with a key handler, or else on the node itself.
pub open spec fn focus_target(handlers: Set<(usize, Seq<char>)>, chain: Seq<usize>) -> Option<
    usize,
> {
    if chain.len() == 0 {
        None
    } else {
        match crate::bridge::handler_up(handlers, chain, "focus"@, 0) {
            Some(node) => Some(node),
            None => match crate::bridge::handler_up(handlers, chain, "keydown"@, 0) {
                Some(node) => Some(node),
                None => Some(chain[0]),
            },
        }
    }
}

/// Whether an option of a select can be picked by a press on it.
pub open spec fn option_enabled(selects: Registry<SelectState>, select: usize, option: usize) -> bool {
    selects.at(select) matches Some(state) && option < state@.options.len()
        && !state@.options[option as int].disabled
}

/// The work that closes the given dropdowns.
pub open spec fn closing_effects(selects: Seq<usize>) -> Seq<Effect> {
    selects.map_values(
        |select: usize| Effect::Popup { select, action: PopupAction::Unmount },
    )
}

/// The selects after every open one but `owner` among the first `upto` was
/// closed.
pub open spec fn others_closed(
    before: Seq<(usize, SelectState)>,
    after: Seq<(usize, SelectState)>,
    owner: Option<usize>,
    upto: int,
) -> bool {
    &&& after.len() == before.len()
    &&& forall|i: int|
        #![trigger after[i]]
        0 <= i < before.len() ==> after[i].0 == before[i].0 && (if i < upto && before[i].1@.open
            && owner != Some(before[i].0) {
            after[i].1@ == crate::popup::opened(before[i].1@, false)
        } else {
            after[i] == before[i]
        })
}

fn close_others(selects: &mut Registry<SelectState>, owner: Option<usize>) -> (effects: Vec<Effect>)
    requires
        old(selects).wf(),
    ensures
        final(selects).wf(),
        others_closed(old(selects)@, final(selects)@, owner, old(selects)@.len() as int),
        effects@ == closing_effects(
            crate::selects::open_others(old(selects)@, owner, old(selects)@.len() as int),
        ),
{
    let ghost before = selects@;
    let mut effects: Vec<Effect> = Vec::new();
    let mut i: usize = 0;
    while i < selects.len()
        invariant
            selects.wf(),
            crate::registry::distinct_ids(before),
            i <= before.len(),
            others_closed(before, selects@, owner, i as int),
            effects@ == closing_effects(crate::selects::open_others(before, owner, i as int)),
        decreases before.len() - i,
    {
        let id: usize = selects.entry(i).0;
        let open = selects.entry(i).1.is_open();
        let ghost so_far = selects@;
        let ghost closing = crate::selects::open_others(before, owner, i as int);
        assert(so_far[i as int] == before[i as int]);
        if open && !same_node(owner, Some(id)) {
            let action = selects.state_mut(i).switch_open(false);
            effects.push(Effect::Popup { select: id, action });
            proof {
                assert(effects@ =~= closing_effects(closing.push(id)));
            }
        }
        proof {
            assert forall|k: int|
                #![trigger selects@[k]]
                0 <= k < before.len() implies selects@[k].0 == before[k].0 && (if k < i + 1
                && before[k].1@.open && owner != Some(before[k].0) {
                selects@[k].1@ == crate::popup::opened(before[k].1@, false)
            } else {
                selects@[k] == before[k]
            }) by {
                assert(so_far[k].0 == before[k].0);
            }
        }
        i += 1;
    }
    effects
}

impl Instance {
    fn activate(&mut self, to: Option<usize>, effects: &mut Vec<Effect>)
        ensures
            final(effects)@ == old(effects)@ + active_effects(old(self).ui.active, to),
            final(self).ui == activated(old(self).ui, to),
            final(self).same_but_ui(old(self)),
    {
        let from = self.ui.active;
        let moves = !same_node(from, to);
        push_if(effects, moves, Effect::Activate { from, to });
        if moves {
            self.ui.needs_paint = true;
        }
        self.ui.active = to;
    }

    fn highlight(&mut self, chain: &Vec<usize>, effects: &mut Vec<Effect>)
        requires
            old(self).wf(),
        ensures
            final(self).wf(),
            final(self).same_but_selects(old(self)),
            ({
                let highlight = new_highlight(old(self).selects, chain@);
                &&& final(effects)@ == old(effects)@ + crate::effects::effect_if(
                    highlight is Some,
                    Effect::SyncHighlights((highlight->0).0),
                )
                &&& highlighted(old(self).selects, final(self).selects, highlight)
                &&& final(self).ui == crate::instance::repainted(
                    old(self).ui,
                    highlight is Some,
                )
            }),
    {
        let mut picked: Option<usize> = None;
        if let Some((select, option)) = popup_option_for_hit(&self.selects, chain) {
            if let Some(slot) = self.selects.position(select) {
                if !same_node(self.selects.entry(slot).1.active_index(), Some(option)) {
                    self.selects.state_mut(slot).set_active_index(Some(option));
                    self.ui.needs_paint = true;
                    picked = Some(select);
                }
            }
        }
        match picked {
            Some(select) => {
                effects.push(Effect::SyncHighlights(select));
            },
            None => {},
        }
        proof {
            let highlight = new_highlight(old(self).selects, chain@);
            assert(effects@ =~= old(effects)@ + crate::effects::effect_if(
                highlight is Some,
                Effect::SyncHighlights((highlight->0).0),
            ));
        }
    }

    /// Takes a mouse event. `over` is the part of a scrollbar under the
    /// pointer.
    pub fn dispatch_mouse(&mut self, action: MouseAction, over: ScrollbarPart) -> (turn: Turn)
        ensures
            (turn@, final(self).ui) == mouse_start(old(self).ui, action, over),
            final(self).same_but_ui(old(self)),
    {
        if self.ui.scroll_drag {
            match action {
                MouseAction::Move => {
                    self.ui.needs_paint = true;
                    let mut turn = Turn::only(Effect::DragScroll);
                    turn.paint = true;
                    return turn;
                },
                MouseAction::Up(_) => {
                    self.ui.scroll_drag = false;
                    return Turn::idle();
                },
                _ => {},
            }
        } else if let Some(drag) = self.ui.range_drag {
            match action {
                MouseAction::Move => {
                    let mut turn = Turn::only(Effect::MoveRange(drag));
                    turn.record = true;
                    return turn;
                },
                MouseAction::Up(_) => {
                    self.ui.range_drag = None;
                    return Turn::idle();
                },
                _ => {},
            }
        }
        match action {
            MouseAction::Move => Turn::going_on(Stage::Hover),
            MouseAction::Wheel => Turn::going_on(Stage::Wheel),
            MouseAction::Down(MouseButton::Left) => match over {
                ScrollbarPart::Thumb => {
                    self.ui.scroll_drag = true;
                    Turn::only(Effect::GrabThumb)
                },
                ScrollbarPart::Track => {
                    self.ui.needs_paint = true;
                    let mut turn = Turn::only(Effect::PageScroll);
                    turn.paint = true;
                    turn
                },
                ScrollbarPart::Nothing => Turn::going_on(Stage::Press),
            },
            MouseAction::Down(MouseButton::Right) => Turn::going_on(
                Stage::Bubble(EventName::ContextMenu),
            ),
            MouseAction::Down(MouseButton::Middle) => Turn::going_on(
                Stage::Bubble(EventName::AuxClick),
            ),
            MouseAction::Up(_) => {
                let mut turn = Turn::going_on(Stage::Bubble(EventName::MouseUp));
                self.activate(None, &mut turn.effects);
                proof {
                    assert(turn.effects@ =~= active_effects(old(self).ui.active, None));
                }
                turn
            },
        }
    }

    /// Moves the pointer to the first node of `chain`: highlights the popup
    /// option there, ends a press that slipped off its node, and fires the
    /// hover events.
    pub fn hover(&mut self, chain: &Vec<usize>) -> (turn: Turn)
        requires
            old(self).wf(),
        ensures
            final(self).wf(),
            ({
                let highlight = new_highlight(old(self).selects, chain@);
                &&& turn@ == hover_turn(old(self).ui, highlight, first(chain@))
                &&& final(self).ui == hover_ui(old(self).ui, highlight, first(chain@))
                &&& highlighted(old(self).selects, final(self).selects, highlight)
            }),
            final(self).same_but_selects(old(self)),
    {
        let from = self.ui.hovered;
        let to = first_of(chain);
        let mut effects: Vec<Effect> = Vec::new();
        let ghost highlight = new_highlight(self.selects, chain@);
        let ghost slips = press_slips(self.ui.active, to);
        self.highlight(chain, &mut effects);
        effects.push(Effect::MoveHover);
        self.ui.hovered = to;
        if self.ui.active.is_some() && !same_node(self.ui.active, to) {
            self.activate(None, &mut effects);
        }
        proof {
            assert(effects@ =~= crate::effects::effect_if(
                highlight is Some,
                Effect::SyncHighlights((highlight->0).0),
            ) + seq![Effect::MoveHover] + crate::effects::effect_if(
                slips,
                Effect::Activate { from: old(self).ui.active, to: None },
            ));
        }
        let changed = !same_node(from, to);
        if changed {
            self.ui.needs_paint = true;
        }
        push_hover_events(&mut effects, from, to);
        Turn { effects, record: true, paint: changed, next: None }
    }

    /// Sends an event to the handler nearest to the pointer.
    pub fn bubble(&self, event: EventName, chain: &Vec<usize>) -> (turn: Turn)
        ensures
            turn@ == bubble_turn(self.handlers@, event, chain@),
    {
        match self.handlers.find_handler_up(chain, event.as_str()) {
            Some(node) => {
                let mut turn = Turn::only(Effect::Fire { node, event });
                turn.record = true;
                turn
            },
            None => Turn::idle(),
        }
    }

    /// The left button went down on the first node of `chain`. On a popup
    /// option it picks the option and closes the popup; a disabled option
    /// swallows it. Anywhere else it closes the dropdowns that do not own the
    /// node, and the press goes on.
    pub fn press(&mut self, chain: &Vec<usize>) -> (turn: Turn)
        requires
            old(self).wf(),
        ensures
            final(self).wf(),
            final(self).same_but_selects(old(self)),
            pressed(*old(self), *final(self), turn@, chain@),
    {
        if let Some((select, option)) = popup_option_for_hit(&self.selects, chain) {
            let slot: usize = match self.selects.position(select) {
                Some(slot) => slot,
                None => return Turn::idle(),
            };
            let state = &self.selects.entry(slot).1;
            if option >= state.options.len() || state.options[option].disabled {
                return Turn::idle();
            }
            let ghost before = self.selects@;
            self.selects.state_mut(slot).set_selected_index(Some(option));
            let ghost picked = self.selects@;
            let mut effects = self.set_select_dropdown_open(select, false);
            proof {
                assert forall|i: int| 0 <= i < before.len() implies (
                #[trigger] self.selects@[i]).0 == before[i].0 && (before[i].0 != select
                    ==> self.selects@[i] == before[i]) by {
                    assert(picked[i].0 == before[i].0);
                }
            }
            effects.push(Effect::RefreshSelect(select));
            effects.push(Effect::FireChange(select));
            proof {
                let action = crate::popup::popup_action(old(self).selects.at(select)->0@.open, false);
                assert(effects@ =~= crate::effects::effect_if(
                    !(action is Keep),
                    Effect::Popup { select, action },
                ) + seq![Effect::RefreshSelect(select), Effect::FireChange(select)]);
            }
            return Turn { effects, record: false, paint: false, next: None };
        }
        let owner = select_owning_hit(&self.selects, chain);
        let effects = close_others(&mut self.selects, owner);
        if effects.len() > 0 {
            self.ui.needs_paint = true;
        }
        Turn { effects, record: false, paint: false, next: Some(Stage::PressAt) }
    }

    /// The press goes on at the first node of `chain`: it becomes the pressed
    /// node, and the focus moves to it or to its nearest ancestor that handles
    /// focus or keys. A press on nothing takes the focus away.
    pub fn press_at(&mut self, chain: &Vec<usize>) -> (turn: Turn)
        requires
            old(self).wf(),
        ensures
            final(self).wf(),
            final(self).same_but_selects(old(self)),
            turn@ == press_at_turn(*old(self), chain@),
            final(self).ui == press_at_ui(*old(self), chain@),
            if press_moves_focus(*old(self), chain@) {
                crate::instance::left_selects(
                    old(self).selects,
                    final(self).selects,
                    old(self).ui.focused,
                )
            } else {
                final(self).selects@ == old(self).selects@
            },
    {
        let hit = first_of(chain);
        let mut effects: Vec<Effect> = Vec::new();
        let focused = self.ui.focused;
        let target = match hit {
            Some(hit) => match self.handlers.find_handler_up(chain, "focus") {
                Some(node) => Some(node),
                None => match self.handlers.find_handler_up(chain, "keydown") {
                    Some(node) => Some(node),
                    None => Some(hit),
                },
            },
            None => None,
        };
        self.activate(hit, &mut effects);
        let ghost pressed = effects@;
        proof {
            assert(pressed =~= active_effects(old(self).ui.active, hit));
        }
        let after = match hit {
            Some(hit) => After::Press(hit),
            None => After::Stop,
        };
        if same_node(target, focused) {
            let next = match hit {
                Some(hit) => Some(Stage::Target(hit)),
                None => None,
            };
            proof {
                assert(effects@ =~= pressed + Seq::<Effect>::empty());
            }
            return Turn { effects, record: true, paint: false, next };
        }
        self.leave(&mut effects);
        Turn {
            effects,
            record: true,
            paint: false,
            next: Some(Stage::Enter { previous: focused, next: target, after }),
        }
    }
}

/// What a press on a native control or a click handler starts.
#[derive(Debug, Clone, Copy, PartialEq, Eq, Structural)]
pub enum PressKind {
    /// A checkbox or radio.
    Checked,
    /// A range input.
    Range,
    /// A select.
    Select,
    /// A node without a native control.
    Plain,
}

/// The native control that a press on `hit` reaches.
pub open spec fn press_kind(instance: Instance, hit: usize) -> PressKind {
    match instance.inputs.at(hit) {
        Some(state) if state@.kind is Checkbox || state@.kind is Radio => PressKind::Checked,
        Some(state) if state@.kind is Range => PressKind::Range,
        _ => if instance.selects.at(hit) is Some {
            PressKind::Select
        } else {
            PressKind::Plain
        },
    }
}

/// The turn of a press on `hit`.
pub open spec fn target_turn(instance: Instance, hit: usize, chain: Seq<usize>) -> crate::effects::TurnModel {
    match press_kind(instance, hit) {
        PressKind::Checked => crate::effects::TurnModel {
            effects: if crate::inputs::after_checked_click(
                crate::inputs::models(instance.inputs@),
                hit,
                instance.inputs.at(hit)->0@,
            ) is Some {
                seq![Effect::SyncChecked, Effect::FireInput(hit)]
            } else {
                Seq::empty()
            },
            paint: true,
            ..crate::effects::idle()
        },
        PressKind::Range => crate::effects::TurnModel {
            paint: true,
            ..crate::effects::only(Effect::MoveRange(hit))
        },
        PressKind::Select => {
            let open = instance.selects.at(hit)->0@.open;
            crate::effects::TurnModel {
                effects: seq![
                    Effect::Popup {
                        select: hit,
                        action: crate::popup::popup_action(open, !open),
                    },
                    Effect::RefreshSelect(hit),
                ],
                paint: true,
                ..crate::effects::idle()
            }
        },
        PressKind::Plain => match crate::bridge::handler_up(
            instance.handlers@,
            chain,
            "click"@,
            0,
        ) {
            Some(node) => crate::effects::only(Effect::Fire { node, event: EventName::Click }),
            None => crate::effects::idle(),
        },
    }
}

/// The state after a press on `hit`.
pub open spec fn target_ui(instance: Instance, hit: usize) -> UiState {
    UiState {
        range_drag: if press_kind(instance, hit) is Range {
            Some(hit)
        } else {
            instance.ui.range_drag
        },
        ..crate::instance::repainted(instance.ui, !(press_kind(instance, hit) is Plain))
    }
}

/// How the inputs and selects change by a press on `hit`: a checkbox or radio
/// is clicked, a select opens or closes, and nothing else changes.
pub open spec fn pressed_controls(before: Instance, after: Instance, hit: usize) -> bool {
    let kind = press_kind(before, hit);
    &&& match kind {
        PressKind::Checked => {
            let models = crate::inputs::models(before.inputs@);
            crate::inputs::models(after.inputs@) == (match crate::inputs::after_checked_click(
                models,
                hit,
                before.inputs.at(hit)->0@,
            ) {
                Some(clicked) => clicked,
                None => models,
            })
        },
        _ => after.inputs@ == before.inputs@,
    }
    &&& match kind {
        PressKind::Select => {
            &&& crate::registry::changed_only(before.selects@, after.selects@, hit)
            &&& after.selects.at(hit) matches Some(state) && state@ == crate::popup::opened(
                before.selects.at(hit)->0@,
                !before.selects.at(hit)->0@.open,
            )
        },
        _ => after.selects@ == before.selects@,
    }
}

impl Instance {
    /// The press reached `hit`; `chain` is that node followed by its
    /// ancestors. Checkboxes and radios are clicked, range inputs follow the
    /// pointer, selects open or close, and other nodes fire `click` at the
    /// nearest handler.
    pub fn press_target(&mut self, hit: usize, chain: &Vec<usize>) -> (turn: Turn)
        requires
            old(self).wf(),
        ensures
            final(self).wf(),
            turn@ == target_turn(*old(self), hit, chain@),
            final(self).ui == target_ui(*old(self), hit),
            pressed_controls(*old(self), *final(self), hit),
            final(self).same_but_controls(old(self)),
    {
        let (checked_like, range) = match self.inputs.get(hit) {
            Some(state) => (state.is_checked_like(), state.is_range()),
            None => (false, false),
        };
        if checked_like {
            let clicked = handle_checked_input_click(&mut self.inputs, hit);
            self.ui.needs_paint = true;
            let mut effects: Vec<Effect> = Vec::new();
            if clicked.is_some() {
                effects.push(Effect::SyncChecked);
                effects.push(Effect::FireInput(hit));
                proof {
                    assert(effects@ =~= seq![Effect::SyncChecked, Effect::FireInput(hit)]);
                }
            }
            return Turn { effects, record: false, paint: true, next: None };
        }
        if range {
            self.ui.range_drag = Some(hit);
            self.ui.needs_paint = true;
            let mut turn = Turn::only(Effect::MoveRange(hit));
            turn.paint = true;
            return turn;
        }
        if self.selects.contains_key(hit) {
            let (action, result) = handle_select_click(&mut self.selects, hit);
            self.ui.needs_paint = true;
            let mut effects: Vec<Effect> = Vec::new();
            effects.push(Effect::Popup { select: hit, action });
            effects.push(Effect::RefreshSelect(hit));
            proof {
                assert(effects@ =~= seq![
                    Effect::Popup { select: hit, action },
                    Effect::RefreshSelect(hit),
                ]);
            }
            return Turn { effects, record: false, paint: result.needs_paint, next: None };
        }
        match self.handlers.find_handler_up(chain, "click") {
            Some(node) => Turn::only(Effect::Fire { node, event: EventName::Click }),
            None => Turn::idle(),
        }
    }
}

impl Instance {
    /// Takes over a value that a drag, a key or a spinner button computed for
    /// a number or range input. A value that changed is shown and fired as
    /// `input`. Returns `None` when there is no such input or its value did not
    /// change.
    pub fn commit_number(&mut self, node: usize, value: &str) -> (turn: Option<Turn>)
        requires
            old(self).wf(),
        ensures
            final(self).wf(),
            final(self).same_but_inputs(old(self)),
            final(self).ui == old(self).ui,
            crate::registry::changed_only(old(self).inputs@, final(self).inputs@, node),
            match old(self).inputs.at(node) {
                Some(before) => {
                    let changed = value@ != before@.value;
                    &&& if changed {
                        turn matches Some(turn) && turn@ == (crate::effects::TurnModel {
                            effects: seq![Effect::RefreshInput(node), Effect::FireInput(node)],
                            ..crate::effects::idle()
                        })
                    } else {
                        turn is None
                    }
                    &&& final(self).inputs.at(node) matches Some(after) && if changed {
                        crate::input::same_but_moment(
                            after@,
                            crate::input::replaced(before@, 0, before@.value.len() as int, value@),
                        )
                    } else {
                        after@ == before@
                    }
                },
                None => turn is None && final(self).inputs@ == old(self).inputs@,
            },
    {
        let slot: usize = match self.inputs.position(node) {
            Some(slot) => slot,
            None => return None,
        };
        if !self.inputs.state_mut(slot).commit_numeric_value(value) {
            return None;
        }
        let mut turn = Turn::idle();
        turn.effects.push(Effect::RefreshInput(node));
        turn.effects.push(Effect::FireInput(node));
        proof {
            assert(turn.effects@ =~= seq![Effect::RefreshInput(node), Effect::FireInput(node)]);
        }
        Some(turn)
    }
}

/// Where the offsets of a scroll event come from.
#[derive(Debug, Clone, Copy, PartialEq, Eq, Structural)]
pub enum ScrollSource {
    /// The scroll offset of a node.
    Node(usize),
    /// The scroll offset of the viewport.
    Viewport,
    /// No offset: both are zero.
    Zero,
}

/// A node at which a scrolling event is fired, with the source of the offsets
/// that the event reports.
#[derive(Debug, Clone, Copy, PartialEq, Eq, Structural)]
pub struct ScrollEvent {
    pub node: usize,
    pub source: ScrollSource,
}

/// What a turn of the wheel fires once the document has scrolled.
#[derive(Debug, Clone, Copy, PartialEq, Eq, Structural)]
pub struct WheelPlan {
    /// `wheel` at its nearest handler.
    pub wheel: Option<ScrollEvent>,
    /// `scroll` at the node that scrolled.
    pub scroll: Option<ScrollEvent>,
}

/// The first node at or after `from` whose offset changed.
pub open spec fn first_changed(chain: Seq<usize>, changed: Seq<bool>, from: int) -> Option<usize>
    decreases chain.len() - from,
{
    if from < 0 || from >= chain.len() || from >= changed.len() {
        None
    } else if changed[from] {
        Some(chain[from])
    } else {
        first_changed(chain, changed, from + 1)
    }
}

/// The plan for a turn of the wheel over `chain`: `changed` tells which of its
/// nodes scrolled. The innermost one that did fires `scroll`; when none did but
/// the viewport scrolled, the container fires it. A turn over nothing fires
/// nothing.
pub open spec fn wheel_plan(
    instance: Instance,
    chain: Seq<usize>,
    changed: Seq<bool>,
    start_exists: bool,
    viewport_changed: bool,
) -> WheelPlan {
    let source = if start_exists {
        ScrollSource::Node(chain[0])
    } else if viewport_changed {
        ScrollSource::Viewport
    } else {
        ScrollSource::Zero
    };
    if chain.len() == 0 {
        WheelPlan { wheel: None, scroll: None }
    } else {
        WheelPlan {
            wheel: match crate::bridge::handler_up(instance.handlers@, chain, "wheel"@, 0) {
                Some(node) => Some(ScrollEvent { node, source }),
                None => None,
            },
            scroll: match first_changed(chain, changed, 0) {
                Some(node) => Some(ScrollEvent { node, source: ScrollSource::Node(node) }),
                None => if viewport_changed {
                    Some(
                        ScrollEvent {
                            node: instance.container_id,
                            source: ScrollSource::Viewport,
                        },
                    )
                } else {
                    None
                },
            },
        }
    }
}

impl Instance {
    /// Decides what a turn of the wheel over `chain` fires once the document
    /// has scrolled. `changed` tells for each node of the chain whether its
    /// offset changed, `start_exists` whether the first node is still there. Where
    /// the pointer is over nothing, the chain is empty and nothing is fired.
    pub fn dispatch_wheel(
        &self,
        chain: &Vec<usize>,
        changed: &Vec<bool>,
        start_exists: bool,
        viewport_changed: bool,
    ) -> (plan: WheelPlan)
        ensures
            plan == wheel_plan(*self, chain@, changed@, start_exists, viewport_changed),
    {
        if chain.len() == 0 {
            return WheelPlan { wheel: None, scroll: None };
        }
        let source = if start_exists {
            ScrollSource::Node(chain[0])
        } else if viewport_changed {
            ScrollSource::Viewport
        } else {
            ScrollSource::Zero
        };
        let wheel = match self.handlers.find_handler_up(chain, "wheel") {
            Some(node) => Some(ScrollEvent { node, source }),
            None => None,
        };
        let mut scrolled: Option<usize> = None;
        let mut i: usize = 0;
        while i < chain.len() && i < changed.len() && scrolled.is_none()
            invariant
                i <= chain@.len(),
                i <= changed@.len(),
                match scrolled {
                    Some(node) => first_changed(chain@, changed@, 0) == Some(node),
                    None => first_changed(chain@, changed@, 0) == first_changed(
                        chain@,
                        changed@,
                        i as int,
                    ),
                },
            decreases chain@.len() - i, scrolled.is_none() as int,
        {
            if changed[i] {
                scrolled = Some(chain[i]);
            } else {
                i += 1;
            }
        }
        let scroll = match scrolled {
            Some(node) => Some(ScrollEvent { node, source: ScrollSource::Node(node) }),
            None => if viewport_changed {
                Some(ScrollEvent { node: self.container_id, source: ScrollSource::Viewport })
            } else {
                None
            },
        };
        WheelPlan { wheel, scroll }
    }

    /// Ends a turn of the wheel. `scrolled` tells whether anything scrolled,
    /// `fired` what the fired events asked for. Where nothing scrolled and no
    /// handler asks for a repaint, nothing is asked of the host.
    pub fn finish_wheel(&mut self, scrolled: bool, fired: TickResult) -> (result: TickResult)
        ensures
            result == wheel_result(scrolled, fired),
            final(self).ui == crate::instance::repainted(
                old(self).ui,
                scrolled || fired.needs_paint,
            ),
            final(self).same_but_ui(old(self)),
    {
        if scrolled || fired.needs_paint {
            self.ui.needs_paint = true;
            TickResult { needs_paint: true, jobs_pending: fired.jobs_pending }
        } else {
            TickResult { needs_paint: false, jobs_pending: false }
        }
    }
}

/// How many nodes two paths from the root share, from position `from` on.
pub open spec fn shared(a: Seq<usize>, b: Seq<usize>, from: int) -> int
    decreases a.len() - from,
{
    if from < 0 || from >= a.len() || from >= b.len() || a[from] != b[from] {
        from
    } else {
        shared(a, b, from + 1)
    }
}

/// The nodes that lose the pressed state and those that gain it when it moves
/// from the end of one path to the end of another. Both paths start at the
/// root; the nodes they share keep their state.
pub fn path_change(old_path: &Vec<usize>, new_path: &Vec<usize>) -> (change: (
    Vec<usize>,
    Vec<usize>,
))
    ensures
        change.0@ == old_path@.skip(shared(old_path@, new_path@, 0)),
        change.1@ == new_path@.skip(shared(old_path@, new_path@, 0)),
{
    let mut count: usize = 0;
    while count < old_path.len() && count < new_path.len() && old_path[count] == new_path[count]
        invariant
            count <= old_path@.len(),
            count <= new_path@.len(),
            shared(old_path@, new_path@, 0) == shared(old_path@, new_path@, count as int),
        decreases old_path@.len() - count,
    {
        count += 1;
    }
    let mut lost: Vec<usize> = Vec::new();
    let mut gained: Vec<usize> = Vec::new();
    let mut i: usize = count;
    while i < old_path.len()
        invariant
            count <= i <= old_path@.len(),
            lost@ == old_path@.subrange(count as int, i as int),
        decreases old_path@.len() - i,
    {
        lost.push(old_path[i]);
        i += 1;
    }
    let mut j: usize = count;
    while j < new_path.len()
        invariant
            count <= j <= new_path@.len(),
            gained@ == new_path@.subrange(count as int, j as int),
        decreases new_path@.len() - j,
    {
        gained.push(new_path[j]);
        j += 1;
    }
    (lost, gained)
}

/// The shared part of two paths is their longest common beginning.
pub proof fn shared_is_longest(a: Seq<usize>, b: Seq<usize>, from: int)
    requires
        0 <= from <= a.len(),
        from <= b.len(),
        a.take(from) == b.take(from),
    ensures
        from <= shared(a, b, from) <= a.len(),
        shared(a, b, from) <= b.len(),
        a.take(shared(a, b, from)) == b.take(shared(a, b, from)),
        shared(a, b, from) < a.len() && shared(a, b, from) < b.len() ==> a[shared(a, b, from)]
            != b[shared(a, b, from)],
    decreases a.len() - from,
{
    if from < a.len() && from < b.len() && a[from] == b[from] {
        assert(a.take(from + 1) =~= a.take(from).push(a[from]));
        assert(b.take(from + 1) =~= b.take(from).push(b[from]));
        shared_is_longest(a, b, from + 1);
    }
}

/// A pointer that stays on its node fires no hover transition: only the move
/// itself is told.
pub proof fn staying_fires_no_transition(node: usize)
    ensures
        hover_events(Some(node), Some(node)) == seq![
            Effect::FireAt { node, event: EventName::MouseMove, related: None },
        ],
        hover_events(None, None) == Seq::<Effect>::empty(),
{
    assert(hover_events(Some(node), Some(node)) =~= seq![
        Effect::FireAt { node, event: EventName::MouseMove, related: None },
    ]);
    assert(hover_events(None, None) =~= Seq::<Effect>::empty());
}

/// The node that an event is fired at.
pub open spec fn fired_at(effect: Effect) -> Option<usize> {
    match effect {
        Effect::Fire { node, .. } => Some(node),
        Effect::FireRelated { node, .. } => Some(node),
        Effect::FireAt { node, .. } => Some(node),
        _ => None,
    }
}

/// When the pointer moves from one node to another, the old node is told of
/// everything before the new node is told of anything.
pub proof fn leaving_precedes_entering(from: usize, to: usize, i: int, j: int)
    requires
        from != to,
        0 <= i < hover_events(Some(from), Some(to)).len(),
        0 <= j < hover_events(Some(from), Some(to)).len(),
        fired_at(hover_events(Some(from), Some(to))[i]) == Some(from),
        fired_at(hover_events(Some(from), Some(to))[j]) == Some(to),
    ensures
        i < j,
{
}

/// A press leaves no dropdown open but that of the select it belongs to.
pub proof fn press_leaves_only_owner_open(
    before: Seq<(usize, SelectState)>,
    after: Seq<(usize, SelectState)>,
    owner: Option<usize>,
    i: int,
)
    requires
        others_closed(before, after, owner, before.len() as int),
        0 <= i < after.len(),
        after[i].1@.open,
    ensures
        owner == Some(after[i].0),
        after[i] == before[i],
{
    assert(after[i].0 == before[i].0);
}

/// A drag keeps every move of the pointer from the document, and a release
/// ends it.
pub proof fn drag_takes_moves(ui: UiState, over: ScrollbarPart, button: MouseButton)
    requires
        ui.scroll_drag || ui.range_drag is Some,
    ensures
        mouse_start(ui, MouseAction::Move, over).0.next is None,
        mouse_start(ui, MouseAction::Up(button), over).0 == crate::effects::idle(),
        ui.scroll_drag ==> !mouse_start(ui, MouseAction::Up(button), over).1.scroll_drag,
        !ui.scroll_drag ==> mouse_start(ui, MouseAction::Up(button), over).1.range_drag is None,
{
}

/// Grabbing a scrollbar thumb and releasing it leaves the state as it was.
pub proof fn release_undoes_grab(ui: UiState, over: ScrollbarPart, button: MouseButton)
    requires
        !ui.scroll_drag,
        ui.range_drag is None,
    ensures
        ({
            let grabbed = mouse_start(
                ui,
                MouseAction::Down(MouseButton::Left),
                ScrollbarPart::Thumb,
            ).1;
            mouse_start(grabbed, MouseAction::Up(button), over).1 == ui
        }),
{
}

/// While a range input is dragged and no scrollbar is, a move of the pointer moves
/// the range and nothing else: the drag goes on, the repaint that the change asks for
/// is remembered, and the move does not reach the document.
pub proof fn range_follows_the_pointer(ui: UiState, node: usize, over: ScrollbarPart)
    requires
        !ui.scroll_drag,
        ui.range_drag == Some(node),
    ensures
        ({
            let (turn, after) = mouse_start(ui, MouseAction::Move, over);
            &&& turn.effects == seq![Effect::MoveRange(node)]
            &&& turn.record
            &&& !turn.paint
            &&& turn.next is None
            &&& after == ui
        }),
{
}

/// While a scrollbar thumb is dragged, a move of the pointer scrolls and asks for a
/// repaint. The drag goes on, and the move does not reach the document.
pub proof fn thumb_follows_the_pointer(ui: UiState, over: ScrollbarPart)
    requires
        ui.scroll_drag,
    ensures
        ({
            let (turn, after) = mouse_start(ui, MouseAction::Move, over);
            &&& turn.effects == seq![Effect::DragScroll]
            &&& !turn.record
            &&& turn.paint
            &&& turn.next is None
            &&& after.needs_paint
            &&& after == (UiState { needs_paint: true, ..ui })
        }),
{
}

/// A release ends the drag that is on, of the scrollbar before that of the range,
/// and does nothing else.
pub proof fn release_ends_the_drag(ui: UiState, button: MouseButton, over: ScrollbarPart)
    requires
        ui.scroll_drag || ui.range_drag is Some,
    ensures
        ({
            let (turn, after) = mouse_start(ui, MouseAction::Up(button), over);
            &&& turn.effects.len() == 0 && !turn.record && !turn.paint && turn.next is None
            &&& ui.scroll_drag ==> after == (UiState { scroll_drag: false, ..ui })
            &&& !ui.scroll_drag ==> after == (UiState { range_drag: None, ..ui })
        }),
{
}

/// Without a drag, a move of the pointer goes on to hovering and a turn of the wheel
/// to scrolling, and neither changes anything yet.
pub proof fn free_moves_hover(ui: UiState, over: ScrollbarPart)
    requires
        !ui.scroll_drag,
        ui.range_drag is None,
    ensures
        ({
            let (turn, after) = mouse_start(ui, MouseAction::Move, over);
            &&& turn.next == Some(Stage::Hover)
            &&& turn.effects.len() == 0 && !turn.record && !turn.paint
            &&& after == ui
        }),
        ({
            let (turn, after) = mouse_start(ui, MouseAction::Wheel, over);
            &&& turn.next == Some(Stage::Wheel)
            &&& turn.effects.len() == 0 && !turn.record && !turn.paint
            &&& after == ui
        }),
{
}

/// The left button grabs a thumb, scrolls by a page on a track, and presses what is
/// under the pointer anywhere else, whether or not a drag is on.
pub proof fn left_button_presses(ui: UiState)
    ensures
        ({
            let (turn, after) = mouse_start(
                ui,
                MouseAction::Down(MouseButton::Left),
                ScrollbarPart::Thumb,
            );
            &&& turn.effects == seq![Effect::GrabThumb]
            &&& turn.next is None && !turn.record && !turn.paint
            &&& after.scroll_drag
            &&& after == (UiState { scroll_drag: true, ..ui })
        }),
        ({
            let (turn, after) = mouse_start(
                ui,
                MouseAction::Down(MouseButton::Left),
                ScrollbarPart::Track,
            );
            &&& turn.effects == seq![Effect::PageScroll]
            &&& turn.next is None && !turn.record && turn.paint
            &&& after == (UiState { needs_paint: true, ..ui })
        }),
        ({
            let (turn, after) = mouse_start(
                ui,
                MouseAction::Down(MouseButton::Left),
                ScrollbarPart::Nothing,
            );
            &&& turn.next == Some(Stage::Press)
            &&& turn.effects.len() == 0 && !turn.record && !turn.paint
            &&& after == ui
        }),
{
}

/// The right button is told as `contextmenu` and the middle one as `auxclick`, and
/// neither changes the state.
pub proof fn other_buttons_are_told(ui: UiState, over: ScrollbarPart)
    ensures
        ({
            let (turn, after) = mouse_start(ui, MouseAction::Down(MouseButton::Right), over);
            &&& turn.next == Some(Stage::Bubble(EventName::ContextMenu))
            &&& turn.effects.len() == 0 && !turn.record && !turn.paint
            &&& after == ui
        }),
        ({
            let (turn, after) = mouse_start(ui, MouseAction::Down(MouseButton::Middle), over);
            &&& turn.next == Some(Stage::Bubble(EventName::AuxClick))
            &&& turn.effects.len() == 0 && !turn.record && !turn.paint
            &&& after == ui
        }),
{
}

/// A release without a drag is told as `mouseup` and ends the pressed state of the
/// node that was pressed.
pub proof fn release_ends_the_press(ui: UiState, button: MouseButton, over: ScrollbarPart)
    requires
        !ui.scroll_drag,
        ui.range_drag is None,
    ensures
        ({
            let (turn, after) = mouse_start(ui, MouseAction::Up(button), over);
            &&& turn.next == Some(Stage::Bubble(EventName::MouseUp))
            &&& !turn.record && !turn.paint
            &&& ui.active is Some ==> turn.effects == seq![
                Effect::Activate { from: ui.active, to: None },
            ] && after == (UiState { active: None, needs_paint: true, ..ui })
            &&& ui.active is None ==> turn.effects.len() == 0 && after == ui
        }),
{
}

/// The pressed state moves to the node it is given to. Where that changes it, the
/// document is told and repainted.
pub proof fn pressed_state_moves(ui: UiState, to: Option<usize>)
    ensures
        activated(ui, to).active == to,
        ui.active != to ==> active_effects(ui.active, to) == seq![
            Effect::Activate { from: ui.active, to },
        ] && activated(ui, to) == (UiState { active: to, needs_paint: true, ..ui }),
        ui.active == to ==> active_effects(ui.active, to).len() == 0 && activated(ui, to) == ui,
{
}

/// When the pointer goes from one node to another, the one it leaves is told
/// `mouseout`, `mouseleave` and `hoverleave`, the one it enters `mouseover`,
/// `mouseenter`, `hover` and `hoverenter`, each naming the other, and the one it
/// entered `mousemove` last.
pub proof fn pointer_tells_both_nodes(from: usize, to: usize)
    requires
        from != to,
    ensures
        hover_events(Some(from), Some(to)) == seq![
            Effect::FireRelated { node: from, event: EventName::MouseOut, related: Some(to) },
            Effect::FireAt { node: from, event: EventName::MouseLeave, related: Some(to) },
            Effect::FireAt { node: from, event: EventName::HoverLeave, related: Some(to) },
            Effect::FireRelated { node: to, event: EventName::MouseOver, related: Some(from) },
            Effect::FireAt { node: to, event: EventName::MouseEnter, related: Some(from) },
            Effect::FireAt { node: to, event: EventName::Hover, related: Some(from) },
            Effect::FireAt { node: to, event: EventName::HoverEnter, related: Some(from) },
            Effect::FireAt { node: to, event: EventName::MouseMove, related: None },
        ],
        hover_events(Some(from), None) == seq![
            Effect::FireRelated { node: from, event: EventName::MouseOut, related: None },
            Effect::FireAt { node: from, event: EventName::MouseLeave, related: None },
            Effect::FireAt { node: from, event: EventName::HoverLeave, related: None },
        ],
        hover_events(None, Some(to)) == seq![
            Effect::FireRelated { node: to, event: EventName::MouseOver, related: None },
            Effect::FireAt { node: to, event: EventName::MouseEnter, related: None },
            Effect::FireAt { node: to, event: EventName::Hover, related: None },
            Effect::FireAt { node: to, event: EventName::HoverEnter, related: None },
            Effect::FireAt { node: to, event: EventName::MouseMove, related: None },
        ],
{
}

/// A press slips off its node when the pointer goes anywhere else while the button
/// is down.
pub proof fn press_slips_off(pressed: usize, to: Option<usize>)
    ensures
        press_slips(Some(pressed), to) <==> to != Some(pressed),
        !press_slips(None, to),
{
}

/// The node under the pointer is the first of its chain.
pub proof fn pointer_is_over_the_first(chain: Seq<usize>, node: usize)
    ensures
        first(seq![node] + chain) == Some(node),
        first(Seq::empty()) is None,
{
    assert((seq![node] + chain)[0] == node);
}

/// Pointing at a popup option highlights that option in its select alone, unless it
/// is highlighted already.
pub proof fn pointing_highlights(
    before: Registry<SelectState>,
    after: Registry<SelectState>,
    chain: Seq<usize>,
    select: usize,
    option: usize,
)
    requires
        before.wf(),
        crate::selects::option_for_chain(before@, chain, 0) == Some((select, option)),
        before.at(select) is Some,
        highlighted(before, after, new_highlight(before, chain)),
    ensures
        after.at(select) matches Some(state) && state@ == (crate::select::SelectModel {
            active: Some(option),
            ..before.at(select)->0@
        }),
        before.at(select)->0@.active == Some(option) ==> after@ == before@,
        before.at(select)->0@.active != Some(option) <==> new_highlight(before, chain) == Some(
            (select, option),
        ),
{
    assert(before.at(select)->0@.active == Some(option) ==> before.at(select)->0@ == (
    crate::select::SelectModel { active: Some(option), ..before.at(select)->0@ }));
    if before.at(select)->0@.active == Some(option) {
        assert(after.at(select) == before.at(select));
    }
}

/// Whether none of the first `upto` nodes of `chain` handles `event`.
pub open spec fn unheard(
    handlers: Set<(usize, Seq<char>)>,
    chain: Seq<usize>,
    event: Seq<char>,
    upto: int,
) -> bool {
    forall|k: int| 0 <= k < upto ==> !handlers.contains((#[trigger] chain[k], event))
}

/// A press gives the focus to the nearest node with a `focus` handler. Without one
/// it goes to the nearest node with a `keydown` handler, and else to the node that
/// was hit. A press on nothing gives it to none.
pub proof fn press_focuses_the_nearest(
    handlers: Set<(usize, Seq<char>)>,
    chain: Seq<usize>,
    at: int,
)
    requires
        0 <= at < chain.len(),
    ensures
        unheard(handlers, chain, "focus"@, at) && handlers.contains((chain[at], "focus"@))
            ==> focus_target(handlers, chain) == Some(chain[at]),
        unheard(handlers, chain, "focus"@, chain.len() as int) && unheard(
            handlers,
            chain,
            "keydown"@,
            at,
        ) && handlers.contains((chain[at], "keydown"@)) ==> focus_target(handlers, chain) == Some(
            chain[at],
        ),
        unheard(handlers, chain, "focus"@, chain.len() as int) && unheard(
            handlers,
            chain,
            "keydown"@,
            chain.len() as int,
        ) ==> focus_target(handlers, chain) == Some(chain[0]),
        focus_target(handlers, Seq::empty()) is None,
{
    lemma_first_handler(handlers, chain, "focus"@, 0, at);
    lemma_first_handler(handlers, chain, "keydown"@, 0, at);
    crate::bridge::nearest_handler_is_found(handlers, chain, "focus"@, 0);
    crate::bridge::nearest_handler_is_found(handlers, chain, "keydown"@, 0);
}

proof fn lemma_first_handler(
    handlers: Set<(usize, Seq<char>)>,
    chain: Seq<usize>,
    event: Seq<char>,
    from: int,
    at: int,
)
    requires
        0 <= from <= at < chain.len(),
    ensures
        handlers.contains((chain[at], event)) && (forall|k: int|
            from <= k < at ==> !handlers.contains((#[trigger] chain[k], event)))
            ==> crate::bridge::handler_up(handlers, chain, event, from) == Some(chain[at]),
    decreases at - from,
{
    if from < at {
        lemma_first_handler(handlers, chain, event, from + 1, at);
    }
}

/// A press picks an option exactly where its select has it and it is not disabled.
pub proof fn disabled_options_are_not_picked(
    selects: Registry<SelectState>,
    select: usize,
    option: usize,
    state: SelectState,
)
    requires
        selects.at(select) == Some(state),
    ensures
        option_enabled(selects, select, option) <==> option < state@.options.len()
            && !state@.options[option as int].disabled,
{
}

/// Closing dropdowns takes down the popup of each of them, in order.
pub proof fn closing_takes_down_popups(selects: Seq<usize>, i: int)
    ensures
        closing_effects(selects).len() == selects.len(),
        0 <= i < selects.len() ==> closing_effects(selects)[i] == (Effect::Popup {
            select: selects[i],
            action: PopupAction::Unmount,
        }),
{
}

/// A press on a range input starts to drag it: the range moves to the pointer and
/// the document is repainted.
pub proof fn pressing_a_range_moves_it(
    instance: Instance,
    hit: usize,
    chain: Seq<usize>,
    state: crate::input::InputState,
)
    requires
        instance.inputs.at(hit) == Some(state),
        state@.kind is Range,
    ensures
        press_kind(instance, hit) is Range,
        target_ui(instance, hit) == (UiState {
            range_drag: Some(hit),
            needs_paint: true,
            ..instance.ui
        }),
        ({
            let turn = target_turn(instance, hit, chain);
            &&& turn.effects == seq![Effect::MoveRange(hit)]
            &&& turn.paint && !turn.record && turn.next is None
        }),
{
}

/// A press on a checkbox or radio that takes it writes the checked marks and then
/// fires `input` at it. Either way the document is repainted.
pub proof fn pressing_a_checkbox_reports(
    instance: Instance,
    hit: usize,
    chain: Seq<usize>,
    state: crate::input::InputState,
)
    requires
        instance.inputs.at(hit) == Some(state),
        state@.kind is Checkbox || state@.kind is Radio,
    ensures
        press_kind(instance, hit) is Checked,
        target_ui(instance, hit) == (UiState { needs_paint: true, ..instance.ui }),
        ({
            let turn = target_turn(instance, hit, chain);
            let clicked = crate::inputs::after_checked_click(
                crate::inputs::models(instance.inputs@),
                hit,
                state@,
            );
            &&& clicked is Some ==> turn.effects == seq![
                Effect::SyncChecked,
                Effect::FireInput(hit),
            ]
            &&& clicked is None ==> turn.effects.len() == 0
            &&& turn.paint && !turn.record && turn.next is None
        }),
{
}

/// A press on a select opens a closed one and closes an open one, and writes its
/// label again.
pub proof fn pressing_a_select_switches_it(
    before: Instance,
    after: Instance,
    hit: usize,
    chain: Seq<usize>,
    state: SelectState,
)
    requires
        before.inputs.at(hit) is None,
        before.selects.at(hit) == Some(state),
        pressed_controls(before, after, hit),
    ensures
        press_kind(before, hit) is Select,
        target_ui(before, hit) == (UiState { needs_paint: true, ..before.ui }),
        ({
            let turn = target_turn(before, hit, chain);
            &&& turn.effects == seq![
                Effect::Popup {
                    select: hit,
                    action: if state@.open {
                        PopupAction::Unmount
                    } else {
                        PopupAction::Mount
                    },
                },
                Effect::RefreshSelect(hit),
            ]
            &&& turn.paint && !turn.record && turn.next is None
        }),
        after.inputs@ == before.inputs@,
        after.selects.at(hit) matches Some(now) && now@.open != state@.open && now@.selected
            == state@.selected,
{
}

/// A press on a node without a native control fires `click` at the nearest node
/// that handles it, and does nothing where none does. No control changes.
pub proof fn pressing_a_node_clicks(
    before: Instance,
    after: Instance,
    hit: usize,
    chain: Seq<usize>,
    at: int,
)
    requires
        before.inputs.at(hit) is None,
        before.selects.at(hit) is None,
        pressed_controls(before, after, hit),
        0 <= at < chain.len(),
    ensures
        press_kind(before, hit) is Plain,
        target_ui(before, hit) == before.ui,
        ({
            let turn = target_turn(before, hit, chain);
            &&& before.handlers@.contains((chain[at], "click"@)) && (forall|k: int|
                0 <= k < at ==> !before.handlers@.contains((#[trigger] chain[k], "click"@)))
                ==> turn.effects == seq![
                Effect::Fire { node: chain[at], event: EventName::Click },
            ]
            &&& (forall|k: int|
                0 <= k < chain.len() ==> !before.handlers@.contains(
                    (#[trigger] chain[k], "click"@),
                )) ==> turn.effects.len() == 0
            &&& !turn.paint && !turn.record && turn.next is None
        }),
        after.inputs@ == before.inputs@,
        after.selects@ == before.selects@,
{
    lemma_first_handler(before.handlers@, chain, "click"@, 0, at);
    crate::bridge::nearest_handler_is_found(before.handlers@, chain, "click"@, 0);
}

/// Of the nodes that scrolled, the innermost fires `scroll` with its own offset.
/// Where only the viewport scrolled, the container fires it with that of the
/// viewport. Where nothing scrolled, none does.
pub proof fn innermost_scrolled_node_reports(
    instance: Instance,
    chain: Seq<usize>,
    changed: Seq<bool>,
    start_exists: bool,
    viewport_changed: bool,
    at: int,
)
    requires
        0 <= at < chain.len(),
        chain.len() == changed.len(),
    ensures
        ({
            let plan = wheel_plan(instance, chain, changed, start_exists, viewport_changed);
            &&& changed[at] && (forall|k: int| 0 <= k < at ==> !changed[k]) ==> plan.scroll == Some(
                ScrollEvent { node: chain[at], source: ScrollSource::Node(chain[at]) },
            )
            &&& (forall|k: int| 0 <= k < changed.len() ==> !changed[k]) ==> plan.scroll == (
            if viewport_changed {
                Some(
                    ScrollEvent { node: instance.container_id, source: ScrollSource::Viewport },
                )
            } else {
                None
            })
        }),
{
    if forall|k: int| 0 <= k < at ==> !changed[k] {
        lemma_first_changed(chain, changed, 0, at);
    }
    if forall|k: int| 0 <= k < changed.len() ==> !changed[k] {
        lemma_first_changed(chain, changed, 0, chain.len() as int);
    }
}

proof fn lemma_first_changed(chain: Seq<usize>, changed: Seq<bool>, from: int, at: int)
    requires
        0 <= from <= at <= chain.len(),
        chain.len() == changed.len(),
        forall|k: int| from <= k < at ==> !changed[k],
    ensures
        at == chain.len() ==> first_changed(chain, changed, from) is None,
        at < chain.len() && changed[at] ==> first_changed(chain, changed, from) == Some(chain[at]),
    decreases at - from,
{
    if from < at {
        lemma_first_changed(chain, changed, from + 1, at);
    }
}

/// A turn of the wheel is told to the nearest node that handles `wheel`, with the
/// offset of the node under the pointer where that is still there.
pub proof fn wheel_goes_to_the_nearest(
    instance: Instance,
    chain: Seq<usize>,
    changed: Seq<bool>,
    start_exists: bool,
    viewport_changed: bool,
    at: int,
)
    requires
        0 <= at < chain.len(),
    ensures
        ({
            let plan = wheel_plan(instance, chain, changed, start_exists, viewport_changed);
            &&& instance.handlers@.contains((chain[at], "wheel"@)) && (forall|k: int|
                0 <= k < at ==> !instance.handlers@.contains((#[trigger] chain[k], "wheel"@)))
                ==> (plan.wheel matches Some(told) && told.node == chain[at] && (if start_exists {
                told.source == ScrollSource::Node(chain[0])
            } else if viewport_changed {
                told.source is Viewport
            } else {
                told.source is Zero
            }))
            &&& (forall|k: int|
                0 <= k < chain.len() ==> !instance.handlers@.contains(
                    (#[trigger] chain[k], "wheel"@),
                )) ==> plan.wheel is None
        }),
        ({
            let plan = wheel_plan(
                instance,
                Seq::empty(),
                changed,
                start_exists,
                viewport_changed,
            );
            plan.wheel is None && plan.scroll is None
        }),
{
    lemma_first_handler(instance.handlers@, chain, "wheel"@, 0, at);
    crate::bridge::nearest_handler_is_found(instance.handlers@, chain, "wheel"@, 0);
}

/// A move of the pointer to a node makes it the hovered one. A pressed node stays
/// pressed only while the pointer is on it. Focus and drags stay, and a repaint is
/// noted where any of that shows.
pub proof fn pointer_arrives(ui: UiState, highlight: Option<(usize, usize)>, to: Option<usize>)
    ensures
        ({
            let after = hover_ui(ui, highlight, to);
            &&& after.hovered == to
            &&& after.active == (if ui.active == to { ui.active } else { None })
            &&& after.focused == ui.focused
            &&& after.range_drag == ui.range_drag
            &&& after.scroll_drag == ui.scroll_drag
            &&& after.needs_paint <==> ui.needs_paint || highlight is Some || ui.hovered != to || (
            ui.active is Some && ui.active != to)
        }),
{
}

/// A move of the pointer writes the classes of a popup that it highlighted an option
/// of, moves the hover, ends the pressed state of a node that it left, and then tells
/// the nodes. The repaint that scripts ask for is remembered, and one is asked for
/// where the pointer came to another node.
pub proof fn hovering_is_told_in_order(
    ui: UiState,
    select: usize,
    option: usize,
    to: Option<usize>,
)
    ensures
        ({
            let turn = hover_turn(ui, None, to);
            let told = hover_events(ui.hovered, to);
            &&& ui.active is None || ui.active == to ==> turn.effects == seq![Effect::MoveHover]
                + told
            &&& ui.active is Some && ui.active != to ==> turn.effects == seq![
                Effect::MoveHover,
                Effect::Activate { from: ui.active, to: None },
            ] + told
            &&& turn.record && turn.next is None
            &&& turn.paint <==> ui.hovered != to
        }),
        ({
            let turn = hover_turn(ui, Some((select, option)), to);
            let plain = hover_turn(ui, None, to);
            &&& turn.effects == seq![Effect::SyncHighlights(select)] + plain.effects
            &&& turn.record && turn.next is None
            &&& turn.paint <==> ui.hovered != to
        }),
{
    let told = hover_events(ui.hovered, to);
    let plain = hover_turn(ui, None, to).effects;
    if ui.active is None || ui.active == to {
        assert(plain =~= seq![Effect::MoveHover] + told);
    } else {
        assert(plain =~= seq![
            Effect::MoveHover,
            Effect::Activate { from: ui.active, to: None },
        ] + told);
    }
    assert(hover_turn(ui, Some((select, option)), to).effects =~= seq![
        Effect::SyncHighlights(select),
    ] + plain);
}

/// An event goes to the nearest node of the chain that handles it and to no other,
/// and nowhere where none does.
pub proof fn events_go_to_the_nearest(
    handlers: Set<(usize, Seq<char>)>,
    event: EventName,
    chain: Seq<usize>,
    at: int,
)
    requires
        0 <= at < chain.len(),
    ensures
        ({
            let turn = bubble_turn(handlers, event, chain);
            let name = crate::effects::event_text(event);
            &&& unheard(handlers, chain, name, at) && handlers.contains((chain[at], name))
                ==> turn.effects == seq![Effect::Fire { node: chain[at], event }] && turn.record
            &&& unheard(handlers, chain, name, chain.len() as int) ==> turn.effects.len() == 0
                && !turn.record
            &&& !turn.paint && turn.next is None
        }),
{
    lemma_first_handler(handlers, chain, crate::effects::event_text(event), 0, at);
    crate::bridge::nearest_handler_is_found(
        handlers,
        chain,
        crate::effects::event_text(event),
        0,
    );
}

/// A press on a popup option that is not disabled selects it, closes the dropdown and
/// fires `change`. No other select changes, and the press ends there.
pub proof fn pressing_an_option_picks_it(
    before: Instance,
    after: Instance,
    turn: crate::effects::TurnModel,
    chain: Seq<usize>,
    select: usize,
    option: usize,
    state: SelectState,
)
    requires
        pressed(before, after, turn, chain),
        crate::selects::option_for_chain(before.selects@, chain, 0) == Some((select, option)),
        before.selects.at(select) == Some(state),
        option < state@.options.len(),
        !state@.options[option as int].disabled,
    ensures
        after.selects.at(select) matches Some(now) && now@.selected == Some(option) && !now@.open
            && now@.active is None && now@.options == state@.options,
        crate::registry::changed_only(before.selects@, after.selects@, select),
        state@.open ==> turn.effects == seq![
            Effect::Popup { select, action: PopupAction::Unmount },
            Effect::RefreshSelect(select),
            Effect::FireChange(select),
        ],
        !state@.open ==> turn.effects == seq![
            Effect::RefreshSelect(select),
            Effect::FireChange(select),
        ],
        turn.next is None && !turn.record && !turn.paint,
        after.ui == (UiState { needs_paint: true, ..before.ui }),
{
}

/// A press on a disabled popup option does nothing at all.
pub proof fn pressing_a_disabled_option_does_nothing(
    before: Instance,
    after: Instance,
    turn: crate::effects::TurnModel,
    chain: Seq<usize>,
    select: usize,
    option: usize,
    state: SelectState,
)
    requires
        pressed(before, after, turn, chain),
        crate::selects::option_for_chain(before.selects@, chain, 0) == Some((select, option)),
        before.selects.at(select) == Some(state),
        option < state@.options.len(),
        state@.options[option as int].disabled,
    ensures
        turn.effects.len() == 0 && turn.next is None && !turn.record && !turn.paint,
        after.ui == before.ui,
        after.selects@ == before.selects@,
{
}

/// A press on anything but a popup option goes on there, once every open dropdown
/// but that of the select it belongs to is closed.
pub proof fn pressing_elsewhere_closes_dropdowns(
    before: Instance,
    after: Instance,
    turn: crate::effects::TurnModel,
    chain: Seq<usize>,
    i: int,
)
    requires
        pressed(before, after, turn, chain),
        crate::selects::option_for_chain(before.selects@, chain, 0) is None,
        0 <= i < before.selects@.len(),
    ensures
        ({
            let owner = crate::selects::owner_for_chain(before.selects@, chain, 0);
            let (id, state) = before.selects@[i];
            let closes = state@.open && owner != Some(id);
            &&& turn.next == Some(Stage::PressAt)
            &&& closes ==> turn.effects.contains(
                Effect::Popup { select: id, action: PopupAction::Unmount },
            ) && !after.selects@[i].1@.open && after.selects@[i].1@.selected == state@.selected
                && after.ui.needs_paint
            &&& !closes ==> after.selects@[i] == before.selects@[i]
            &&& after.selects@[i].0 == id
        }),
{
    let owner = crate::selects::owner_for_chain(before.selects@, chain, 0);
    let len = before.selects@.len() as int;
    let closing = crate::selects::open_others(before.selects@, owner, len);
    crate::selects::open_others_are_all(before.selects@, owner, len);
    let (id, state) = before.selects@[i];
    assert(after.selects@[i].0 == id);
    if state@.open && owner != Some(id) {
        assert(closing.contains(id));
        let k = closing.index_of(id);
        assert(closing_effects(closing)[k] == (Effect::Popup {
            select: id,
            action: PopupAction::Unmount,
        }));
    }
}

/// The node that a press hits becomes the pressed one. Where the press gives the focus
/// to another node, the old one is told first and the press goes on once the new one
/// has it. Where the focus stays, the press goes on at the node that was hit.
pub proof fn press_takes_the_focus(before: Instance, chain: Seq<usize>)
    ensures
        ({
            let turn = press_at_turn(before, chain);
            let after = press_at_ui(before, chain);
            let hit = if chain.len() > 0 { Some(chain[0]) } else { None };
            let focused = before.ui.focused;
            let target = focus_target(before.handlers@, chain);
            &&& turn.record && !turn.paint
            &&& after.active == hit && after.focused == focused && after.hovered
                == before.ui.hovered
            &&& target == focused ==> turn.next == (match hit {
                Some(node) => Some(Stage::Target(node)),
                None => None,
            })
            &&& target != focused ==> turn.next == Some(
                Stage::Enter {
                    previous: focused,
                    next: target,
                    after: match hit {
                        Some(node) => After::Press(node),
                        None => After::Stop,
                    },
                },
            )
            &&& target != focused && focused is Some ==> turn.effects.len() > 0
                && turn.effects.last() == (Effect::Fire {
                node: focused->0,
                event: EventName::Blur,
            })
            &&& before.ui.active != hit ==> turn.effects.len() > 0 && turn.effects[0]
                == (Effect::Activate { from: before.ui.active, to: hit }) && after.needs_paint
            &&& before.ui.active == hit && target == focused ==> turn.effects.len() == 0
        }),
{
}

/// Where the pointer is on no popup option, no select changes.
pub proof fn pointing_elsewhere_highlights_nothing(
    before: Registry<SelectState>,
    after: Registry<SelectState>,
    chain: Seq<usize>,
)
    requires
        crate::selects::option_for_chain(before@, chain, 0) is None,
        highlighted(before, after, new_highlight(before, chain)),
    ensures
        new_highlight(before, chain) is None,
        after@ == before@,
{
}

/// A press on a checkbox or radio leaves the selects alone, and the inputs too where the
/// press does not take it. A press on a range leaves all controls as they were.
pub proof fn presses_change_their_control_only(
    before: Instance,
    after: Instance,
    hit: usize,
    state: crate::input::InputState,
)
    requires
        pressed_controls(before, after, hit),
        before.inputs.at(hit) == Some(state),
        state@.kind is Checkbox || state@.kind is Radio || state@.kind is Range,
    ensures
        ({
            let models = crate::inputs::models(before.inputs@);
            let now = crate::inputs::models(after.inputs@);
            &&& after.selects@ == before.selects@
            &&& state@.kind is Range ==> after.inputs@ == before.inputs@
            &&& state@.kind is Radio && state@.checked ==> now == models
            &&& state@.kind is Checkbox && state@.disabled ==> now == models
            &&& state@.kind is Checkbox && !state@.disabled ==> now.len() == models.len()
                && forall|i: int|
                0 <= i < models.len() ==> (#[trigger] now[i]).0 == models[i].0 && (if models[i].0
                    == hit {
                    now[i].1.checked != state@.checked
                } else {
                    now[i] == models[i]
                })
        }),
{
}

/// What a turn of the wheel asks of the host in the end.
pub open spec fn wheel_result(scrolled: bool, fired: TickResult) -> TickResult {
    if scrolled || fired.needs_paint {
        TickResult { needs_paint: true, jobs_pending: fired.jobs_pending }
    } else {
        crate::events::quiet()
    }
}

/// A turn of the wheel asks for a repaint exactly where something scrolled or a handler
/// asks for one, and reports queued jobs only then.
pub proof fn scrolling_repaints(scrolled: bool, fired: TickResult)
    ensures
        wheel_result(scrolled, fired).needs_paint <==> scrolled || fired.needs_paint,
        wheel_result(scrolled, fired).jobs_pending <==> fired.jobs_pending && (scrolled
            || fired.needs_paint),
{
}

} // verus!
