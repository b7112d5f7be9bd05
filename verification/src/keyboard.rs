//! What key events do: editing, moving the focus and activating buttons.
use crate::effects::{push_if, After, Effect, EventName, SentKey, Stage, Turn};
use crate::events::{KeyName, KeyPhase, KeyboardEvent};
use crate::focus::focus_adjacent_control;
use crate::inputs::{apply_input_key, apply_radio_navigation_key};
use crate::popup::PopupAction;
use crate::registry::Registry;
use crate::select::SelectState;
use crate::selects::{apply_select_key, SelectKeyPlan};
use crate::instance::Instance;
use std::time::Instant;
use vstd::prelude::*;

verus! {

/// Whether a key activates a focused button: Enter when it goes down, Space
/// when it comes up, both without Ctrl, Alt or Meta.
pub open spec fn key_activates(phase: KeyPhase, event: KeyboardEvent) -> bool {
    !event.modified() && match phase {
        KeyPhase::Down => event.named() is Enter,
        KeyPhase::Up => event.named() is Space,
    }
}

/// Whether a key moves within a radio group.
pub open spec fn navigates_radios(key: KeyName) -> bool {
    key is ArrowLeft || key is ArrowRight || key is ArrowUp || key is ArrowDown || key is Home
        || key is End
}

/// What a key press on the select `id` asks for.
pub open spec fn select_plan_at(
    selects: Registry<SelectState>,
    id: usize,
    event: KeyboardEvent,
    now: Instant,
) -> SelectKeyPlan {
    match selects.at(id) {
        Some(state) if !state@.disabled => crate::selects::select_key_plan(state@, event, now).1,
        _ => crate::selects::no_plan(),
    }
}

/// The selects after a key press on the select `id`.
pub open spec fn keyed_selects(
    before: Registry<SelectState>,
    after: Registry<SelectState>,
    id: usize,
    event: KeyboardEvent,
    now: Instant,
) -> bool {
    match before.at(id) {
        Some(state) if !state@.disabled => {
            &&& crate::registry::changed_only(before@, after@, id)
            &&& after.at(id) matches Some(keyed) && keyed@ == crate::selects::select_key_plan(
                state@,
                event,
                now,
            ).0
        },
        _ => after@ == before@,
    }
}

/// The work on the popup that a key press on the select `id` asks for.
pub open spec fn popup_effects(id: usize, plan: SelectKeyPlan) -> Seq<Effect> {
    crate::effects::effect_if(
        !(plan.popup is Keep),
        Effect::Popup { select: id, action: plan.popup },
    ) + crate::effects::effect_if(plan.sync_highlights, Effect::SyncHighlights(id))
}

fn push_popup_effects(effects: &mut Vec<Effect>, id: usize, plan: &SelectKeyPlan)
    ensures
        final(effects)@ == old(effects)@ + popup_effects(id, *plan),
{
    let mounts = !matches!(plan.popup, PopupAction::Keep);
    push_if(effects, mounts, Effect::Popup { select: id, action: plan.popup });
    push_if(effects, plan.sync_highlights, Effect::SyncHighlights(id));
    proof {
        assert(effects@ =~= old(effects)@ + popup_effects(id, *plan));
    }
}

/// The control that a key press on the focused node drives.
#[derive(Debug, Clone, Copy, PartialEq, Eq, Structural)]
pub enum KeyTarget {
    /// A radio, by a key that moves within its group.
    Radio,
    /// Another input, or a radio by another key.
    Input,
    /// A select.
    Select,
    /// No native control.
    Plain,
}

/// The control that a key event on `node` drives. Only a key that goes down
/// drives one.
pub open spec fn key_target(
    instance: Instance,
    node: usize,
    phase: KeyPhase,
    event: KeyboardEvent,
) -> KeyTarget {
    if phase is Up {
        KeyTarget::Plain
    } else {
        match instance.inputs.at(node) {
            Some(state) => if state@.kind is Radio && navigates_radios(event.named()) {
                KeyTarget::Radio
            } else {
                KeyTarget::Input
            },
            None => if instance.selects.at(node) is Some {
                KeyTarget::Select
            } else {
                KeyTarget::Plain
            },
        }
    }
}

/// What a key event on a focused node does to its control, before scripts see
/// it.
#[verifier::ext_equal]
pub struct KeyEffect {
    /// The work before the key event is fired.
    pub effects: Seq<Effect>,
    /// The displayed value or caret changed.
    pub edited: bool,
    /// An `input` or `change` event follows.
    pub emits: bool,
    /// The outcome rests on how the value of a range input moves.
    pub ranged: bool,
    /// The node that the focus moves to.
    pub target: Option<usize>,
    /// A repaint is asked for.
    pub paint: bool,
}

/// What a key event on `node` does to its control.
pub open spec fn key_effect(
    instance: Instance,
    node: usize,
    phase: KeyPhase,
    event: KeyboardEvent,
    order: Seq<usize>,
    now: Instant,
) -> KeyEffect {
    let nothing = KeyEffect {
        effects: Seq::empty(),
        edited: false,
        emits: false,
        ranged: false,
        target: None,
        paint: false,
    };
    match key_target(instance, node, phase, event) {
        KeyTarget::Radio => {
            let target = crate::inputs::radio_key_target(
                crate::inputs::models(instance.inputs@),
                order,
                node,
                event.named(),
            );
            KeyEffect {
                effects: crate::effects::effect_if(target is Some, Effect::SyncChecked),
                edited: target is Some,
                emits: target is Some,
                target,
                ..nothing
            }
        },
        KeyTarget::Input => {
            let outcome = crate::inputs::input_key_outcome(instance.inputs.at(node)->0@, event);
            KeyEffect {
                effects: crate::effects::effect_if(
                    outcome.range is Some,
                    Effect::StepRange { node, by: outcome.range->0 },
                ),
                edited: outcome.changed,
                emits: outcome.emits_input,
                ranged: outcome.range is Some,
                ..nothing
            }
        },
        KeyTarget::Select => {
            let plan = select_plan_at(instance.selects, node, event, now);
            KeyEffect {
                effects: popup_effects(node, plan),
                edited: plan.edited,
                emits: plan.emits_change,
                paint: plan.repaint,
                ..nothing
            }
        },
        KeyTarget::Plain => nothing,
    }
}

/// How the inputs and selects change by a key event on `node`.
pub open spec fn keyed_controls(
    before: Instance,
    after: Instance,
    node: usize,
    phase: KeyPhase,
    event: KeyboardEvent,
    order: Seq<usize>,
    now: Instant,
) -> bool {
    let target = key_target(before, node, phase, event);
    let models = crate::inputs::models(before.inputs@);
    &&& match target {
        KeyTarget::Radio => match crate::inputs::radio_key_target(
            models,
            order,
            node,
            event.named(),
        ) {
            Some(next) => crate::inputs::models(after.inputs@) == crate::inputs::members_checked(
                models,
                crate::inputs::group_members(
                    models,
                    order,
                    before.inputs.at(node)->0@.name,
                    order.len() as int,
                ),
                next,
            ),
            None => after.inputs@ == before.inputs@,
        },
        KeyTarget::Input => crate::inputs::input_key_effect(
            models,
            crate::inputs::models(after.inputs@),
            node,
            before.inputs.at(node)->0@,
            event,
            crate::inputs::input_key_outcome(before.inputs.at(node)->0@, event),
        ),
        _ => after.inputs@ == before.inputs@,
    }
    &&& match target {
        KeyTarget::Select => keyed_selects(before.selects, after.selects, node, event, now),
        _ => after.selects@ == before.selects@,
    }
}

/// The turn that a Tab press starts with: an open dropdown on the focused node
/// takes the key first.
pub open spec fn tab_start(instance: Instance, event: KeyboardEvent, now: Instant) -> (
    crate::effects::TurnModel,
    bool,
) {
    let moving = Stage::Tab { backwards: event.shift_key };
    if crate::instance::dropdown_open(instance.selects, instance.ui.focused) {
        let node = instance.ui.focused->0;
        let plan = select_plan_at(instance.selects, node, event, now);
        (
            crate::effects::TurnModel {
                effects: popup_effects(node, plan) + crate::effects::effect_if(
                    plan.edited,
                    Effect::RefreshSelect(node),
                ) + crate::effects::effect_if(plan.emits_change, Effect::FireChange(node)),
                ..crate::effects::going_on(moving)
            },
            plan.repaint,
        )
    } else {
        (crate::effects::going_on(moving), false)
    }
}

/// The turn that moves the focus from `focused`, whose dropdown may be open, to its
/// neighbour `next`.
pub open spec fn focus_moved(focused: Option<usize>, open: bool, next: Option<usize>) -> crate::effects::TurnModel {
    let moves = next is Some && next != focused;
    crate::effects::TurnModel {
        effects: if moves {
            crate::instance::leave_effects(focused, open)
        } else {
            Seq::empty()
        },
        record: moves,
        paint: next is Some,
        next: if moves {
            Some(Stage::Enter { previous: focused, next, after: After::Stop })
        } else {
            None
        },
    }
}

/// The turn that goes on after scripts saw the key event `sent`, with the focus on
/// `focused`, whose dropdown may be open.
pub open spec fn sent_turn(
    focused: Option<usize>,
    open: bool,
    sent: SentKey,
    is_button: bool,
    range_changed: bool,
) -> crate::effects::TurnModel {
    let target = sent.target;
    let moves = target is Some && target != focused;
    let reached = match target {
        Some(target) => target,
        None => sent.node,
    };
    let after = After::Key {
        node: reached,
        edited: if sent.ranged {
            range_changed
        } else {
            sent.edited
        },
        emits: if sent.ranged {
            range_changed
        } else {
            sent.emits
        },
    };
    crate::effects::TurnModel {
        effects: crate::effects::effect_if(
            is_button && sent.activates,
            Effect::FireAt { node: sent.node, event: EventName::Click, related: None },
        ) + (if moves {
            crate::instance::leave_effects(focused, open)
        } else {
            Seq::empty()
        }),
        record: true,
        paint: false,
        next: if moves {
            Some(Stage::Enter { previous: focused, next: target, after })
        } else {
            crate::instance::stage_after(after)
        },
    }
}

/// The turn that ends a key press at `node`, which may be an input or a select.
pub open spec fn done_turn(
    node: usize,
    is_input: bool,
    is_select: bool,
    edited: bool,
    emits: bool,
) -> crate::effects::TurnModel {
    crate::effects::TurnModel {
        effects: (if edited {
            seq![Effect::RefreshInput(node), Effect::RefreshSelect(node)]
        } else {
            Seq::empty()
        }) + (if !emits {
            Seq::empty()
        } else if is_input {
            seq![Effect::FireInput(node)]
        } else if is_select {
            seq![Effect::FireChange(node)]
        } else {
            Seq::empty()
        }),
        ..crate::effects::idle()
    }
}

/// Whether a key event is a Tab press.
pub open spec fn tab_press(phase: KeyPhase, event: KeyboardEvent) -> bool {
    phase is Down && event.named() is Tab
}

/// Whether taking a key event leads from one instance to another with the
/// given turn: Tab goes to the tab order, any other key to the focused node.
pub open spec fn key_started(
    before: Instance,
    after: Instance,
    turn: crate::effects::TurnModel,
    phase: KeyPhase,
    event: KeyboardEvent,
    order: Seq<usize>,
    now: Instant,
) -> bool {
    if tab_press(phase, event) {
        let (started, paint) = tab_start(before, event, now);
        &&& turn == started
        &&& after.ui == crate::instance::repainted(before.ui, paint)
        &&& after.inputs@ == before.inputs@
        &&& if crate::instance::dropdown_open(before.selects, before.ui.focused) {
            keyed_selects(
                before.selects,
                after.selects,
                before.ui.focused->0,
                event,
                now,
            )
        } else {
            after.selects@ == before.selects@
        }
    } else {
        match before.ui.focused {
            Some(node) => {
                let effect = key_effect(before, node, phase, event, order, now);
                &&& turn == (crate::effects::TurnModel {
                    effects: effect.effects.push(Effect::FireKey { node, phase }),
                    record: true,
                    paint: false,
                    next: Some(
                        Stage::KeySent(
                            SentKey {
                                node,
                                activates: key_activates(phase, event),
                                edited: effect.edited,
                                emits: effect.emits,
                                ranged: effect.ranged,
                                target: effect.target,
                            },
                        ),
                    ),
                })
                &&& after.ui == crate::instance::repainted(
                    before.ui,
                    effect.paint,
                )
                &&& keyed_controls(
                    before,
                    after,
                    node,
                    phase,
                    event,
                    order,
                    now,
                )
            },
            None => {
                &&& turn == crate::effects::idle()
                &&& after.ui == before.ui
                &&& after.same_but_ui(&before)
            },
        }
    }
}

fn is_radio_key(key: KeyName) -> (navigates: bool)
    ensures
        navigates == navigates_radios(key),
{
    matches!(
        key,
        KeyName::ArrowLeft | KeyName::ArrowRight | KeyName::ArrowUp | KeyName::ArrowDown
            | KeyName::Home | KeyName::End
    )
}

impl Instance {
    /// Takes a key event. `order` lists the document's nodes, for moving
    /// within radio groups.
    ///
    /// Tab moves the focus. Any other key goes to the focused node: its native
    /// control takes a key press first, and scripts see the event after that.
    fn dispatch_key(
        &mut self,
        phase: KeyPhase,
        event: &KeyboardEvent,
        order: &Vec<usize>,
        now: Instant,
    ) -> (turn: Turn)
        requires
            old(self).wf(),
        ensures
            final(self).wf(),
            final(self).same_but_controls(old(self)),
            key_started(*old(self), *final(self), turn@, phase, *event, order@, now),
    {
        let down = matches!(phase, KeyPhase::Down);
        let key = event.name();
        if down && matches!(key, KeyName::Tab) {
            return self.start_tab(event, now);
        }
        let node: usize = match self.ui.focused {
            Some(node) => node,
            None => return Turn::idle(),
        };
        let ghost effect = key_effect(*self, node, phase, *event, order@, now);
        let mut effects: Vec<Effect> = Vec::new();
        let mut edited = false;
        let mut emits = false;
        let mut ranged = false;
        let mut target: Option<usize> = None;
        let (is_input, is_radio) = match self.inputs.get(node) {
            Some(state) => (true, state.is_radio()),
            None => (false, false),
        };
        if down && is_input {
            if is_radio && is_radio_key(key) {
                target = apply_radio_navigation_key(&mut self.inputs, order, node, event);
                edited = target.is_some();
                emits = target.is_some();
                push_if(&mut effects, target.is_some(), Effect::SyncChecked);
            } else {
                let outcome = apply_input_key(&mut self.inputs, node, event);
                edited = outcome.changed;
                emits = outcome.emits_input;
                if let Some(by) = outcome.range {
                    effects.push(Effect::StepRange { node, by });
                    ranged = true;
                }
            }
        } else if down && self.selects.contains_key(node) {
            let plan = apply_select_key(&mut self.selects, node, event, now);
            edited = plan.edited;
            emits = plan.emits_change;
            if plan.repaint {
                self.ui.needs_paint = true;
            }
            push_popup_effects(&mut effects, node, &plan);
        }
        proof {
            assert(effects@ =~= effect.effects);
        }
        effects.push(Effect::FireKey { node, phase });
        let activates = !event.has_modifier() && match phase {
            KeyPhase::Down => matches!(key, KeyName::Enter),
            KeyPhase::Up => matches!(key, KeyName::Space),
        };
        Turn {
            effects,
            record: true,
            paint: false,
            next: Some(
                Stage::KeySent(SentKey { node, activates, edited, emits, ranged, target }),
            ),
        }
    }

    /// Takes a key that goes down. See [`key_started`]; `order` lists the
    /// document's nodes.
    pub fn dispatch_key_down(
        &mut self,
        event: &KeyboardEvent,
        order: &Vec<usize>,
        now: Instant,
    ) -> (turn: Turn)
        requires
            old(self).wf(),
        ensures
            final(self).wf(),
            final(self).same_but_controls(old(self)),
            key_started(*old(self), *final(self), turn@, KeyPhase::Down, *event, order@, now),
    {
        self.dispatch_key(KeyPhase::Down, event, order, now)
    }

    /// Takes a key that comes up.
    pub fn dispatch_key_up(
        &mut self,
        event: &KeyboardEvent,
        order: &Vec<usize>,
        now: Instant,
    ) -> (turn: Turn)
        requires
            old(self).wf(),
        ensures
            final(self).wf(),
            final(self).same_but_controls(old(self)),
            key_started(*old(self), *final(self), turn@, KeyPhase::Up, *event, order@, now),
    {
        self.dispatch_key(KeyPhase::Up, event, order, now)
    }

    fn start_tab(&mut self, event: &KeyboardEvent, now: Instant) -> (turn: Turn)
        requires
            old(self).wf(),
        ensures
            final(self).wf(),
            (turn@, final(self).ui) == ({
                let (started, paint) = tab_start(*old(self), *event, now);
                (started, crate::instance::repainted(old(self).ui, paint))
            }),
            final(self).inputs@ == old(self).inputs@,
            final(self).same_but_controls(old(self)),
            if crate::instance::dropdown_open(old(self).selects, old(self).ui.focused) {
                keyed_selects(
                    old(self).selects,
                    final(self).selects,
                    old(self).ui.focused->0,
                    *event,
                    now,
                )
            } else {
                final(self).selects@ == old(self).selects@
            },
    {
        let mut turn = Turn::going_on(Stage::Tab { backwards: event.shift_key });
        if let Some(node) = self.ui.focused {
            let open = match self.selects.get(node) {
                Some(state) => state.is_open(),
                None => false,
            };
            if open {
                let plan = apply_select_key(&mut self.selects, node, event, now);
                if plan.repaint {
                    self.ui.needs_paint = true;
                }
                push_popup_effects(&mut turn.effects, node, &plan);
                push_if(&mut turn.effects, plan.edited, Effect::RefreshSelect(node));
                push_if(&mut turn.effects, plan.emits_change, Effect::FireChange(node));
                proof {
                    assert(turn.effects@ =~= popup_effects(node, plan)
                        + crate::effects::effect_if(plan.edited, Effect::RefreshSelect(node))
                        + crate::effects::effect_if(plan.emits_change, Effect::FireChange(node)));
                }
            }
        }
        turn
    }

    /// Moves the focus to the neighbour of the focused node in `order`, the
    /// document's tab order.
    pub fn move_focus(&mut self, order: &Vec<usize>, backwards: bool) -> (turn: Turn)
        requires
            old(self).wf(),
        ensures
            final(self).wf(),
            final(self).same_but_selects(old(self)),
            ({
                let focused = old(self).ui.focused;
                let next = crate::focus::adjacent(order@, focused, backwards);
                let open = crate::instance::dropdown_open(old(self).selects, focused);
                let moves = next is Some && next != focused;
                &&& turn@ == focus_moved(focused, open, next)
                &&& final(self).ui == crate::instance::repainted(old(self).ui, moves && open)
                &&& if moves {
                    crate::instance::left_selects(old(self).selects, final(self).selects, focused)
                } else {
                    final(self).selects@ == old(self).selects@
                }
            }),
    {
        let focused = self.ui.focused;
        let next: usize = match focus_adjacent_control(order, focused, backwards) {
            Some(next) => next,
            None => return Turn::idle(),
        };
        let stays = match focused {
            Some(node) => node == next,
            None => false,
        };
        let mut turn = Turn::idle();
        turn.paint = true;
        if stays {
            return turn;
        }
        self.leave(&mut turn.effects);
        proof {
            let open = crate::instance::dropdown_open(old(self).selects, focused);
            assert(turn.effects@ =~= crate::instance::leave_effects(focused, open));
        }
        turn.record = true;
        turn.next = Some(Stage::Enter { previous: focused, next: Some(next), after: After::Stop });
        turn
    }

    /// Goes on after scripts saw the key event: a button that the key
    /// activates is clicked, and a radio that the key moved to takes the focus.
    /// `is_button` tells whether the node is a button, `range_changed` whether
    /// the value of a range input moved.
    pub fn key_sent(&mut self, sent: SentKey, is_button: bool, range_changed: bool) -> (turn: Turn)
        requires
            old(self).wf(),
        ensures
            final(self).wf(),
            final(self).same_but_selects(old(self)),
            ({
                let focused = old(self).ui.focused;
                let target = sent.target;
                let moves = target is Some && target != focused;
                let open = crate::instance::dropdown_open(old(self).selects, focused);
                &&& turn@ == sent_turn(focused, open, sent, is_button, range_changed)
                &&& final(self).ui == crate::instance::repainted(old(self).ui, moves && open)
                &&& if moves {
                    crate::instance::left_selects(old(self).selects, final(self).selects, focused)
                } else {
                    final(self).selects@ == old(self).selects@
                }
            }),
    {
        let focused = self.ui.focused;
        let node: usize = sent.node;
        let target = sent.target;
        let clicks = is_button && sent.activates;
        let edited = if sent.ranged { range_changed } else { sent.edited };
        let emits = if sent.ranged { range_changed } else { sent.emits };
        let mut effects: Vec<Effect> = Vec::new();
        push_if(
            &mut effects,
            clicks,
            Effect::FireAt { node, event: EventName::Click, related: None },
        );
        let ghost clicked = effects@;
        proof {
            assert(clicked =~= crate::effects::effect_if(
                clicks,
                Effect::FireAt { node, event: EventName::Click, related: None },
            ));
        }
        let reached: usize = match target {
            Some(target) => target,
            None => node,
        };
        let moves = match (target, focused) {
            (Some(target), Some(focused)) => target != focused,
            (Some(_), None) => true,
            (None, _) => false,
        };
        if moves {
            self.leave(&mut effects);
            return Turn {
                effects,
                record: true,
                paint: false,
                next: Some(
                    Stage::Enter {
                        previous: focused,
                        next: target,
                        after: After::Key { node: reached, edited, emits },
                    },
                ),
            };
        }
        proof {
            assert(effects@ =~= clicked + Seq::<Effect>::empty());
        }
        Turn {
            effects,
            record: true,
            paint: false,
            next: Some(Stage::KeyDone { node: reached, edited, emits }),
        }
    }

    /// Ends a key press at `node`: an edited control is written anew, and
    /// `input` or `change` is fired where its value changed.
    pub fn key_done(&mut self, node: usize, edited: bool, emits: bool) -> (turn: Turn)
        requires
            old(self).wf(),
        ensures
            final(self).wf(),
            turn@ == done_turn(
                node,
                old(self).inputs.at(node) is Some,
                old(self).selects.at(node) is Some,
                edited,
                emits,
            ),
            final(self).ui == crate::instance::repainted(old(self).ui, edited),
            final(self).same_but_ui(old(self)),
    {
        let mut turn = Turn::idle();
        if edited {
            turn.effects.push(Effect::RefreshInput(node));
            turn.effects.push(Effect::RefreshSelect(node));
            self.ui.needs_paint = true;
        }
        if emits {
            if self.inputs.contains_key(node) {
                turn.effects.push(Effect::FireInput(node));
            } else if self.selects.contains_key(node) {
                turn.effects.push(Effect::FireChange(node));
            }
        }
        proof {
            assert(turn.effects@ =~= (if edited {
                seq![Effect::RefreshInput(node), Effect::RefreshSelect(node)]
            } else {
                Seq::empty()
            }) + (if !emits {
                Seq::empty()
            } else if self.inputs.at(node) is Some {
                seq![Effect::FireInput(node)]
            } else if self.selects.at(node) is Some {
                seq![Effect::FireChange(node)]
            } else {
                Seq::empty()
            }));
        }
        turn
    }
}

/// A held Ctrl, Alt or Meta keeps any key from activating a button.
pub proof fn modifiers_prevent_activation(phase: KeyPhase, event: KeyboardEvent)
    requires
        event.ctrl_key || event.alt_key || event.meta_key,
    ensures
        !key_activates(phase, event),
{
}

/// A key that comes up drives no native control: it edits nothing, moves no
/// focus and asks for no work but firing the event.
pub proof fn key_up_changes_no_control(
    instance: Instance,
    node: usize,
    event: KeyboardEvent,
    order: Seq<usize>,
    now: Instant,
)
    ensures
        ({
            let effect = key_effect(instance, node, KeyPhase::Up, event, order, now);
            &&& effect.effects.len() == 0
            &&& !effect.edited
            &&& !effect.emits
            &&& effect.target is None
            &&& !effect.paint
        }),
{
}

/// Without Ctrl, Alt and Meta, Enter activates a button when it goes down and Space
/// when it comes up. No other key does, nor these two the other way round.
pub proof fn enter_and_space_activate(event: KeyboardEvent)
    requires
        !event.ctrl_key && !event.alt_key && !event.meta_key,
    ensures
        key_activates(KeyPhase::Down, event) <==> event.named() is Enter,
        key_activates(KeyPhase::Up, event) <==> event.named() is Space,
{
}

/// The arrows, Home and End move within a radio group, and no other key does.
pub proof fn radio_group_keys(key: KeyName)
    ensures
        navigates_radios(key) <==> key == KeyName::ArrowLeft || key == KeyName::ArrowRight || key
            == KeyName::ArrowUp || key == KeyName::ArrowDown || key == KeyName::Home || key
            == KeyName::End,
{
}

/// Tab goes to the tab order, forwards, or with Shift backwards. Without an open
/// dropdown at the focus, nothing else happens yet.
pub proof fn tab_goes_to_the_order(
    before: Instance,
    after: Instance,
    turn: crate::effects::TurnModel,
    event: KeyboardEvent,
    order: Seq<usize>,
    now: Instant,
)
    requires
        key_started(before, after, turn, KeyPhase::Down, event, order, now),
        event.named() is Tab,
        before.ui.focused matches Some(node) ==> before.selects.at(node) matches Some(state)
            ==> !state@.open,
    ensures
        turn.next == Some(Stage::Tab { backwards: event.shift_key }),
        turn.effects.len() == 0 && !turn.record && !turn.paint,
        after.ui == before.ui,
        after.inputs@ == before.inputs@,
        after.selects@ == before.selects@,
{
}

/// Tab on a select with an open dropdown closes that first: the highlighted option is
/// selected where the user can pick it, and `change` is fired where that is a new
/// selection. The focus moves on after that.
pub proof fn tab_closes_a_dropdown(
    before: Instance,
    after: Instance,
    turn: crate::effects::TurnModel,
    event: KeyboardEvent,
    order: Seq<usize>,
    now: Instant,
    node: usize,
    state: SelectState,
)
    requires
        key_started(before, after, turn, KeyPhase::Down, event, order, now),
        event.named() is Tab,
        before.ui.focused == Some(node),
        before.selects.at(node) == Some(state),
        state@.open,
        !state@.disabled,
    ensures
        ({
            let fresh = state@.active matches Some(at) && at < state@.options.len()
                && !state@.options[at as int].disabled && !state@.options[at as int].hidden
                && state@.selected != Some(at);
            &&& turn.next == Some(Stage::Tab { backwards: event.shift_key })
            &&& fresh ==> turn.effects == seq![
                Effect::Popup { select: node, action: PopupAction::Unmount },
                Effect::RefreshSelect(node),
                Effect::FireChange(node),
            ]
            &&& !fresh ==> turn.effects == seq![
                Effect::Popup { select: node, action: PopupAction::Unmount },
            ]
            &&& after.selects.at(node) matches Some(closed)
            &&& !closed@.open && closed@.active is None && closed@.selected == (if fresh {
                state@.active
            } else {
                state@.selected
            })
            &&& crate::registry::changed_only(before.selects@, after.selects@, node)
            &&& after.inputs@ == before.inputs@
            &&& after.ui == (crate::instance::UiState { needs_paint: true, ..before.ui })
        }),
{
    crate::popup::keys_that_commit(state@, event, now);
}

/// Without a focused node a key other than Tab does nothing.
pub proof fn keys_need_a_focus(
    before: Instance,
    after: Instance,
    turn: crate::effects::TurnModel,
    phase: KeyPhase,
    event: KeyboardEvent,
    order: Seq<usize>,
    now: Instant,
)
    requires
        key_started(before, after, turn, phase, event, order, now),
        before.ui.focused is None,
        phase is Up || !(event.named() is Tab),
    ensures
        turn.effects.len() == 0 && turn.next is None && !turn.record && !turn.paint,
        after == before,
{
}

/// Scripts see a key at the focused node, after its control took it, and hear of it in
/// the phase that it is in. What the control made of the key is handed on.
pub proof fn keys_are_fired_at_the_focus(
    before: Instance,
    after: Instance,
    turn: crate::effects::TurnModel,
    phase: KeyPhase,
    event: KeyboardEvent,
    order: Seq<usize>,
    now: Instant,
    node: usize,
)
    requires
        key_started(before, after, turn, phase, event, order, now),
        before.ui.focused == Some(node),
        phase is Up || !(event.named() is Tab),
    ensures
        turn.effects.len() > 0 && turn.effects.last() == (Effect::FireKey { node, phase }),
        turn.record && !turn.paint,
        turn.next matches Some(Stage::KeySent(sent)) && sent.node == node && sent.activates
            == key_activates(phase, event),
        after.ui.focused == Some(node) && after.ui.hovered == before.ui.hovered && after.ui.active
            == before.ui.active,
{
}

/// A key on a node without a native control, and a key that comes up anywhere, changes
/// no control: scripts see it and that is all.
pub proof fn plain_keys_only_fire(
    before: Instance,
    after: Instance,
    turn: crate::effects::TurnModel,
    phase: KeyPhase,
    event: KeyboardEvent,
    order: Seq<usize>,
    now: Instant,
    node: usize,
)
    requires
        key_started(before, after, turn, phase, event, order, now),
        before.ui.focused == Some(node),
        phase is Up || (!(event.named() is Tab) && before.inputs.at(node) is None
            && before.selects.at(node) is None),
    ensures
        turn.effects == seq![Effect::FireKey { node, phase }],
        turn.next matches Some(Stage::KeySent(sent)) && !sent.edited && !sent.emits && !sent.ranged
            && sent.target is None,
        after.inputs@ == before.inputs@,
        after.selects@ == before.selects@,
        after.ui == before.ui,
{
}

/// A key that goes down on an input other than a radio is taken by it: what it reports
/// of the key is handed on, a range is moved before scripts see the key, and no select
/// changes.
pub proof fn input_keys_reach_the_input(
    before: Instance,
    after: Instance,
    turn: crate::effects::TurnModel,
    event: KeyboardEvent,
    order: Seq<usize>,
    now: Instant,
    node: usize,
    state: crate::input::InputState,
)
    requires
        key_started(before, after, turn, KeyPhase::Down, event, order, now),
        before.ui.focused == Some(node),
        before.inputs.at(node) == Some(state),
        !(state@.kind is Radio),
        !(event.named() is Tab),
    ensures
        ({
            let outcome = crate::inputs::input_key_outcome(state@, event);
            &&& turn.next matches Some(Stage::KeySent(sent))
            &&& sent.edited == outcome.changed && sent.emits == outcome.emits_input && sent.ranged
                == outcome.range is Some && sent.target is None
            &&& outcome.range is None ==> turn.effects == seq![
                Effect::FireKey { node, phase: KeyPhase::Down },
            ]
            &&& outcome.range matches Some(by) ==> turn.effects == seq![
                Effect::StepRange { node, by },
                Effect::FireKey { node, phase: KeyPhase::Down },
            ]
            &&& crate::inputs::input_key_effect(
                crate::inputs::models(before.inputs@),
                crate::inputs::models(after.inputs@),
                node,
                state@,
                event,
                outcome,
            )
        }),
        after.selects@ == before.selects@,
        after.ui == before.ui,
{
}

/// A key that moves within a radio group checks the radio that it arrives at, writes
/// the checked marks before scripts see the key, and hands on where the focus is to
/// go. Where it arrives nowhere new, nothing changes.
pub proof fn radio_keys_move_the_check(
    before: Instance,
    after: Instance,
    turn: crate::effects::TurnModel,
    event: KeyboardEvent,
    order: Seq<usize>,
    now: Instant,
    node: usize,
    state: crate::input::InputState,
)
    requires
        key_started(before, after, turn, KeyPhase::Down, event, order, now),
        before.ui.focused == Some(node),
        before.inputs.at(node) == Some(state),
        state@.kind is Radio,
        event.named() is ArrowLeft || event.named() is ArrowRight || event.named() is ArrowUp
            || event.named() is ArrowDown || event.named() is Home || event.named() is End,
    ensures
        ({
            let models = crate::inputs::models(before.inputs@);
            let target = crate::inputs::radio_key_target(models, order, node, event.named());
            &&& turn.next matches Some(Stage::KeySent(sent))
            &&& sent.target == target && sent.edited == target is Some && sent.emits == target
                is Some && !sent.ranged
            &&& target is Some ==> turn.effects == seq![
                Effect::SyncChecked,
                Effect::FireKey { node, phase: KeyPhase::Down },
            ]
            &&& target is None ==> turn.effects == seq![
                Effect::FireKey { node, phase: KeyPhase::Down },
            ] && after.inputs@ == before.inputs@
            &&& target matches Some(next) ==> forall|i: int|
                0 <= i < models.len() && crate::inputs::group_members(
                    models,
                    order,
                    state@.name,
                    order.len() as int,
                ).contains((#[trigger] models[i]).0) ==> crate::inputs::models(
                    after.inputs@,
                )[i].1.checked == (models[i].0 == next)
        }),
        after.selects@ == before.selects@,
        after.ui == before.ui,
{
    assert(navigates_radios(event.named()));
}

/// A key that goes down on an enabled select is taken by it: its popup and highlights
/// are seen to before scripts see the key, and what it reports of the key is handed on.
/// No input changes, nor any other select.
pub proof fn select_keys_reach_the_select(
    before: Instance,
    after: Instance,
    turn: crate::effects::TurnModel,
    event: KeyboardEvent,
    order: Seq<usize>,
    now: Instant,
    node: usize,
    state: SelectState,
)
    requires
        key_started(before, after, turn, KeyPhase::Down, event, order, now),
        before.ui.focused == Some(node),
        before.inputs.at(node) is None,
        before.selects.at(node) == Some(state),
        !state@.disabled,
        !(event.named() is Tab),
    ensures
        ({
            let (keyed, plan) = crate::selects::select_key_plan(state@, event, now);
            let fired = Effect::FireKey { node, phase: KeyPhase::Down };
            let popup = Effect::Popup { select: node, action: plan.popup };
            &&& turn.next matches Some(Stage::KeySent(sent))
            &&& sent.edited == plan.edited && sent.emits == plan.emits_change && !sent.ranged
                && sent.target is None
            &&& plan.popup is Keep && !plan.sync_highlights ==> turn.effects == seq![fired]
            &&& plan.popup is Keep && plan.sync_highlights ==> turn.effects == seq![
                Effect::SyncHighlights(node),
                fired,
            ]
            &&& !(plan.popup is Keep) && !plan.sync_highlights ==> turn.effects == seq![
                popup,
                fired,
            ]
            &&& after.selects.at(node) matches Some(now_state) && now_state@ == keyed
            &&& crate::registry::changed_only(before.selects@, after.selects@, node)
            &&& after.ui.needs_paint <==> before.ui.needs_paint || plan.repaint
        }),
        after.inputs@ == before.inputs@,
{
}

/// A disabled select leaves a key to the scripts.
pub proof fn disabled_selects_ignore_keys(
    before: Instance,
    after: Instance,
    turn: crate::effects::TurnModel,
    event: KeyboardEvent,
    order: Seq<usize>,
    now: Instant,
    node: usize,
    state: SelectState,
)
    requires
        key_started(before, after, turn, KeyPhase::Down, event, order, now),
        before.ui.focused == Some(node),
        before.inputs.at(node) is None,
        before.selects.at(node) == Some(state),
        state@.disabled,
        !(event.named() is Tab),
    ensures
        turn.effects == seq![Effect::FireKey { node, phase: KeyPhase::Down }],
        turn.next matches Some(Stage::KeySent(sent)) && !sent.edited && !sent.emits,
        after.selects@ == before.selects@,
        after.inputs@ == before.inputs@,
        after.ui == before.ui,
{
}

/// Moving the focus to a neighbour closes an open dropdown of the node that has it and
/// tells that node `blur`; the new node takes the focus after that. Where there is no
/// other node to go to, nothing happens.
pub proof fn focus_goes_to_the_neighbour(focused: Option<usize>, open: bool, next: Option<usize>)
    ensures
        ({
            let turn = focus_moved(focused, open, next);
            &&& turn.paint <==> next is Some
            &&& next is None || next == focused ==> turn.effects.len() == 0 && turn.next is None
                && !turn.record
            &&& next is Some && next != focused ==> turn.record && turn.next == Some(
                Stage::Enter { previous: focused, next, after: After::Stop },
            )
            &&& next is Some && next != focused && focused is None ==> turn.effects.len() == 0
            &&& next is Some && next != focused && focused is Some && open ==> turn.effects == seq![
                Effect::Popup { select: focused->0, action: PopupAction::Unmount },
                Effect::Fire { node: focused->0, event: EventName::Blur },
            ]
            &&& next is Some && next != focused && focused is Some && !open ==> turn.effects
                == seq![Effect::Fire { node: focused->0, event: EventName::Blur }]
        }),
{
}

/// A key that activates clicks the focused node where that is a button, and no other
/// node. A key that led to another radio moves the focus there first. A moved range
/// counts as edited where its value changed.
pub proof fn sent_keys_click_and_move(
    focused: Option<usize>,
    open: bool,
    sent: SentKey,
    is_button: bool,
    range_changed: bool,
)
    ensures
        ({
            let turn = sent_turn(focused, open, sent, is_button, range_changed);
            let click = Effect::FireAt {
                node: sent.node,
                event: EventName::Click,
                related: None,
            };
            let edited = if sent.ranged { range_changed } else { sent.edited };
            let emits = if sent.ranged { range_changed } else { sent.emits };
            &&& turn.record && !turn.paint
            &&& is_button && sent.activates ==> turn.effects.len() > 0 && turn.effects[0] == click
            &&& (!is_button || !sent.activates) && (sent.target is None || sent.target == focused)
                ==> turn.effects.len() == 0
            &&& is_button && sent.activates && (sent.target is None || sent.target == focused)
                ==> turn.effects == seq![click]
            &&& sent.target is None ==> turn.next == Some(
                Stage::KeyDone { node: sent.node, edited, emits },
            )
            &&& sent.target is Some && sent.target == focused ==> turn.next == Some(
                Stage::KeyDone { node: sent.target->0, edited, emits },
            )
            &&& sent.target is Some && sent.target != focused ==> turn.next == Some(
                Stage::Enter {
                    previous: focused,
                    next: sent.target,
                    after: After::Key { node: sent.target->0, edited, emits },
                },
            )
            &&& sent.target is Some && sent.target != focused && focused is Some
                ==> turn.effects.len() > 0 && turn.effects.last() == (Effect::Fire {
                node: focused->0,
                event: EventName::Blur,
            })
        }),
{
}

/// A key press that edited its control has it written anew, and then `input` is fired
/// at an input and `change` at a select where its value changed.
pub proof fn done_keys_report(
    node: usize,
    is_input: bool,
    is_select: bool,
    edited: bool,
    emits: bool,
)
    ensures
        ({
            let turn = done_turn(node, is_input, is_select, edited, emits);
            &&& turn.effects.contains(Effect::RefreshInput(node)) <==> edited
            &&& turn.effects.contains(Effect::RefreshSelect(node)) <==> edited
            &&& turn.effects.contains(Effect::FireInput(node)) <==> emits && is_input
            &&& turn.effects.contains(Effect::FireChange(node)) <==> emits && !is_input && is_select
            &&& emits && is_input ==> turn.effects.last() == Effect::FireInput(node)
            &&& emits && !is_input && is_select ==> turn.effects.last() == Effect::FireChange(node)
            &&& !edited && !emits ==> turn.effects.len() == 0
            &&& !turn.record && !turn.paint && turn.next is None
        }),
{
    let effects = done_turn(node, is_input, is_select, edited, emits).effects;
    if edited {
        assert(effects[0] == Effect::RefreshInput(node));
        assert(effects[1] == Effect::RefreshSelect(node));
    }
    if emits && (is_input || is_select) {
        assert(effects[effects.len() - 1] == effects.last());
    }
}

} // verus!
