//! The selects of a document: which one a click belongs to, and opening and
//! closing their dropdowns.
use crate::events::{KeyboardEvent, TickResult};
use crate::popup::{select_key_outcome_at, PopupAction};
use crate::registry::Registry;
use crate::select::SelectState;
use std::time::Instant;
use vstd::prelude::*;

verus! {

/// The first slot at or after `from` that holds the node `id`.
pub open spec fn slot_with_node(nodes: Seq<Option<usize>>, id: usize, from: int) -> Option<usize>
    decreases nodes.len() - from,
{
    if from < 0 || from >= nodes.len() {
        None
    } else if nodes[from] == Some(id) {
        Some(from as usize)
    } else {
        slot_with_node(nodes, id, from + 1)
    }
}

/// The first select at or after the slot `from` whose popup has an option
/// node `id`, with the index of that option.
pub open spec fn option_owner(
    selects: Seq<(usize, SelectState)>,
    id: usize,
    from: int,
) -> Option<(usize, usize)>
    decreases selects.len() - from,
{
    if from < 0 || from >= selects.len() {
        None
    } else {
        match slot_with_node(selects[from].1@.option_nodes, id, 0) {
            Some(index) => Some((selects[from].0, index)),
            None => option_owner(selects, id, from + 1),
        }
    }
}

/// The popup option that a node belongs to. `chain` is the node followed by
/// its ancestors; the nearest one that is an option node decides.
pub open spec fn option_for_chain(
    selects: Seq<(usize, SelectState)>,
    chain: Seq<usize>,
    from: int,
) -> Option<(usize, usize)>
    decreases chain.len() - from,
{
    if from < 0 || from >= chain.len() {
        None
    } else {
        match option_owner(selects, chain[from], 0) {
            Some(found) => Some(found),
            None => option_for_chain(selects, chain, from + 1),
        }
    }
}

/// The first select at or after the slot `from` whose popup root is `id`.
pub open spec fn root_owner(selects: Seq<(usize, SelectState)>, id: usize, from: int) -> Option<
    usize,
>
    decreases selects.len() - from,
{
    if from < 0 || from >= selects.len() {
        None
    } else if selects[from].1@.popup_root == Some(id) {
        Some(selects[from].0)
    } else {
        root_owner(selects, id, from + 1)
    }
}

/// The select that a node belongs to: the nearest of `chain` that is a select
/// or the root of a select's popup decides.
pub open spec fn owner_for_chain(
    selects: Seq<(usize, SelectState)>,
    chain: Seq<usize>,
    from: int,
) -> Option<usize>
    decreases chain.len() - from,
{
    if from < 0 || from >= chain.len() {
        None
    } else if crate::registry::has_id(selects, chain[from]) {
        Some(chain[from])
    } else {
        match root_owner(selects, chain[from], 0) {
            Some(found) => Some(found),
            None => owner_for_chain(selects, chain, from + 1),
        }
    }
}

fn find_slot(nodes: &Vec<Option<usize>>, id: usize) -> (slot: Option<usize>)
    ensures
        slot == slot_with_node(nodes@, id, 0),
{
    let mut i: usize = 0;
    while i < nodes.len()
        invariant
            i <= nodes.len(),
            slot_with_node(nodes@, id, 0) == slot_with_node(nodes@, id, i as int),
        decreases nodes.len() - i,
    {
        if let Some(node) = nodes[i] {
            if node == id {
                return Some(i);
            }
        }
        i += 1;
    }
    None
}

fn find_option_owner(selects: &Registry<SelectState>, id: usize) -> (found: Option<(usize, usize)>)
    ensures
        found == option_owner(selects@, id, 0),
{
    let mut i: usize = 0;
    while i < selects.len()
        invariant
            i <= selects@.len(),
            option_owner(selects@, id, 0) == option_owner(selects@, id, i as int),
        decreases selects@.len() - i,
    {
        let entry = selects.entry(i);
        if let Some(index) = find_slot(&entry.1.option_node_ids, id) {
            return Some((entry.0, index));
        }
        i += 1;
    }
    None
}

fn find_root_owner(selects: &Registry<SelectState>, id: usize) -> (found: Option<usize>)
    ensures
        found == root_owner(selects@, id, 0),
{
    let mut i: usize = 0;
    while i < selects.len()
        invariant
            i <= selects@.len(),
            root_owner(selects@, id, 0) == root_owner(selects@, id, i as int),
        decreases selects@.len() - i,
    {
        let entry = selects.entry(i);
        if let Some(root) = entry.1.popup_root_id {
            if root == id {
                return Some(entry.0);
            }
        }
        i += 1;
    }
    None
}

/// Maps a hovered or clicked node back to the popup option it belongs to.
/// `chain` is the node followed by its ancestors, nearest first. Returns the
/// select and the index of the option.
pub fn popup_option_for_hit(selects: &Registry<SelectState>, chain: &Vec<usize>) -> (found: Option<
    (usize, usize),
>)
    ensures
        found == option_for_chain(selects@, chain@, 0),
{
    let mut i: usize = 0;
    while i < chain.len()
        invariant
            i <= chain.len(),
            option_for_chain(selects@, chain@, 0) == option_for_chain(selects@, chain@, i as int),
        decreases chain.len() - i,
    {
        if let Some(found) = find_option_owner(selects, chain[i]) {
            return Some(found);
        }
        i += 1;
    }
    None
}

/// The select that owns a node, treating both the select element itself and
/// its open popup overlay as belonging to it. `chain` is the node followed by
/// its ancestors, nearest first.
pub fn select_owning_hit(selects: &Registry<SelectState>, chain: &Vec<usize>) -> (found: Option<
    usize,
>)
    requires
        selects.wf(),
    ensures
        found == owner_for_chain(selects@, chain@, 0),
{
    let mut i: usize = 0;
    while i < chain.len()
        invariant
            selects.wf(),
            i <= chain.len(),
            owner_for_chain(selects@, chain@, 0) == owner_for_chain(selects@, chain@, i as int),
        decreases chain.len() - i,
    {
        if selects.contains_key(chain[i]) {
            return Some(chain[i]);
        }
        if let Some(found) = find_root_owner(selects, chain[i]) {
            return Some(found);
        }
        i += 1;
    }
    None
}

/// What a point lies on, of the popup of one select.
#[derive(Debug)]
pub struct PopupMarks {
    /// The point lies on the popup.
    pub root: bool,
    /// The options of the select whose nodes the point lies on.
    pub options: Vec<bool>,
}

/// The first option node at or after `from` that is marked.
pub open spec fn marked_option(nodes: Seq<Option<usize>>, marks: Seq<bool>, from: int) -> Option<
    usize,
>
    decreases nodes.len() - from,
{
    if from < 0 || from >= nodes.len() {
        None
    } else if nodes[from] is Some && from < marks.len() && marks[from] {
        nodes[from]
    } else {
        marked_option(nodes, marks, from + 1)
    }
}

/// The node under a point among the popups of the selects from the slot `from`
/// on: in the first popup that the point lies on, the option there, or else
/// the popup itself.
pub open spec fn popup_under(
    selects: Seq<(usize, SelectState)>,
    marks: Seq<PopupMarks>,
    from: int,
) -> Option<usize>
    decreases selects.len() - from,
{
    if from < 0 || from >= selects.len() || from >= marks.len() {
        None
    } else if selects[from].1@.popup_root is Some && marks[from].root {
        match marked_option(selects[from].1@.option_nodes, marks[from].options@, 0) {
            Some(node) => Some(node),
            None => selects[from].1@.popup_root,
        }
    } else {
        popup_under(selects, marks, from + 1)
    }
}

fn find_marked(nodes: &Vec<Option<usize>>, marks: &Vec<bool>) -> (node: Option<usize>)
    ensures
        node == marked_option(nodes@, marks@, 0),
{
    let mut i: usize = 0;
    while i < nodes.len()
        invariant
            i <= nodes@.len(),
            marked_option(nodes@, marks@, 0) == marked_option(nodes@, marks@, i as int),
        decreases nodes@.len() - i,
    {
        if let Some(node) = nodes[i] {
            if i < marks.len() && marks[i] {
                return Some(node);
            }
        }
        i += 1;
    }
    None
}

/// The node of a popup under a point. Popups lie on top of the document and
/// outside of their select, so they are looked at first. `marks` tells for
/// each select what the point lies on.
pub fn hit_popup_node(selects: &Registry<SelectState>, marks: &Vec<PopupMarks>) -> (node: Option<
    usize,
>)
    ensures
        node == popup_under(selects@, marks@, 0),
{
    let mut i: usize = 0;
    while i < selects.len() && i < marks.len()
        invariant
            i <= selects@.len(),
            i <= marks@.len(),
            popup_under(selects@, marks@, 0) == popup_under(selects@, marks@, i as int),
        decreases selects@.len() - i,
    {
        let entry = selects.entry(i);
        if let Some(root) = entry.1.popup_root_id {
            if marks[i].root {
                return match find_marked(&entry.1.option_node_ids, &marks[i].options) {
                    Some(node) => Some(node),
                    None => Some(root),
                };
            }
        }
        i += 1;
    }
    None
}

/// The open selects among the first `upto`, leaving out `owner`.
pub open spec fn open_others(
    selects: Seq<(usize, SelectState)>,
    owner: Option<usize>,
    upto: int,
) -> Seq<usize>
    decreases upto,
{
    if upto <= 0 {
        Seq::empty()
    } else {
        let before = open_others(selects, owner, upto - 1);
        if selects[upto - 1].1@.open && owner != Some(selects[upto - 1].0) {
            before.push(selects[upto - 1].0)
        } else {
            before
        }
    }
}

/// Opens or closes the dropdown of the select `id` and says what to do with
/// its popup overlay. An unknown id is left alone.
pub fn set_select_open(selects: &mut Registry<SelectState>, id: usize, open: bool) -> (action:
    PopupAction)
    requires
        old(selects).wf(),
    ensures
        final(selects).wf(),
        crate::registry::changed_only(old(selects)@, final(selects)@, id),
        match old(selects).at(id) {
            Some(before) => {
                &&& action == crate::popup::popup_action(before@.open, open)
                &&& final(selects).at(id) matches Some(after) && after@ == crate::popup::opened(
                    before@,
                    open,
                )
            },
            None => action is Keep && final(selects)@ == old(selects)@,
        },
{
    match selects.position(id) {
        Some(slot) => selects.state_mut(slot).switch_open(open),
        None => PopupAction::Keep,
    }
}

/// A click on the select `id` toggles its dropdown and asks for a repaint.
pub fn handle_select_click(selects: &mut Registry<SelectState>, id: usize) -> (done: (
    PopupAction,
    TickResult,
))
    requires
        old(selects).wf(),
    ensures
        final(selects).wf(),
        crate::registry::changed_only(old(selects)@, final(selects)@, id),
        done.1 == (TickResult { needs_paint: true, jobs_pending: false }),
        match old(selects).at(id) {
            Some(before) => {
                &&& done.0 == crate::popup::popup_action(before@.open, !before@.open)
                &&& final(selects).at(id) matches Some(after) && after@ == crate::popup::opened(
                    before@,
                    !before@.open,
                )
            },
            None => done.0 is Keep && final(selects)@ == old(selects)@,
        },
{
    let was_open = match selects.get(id) {
        Some(state) => state.is_open(),
        None => false,
    };
    let action = set_select_open(selects, id, !was_open);
    (action, TickResult { needs_paint: true, jobs_pending: false })
}

/// What a key press on a focused select asks of the document.
#[derive(Debug, Clone, Copy, PartialEq, Eq, Structural)]
pub struct SelectKeyPlan {
    /// The displayed label needs re-syncing.
    pub edited: bool,
    /// A `change` event should be dispatched.
    pub emits_change: bool,
    /// What to do with the popup overlay.
    pub popup: PopupAction,
    /// The class lists of the popup options need re-syncing.
    pub sync_highlights: bool,
    /// The document needs a repaint.
    pub repaint: bool,
}

/// The plan that asks for nothing.
pub open spec fn no_plan() -> SelectKeyPlan {
    SelectKeyPlan {
        edited: false,
        emits_change: false,
        popup: PopupAction::Keep,
        sync_highlights: false,
        repaint: false,
    }
}

/// State and plan after a key press on an enabled select.
pub open spec fn select_key_plan(
    m: crate::select::SelectModel,
    event: KeyboardEvent,
    now: Instant,
) -> (crate::select::SelectModel, SelectKeyPlan) {
    let (moved, outcome) = crate::popup::select_key_effect(m, event, now);
    let after = if outcome.open_popup {
        crate::popup::opened(moved, true)
    } else if outcome.close_popup {
        crate::popup::opened(moved, false)
    } else {
        moved
    };
    (
        after,
        SelectKeyPlan {
            edited: outcome.edited,
            emits_change: outcome.emits_change,
            popup: crate::popup::popup_action(moved.open, after.open),
            sync_highlights: outcome.sync_highlights,
            repaint: outcome.edited || outcome.open_popup || outcome.close_popup
                || outcome.sync_highlights,
        },
    )
}

/// Applies a key press to the select `id`: moves its selection or highlight
/// and opens or closes it. A disabled or unknown select ignores the key.
pub fn apply_select_key(
    selects: &mut Registry<SelectState>,
    id: usize,
    event: &KeyboardEvent,
    now: Instant,
) -> (plan: SelectKeyPlan)
    requires
        old(selects).wf(),
    ensures
        final(selects).wf(),
        crate::registry::changed_only(old(selects)@, final(selects)@, id),
        match old(selects).at(id) {
            Some(before) if !before@.disabled => {
                &&& final(selects).at(id) matches Some(after) && (after@, plan)
                    == select_key_plan(before@, *event, now)
            },
            _ => plan == no_plan() && final(selects)@ == old(selects)@,
        },
{
    let mut plan = SelectKeyPlan {
        edited: false,
        emits_change: false,
        popup: PopupAction::Keep,
        sync_highlights: false,
        repaint: false,
    };
    let slot: usize = match selects.position(id) {
        Some(slot) => slot,
        None => return plan,
    };
    if selects.entry(slot).1.disabled() {
        return plan;
    }
    let state = selects.state_mut(slot);
    let outcome = select_key_outcome_at(state, event, now);
    if outcome.open_popup {
        plan.popup = state.switch_open(true);
    } else if outcome.close_popup {
        plan.popup = state.switch_open(false);
    }
    plan.edited = outcome.edited;
    plan.emits_change = outcome.emits_change;
    plan.sync_highlights = outcome.sync_highlights;
    plan.repaint = outcome.edited || outcome.open_popup || outcome.close_popup
        || outcome.sync_highlights;
    plan
}

/// A slot search finds the first slot with the node, and none only where no slot has
/// it.
pub proof fn first_slot_with_node(nodes: Seq<Option<usize>>, id: usize, from: int)
    requires
        0 <= from <= nodes.len() <= usize::MAX,
    ensures
        match slot_with_node(nodes, id, from) {
            Some(found) => {
                &&& from <= found < nodes.len()
                &&& nodes[found as int] == Some(id)
                &&& forall|i: int| from <= i < found ==> nodes[i] != Some(id)
            },
            None => forall|i: int| from <= i < nodes.len() ==> nodes[i] != Some(id),
        },
    decreases nodes.len() - from,
{
    if from < nodes.len() && nodes[from] != Some(id) {
        first_slot_with_node(nodes, id, from + 1);
    }
}

/// Whether the popup of some select shows an option at the node `id`.
pub open spec fn shows_option(selects: Seq<(usize, SelectState)>, id: usize) -> bool {
    exists|s: int, k: int|
        {
            &&& 0 <= s < selects.len()
            &&& 0 <= k < selects[s].1@.option_nodes.len()
            &&& #[trigger] selects[s].1@.option_nodes[k] == Some(id)
        }
}

/// Whether the node `id` shows the option `index` of the select `select`.
pub open spec fn option_at(
    selects: Seq<(usize, SelectState)>,
    id: usize,
    select: usize,
    index: usize,
) -> bool {
    exists|s: int|
        {
            &&& 0 <= s < selects.len()
            &&& (#[trigger] selects[s]).0 == select
            &&& index < selects[s].1@.option_nodes.len()
            &&& selects[s].1@.option_nodes[index as int] == Some(id)
        }
}

proof fn lemma_option_owner(selects: Seq<(usize, SelectState)>, id: usize, from: int)
    requires
        0 <= from <= selects.len(),
        forall|s: int|
            0 <= s < selects.len() ==> (#[trigger] selects[s]).1@.option_nodes.len() <= usize::MAX,
    ensures
        match option_owner(selects, id, from) {
            Some((select, index)) => option_at(selects, id, select, index),
            None => forall|s: int, k: int|
                from <= s < selects.len() && 0 <= k < selects[s].1@.option_nodes.len()
                    ==> #[trigger] selects[s].1@.option_nodes[k] != Some(id),
        },
    decreases selects.len() - from,
{
    if from < selects.len() {
        first_slot_with_node(selects[from].1@.option_nodes, id, 0);
        match slot_with_node(selects[from].1@.option_nodes, id, 0) {
            Some(index) => {
                assert(selects[from].0 == selects[from].0);
                assert(option_at(selects, id, selects[from].0, index));
            },
            None => lemma_option_owner(selects, id, from + 1),
        }
    }
}

/// A hit belongs to the option that the nearest option node of its chain shows. It
/// belongs to none only where no node of the chain shows an option.
pub proof fn nearest_option_is_hit(
    selects: Seq<(usize, SelectState)>,
    chain: Seq<usize>,
    from: int,
)
    requires
        0 <= from <= chain.len(),
        forall|s: int|
            0 <= s < selects.len() ==> (#[trigger] selects[s]).1@.option_nodes.len() <= usize::MAX,
    ensures
        match option_for_chain(selects, chain, from) {
            Some((select, index)) => exists|at: int|
                {
                    &&& from <= at < chain.len()
                    &&& option_at(selects, #[trigger] chain[at], select, index)
                    &&& forall|k: int|
                        from <= k < at ==> !shows_option(selects, #[trigger] chain[k])
                },
            None => forall|k: int|
                from <= k < chain.len() ==> !shows_option(selects, #[trigger] chain[k]),
        },
    decreases chain.len() - from,
{
    if from < chain.len() {
        lemma_option_owner(selects, chain[from], 0);
        if option_owner(selects, chain[from], 0) is None {
            assert(!shows_option(selects, chain[from]));
            nearest_option_is_hit(selects, chain, from + 1);
        }
    }
}

/// Whether a node is a select or the root of a select's popup.
pub open spec fn belongs_to_select(selects: Seq<(usize, SelectState)>, id: usize) -> bool {
    exists|s: int|
        0 <= s < selects.len() && ((#[trigger] selects[s]).0 == id || selects[s].1@.popup_root
            == Some(id))
}

proof fn lemma_root_owner(selects: Seq<(usize, SelectState)>, id: usize, from: int)
    requires
        0 <= from <= selects.len(),
    ensures
        match root_owner(selects, id, from) {
            Some(owner) => exists|s: int|
                from <= s < selects.len() && (#[trigger] selects[s]).0 == owner
                    && selects[s].1@.popup_root == Some(id),
            None => forall|s: int|
                from <= s < selects.len() ==> (#[trigger] selects[s]).1@.popup_root != Some(id),
        },
    decreases selects.len() - from,
{
    if from < selects.len() && selects[from].1@.popup_root != Some(id) {
        lemma_root_owner(selects, id, from + 1);
    }
}

/// A hit belongs to the select that the nearest node of its chain is, or that it is
/// the popup of. It belongs to none only where no node of the chain is either.
pub proof fn nearest_select_owns_the_hit(
    selects: Seq<(usize, SelectState)>,
    chain: Seq<usize>,
    from: int,
)
    requires
        0 <= from <= chain.len(),
    ensures
        match owner_for_chain(selects, chain, from) {
            Some(owner) => exists|at: int|
                {
                    &&& from <= at < chain.len()
                    &&& belongs_to_select(selects, #[trigger] chain[at])
                    &&& chain[at] == owner || exists|s: int|
                        0 <= s < selects.len() && (#[trigger] selects[s]).0 == owner
                            && selects[s].1@.popup_root == Some(chain[at])
                    &&& forall|k: int|
                        from <= k < at ==> !belongs_to_select(selects, #[trigger] chain[k])
                },
            None => forall|k: int|
                from <= k < chain.len() ==> !belongs_to_select(selects, #[trigger] chain[k]),
        },
    decreases chain.len() - from,
{
    if from < chain.len() {
        let id = chain[from];
        lemma_root_owner(selects, id, 0);
        if !crate::registry::has_id(selects, id) && root_owner(selects, id, 0) is None {
            assert(!belongs_to_select(selects, id));
            nearest_select_owns_the_hit(selects, chain, from + 1);
        } else {
            assert(belongs_to_select(selects, chain[from]));
        }
    }
}

/// A point lies on the first option that is marked, and on none only where no option
/// with a node is.
pub proof fn first_marked_option(nodes: Seq<Option<usize>>, marks: Seq<bool>, from: int)
    requires
        0 <= from <= nodes.len(),
        nodes.len() == marks.len(),
    ensures
        match marked_option(nodes, marks, from) {
            Some(node) => exists|at: int|
                {
                    &&& from <= at < nodes.len()
                    &&& #[trigger] nodes[at] == Some(node)
                    &&& marks[at]
                    &&& forall|i: int| from <= i < at ==> !(#[trigger] nodes[i] is Some && marks[i])
                },
            None => forall|i: int|
                from <= i < nodes.len() ==> !(#[trigger] nodes[i] is Some && marks[i]),
        },
    decreases nodes.len() - from,
{
    if from < nodes.len() && !(nodes[from] is Some && marks[from]) {
        first_marked_option(nodes, marks, from + 1);
    }
}

/// A point lies on the first popup that it is marked for: on the option there, or on
/// the popup itself between its options. It lies on none only where no popup is
/// marked.
pub proof fn first_popup_is_hit(
    selects: Seq<(usize, SelectState)>,
    marks: Seq<PopupMarks>,
    from: int,
)
    requires
        0 <= from <= selects.len(),
        selects.len() == marks.len(),
    ensures
        match popup_under(selects, marks, from) {
            Some(node) => exists|at: int|
                {
                    &&& from <= at < selects.len()
                    &&& (#[trigger] selects[at]).1@.popup_root is Some && marks[at].root
                    &&& Some(node) == (match marked_option(
                        selects[at].1@.option_nodes,
                        marks[at].options@,
                        0,
                    ) {
                        Some(option) => Some(option),
                        None => selects[at].1@.popup_root,
                    })
                    &&& forall|i: int|
                        from <= i < at ==> !((#[trigger] selects[i]).1@.popup_root is Some
                            && marks[i].root)
                },
            None => forall|i: int|
                from <= i < selects.len() ==> !((#[trigger] selects[i]).1@.popup_root is Some
                    && marks[i].root),
        },
    decreases selects.len() - from,
{
    if from < selects.len() && !(selects[from].1@.popup_root is Some && marks[from].root) {
        first_popup_is_hit(selects, marks, from + 1);
    }
}

/// Every open select but the owner is among those to close, and nothing else is.
pub proof fn open_others_are_all(
    selects: Seq<(usize, SelectState)>,
    owner: Option<usize>,
    upto: int,
)
    requires
        0 <= upto <= selects.len(),
    ensures
        forall|i: int|
            0 <= i < upto && (#[trigger] selects[i]).1@.open && owner != Some(selects[i].0)
                ==> open_others(selects, owner, upto).contains(selects[i].0),
        forall|k: int|
            0 <= k < open_others(selects, owner, upto).len() ==> owner != Some(
                #[trigger] open_others(selects, owner, upto)[k],
            ) && exists|i: int|
                0 <= i < upto && (#[trigger] selects[i]).0 == open_others(selects, owner, upto)[k]
                    && selects[i].1@.open,
    decreases upto,
{
    if upto > 0 {
        open_others_are_all(selects, owner, upto - 1);
        let rest = open_others(selects, owner, upto - 1);
        let all = open_others(selects, owner, upto);
        assert forall|i: int|
            0 <= i < upto && (#[trigger] selects[i]).1@.open && owner != Some(
                selects[i].0,
            ) implies all.contains(selects[i].0) by {
            if i < upto - 1 {
                assert(rest.contains(selects[i].0));
                let k = rest.index_of(selects[i].0);
                assert(all[k] == selects[i].0);
            } else {
                assert(all[all.len() - 1] == selects[i].0);
            }
        }
        assert forall|k: int| 0 <= k < all.len() implies owner != Some(#[trigger] all[k])
            && exists|i: int|
            0 <= i < upto && (#[trigger] selects[i]).0 == all[k] && selects[i].1@.open by {
            if k < rest.len() {
                assert(all[k] == rest[k]);
            } else {
                assert(selects[upto - 1].0 == all[k]);
            }
        }
    }
}

/// A key that opens a select leaves it open with its popup to build, and one that
/// closes it leaves it closed, without a highlight, with its popup to remove. Any
/// other key leaves it open or closed as it was.
pub proof fn keys_open_and_close(
    m: crate::select::SelectModel,
    event: KeyboardEvent,
    now: Instant,
)
    ensures
        ({
            let (after, plan) = select_key_plan(m, event, now);
            let key = event.named();
            let opens = !m.open && (key is Space || key is Enter || (event.alt_key && (key
                is ArrowDown || key is Down)));
            let closes = m.open && (key is Enter || key is Space || key is Tab || key is Escape || (
            event.alt_key && (key is ArrowUp || key is Up)));
            &&& opens ==> after.open && plan.popup is Mount && plan.repaint && plan.edited
                && !plan.emits_change && after.selected == m.selected
            &&& closes ==> !after.open && plan.popup is Unmount && plan.repaint && after.active
                is None
            &&& !opens && !closes ==> after.open == m.open && plan.popup is Keep
            &&& after.options == m.options
        }),
{
}

/// What a key does to a select and reports of it is what the select does by itself. A
/// repaint is asked for where anything shows of it.
pub proof fn plans_follow_the_select(
    m: crate::select::SelectModel,
    event: KeyboardEvent,
    now: Instant,
)
    ensures
        ({
            let (after, plan) = select_key_plan(m, event, now);
            let (moved, outcome) = crate::popup::select_key_effect(m, event, now);
            &&& after.selected == moved.selected
            &&& plan.edited == outcome.edited
            &&& plan.emits_change == outcome.emits_change
            &&& plan.sync_highlights == outcome.sync_highlights
            &&& plan.edited || plan.sync_highlights || !(plan.popup is Keep) ==> plan.repaint
            &&& !plan.edited && !plan.sync_highlights && plan.popup is Keep ==> !plan.repaint
        }),
        ({
            let plan = no_plan();
            !plan.edited && !plan.emits_change && plan.popup is Keep && !plan.sync_highlights
                && !plan.repaint
        }),
{
}

} // verus!
