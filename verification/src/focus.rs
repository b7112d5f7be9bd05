//! Sequential focus navigation (Tab / Shift+Tab) with `tabindex` support.
//!
//! 1. Enabled inputs, selects and textareas, visible enabled buttons and links
//!    with an `href` are focusable by default, in document order.
//! 2. `tabindex="0"` makes any element focusable in document order.
//! 3. A positive `tabindex` puts the element first: lower values first, ties
//!    in document order.
//! 4. A negative `tabindex` takes the element out of the order.
use crate::input::InputState;
use crate::inputs::index_of_id;
use crate::registry::Registry;
use crate::select::SelectState;
use crate::text::{parse_int, same, trim_spaces};
use vstd::prelude::*;

verus! {

/// What the focus order reads of an element.
#[derive(Debug)]
pub struct FocusElement {
    pub node_id: usize,
    /// Local tag name.
    pub tag: String,
    /// Value of the `tabindex` attribute.
    pub tabindex: Option<String>,
    pub has_disabled: bool,
    pub has_hidden: bool,
    pub has_href: bool,
    /// The element carries a stylesheet.
    pub is_stylesheet: bool,
}

/// Place of an element in sequential focus navigation.
#[derive(Debug, Clone, Copy, PartialEq, Eq, Structural)]
pub enum TabSlot {
    /// Not in the order.
    Absent,
    /// Skipped by Tab because of a negative `tabindex`.
    Skipped,
    /// In document order.
    Natural,
    /// Before the others; lower values first.
    Priority(i32),
}

/// Whether a registered input is there and enabled.
pub open spec fn enabled_input(inputs: Registry<InputState>, id: usize) -> bool {
    inputs.at(id) matches Some(state) && !state@.disabled
}

/// Whether a registered select is there and enabled.
pub open spec fn enabled_select(selects: Registry<SelectState>, id: usize) -> bool {
    selects.at(id) matches Some(state) && !state@.disabled
}

/// Whether an element takes focus without a `tabindex`.
pub open spec fn default_focusable(
    element: FocusElement,
    inputs: Registry<InputState>,
    selects: Registry<SelectState>,
) -> bool {
    if enabled_input(inputs, element.node_id) || enabled_select(selects, element.node_id) {
        true
    } else if element.tag@ == "button"@ {
        !element.has_disabled && !element.has_hidden
    } else if element.tag@ == "textarea"@ {
        !element.has_disabled
    } else {
        element.tag@ == "a"@ && element.has_href
    }
}

/// The number in a `tabindex` attribute.
pub open spec fn tab_value(element: FocusElement) -> Option<i32> {
    match element.tabindex {
        Some(text) => crate::text::int_number(crate::text::trimmed(text@)),
        None => None,
    }
}

/// The place of an element in the focus order.
pub open spec fn tab_slot(
    element: FocusElement,
    inputs: Registry<InputState>,
    selects: Registry<SelectState>,
) -> TabSlot {
    match tab_value(element) {
        Some(value) => if value < 0 {
            TabSlot::Skipped
        } else if value == 0 {
            TabSlot::Natural
        } else {
            TabSlot::Priority(value)
        },
        None => if default_focusable(element, inputs, selects) {
            TabSlot::Natural
        } else {
            TabSlot::Absent
        },
    }
}

/// Elements that exist in the tree but never take focus.
pub open spec fn special_invisible(element: FocusElement) -> bool {
    let tag = element.tag@;
    tag == "style"@ || tag == "script"@ || tag == "head"@ || tag == "title"@ || tag == "link"@
        || tag == "meta"@ || element.is_stylesheet
}

/// The rank by which an element is ordered, for elements that are in the
/// order: lower ranks first.
pub open spec fn tab_rank(
    element: FocusElement,
    inputs: Registry<InputState>,
    selects: Registry<SelectState>,
) -> Option<i64> {
    if special_invisible(element) {
        None
    } else {
        match tab_slot(element, inputs, selects) {
            TabSlot::Natural => Some(NATURAL_RANK),
            TabSlot::Priority(value) => Some(value as i64),
            _ => None,
        }
    }
}

/// Rank of elements in document order: behind every positive `tabindex`.
pub const NATURAL_RANK: i64 = 2_147_483_648;

/// Where an entry of rank `rank` goes: behind all entries of the same or a
/// lower rank.
pub open spec fn rank_place(entries: Seq<(i64, usize)>, rank: i64) -> int
    decreases entries.len(),
{
    if entries.len() == 0 {
        0
    } else if entries.last().0 <= rank {
        entries.len() as int
    } else {
        rank_place(entries.drop_last(), rank)
    }
}

/// The first `upto` elements that are in the order, by rank and then in
/// document order, with their ranks.
pub open spec fn ranked(
    elements: Seq<FocusElement>,
    inputs: Registry<InputState>,
    selects: Registry<SelectState>,
    upto: int,
) -> Seq<(i64, usize)>
    decreases upto,
{
    if upto <= 0 {
        Seq::empty()
    } else {
        let before = ranked(elements, inputs, selects, upto - 1);
        let element = elements[upto - 1];
        match tab_rank(element, inputs, selects) {
            Some(rank) => before.insert(rank_place(before, rank), (rank, element.node_id)),
            None => before,
        }
    }
}

/// The sequential focus order of a document.
pub open spec fn tab_order(
    elements: Seq<FocusElement>,
    inputs: Registry<InputState>,
    selects: Registry<SelectState>,
) -> Seq<usize> {
    ranked(elements, inputs, selects, elements.len() as int).map_values(
        |entry: (i64, usize)| entry.1,
    )
}

fn slot_of_element(
    element: &FocusElement,
    inputs: &Registry<InputState>,
    selects: &Registry<SelectState>,
) -> (slot: TabSlot)
    requires
        inputs.wf(),
        selects.wf(),
    ensures
        slot == tab_slot(*element, *inputs, *selects),
{
    let value = match &element.tabindex {
        Some(text) => parse_int(trim_spaces(text.as_str())),
        None => None,
    };
    match value {
        Some(number) => if number < 0 {
            TabSlot::Skipped
        } else if number == 0 {
            TabSlot::Natural
        } else {
            TabSlot::Priority(number)
        },
        None => {
            let input = match inputs.get(element.node_id) {
                Some(state) => !state.disabled(),
                None => false,
            };
            let select = match selects.get(element.node_id) {
                Some(state) => !state.disabled(),
                None => false,
            };
            let tag = element.tag.as_str();
            let focusable = if input || select {
                true
            } else if same(tag, "button") {
                !element.has_disabled && !element.has_hidden
            } else if same(tag, "textarea") {
                !element.has_disabled
            } else {
                same(tag, "a") && element.has_href
            };
            if focusable {
                TabSlot::Natural
            } else {
                TabSlot::Absent
            }
        },
    }
}

fn is_special_invisible(element: &FocusElement) -> (invisible: bool)
    ensures
        invisible == special_invisible(*element),
{
    let tag = element.tag.as_str();
    same(tag, "style") || same(tag, "script") || same(tag, "head") || same(tag, "title") || same(
        tag,
        "link",
    ) || same(tag, "meta") || element.is_stylesheet
}

fn find_place(entries: &Vec<(i64, usize)>, rank: i64) -> (place: usize)
    ensures
        place == rank_place(entries@, rank),
        place <= entries@.len(),
{
    let mut i: usize = entries.len();
    proof {
        assert(entries@.take(i as int) =~= entries@);
    }
    while i > 0 && entries[i - 1].0 > rank
        invariant
            i <= entries@.len(),
            rank_place(entries@, rank) == rank_place(entries@.take(i as int), rank),
        decreases i,
    {
        proof {
            assert(entries@.take(i as int).drop_last() =~= entries@.take(i - 1));
        }
        i -= 1;
    }
    proof {
        if i > 0 {
            assert(entries@.take(i as int).last() == entries@[i - 1]);
        }
    }
    i
}

/// Collects the sequential focus order. `elements` lists the elements of the
/// document in document order.
pub fn collect_tab_order(
    elements: &Vec<FocusElement>,
    inputs: &Registry<InputState>,
    selects: &Registry<SelectState>,
) -> (order: Vec<usize>)
    requires
        inputs.wf(),
        selects.wf(),
    ensures
        order@ == tab_order(elements@, *inputs, *selects),
{
    let mut entries: Vec<(i64, usize)> = Vec::new();
    let mut i: usize = 0;
    while i < elements.len()
        invariant
            inputs.wf(),
            selects.wf(),
            i <= elements@.len(),
            entries@ == ranked(elements@, *inputs, *selects, i as int),
        decreases elements@.len() - i,
    {
        let element = &elements[i];
        if !is_special_invisible(element) {
            let rank = match slot_of_element(element, inputs, selects) {
                TabSlot::Natural => Some(NATURAL_RANK),
                TabSlot::Priority(value) => Some(value as i64),
                _ => None,
            };
            if let Some(rank) = rank {
                let place: usize = find_place(&entries, rank);
                entries.insert(place, (rank, element.node_id));
            }
        }
        i += 1;
    }
    let mut order: Vec<usize> = Vec::new();
    let mut k: usize = 0;
    while k < entries.len()
        invariant
            k <= entries@.len(),
            order@.len() == k,
            forall|j: int| 0 <= j < k ==> #[trigger] order@[j] == entries@[j].1,
        decreases entries@.len() - k,
    {
        order.push(entries[k].1);
        k += 1;
    }
    proof {
        assert(order@ =~= tab_order(elements@, *inputs, *selects));
    }
    order
}

/// The control that Tab, or Shift+Tab, moves the focus to.
pub open spec fn adjacent(order: Seq<usize>, focused: Option<usize>, backwards: bool) -> Option<
    usize,
> {
    if order.len() == 0 {
        None
    } else {
        let current = match focused {
            Some(id) => crate::inputs::index_from(order, id, 0),
            None => None,
        };
        Some(
            match current {
                Some(at) => if backwards {
                    order[(at + order.len() - 1) % (order.len() as int)]
                } else {
                    order[(at + 1) % (order.len() as int)]
                },
                None => if backwards {
                    order.last()
                } else {
                    order[0]
                },
            },
        )
    }
}

/// The control that Tab moves the focus to from `focused`, with wrap-around;
/// `backwards` is Shift+Tab. Without a focused control in the order, the
/// first or the last one is taken.
pub fn focus_adjacent_control(order: &Vec<usize>, focused: Option<usize>, backwards: bool) -> (next:
    Option<usize>)
    ensures
        next == adjacent(order@, focused, backwards),
{
    let len: usize = order.len();
    if len == 0 {
        return None;
    }
    let current = match focused {
        Some(id) => index_of_id(order, id),
        None => None,
    };
    let next: usize = match current {
        Some(at) => {
            proof {
                let n = len as int;
                vstd::arithmetic::div_mod::lemma_mod_self_0(n);
                vstd::arithmetic::div_mod::lemma_mod_multiples_vanish(1, at - 1, n);
                if at > 0 {
                    vstd::arithmetic::div_mod::lemma_small_mod((at - 1) as nat, n as nat);
                } else {
                    vstd::arithmetic::div_mod::lemma_small_mod((n - 1) as nat, n as nat);
                }
                if at + 1 < n {
                    vstd::arithmetic::div_mod::lemma_small_mod((at + 1) as nat, n as nat);
                }
            }
            if backwards {
                if at == 0 {
                    len - 1
                } else {
                    at - 1
                }
            } else if at == len - 1 {
                0
            } else {
                at + 1
            }
        },
        None => if backwards {
            len - 1
        } else {
            0
        },
    };
    Some(order[next])
}

/// Whether ranks never fall.
pub open spec fn by_rank(entries: Seq<(i64, usize)>) -> bool {
    forall|i: int, j: int|
        0 <= i < j < entries.len() ==> (#[trigger] entries[i]).0 <= (#[trigger] entries[j]).0
}

proof fn lemma_place(entries: Seq<(i64, usize)>, rank: i64)
    requires
        by_rank(entries),
    ensures
        ({
            let place = rank_place(entries, rank);
            &&& 0 <= place <= entries.len()
            &&& forall|i: int| 0 <= i < place ==> (#[trigger] entries[i]).0 <= rank
            &&& forall|i: int| place <= i < entries.len() ==> (#[trigger] entries[i]).0 > rank
        }),
    decreases entries.len(),
{
    if entries.len() > 0 && entries.last().0 > rank {
        let rest = entries.drop_last();
        lemma_place(rest, rank);
        let place = rank_place(rest, rank);
        assert forall|i: int| 0 <= i < place implies (#[trigger] entries[i]).0 <= rank by {
            assert(rest[i] == entries[i]);
        }
        assert forall|i: int| place <= i < entries.len() implies (#[trigger] entries[i]).0
            > rank by {
            if i < rest.len() {
                assert(rest[i] == entries[i]);
            }
        }
    }
}

/// Tab visits positive `tabindex` values first, in ascending order, and then
/// the elements in document order.
pub proof fn tab_order_follows_rank(
    elements: Seq<FocusElement>,
    inputs: Registry<InputState>,
    selects: Registry<SelectState>,
    upto: int,
)
    requires
        0 <= upto <= elements.len(),
    ensures
        by_rank(ranked(elements, inputs, selects, upto)),
    decreases upto,
{
    if upto > 0 {
        tab_order_follows_rank(elements, inputs, selects, upto - 1);
        let before = ranked(elements, inputs, selects, upto - 1);
        let element = elements[upto - 1];
        if let Some(rank) = tab_rank(element, inputs, selects) {
            lemma_place(before, rank);
            let place = rank_place(before, rank);
            let after = before.insert(place, (rank, element.node_id));
            assert forall|i: int, j: int| 0 <= i < j < after.len() implies (
            #[trigger] after[i]).0 <= (#[trigger] after[j]).0 by {
                let a = if i < place { i } else { i - 1 };
                let b = if j < place { j } else { j - 1 };
                if i != place && j != place {
                    assert(after[i] == before[a] && after[j] == before[b]);
                } else if i == place {
                    assert(after[j] == before[b]);
                } else {
                    assert(after[i] == before[a]);
                }
            }
        }
    }
}

/// An element is in the order exactly when it has a rank.
pub proof fn tab_order_is_complete(
    elements: Seq<FocusElement>,
    inputs: Registry<InputState>,
    selects: Registry<SelectState>,
    upto: int,
    id: usize,
)
    requires
        0 <= upto <= elements.len(),
    ensures
        (exists|k: int|
            0 <= k < ranked(elements, inputs, selects, upto).len() && (#[trigger] ranked(
                elements,
                inputs,
                selects,
                upto,
            )[k]).1 == id) <==> (exists|i: int|
            0 <= i < upto && (#[trigger] elements[i]).node_id == id && tab_rank(
                elements[i],
                inputs,
                selects,
            ) is Some),
    decreases upto,
{
    if upto > 0 {
        tab_order_is_complete(elements, inputs, selects, upto - 1, id);
        tab_order_follows_rank(elements, inputs, selects, upto - 1);
        let before = ranked(elements, inputs, selects, upto - 1);
        let after = ranked(elements, inputs, selects, upto);
        let element = elements[upto - 1];
        if let Some(rank) = tab_rank(element, inputs, selects) {
            lemma_place(before, rank);
            let place = rank_place(before, rank);
            assert(after[place] == (rank, element.node_id));
            if exists|k: int| 0 <= k < before.len() && (#[trigger] before[k]).1 == id {
                let k = choose|k: int| 0 <= k < before.len() && (#[trigger] before[k]).1 == id;
                let moved = if k < place { k } else { k + 1 };
                assert(after[moved].1 == id);
            }
            if exists|k: int| 0 <= k < after.len() && (#[trigger] after[k]).1 == id {
                let k = choose|k: int| 0 <= k < after.len() && (#[trigger] after[k]).1 == id;
                if k != place {
                    let back = if k < place { k } else { k - 1 };
                    assert(before[back].1 == id);
                }
            }
        }
    }
}

proof fn lemma_listed(
    elements: Seq<FocusElement>,
    inputs: Registry<InputState>,
    selects: Registry<SelectState>,
    upto: int,
    i: int,
) -> (at: int)
    requires
        0 <= i < upto <= elements.len(),
        tab_rank(elements[i], inputs, selects) is Some,
    ensures
        0 <= at < ranked(elements, inputs, selects, upto).len(),
        ranked(elements, inputs, selects, upto)[at] == (
            tab_rank(elements[i], inputs, selects)->0,
            elements[i].node_id,
        ),
    decreases upto,
{
    let before = ranked(elements, inputs, selects, upto - 1);
    let element = elements[upto - 1];
    tab_order_follows_rank(elements, inputs, selects, upto - 1);
    if let Some(rank) = tab_rank(element, inputs, selects) {
        lemma_place(before, rank);
    }
    if i == upto - 1 {
        rank_place(before, tab_rank(element, inputs, selects)->0)
    } else {
        let at = lemma_listed(elements, inputs, selects, upto - 1, i);
        match tab_rank(element, inputs, selects) {
            Some(rank) => if at < rank_place(before, rank) {
                at
            } else {
                at + 1
            },
            None => at,
        }
    }
}

/// Elements of the same rank are visited in document order.
pub proof fn ties_keep_document_order(
    elements: Seq<FocusElement>,
    inputs: Registry<InputState>,
    selects: Registry<SelectState>,
    upto: int,
    i: int,
    j: int,
) -> (places: (int, int))
    requires
        0 <= i < j < upto <= elements.len(),
        tab_rank(elements[i], inputs, selects) is Some,
        tab_rank(elements[i], inputs, selects) == tab_rank(elements[j], inputs, selects),
    ensures
        0 <= places.0 < places.1 < ranked(elements, inputs, selects, upto).len(),
        ranked(elements, inputs, selects, upto)[places.0].1 == elements[i].node_id,
        ranked(elements, inputs, selects, upto)[places.1].1 == elements[j].node_id,
    decreases upto,
{
    let before = ranked(elements, inputs, selects, upto - 1);
    let element = elements[upto - 1];
    tab_order_follows_rank(elements, inputs, selects, upto - 1);
    if let Some(rank) = tab_rank(element, inputs, selects) {
        lemma_place(before, rank);
    }
    if j == upto - 1 {
        let rank = tab_rank(element, inputs, selects)->0;
        let at = lemma_listed(elements, inputs, selects, upto - 1, i);
        (at, rank_place(before, rank))
    } else {
        let (a, b) = ties_keep_document_order(elements, inputs, selects, upto - 1, i, j);
        match tab_rank(element, inputs, selects) {
            Some(rank) => {
                let place = rank_place(before, rank);
                (
                    if a < place {
                        a
                    } else {
                        a + 1
                    },
                    if b < place {
                        b
                    } else {
                        b + 1
                    },
                )
            },
            None => (a, b),
        }
    }
}

/// Shift+Tab takes back a Tab from a control in the order, when no control
/// occurs in it twice.
pub proof fn tab_and_back(order: Seq<usize>, focused: usize)
    requires
        order.no_duplicates(),
        order.contains(focused),
    ensures
        adjacent(order, adjacent(order, Some(focused), false), true) == Some(focused),
        adjacent(order, adjacent(order, Some(focused), true), false) == Some(focused),
{
    let n = order.len() as int;
    crate::inputs::lemma_index_from(order, focused, 0);
    let at = crate::inputs::index_from(order, focused, 0)->0;
    let next = (at + 1) % n;
    let prev = (at + n - 1) % n;
    vstd::arithmetic::div_mod::lemma_mod_self_0(n);
    vstd::arithmetic::div_mod::lemma_small_mod(at as nat, n as nat);
    vstd::arithmetic::div_mod::lemma_small_mod((n - 1) as nat, n as nat);
    vstd::arithmetic::div_mod::lemma_mod_multiples_vanish(1, at, n);
    vstd::arithmetic::div_mod::lemma_mod_multiples_vanish(1, at - 1, n);
    if at + 1 < n {
        vstd::arithmetic::div_mod::lemma_small_mod((at + 1) as nat, n as nat);
    }
    if at > 0 {
        vstd::arithmetic::div_mod::lemma_small_mod((at - 1) as nat, n as nat);
    }
    assert(0 <= next < n && 0 <= prev < n);
    assert(order[next] == order[next] && order[prev] == order[prev]);
    crate::inputs::lemma_index_from(order, order[next], 0);
    crate::inputs::lemma_index_from(order, order[prev], 0);
}

/// Whether an element can be in the focus order at all.
pub open spec fn visible_element(element: FocusElement) -> bool {
    &&& element.tag@ != "style"@
    &&& element.tag@ != "script"@
    &&& element.tag@ != "head"@
    &&& element.tag@ != "title"@
    &&& element.tag@ != "link"@
    &&& element.tag@ != "meta"@
    &&& !element.is_stylesheet
}

/// Whether the document lists the element at `i` for Tab, with the given rank.
pub open spec fn listed_with(
    elements: Seq<FocusElement>,
    inputs: Registry<InputState>,
    selects: Registry<SelectState>,
    i: int,
    rank: int,
) -> bool {
    exists|at: int|
        {
            &&& 0 <= at < tab_order(elements, inputs, selects).len()
            &&& tab_order(elements, inputs, selects)[at] == elements[i].node_id
            &&& (#[trigger] ranked(elements, inputs, selects, elements.len() as int)[at]).0 == rank
            &&& ranked(elements, inputs, selects, elements.len() as int)[at].1
                == elements[i].node_id
        }
}

/// Every visible element whose `tabindex` reads as a number that is not negative is
/// in the focus order: with that number as its rank where it is positive, and in
/// document order, behind all positive ones, where it is zero. One whose `tabindex`
/// is negative is not in it.
pub proof fn tabindex_decides(
    elements: Seq<FocusElement>,
    inputs: Registry<InputState>,
    selects: Registry<SelectState>,
    i: int,
    value: i32,
)
    requires
        0 <= i < elements.len(),
        elements[i].tabindex matches Some(text) && crate::text::int_number(
            crate::text::trimmed(text@),
        ) == Some(value),
        visible_element(elements[i]),
    ensures
        value == 0 ==> listed_with(elements, inputs, selects, i, i32::MAX + 1),
        value > 0 ==> listed_with(elements, inputs, selects, i, value as int),
        value < 0 && (forall|j: int|
            0 <= j < elements.len() && j != i ==> (#[trigger] elements[j]).node_id
                != elements[i].node_id) ==> !tab_order(elements, inputs, selects).contains(
            elements[i].node_id,
        ),
{
    lemma_place_in_order(elements, inputs, selects, i);
}

/// Without a `tabindex` that reads as a number, an enabled input or select, a button
/// that is neither disabled nor hidden, a textarea that is not disabled and a link
/// with an `href` are in the focus order, in document order. Nothing else is.
pub proof fn controls_take_focus(
    elements: Seq<FocusElement>,
    inputs: Registry<InputState>,
    selects: Registry<SelectState>,
    i: int,
)
    requires
        0 <= i < elements.len(),
        elements[i].tabindex matches Some(text) ==> crate::text::int_number(
            crate::text::trimmed(text@),
        ) is None,
        visible_element(elements[i]),
    ensures
        ({
            let element = elements[i];
            let control = (inputs.at(element.node_id) matches Some(state) && !state@.disabled) || (
            selects.at(element.node_id) matches Some(state) && !state@.disabled);
            let marked = (element.tag@ == "button"@ && !element.has_disabled && !element.has_hidden)
                || (element.tag@ == "textarea"@ && !element.has_disabled) || (element.tag@ == "a"@
                && element.has_href);
            let alone = forall|j: int|
                0 <= j < elements.len() && j != i ==> (#[trigger] elements[j]).node_id
                    != element.node_id;
            &&& control || marked ==> listed_with(elements, inputs, selects, i, i32::MAX + 1)
            &&& !control && !marked && alone ==> !tab_order(elements, inputs, selects).contains(
                element.node_id,
            )
        }),
{
    reveal_strlit("button");
    reveal_strlit("textarea");
    reveal_strlit("a");
    assert("button"@.len() == 6 && "textarea"@.len() == 8 && "a"@.len() == 1);
    assert(tab_value(elements[i]) is None);
    assert(!special_invisible(elements[i]));
    lemma_place_in_order(elements, inputs, selects, i);
}

/// Elements that are never shown are not in the focus order, whatever their
/// `tabindex`.
pub proof fn hidden_elements_take_no_focus(
    elements: Seq<FocusElement>,
    inputs: Registry<InputState>,
    selects: Registry<SelectState>,
    i: int,
)
    requires
        0 <= i < elements.len(),
        !visible_element(elements[i]),
        forall|j: int|
            0 <= j < elements.len() && j != i ==> (#[trigger] elements[j]).node_id
                != elements[i].node_id,
    ensures
        !tab_order(elements, inputs, selects).contains(elements[i].node_id),
{
    lemma_place_in_order(elements, inputs, selects, i);
}

proof fn lemma_place_in_order(
    elements: Seq<FocusElement>,
    inputs: Registry<InputState>,
    selects: Registry<SelectState>,
    i: int,
)
    requires
        0 <= i < elements.len(),
    ensures
        match tab_rank(elements[i], inputs, selects) {
            Some(rank) => listed_with(elements, inputs, selects, i, rank as int),
            None => (forall|j: int|
                0 <= j < elements.len() && j != i ==> (#[trigger] elements[j]).node_id
                    != elements[i].node_id) ==> !tab_order(elements, inputs, selects).contains(
                elements[i].node_id,
            ),
        },
{
    let len = elements.len() as int;
    let id = elements[i].node_id;
    let entries = ranked(elements, inputs, selects, len);
    let order = tab_order(elements, inputs, selects);
    match tab_rank(elements[i], inputs, selects) {
        Some(rank) => {
            let at = lemma_listed(elements, inputs, selects, len, i);
            assert(entries[at].0 == rank);
            assert(order[at] == id);
        },
        None => {
            tab_order_is_complete(elements, inputs, selects, len, id);
            if order.contains(id) {
                let k = order.index_of(id);
                assert(entries[k].1 == id);
            }
        },
    }
}

/// Tab goes to the control behind the focused one and from the last one to the
/// first, Shift+Tab to the one before it and from the first one to the last. Where
/// the focused control is not in the order, Tab goes to the first and Shift+Tab to
/// the last.
pub proof fn tab_goes_to_the_neighbour(order: Seq<usize>, focused: Option<usize>, at: int)
    requires
        0 <= at < order.len() <= usize::MAX,
    ensures
        focused == Some(order[at]) && (forall|k: int| 0 <= k < at ==> order[k] != order[at]) ==> {
            &&& adjacent(order, focused, false) == Some(
                if at + 1 < order.len() {
                    order[at + 1]
                } else {
                    order[0]
                },
            )
            &&& adjacent(order, focused, true) == Some(
                if at > 0 {
                    order[at - 1]
                } else {
                    order[order.len() - 1]
                },
            )
        },
        (focused matches Some(id) ==> !order.contains(id)) ==> adjacent(order, focused, false)
            == Some(order[0]) && adjacent(order, focused, true) == Some(order[order.len() - 1]),
{
    let n = order.len() as int;
    if let Some(id) = focused {
        crate::inputs::first_place_of_id(order, id, 0);
        if let Some(found) = crate::inputs::index_from(order, id, 0) {
            assert(order.contains(id));
            if order[at] == id && (forall|k: int| 0 <= k < at ==> order[k] != order[at]) {
                assert(found == at);
            }
        }
        if at + 1 < n {
            vstd::arithmetic::div_mod::lemma_small_mod((at + 1) as nat, n as nat);
        } else {
            vstd::arithmetic::div_mod::lemma_mod_self_0(n);
        }
        if at > 0 {
            vstd::arithmetic::div_mod::lemma_mod_multiples_vanish(1, at - 1, n);
            vstd::arithmetic::div_mod::lemma_small_mod((at - 1) as nat, n as nat);
        } else {
            vstd::arithmetic::div_mod::lemma_small_mod((n - 1) as nat, n as nat);
        }
    }
}

/// Without controls there is nothing for Tab to go to.
pub proof fn tab_without_controls(focused: Option<usize>, backwards: bool)
    ensures
        adjacent(Seq::empty(), focused, backwards) is None,
{
}

} // verus!
