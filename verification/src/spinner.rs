//! The up and down buttons of number inputs.
use vstd::prelude::*;

verus! {

/// How the pointer lies to the two buttons of a number input.
#[derive(Debug, Clone, Copy)]
pub struct SpinnerMarks {
    pub node_id: usize,
    pub in_up: bool,
    pub in_down: bool,
}

/// The button of a number input that was pressed.
#[derive(Debug, Clone, Copy, PartialEq, Eq, Structural)]
pub enum SpinnerHit {
    Up(usize),
    Down(usize),
}

/// The button under the pointer on one number input.
pub open spec fn button_hit(marks: SpinnerMarks) -> Option<SpinnerHit> {
    if marks.in_up {
        Some(SpinnerHit::Up(marks.node_id))
    } else if marks.in_down {
        Some(SpinnerHit::Down(marks.node_id))
    } else {
        None
    }
}

/// The first button under the pointer.
pub open spec fn first_button(spinners: Seq<SpinnerMarks>) -> Option<SpinnerHit>
    decreases spinners.len(),
{
    if spinners.len() == 0 {
        None
    } else {
        match button_hit(spinners[0]) {
            Some(hit) => Some(hit),
            None => first_button(spinners.skip(1)),
        }
    }
}

/// The first button under the pointer.
pub fn hit_spinner(spinners: &Vec<SpinnerMarks>) -> (hit: Option<SpinnerHit>)
    ensures
        hit == first_button(spinners@),
{
    let mut i: usize = 0;
    proof {
        assert(spinners@.skip(0) =~= spinners@);
    }
    while i < spinners.len()
        invariant
            i <= spinners@.len(),
            first_button(spinners@) == first_button(spinners@.skip(i as int)),
        decreases spinners@.len() - i,
    {
        proof {
            assert(spinners@.skip(i as int).skip(1) =~= spinners@.skip(i + 1));
        }
        if spinners[i].in_up {
            return Some(SpinnerHit::Up(spinners[i].node_id));
        }
        if spinners[i].in_down {
            return Some(SpinnerHit::Down(spinners[i].node_id));
        }
        i += 1;
    }
    None
}

/// The pointer hits the first number input that it is on a button of: the up button
/// before the down button. It hits none only where it is on no button.
pub proof fn first_button_is_hit(spinners: Seq<SpinnerMarks>) -> (at: int)
    ensures
        match first_button(spinners) {
            Some(hit) => {
                &&& 0 <= at < spinners.len()
                &&& spinners[at].in_up ==> hit == SpinnerHit::Up(spinners[at].node_id)
                &&& !spinners[at].in_up ==> spinners[at].in_down && hit == SpinnerHit::Down(
                    spinners[at].node_id,
                )
                &&& forall|i: int|
                    0 <= i < at ==> !(#[trigger] spinners[i]).in_up && !spinners[i].in_down
            },
            None => forall|i: int|
                0 <= i < spinners.len() ==> !(#[trigger] spinners[i]).in_up
                    && !spinners[i].in_down,
        },
    decreases spinners.len(),
{
    if spinners.len() == 0 {
        0
    } else if button_hit(spinners[0]) is Some {
        0
    } else {
        let rest = spinners.skip(1);
        let at = first_button_is_hit(rest);
        assert forall|i: int|
            0 <= i < spinners.len() && (i <= at || first_button(spinners) is None) && i
                > 0 implies (#[trigger] spinners[i]) == rest[i - 1] by {}
        if first_button(spinners) is Some {
            assert(spinners[at + 1] == rest[at]);
        }
        assert forall|i: int|
            0 <= i < spinners.len() && (first_button(spinners) is None || i < at + 1) implies !(
        #[trigger] spinners[i]).in_up && !spinners[i].in_down by {
            if i > 0 {
                assert(spinners[i] == rest[i - 1]);
            }
        }
        at + 1
    }
}

} // verus!
