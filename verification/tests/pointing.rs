use solite::bridge::extract_event_name;
use solite::events::TouchPhase;
use solite::hit::{hit_visible_node_id, HitNode};
use solite::instance::{Instance, InstanceConfig};
use solite::scrollbar::{hit_scrollbar, BarMarks, Bars, Overflow, ScrollAxis, ScrollbarHit};
use solite::spinner::{hit_spinner, SpinnerHit, SpinnerMarks};
use solite::touch::{ActiveTouch, GestureAction, GestureMode};

fn boxed(id: usize, children: Vec<HitNode>) -> HitNode {
    HitNode { id, in_box: true, in_content: true, in_overflow: true, clips: false, children }
}

fn missed(id: usize, children: Vec<HitNode>) -> HitNode {
    HitNode { id, in_box: false, in_content: false, in_overflow: false, clips: false, children }
}

#[test]
fn topmost_child_is_hit() {
    let tree = boxed(1, vec![boxed(2, vec![]), boxed(3, vec![missed(4, vec![])])]);
    assert_eq!(hit_visible_node_id(&tree), Some(3));
}

#[test]
fn earlier_child_is_hit_when_later_ones_are_missed() {
    let tree = boxed(1, vec![boxed(2, vec![boxed(5, vec![])]), missed(3, vec![])]);
    assert_eq!(hit_visible_node_id(&tree), Some(5));
}

#[test]
fn overflowing_content_is_hit_outside_the_box() {
    let mut outer = missed(1, vec![boxed(2, vec![])]);
    assert_eq!(hit_visible_node_id(&outer), None);
    outer.in_overflow = true;
    assert_eq!(hit_visible_node_id(&outer), Some(2));
    outer.children = vec![missed(2, vec![])];
    assert_eq!(hit_visible_node_id(&outer), None);
}

#[test]
fn clipping_node_hides_what_lies_outside() {
    let mut outer = missed(1, vec![boxed(2, vec![])]);
    outer.in_content = true;
    outer.in_overflow = true;
    outer.clips = true;
    assert_eq!(hit_visible_node_id(&outer), None);
}

#[test]
fn bars_need_overflow_and_a_scrolling_axis() {
    let bars = Bars::needed(Overflow::Auto, Overflow::Hidden, true, true);
    assert!(bars.horizontal && !bars.vertical);
    assert!(bars.leaves_corner(ScrollAxis::Vertical));
    assert!(!bars.leaves_corner(ScrollAxis::Horizontal));
    let bars = Bars::needed(Overflow::Scroll, Overflow::Scroll, false, true);
    assert!(!bars.horizontal && bars.vertical);
    let bars = Bars::needed(Overflow::Visible, Overflow::Clip, true, true);
    assert!(!bars.horizontal && !bars.vertical);
}

#[test]
fn first_track_under_the_pointer_is_hit() {
    let off = BarMarks {
        axis: ScrollAxis::Vertical,
        on_track: false,
        beside_thumb: true,
        level_with_thumb: true,
    };
    let across = BarMarks { on_track: true, level_with_thumb: false, ..off };
    let along = BarMarks { on_track: true, ..off };
    assert_eq!(hit_scrollbar(&vec![off]), None);
    assert_eq!(hit_scrollbar(&vec![off, across, along]), Some(ScrollbarHit::Track(1)));
    assert_eq!(hit_scrollbar(&vec![off, along]), Some(ScrollbarHit::Thumb(1)));
    let flat = BarMarks { axis: ScrollAxis::Horizontal, ..across };
    assert_eq!(hit_scrollbar(&vec![flat]), Some(ScrollbarHit::Thumb(0)));
}

#[test]
fn spinner_buttons_are_told_apart() {
    let marks = |node_id, in_up, in_down| SpinnerMarks { node_id, in_up, in_down };
    assert_eq!(hit_spinner(&vec![]), None);
    assert_eq!(
        hit_spinner(&vec![marks(4, false, false), marks(5, false, true)]),
        Some(SpinnerHit::Down(5))
    );
    assert_eq!(hit_spinner(&vec![marks(4, true, false)]), Some(SpinnerHit::Up(4)));
}

#[test]
fn touches_are_classified_by_what_they_hit() {
    let config = InstanceConfig {
        width: 200,
        height: 80,
        stylesheets: vec![],
        document_scroll: false,
        base_url: None,
    };
    let mut instance = Instance::new(config, "file:///work/", 1).expect("valid base URL");
    instance.element_created(5, "input");
    instance.element_created(6, "select");
    let pan = GestureMode::Pan { node_id: 7 };
    assert_eq!(instance.classify_touch_start(Some(7), false, false), pan);
    assert_eq!(instance.classify_touch_start(Some(7), false, true), GestureMode::Control);
    assert_eq!(instance.classify_touch_start(Some(7), true, false), GestureMode::Control);
    assert_eq!(instance.classify_touch_start(Some(5), false, false), GestureMode::Control);
    assert_eq!(instance.classify_touch_start(Some(6), false, false), GestureMode::Control);
    assert_eq!(instance.classify_touch_start(None, false, false), GestureMode::Control);
}

#[test]
fn short_touch_on_content_is_a_tap() {
    let mut touch = ActiveTouch::new(1, GestureMode::Pan { node_id: 5 });
    assert_eq!(touch.action(TouchPhase::Started), GestureAction::Nothing);
    touch.record_move(false);
    assert!(!touch.panned());
    assert_eq!(touch.action(TouchPhase::Moved), GestureAction::Nothing);
    assert_eq!(touch.action(TouchPhase::Ended), GestureAction::Tap);
}

#[test]
fn stray_touch_on_content_pans_and_flings() {
    let mut touch = ActiveTouch::new(1, GestureMode::Pan { node_id: 5 });
    touch.record_move(true);
    touch.record_move(false);
    assert!(touch.panned());
    assert_eq!(touch.action(TouchPhase::Moved), GestureAction::Pan(5));
    assert_eq!(touch.action(TouchPhase::Ended), GestureAction::Fling(5));
}

#[test]
fn cancelled_touch_on_content_does_nothing() {
    let mut touch = ActiveTouch::new(1, GestureMode::Pan { node_id: 5 });
    assert_eq!(touch.action(TouchPhase::Cancelled), GestureAction::Nothing);
    touch.record_move(true);
    assert_eq!(touch.action(TouchPhase::Cancelled), GestureAction::Nothing);
}

#[test]
fn touch_on_a_control_acts_as_the_mouse() {
    let touch = ActiveTouch::new(9, GestureMode::Control);
    assert_eq!(touch.action(TouchPhase::Started), GestureAction::Press);
    assert_eq!(touch.action(TouchPhase::Moved), GestureAction::Move);
    assert_eq!(touch.action(TouchPhase::Ended), GestureAction::Release);
    assert_eq!(touch.action(TouchPhase::Cancelled), GestureAction::Release);
}

#[test]
fn event_names_fold_a_final_sigma() {
    assert_eq!(extract_event_name("on:\u{391}\u{3a3}").as_deref(), Some("\u{3b1}\u{3c2}"));
}
