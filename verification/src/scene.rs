//! Routing window input to one of several surfaces.
use crate::events::{MouseAction, MouseButton};
use vstd::prelude::*;

verus! {

/// Stable identifier of a mounted surface.
#[derive(Debug, Clone, Copy, PartialEq, Eq, Hash, Structural)]
pub struct SurfaceId(usize);

impl View for SurfaceId {
    type V = usize;

    closed spec fn view(&self) -> usize {
        self.0
    }
}

impl SurfaceId {
    /// The number of the surface.
    pub fn index(self) -> (index: usize)
        ensures
            index == self@,
    {
        self.0
    }
}

/// A surface with what the host keeps for it.
#[derive(Debug)]
pub struct SceneSurface<T> {
    pub id: SurfaceId,
    pub data: T,
}

/// The surfaces that the pointer and the keyboard belong to.
#[derive(Debug, Clone, Copy, PartialEq, Eq, Structural)]
pub struct SceneState {
    pub hovered: Option<SurfaceId>,
    pub focused: Option<SurfaceId>,
    pub pressed: Option<SurfaceId>,
}

/// No surface is hovered, focused or pressed.
pub open spec fn untouched() -> SceneState {
    SceneState { hovered: None, focused: None, pressed: None }
}

/// Where a mouse event goes.
#[derive(Debug, Clone, Copy, PartialEq, Eq, Structural)]
pub struct Route {
    /// The surface that gets the event as one outside of it, before the
    /// target gets it.
    pub outside: Option<SurfaceId>,
    /// The surface that gets the event.
    pub target: Option<SurfaceId>,
}

/// Where a mouse event over the surface `hit` goes, and the state after it.
///
/// A surface that the pointer leaves, or that loses the focus to a left press
/// elsewhere, is told. A release goes to the surface that was pressed.
pub open spec fn routed(state: SceneState, action: MouseAction, hit: Option<SurfaceId>) -> (
    SceneState,
    Route,
) {
    match action {
        MouseAction::Move => (
            SceneState { hovered: hit, ..state },
            Route {
                outside: if state.hovered != hit {
                    state.hovered
                } else {
                    None
                },
                target: hit,
            },
        ),
        MouseAction::Down(button) => {
            let refocuses = button is Left && state.focused != hit;
            (
                SceneState {
                    pressed: hit,
                    focused: if refocuses {
                        hit
                    } else {
                        state.focused
                    },
                    ..state
                },
                Route {
                    outside: if refocuses {
                        state.focused
                    } else {
                        None
                    },
                    target: hit,
                },
            )
        },
        MouseAction::Up(_) => (
            SceneState { pressed: None, ..state },
            Route {
                outside: None,
                target: if state.pressed is Some {
                    state.pressed
                } else {
                    hit
                },
            },
        ),
        MouseAction::Wheel => (state, Route { outside: None, target: hit }),
    }
}

/// Router of window input over several surfaces: owns the hovered, focused and
/// pressed surface.
#[derive(Debug)]
pub struct Scene<T> {
    surfaces: Vec<SceneSurface<T>>,
    state: SceneState,
    next_id: usize,
}

/// What a [`Scene`] holds.
#[verifier::ext_equal]
pub struct SceneModel<T> {
    /// What the host keeps for each surface, by its number.
    pub surfaces: Seq<T>,
    pub state: SceneState,
}

/// What the host keeps for each surface.
pub open spec fn kept<T>(surfaces: Seq<SceneSurface<T>>) -> Seq<T> {
    surfaces.map_values(|surface: SceneSurface<T>| surface.data)
}

/// Whether the surfaces are numbered in order.
pub open spec fn numbered<T>(surfaces: Seq<SceneSurface<T>>) -> bool {
    forall|i: int| 0 <= i < surfaces.len() ==> (#[trigger] surfaces[i]).id@ == i
}

impl<T> View for Scene<T> {
    type V = SceneModel<T>;

    closed spec fn view(&self) -> SceneModel<T> {
        SceneModel {
            surfaces: kept(self.surfaces@),
            state: self.state,
        }
    }
}

fn same_surface(a: Option<SurfaceId>, b: Option<SurfaceId>) -> (equal: bool)
    ensures
        equal == (a == b),
{
    match (a, b) {
        (Some(a), Some(b)) => a == b,
        (None, None) => true,
        _ => false,
    }
}

/// The first surface at or after `from` that is marked.
pub open spec fn first_marked(inside: Seq<bool>, from: int) -> Option<int>
    decreases inside.len() - from,
{
    if from < 0 || from >= inside.len() {
        None
    } else if inside[from] {
        Some(from)
    } else {
        first_marked(inside, from + 1)
    }
}

impl<T> Scene<T> {
    /// Whether the surfaces are numbered in the order they were added.
    pub closed spec fn wf(&self) -> bool {
        &&& self.next_id == self.surfaces@.len()
        &&& forall|i: int|
            0 <= i < self.surfaces@.len() ==> (#[trigger] self.surfaces@[i]).id == SurfaceId(
                i as usize,
            )
    }

    /// A scene without surfaces.
    pub fn new() -> (scene: Self)
        ensures
            scene.wf(),
            scene@ == (SceneModel::<T> { surfaces: Seq::empty(), state: untouched() }),
    {
        let scene = Scene {
            surfaces: Vec::new(),
            state: SceneState { hovered: None, focused: None, pressed: None },
            next_id: 0,
        };
        proof {
            assert(scene@.surfaces =~= Seq::<T>::empty());
        }
        scene
    }

    /// Mounts a surface on top of none: earlier surfaces win where they
    /// overlap.
    pub fn add_surface(&mut self, data: T) -> (id: SurfaceId)
        requires
            old(self).wf(),
            old(self)@.surfaces.len() < usize::MAX,
        ensures
            final(self).wf(),
            id@ == old(self)@.surfaces.len(),
            final(self)@ == (SceneModel {
                surfaces: old(self)@.surfaces.push(data),
                ..old(self)@
            }),
    {
        let id = SurfaceId(self.next_id);
        self.next_id += 1;
        self.surfaces.push(SceneSurface { id, data });
        proof {
            assert(self@.surfaces =~= old(self)@.surfaces.push(data));
        }
        id
    }

    /// Drops every surface and forgets the pointer and the focus.
    pub fn clear(&mut self)
        ensures
            final(self).wf(),
            final(self)@ == (SceneModel::<T> { surfaces: Seq::empty(), state: untouched() }),
    {
        self.surfaces = Vec::new();
        self.state = SceneState { hovered: None, focused: None, pressed: None };
        self.next_id = 0;
        proof {
            assert(self@.surfaces =~= Seq::<T>::empty());
        }
    }

    /// How many surfaces are mounted.
    pub fn len(&self) -> (count: usize)
        ensures
            count == self@.surfaces.len(),
    {
        self.surfaces.len()
    }

    /// Whether no surface is mounted.
    pub fn is_empty(&self) -> (empty: bool)
        ensures
            empty == (self@.surfaces.len() == 0),
    {
        self.surfaces.len() == 0
    }

    /// The surfaces, in the order they were added.
    pub fn surfaces(&self) -> (surfaces: &Vec<SceneSurface<T>>)
        ensures
            kept(surfaces@) == self@.surfaces,
            self.wf() ==> numbered(surfaces@),
    {
        &self.surfaces
    }

    /// The surfaces, in the order they were added, for updates in place. The
    /// scene stays valid as long as no surface is renumbered or moved.
    pub fn surfaces_mut(&mut self) -> (surfaces: &mut [SceneSurface<T>])
        ensures
            kept(surfaces@) == old(self)@.surfaces,
            old(self).wf() ==> numbered(surfaces@),
            final(self)@ == (SceneModel { surfaces: kept(final(surfaces)@), ..old(self)@ }),
            old(self).wf() && numbered(final(surfaces)@) && final(surfaces)@.len()
                == old(self)@.surfaces.len() ==> final(self).wf(),
    {
        self.surfaces.as_mut_slice()
    }

    /// What the host keeps for the surface number `index`.
    pub fn surface_mut(&mut self, index: usize) -> (data: &mut T)
        requires
            index < old(self)@.surfaces.len(),
        ensures
            *data == old(self)@.surfaces[index as int],
            final(self)@ == (SceneModel {
                surfaces: old(self)@.surfaces.update(index as int, *final(data)),
                ..old(self)@
            }),
            old(self).wf() ==> final(self).wf(),
    {
        proof {
            let id = self.surfaces@[index as int].id;
            assert forall|data: T|
                kept(
                    #[trigger] self.surfaces@.update(index as int, SceneSurface { id, data }),
                ) == kept(self.surfaces@).update(index as int, data) by {
                assert(kept(self.surfaces@.update(index as int, SceneSurface { id, data }))
                    =~= kept(self.surfaces@).update(index as int, data));
            }
        }
        &mut self.surfaces[index].data
    }

    /// The surface under the pointer.
    pub fn hovered_surface(&self) -> (id: Option<SurfaceId>)
        ensures
            id == self@.state.hovered,
    {
        self.state.hovered
    }

    /// The surface that gets the keys.
    pub fn focused_surface(&self) -> (id: Option<SurfaceId>)
        ensures
            id == self@.state.focused,
    {
        self.state.focused
    }

    /// The surface that was pressed.
    pub fn pressed_surface(&self) -> (id: Option<SurfaceId>)
        ensures
            id == self@.state.pressed,
    {
        self.state.pressed
    }

    /// The first surface that contains a point. `inside` tells for each
    /// surface whether it does.
    pub fn surface_at(&self, inside: &Vec<bool>) -> (id: Option<SurfaceId>)
        requires
            self.wf(),
            inside@.len() == self@.surfaces.len(),
        ensures
            match first_marked(inside@, 0) {
                Some(at) => id matches Some(id) && id@ == at,
                None => id is None,
            },
    {
        let mut i: usize = 0;
        while i < inside.len()
            invariant
                self.wf(),
                inside@.len() == self@.surfaces.len(),
                i <= inside@.len(),
                first_marked(inside@, 0) == first_marked(inside@, i as int),
            decreases inside@.len() - i,
        {
            if inside[i] {
                return Some(self.surfaces[i].id);
            }
            i += 1;
        }
        None
    }

    /// The position of a surface among those mounted.
    pub fn surface_index(&self, id: SurfaceId) -> (index: Option<usize>)
        requires
            self.wf(),
        ensures
            index == (if id@ < self@.surfaces.len() {
                Some(id@)
            } else {
                None
            }),
    {
        let mut i: usize = 0;
        while i < self.surfaces.len()
            invariant
                self.wf(),
                i <= self.surfaces@.len(),
                i <= id.0,
            decreases self.surfaces@.len() - i,
        {
            if self.surfaces[i].id == id {
                return Some(i);
            }
            i += 1;
        }
        None
    }

    /// Routes a mouse event over the surface `hit`.
    pub fn dispatch_mouse(&mut self, action: MouseAction, hit: Option<SurfaceId>) -> (route: Route)
        requires
            old(self).wf(),
        ensures
            final(self).wf(),
            (final(self)@.state, route) == routed(old(self)@.state, action, hit),
            final(self)@.surfaces == old(self)@.surfaces,
    {
        match action {
            MouseAction::Move => {
                let outside = if same_surface(self.state.hovered, hit) {
                    None
                } else {
                    self.state.hovered
                };
                self.state.hovered = hit;
                Route { outside, target: hit }
            },
            MouseAction::Down(button) => {
                self.state.pressed = hit;
                let mut outside: Option<SurfaceId> = None;
                if matches!(button, MouseButton::Left) && !same_surface(self.state.focused, hit) {
                    outside = self.state.focused;
                    self.state.focused = hit;
                }
                Route { outside, target: hit }
            },
            MouseAction::Up(_) => {
                let target = match self.state.pressed {
                    Some(pressed) => Some(pressed),
                    None => hit,
                };
                self.state.pressed = None;
                Route { outside: None, target }
            },
            MouseAction::Wheel => Route { outside: None, target: hit },
        }
    }

    /// Routes a key event: the position of the focused surface. A focus on a
    /// surface that is gone is dropped.
    pub fn dispatch_key(&mut self) -> (index: Option<usize>)
        requires
            old(self).wf(),
        ensures
            final(self).wf(),
            final(self)@.surfaces == old(self)@.surfaces,
            match old(self)@.state.focused {
                Some(id) if id@ < old(self)@.surfaces.len() => {
                    &&& index == Some(id@)
                    &&& final(self)@ == old(self)@
                },
                _ => {
                    &&& index is None
                    &&& final(self)@.state == (SceneState { focused: None, ..old(self)@.state })
                },
            },
    {
        let id = match self.state.focused {
            Some(id) => id,
            None => return None,
        };
        let index = self.surface_index(id);
        if index.is_none() {
            self.state.focused = None;
        }
        index
    }
}

/// A press captures the pointer: wherever the button comes up, the release
/// goes to the surface that was pressed, and to no other.
pub proof fn release_goes_to_pressed(
    state: SceneState,
    pressed: SurfaceId,
    button: MouseButton,
    moved_to: Option<SurfaceId>,
    hit: Option<SurfaceId>,
)
    ensures
        ({
            let (down, _) = routed(state, MouseAction::Down(button), Some(pressed));
            let (moved, _) = routed(down, MouseAction::Move, moved_to);
            let (up, route) = routed(moved, MouseAction::Up(button), hit);
            &&& route.target == Some(pressed)
            &&& route.outside is None
            &&& up.pressed is None
        }),
{
}

/// A left press gives the keyboard to the surface it hits, and tells the
/// surface that had it before, if that is another one.
pub proof fn left_press_moves_focus(state: SceneState, hit: Option<SurfaceId>)
    ensures
        ({
            let (after, route) = routed(state, MouseAction::Down(MouseButton::Left), hit);
            &&& after.focused == hit
            &&& route.outside is Some ==> route.outside == state.focused && route.outside != hit
            &&& state.focused is Some && state.focused != hit ==> route.outside == state.focused
        }),
{
}

/// A move of the pointer makes the surface under it the hovered one and goes to that
/// surface. A surface that the pointer leaves is told. Focus and press stay.
pub proof fn moves_go_to_the_surface_under(state: SceneState, hit: Option<SurfaceId>)
    ensures
        ({
            let (after, route) = routed(state, MouseAction::Move, hit);
            &&& after.hovered == hit
            &&& after.focused == state.focused && after.pressed == state.pressed
            &&& route.target == hit
            &&& state.hovered != hit ==> route.outside == state.hovered
            &&& state.hovered == hit ==> route.outside is None
        }),
{
}

/// A press goes to the surface under the pointer, which stays the pressed one until the
/// release. Only the left button moves the focus.
pub proof fn presses_go_to_the_surface_under(
    state: SceneState,
    button: MouseButton,
    hit: Option<SurfaceId>,
)
    ensures
        ({
            let (after, route) = routed(state, MouseAction::Down(button), hit);
            &&& after.pressed == hit
            &&& after.hovered == state.hovered
            &&& route.target == hit
            &&& button is Left ==> after.focused == hit
            &&& !(button is Left) ==> after.focused == state.focused && route.outside is None
            &&& button is Left && state.focused != hit ==> route.outside == state.focused
            &&& state.focused == hit ==> route.outside is None
        }),
{
}

/// A release goes to the pressed surface, or without one to the surface under the
/// pointer, and ends the press. A turn of the wheel goes to the surface under the
/// pointer and changes nothing.
pub proof fn releases_and_wheels(
    state: SceneState,
    button: MouseButton,
    hit: Option<SurfaceId>,
)
    ensures
        ({
            let (after, route) = routed(state, MouseAction::Up(button), hit);
            &&& after == (SceneState { pressed: None, ..state })
            &&& route.outside is None
            &&& state.pressed is Some ==> route.target == state.pressed
            &&& state.pressed is None ==> route.target == hit
        }),
        ({
            let (after, route) = routed(state, MouseAction::Wheel, hit);
            after == state && route.target == hit && route.outside is None
        }),
{
}

/// A fresh scene has no surface hovered, focused or pressed.
pub proof fn fresh_scenes_are_untouched()
    ensures
        untouched().hovered is None && untouched().focused is None && untouched().pressed is None,
{
}

/// The first marked surface is found, and none only where none is marked.
pub proof fn first_mark_is_found(inside: Seq<bool>, from: int)
    requires
        0 <= from <= inside.len(),
    ensures
        match first_marked(inside, from) {
            Some(at) => {
                &&& from <= at < inside.len()
                &&& inside[at]
                &&& forall|i: int| from <= i < at ==> !inside[i]
            },
            None => forall|i: int| from <= i < inside.len() ==> !inside[i],
        },
    decreases inside.len() - from,
{
    if from < inside.len() && !inside[from] {
        first_mark_is_found(inside, from + 1);
    }
}

} // verus!
