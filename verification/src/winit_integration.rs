//! Forwarding `winit` window events: what each event means for the document,
//! key names, and when to wake up.
use crate::clock::{before, checked_add, from_millis, now};
use crate::events::{
    KeyPhase, KeyboardEvent, MouseAction, MouseButton, TickResult, TouchPhase,
};
use crate::text::{push_char, same};
use std::time::{Duration, Instant};
use vstd::prelude::*;
use winit::event::MouseButton as WindowButton;

verus! {

#[verifier::external_type_specification]
#[verifier::external_body]
pub struct ExSmolStr(winit::keyboard::SmolStr);

#[verifier::external_type_specification]
#[verifier::external_body]
#[verifier::reject_recursive_types(Str)]
pub struct ExKey<Str>(winit::keyboard::Key<Str>);

#[verifier::external_type_specification]
#[verifier::external_body]
pub struct ExWindowButton(WindowButton);

/// A logical key, without the types of the windowing library.
#[derive(Debug)]
pub enum LogicalKey {
    /// A key that is known by its name.
    Named(String),
    /// A key that types text.
    Character(String),
    /// A key that could not be made out.
    Unidentified,
    /// A dead key, with the character it stands for.
    Dead(Option<char>),
}

/// What a [`LogicalKey`] holds.
pub enum LogicalKeyModel {
    Named(Seq<char>),
    Character(Seq<char>),
    Unidentified,
    Dead(Option<char>),
}

impl View for LogicalKey {
    type V = LogicalKeyModel;

    open spec fn view(&self) -> LogicalKeyModel {
        match *self {
            LogicalKey::Named(name) => LogicalKeyModel::Named(name@),
            LogicalKey::Character(text) => LogicalKeyModel::Character(text@),
            LogicalKey::Unidentified => LogicalKeyModel::Unidentified,
            LogicalKey::Dead(ch) => LogicalKeyModel::Dead(ch),
        }
    }
}

/// What a key of the windowing library stands for.
pub uninterp spec fn key_model(key: &winit::keyboard::Key) -> LogicalKeyModel;

/// Tells the variants of `winit::keyboard::Key` apart. The result depends on
/// the key alone and is named `key_model`; a named key is known by the text
/// that its `Debug` implementation gives.
#[verifier::external_body]
fn logical_key_of(key: &winit::keyboard::Key) -> (logical: LogicalKey)
    ensures
        logical@ == key_model(key),
{
    match key {
        winit::keyboard::Key::Named(named) => LogicalKey::Named(format!("{named:?}")),
        winit::keyboard::Key::Character(text) => LogicalKey::Character(text.to_string()),
        winit::keyboard::Key::Unidentified(_) => LogicalKey::Unidentified,
        winit::keyboard::Key::Dead(ch) => LogicalKey::Dead(*ch),
    }
}

/// The value of [`KeyboardEvent::key`] for a logical key with the text it
/// types. The name of a named key takes precedence over its text, which is a
/// control character; Space is the character itself. Else the text does, if
/// there is any.
pub open spec fn key_value(key: LogicalKeyModel, text: Option<Seq<char>>) -> Seq<char> {
    match key {
        LogicalKeyModel::Named(name) => if name == "Space"@ {
            " "@
        } else {
            name
        },
        _ => match text {
            Some(text) if text.len() > 0 => text,
            _ => match key {
                LogicalKeyModel::Character(text) => text,
                LogicalKeyModel::Dead(Some(ch)) => seq![ch],
                LogicalKeyModel::Dead(None) => Seq::empty(),
                _ => "Unidentified"@,
            },
        },
    }
}

/// An optional text.
pub open spec fn opt_text(text: Option<&str>) -> Option<Seq<char>> {
    match text {
        Some(text) => Some(text@),
        None => None,
    }
}

/// The value of [`KeyboardEvent::key`] for a logical key with the text it
/// types.
pub fn logical_key_text(key: LogicalKey, text: Option<&str>) -> (value: String)
    ensures
        value@ == key_value(key@, opt_text(text)),
{
    if let LogicalKey::Named(name) = key {
        if same(name.as_str(), "Space") {
            return " ".to_owned();
        }
        return name;
    }
    if let Some(text) = text {
        if !text.is_empty() {
            return text.to_owned();
        }
    }
    match key {
        LogicalKey::Named(name) => name,
        LogicalKey::Character(text) => text,
        LogicalKey::Unidentified => "Unidentified".to_owned(),
        LogicalKey::Dead(Some(ch)) => {
            let mut value = String::new();
            push_char(&mut value, ch);
            proof {
                assert(value@ =~= seq![ch]);
            }
            value
        },
        LogicalKey::Dead(None) => String::new(),
    }
}

/// The value of [`KeyboardEvent::key`] for a key of the windowing library with
/// the text it types.
pub fn key_to_string(logical_key: &winit::keyboard::Key, text: Option<&str>) -> (value: String)
    ensures
        value@ == key_value(key_model(logical_key), opt_text(text)),
{
    logical_key_text(logical_key_of(logical_key), text)
}

/// A mouse button, without the types of the windowing library.
#[derive(Debug, Clone, Copy, PartialEq, Eq, Structural)]
pub enum HostButton {
    Left,
    Right,
    Middle,
    Back,
    Forward,
    Other(u16),
}

/// What a mouse button of the windowing library stands for.
pub uninterp spec fn button_model(button: WindowButton) -> HostButton;

/// Tells the variants of `winit::event::MouseButton` apart. The result depends
/// on the button alone and is named `button_model`.
#[verifier::external_body]
fn host_button(button: WindowButton) -> (host: HostButton)
    ensures
        host == button_model(button),
{
    match button {
        WindowButton::Left => HostButton::Left,
        WindowButton::Right => HostButton::Right,
        WindowButton::Middle => HostButton::Middle,
        WindowButton::Back => HostButton::Back,
        WindowButton::Forward => HostButton::Forward,
        WindowButton::Other(number) => HostButton::Other(number),
    }
}

/// The button that documents know. Extra buttons are none.
pub open spec fn document_button(button: HostButton) -> Option<MouseButton> {
    match button {
        HostButton::Left => Some(MouseButton::Left),
        HostButton::Right => Some(MouseButton::Right),
        HostButton::Middle => Some(MouseButton::Middle),
        _ => None,
    }
}

/// The button that documents know. Extra buttons are none.
pub fn to_document_button(button: HostButton) -> (known: Option<MouseButton>)
    ensures
        known == document_button(button),
{
    match button {
        HostButton::Left => Some(MouseButton::Left),
        HostButton::Right => Some(MouseButton::Right),
        HostButton::Middle => Some(MouseButton::Middle),
        _ => None,
    }
}

/// The button that documents know for a button of the windowing library.
pub fn winit_to_solite_button(button: WindowButton) -> (known: Option<MouseButton>)
    ensures
        known == document_button(button_model(button)),
{
    to_document_button(host_button(button))
}

/// Outcome of forwarding a single window event.
#[derive(Debug, Clone, Copy, PartialEq, Eq, Structural)]
pub struct WinitForward {
    /// The next paint will change something.
    pub needs_redraw: bool,
    /// Scripts still have queued jobs.
    pub jobs_pending: bool,
    /// The window was asked to close.
    pub close_requested: bool,
}

/// The outcome that asks for nothing.
pub open spec fn no_forward() -> WinitForward {
    WinitForward { needs_redraw: false, jobs_pending: false, close_requested: false }
}

impl Default for WinitForward {
    fn default() -> (forward: Self)
        ensures
            forward == no_forward(),
    {
        WinitForward { needs_redraw: false, jobs_pending: false, close_requested: false }
    }
}

impl WinitForward {
    /// The outcome of an event that was dispatched.
    pub fn from_tick(tick: TickResult) -> (forward: Self)
        ensures
            forward == (WinitForward {
                needs_redraw: tick.needs_paint,
                jobs_pending: tick.jobs_pending,
                close_requested: false,
            }),
    {
        WinitForward {
            needs_redraw: tick.needs_paint,
            jobs_pending: tick.jobs_pending,
            close_requested: false,
        }
    }
}

/// The modifier keys that are held.
#[derive(Debug, Clone, Copy, PartialEq, Eq, Structural)]
pub struct Modifiers {
    pub shift: bool,
    pub ctrl: bool,
    pub alt: bool,
    pub meta: bool,
}

/// A window event, without the types of the windowing library. A place in the
/// window is of the type `P` and in the pixels of the document.
#[derive(Debug)]
pub enum WindowInput<P> {
    ModifiersChanged(Modifiers),
    CloseRequested,
    ScaleFactorChanged,
    Resized,
    CursorMoved(P),
    CursorLeft,
    /// A button, where documents know it.
    MouseInput { pressed: bool, button: Option<MouseButton> },
    MouseWheel,
    Keyboard { key: String, code: String, repeat: bool, pressed: bool },
    Touch { phase: TouchPhase, at: P },
    Other,
}

/// What a window event means for the document.
#[derive(Debug)]
pub enum WindowAction<P> {
    /// Nothing.
    Nothing,
    /// Take the new scale.
    Rescale,
    /// Take the new size.
    Resize,
    /// Dispatch a move to a point outside of the document.
    MoveOutside,
    /// Dispatch a mouse event at a place.
    Mouse { action: MouseAction, at: P },
    /// Dispatch a key event.
    Key(KeyPhase, KeyboardEvent),
    /// Dispatch a touch event at a place.
    Touch { phase: TouchPhase, at: P },
}

/// Whether a window event that finds the bridge in the state `bridge` means the
/// given action.
pub open spec fn means<P>(
    input: WindowInput<P>,
    bridge: WinitBridge<P>,
    action: WindowAction<P>,
) -> bool {
    let held = bridge.modifiers;
    match input {
        WindowInput::ModifiersChanged(_) | WindowInput::CloseRequested | WindowInput::Other =>
            action is Nothing,
        WindowInput::ScaleFactorChanged => action is Rescale,
        WindowInput::Resized => action is Resize,
        WindowInput::CursorMoved(at) => action == (WindowAction::Mouse {
            action: MouseAction::Move,
            at,
        }),
        WindowInput::CursorLeft => action is MoveOutside,
        WindowInput::MouseInput { pressed, button } => match button {
            Some(button) => action == (WindowAction::Mouse {
                action: if pressed {
                    MouseAction::Down(button)
                } else {
                    MouseAction::Up(button)
                },
                at: bridge.cursor,
            }),
            None => action is Nothing,
        },
        WindowInput::MouseWheel => action == (WindowAction::Mouse {
            action: MouseAction::Wheel,
            at: bridge.cursor,
        }),
        WindowInput::Keyboard { key, code, repeat, pressed } => {
            &&& action matches WindowAction::Key(phase, event)
            &&& phase == (if pressed {
                KeyPhase::Down
            } else {
                KeyPhase::Up
            })
            &&& event == (KeyboardEvent {
                key,
                code,
                key_code: 0,
                repeat,
                shift_key: held.shift,
                ctrl_key: held.ctrl,
                alt_key: held.alt,
                meta_key: held.meta,
            })
        },
        WindowInput::Touch { phase, at } => action == (WindowAction::Touch { phase, at }),
    }
}

/// The bridge after a window event: it notes the modifiers that are held and
/// where the pointer or the finger is.
pub open spec fn bridge_after<P>(bridge: WinitBridge<P>, input: WindowInput<P>) -> WinitBridge<P> {
    WinitBridge {
        modifiers: match input {
            WindowInput::ModifiersChanged(modifiers) => modifiers,
            _ => bridge.modifiers,
        },
        cursor: match input {
            WindowInput::CursorMoved(at) => at,
            WindowInput::Touch { at, .. } => at,
            _ => bridge.cursor,
        },
    }
}

/// What a window event asks for before anything is dispatched.
pub open spec fn asked_at_once<P>(input: WindowInput<P>) -> WinitForward {
    WinitForward {
        needs_redraw: input is ScaleFactorChanged || input is Resized,
        jobs_pending: false,
        close_requested: input is CloseRequested,
    }
}

/// Forwards window events. Keeps track of the modifier keys and the cursor.
#[derive(Debug)]
pub struct WinitBridge<P> {
    pub modifiers: Modifiers,
    pub cursor: P,
}

impl<P: Copy> WinitBridge<P> {
    /// A bridge with no modifier held and the cursor at `cursor`.
    pub fn new(cursor: P) -> (bridge: Self)
        ensures
            bridge.modifiers == (Modifiers { shift: false, ctrl: false, alt: false, meta: false }),
            bridge.cursor == cursor,
    {
        WinitBridge {
            modifiers: Modifiers { shift: false, ctrl: false, alt: false, meta: false },
            cursor,
        }
    }

    /// The last known place of the cursor.
    pub fn cursor(&self) -> (cursor: P)
        ensures
            cursor == self.cursor,
    {
        self.cursor
    }

    /// Reflects modifiers that the host learnt of elsewhere.
    pub fn set_modifiers(&mut self, modifiers: Modifiers)
        ensures
            *final(self) == (WinitBridge { modifiers, ..*old(self) }),
    {
        self.modifiers = modifiers;
    }

    /// The modifier keys that are held.
    pub fn modifiers(&self) -> (modifiers: Modifiers)
        ensures
            modifiers == self.modifiers,
    {
        self.modifiers
    }

    /// Takes a window event: what it means for the document, and what it asks
    /// for at once. What a dispatched event asks for comes on top.
    pub fn handle(&mut self, input: WindowInput<P>) -> (handled: (WindowAction<P>, WinitForward))
        ensures
            means(input, *old(self), handled.0),
            handled.1 == asked_at_once(input),
            *final(self) == bridge_after(*old(self), input),
    {
        let mut forward = WinitForward::default();
        let action = match input {
            WindowInput::ModifiersChanged(modifiers) => {
                self.modifiers = modifiers;
                WindowAction::Nothing
            },
            WindowInput::CloseRequested => {
                forward.close_requested = true;
                WindowAction::Nothing
            },
            WindowInput::ScaleFactorChanged => {
                forward.needs_redraw = true;
                WindowAction::Rescale
            },
            WindowInput::Resized => {
                forward.needs_redraw = true;
                WindowAction::Resize
            },
            WindowInput::CursorMoved(at) => {
                self.cursor = at;
                WindowAction::Mouse { action: MouseAction::Move, at }
            },
            WindowInput::CursorLeft => WindowAction::MoveOutside,
            WindowInput::MouseInput { pressed, button } => match button {
                Some(button) => WindowAction::Mouse {
                    action: if pressed {
                        MouseAction::Down(button)
                    } else {
                        MouseAction::Up(button)
                    },
                    at: self.cursor,
                },
                None => WindowAction::Nothing,
            },
            WindowInput::MouseWheel => WindowAction::Mouse {
                action: MouseAction::Wheel,
                at: self.cursor,
            },
            WindowInput::Keyboard { key, code, repeat, pressed } => {
                let event = KeyboardEvent {
                    key,
                    code,
                    key_code: 0,
                    repeat,
                    shift_key: self.modifiers.shift,
                    ctrl_key: self.modifiers.ctrl,
                    alt_key: self.modifiers.alt,
                    meta_key: self.modifiers.meta,
                };
                WindowAction::Key(
                    if pressed {
                        KeyPhase::Down
                    } else {
                        KeyPhase::Up
                    },
                    event,
                )
            },
            WindowInput::Touch { phase, at } => {
                self.cursor = at;
                WindowAction::Touch { phase, at }
            },
            WindowInput::Other => WindowAction::Nothing,
        };
        (action, forward)
    }
}

/// A cursor that moved dispatches a move where it went, and the next button
/// acts there: a press or a release for the buttons that documents know, and
/// nothing for the others. Neither asks for anything by itself, and a read of
/// the cursor gives the same place.
pub proof fn buttons_act_where_the_cursor_went<P>(
    bridge: WinitBridge<P>,
    at: P,
    pressed: bool,
    button: HostButton,
    moved: WindowAction<P>,
    acted: WindowAction<P>,
)
    requires
        means(WindowInput::CursorMoved(at), bridge, moved),
        means(
            WindowInput::MouseInput { pressed, button: document_button(button) },
            bridge_after(bridge, WindowInput::CursorMoved(at)),
            acted,
        ),
    ensures
        moved == (WindowAction::Mouse { action: MouseAction::Move, at }),
        acted == (match document_button(button) {
            Some(button) => WindowAction::Mouse {
                action: if pressed {
                    MouseAction::Down(button)
                } else {
                    MouseAction::Up(button)
                },
                at,
            },
            None => WindowAction::Nothing,
        }),
        asked_at_once(WindowInput::CursorMoved(at)) == no_forward(),
        asked_at_once(
            WindowInput::<P>::MouseInput { pressed, button: document_button(button) },
        ) == no_forward(),
        bridge_after(
            bridge_after(bridge, WindowInput::CursorMoved(at)),
            WindowInput::MouseInput { pressed, button: document_button(button) },
        ).cursor == at,
{
}

/// Only a request to close asks for closing.
pub proof fn only_close_requests_close<P>(input: WindowInput<P>)
    ensures
        asked_at_once(input).close_requested <==> input is CloseRequested,
{
}

/// The mouse event that stands for a touch on a target without gestures.
pub open spec fn mouse_for_touch(phase: TouchPhase) -> MouseAction {
    match phase {
        TouchPhase::Started => MouseAction::Down(MouseButton::Left),
        TouchPhase::Moved => MouseAction::Move,
        TouchPhase::Ended | TouchPhase::Cancelled => MouseAction::Up(MouseButton::Left),
    }
}

/// The mouse event that stands for a touch on a target without gestures.
pub fn touch_as_mouse(phase: TouchPhase) -> (action: MouseAction)
    ensures
        action == mouse_for_touch(phase),
{
    match phase {
        TouchPhase::Started => MouseAction::Down(MouseButton::Left),
        TouchPhase::Moved => MouseAction::Move,
        TouchPhase::Ended | TouchPhase::Cancelled => MouseAction::Up(MouseButton::Left),
    }
}

/// The poll interval of a scheduler that is given none.
pub const DEFAULT_POLL_MILLIS: u64 = 50;

/// When the event loop is to wake up.
#[derive(Debug, Clone, Copy)]
pub enum Wakeup {
    /// On the next event.
    Wait,
    /// At this moment, or on an earlier event.
    Until(Instant),
}

/// Scheduler of wake-ups for polling what sends no events, such as file
/// watchers, while caret blinks keep their pace.
#[derive(Debug, Clone, Copy)]
pub struct WinitPollScheduler {
    pub interval: Duration,
    /// The moment of the next poll. There is none when the clock cannot
    /// represent it.
    pub next_poll: Option<Instant>,
    pub enabled: bool,
}

/// The poll that lies one interval after `start`. There is none where the clock
/// cannot represent its moment.
pub open spec fn poll_after(start: Instant, interval: Duration) -> Option<Instant> {
    crate::clock::moment_after(start, crate::clock::duration_nanos(interval))
}

/// The scheduler after it was asked for a poll at `moment`: a poll that is due
/// plans the next one, and nothing else changes.
pub open spec fn polled(scheduler: WinitPollScheduler, moment: Instant) -> WinitPollScheduler {
    WinitPollScheduler {
        next_poll: if poll_due(scheduler, moment) {
            poll_after(moment, scheduler.interval)
        } else {
            scheduler.next_poll
        },
        ..scheduler
    }
}

/// Whether a poll is due.
pub open spec fn poll_due(scheduler: WinitPollScheduler, moment: Instant) -> bool {
    scheduler.enabled && scheduler.next_poll is Some && !crate::clock::is_before(
        moment,
        scheduler.next_poll->0,
    )
}

/// When to wake up for the next poll of a scheduler and the next caret blink.
pub open spec fn wakeup_for(scheduler: WinitPollScheduler, next_blink: Option<Instant>) -> Wakeup {
    match (scheduler.enabled, scheduler.next_poll, next_blink) {
        (true, Some(poll), Some(blink)) => Wakeup::Until(
            if crate::clock::is_before(blink, poll) {
                blink
            } else {
                poll
            },
        ),
        (true, Some(poll), None) => Wakeup::Until(poll),
        (_, _, Some(blink)) => Wakeup::Until(blink),
        (_, _, None) => Wakeup::Wait,
    }
}

impl WinitPollScheduler {
    /// A disabled scheduler whose first poll lies one interval after `start`.
    pub fn starting_at(start: Instant, interval: Duration) -> (scheduler: Self)
        ensures
            scheduler.interval == interval,
            scheduler.next_poll == poll_after(start, interval),
            !scheduler.enabled,
    {
        WinitPollScheduler { interval, next_poll: checked_add(start, interval), enabled: false }
    }

    /// A disabled scheduler that polls at the given interval, counted from
    /// now.
    pub fn with_interval(interval: Duration) -> (scheduler: Self)
        ensures
            scheduler.interval == interval,
            exists|start: Instant|
                scheduler.next_poll == #[trigger] poll_after(start, interval),
            !scheduler.enabled,
    {
        WinitPollScheduler::starting_at(now(), interval)
    }

    /// A disabled scheduler that polls at the default interval, counted from
    /// now.
    pub fn with_default_interval() -> (scheduler: Self)
        ensures
            crate::clock::duration_nanos(scheduler.interval) == DEFAULT_POLL_MILLIS
                * crate::clock::NANOS_PER_MILLI,
            exists|start: Instant|
                scheduler.next_poll == #[trigger] poll_after(start, scheduler.interval),
            !scheduler.enabled,
    {
        WinitPollScheduler::with_interval(from_millis(DEFAULT_POLL_MILLIS))
    }

    /// Enables or disables polling.
    pub fn set_enabled(&mut self, enabled: bool)
        ensures
            *final(self) == (WinitPollScheduler { enabled, ..*old(self) }),
    {
        self.enabled = enabled;
    }

    /// Whether a poll is due at `moment`. If it is, the next one is planned
    /// one interval later.
    pub fn should_poll_at(&mut self, moment: Instant) -> (due: bool)
        ensures
            due == poll_due(*old(self), moment),
            *final(self) == polled(*old(self), moment),
    {
        if !self.enabled {
            return false;
        }
        match self.next_poll {
            Some(next) => {
                if before(moment, next) {
                    return false;
                }
                self.next_poll = checked_add(moment, self.interval);
                true
            },
            None => false,
        }
    }

    /// Whether a poll is due now. If it is, the next one is planned one
    /// interval later. A disabled scheduler never polls.
    pub fn should_poll(&mut self) -> (due: bool)
        ensures
            exists|moment: Instant|
                due == #[trigger] poll_due(*old(self), moment) && *final(self) == polled(
                    *old(self),
                    moment,
                ),
    {
        let moment = now();
        self.should_poll_at(moment)
    }

    /// When to wake up: at the earlier of the next poll and the next caret
    /// blink. A disabled scheduler knows of blinks alone.
    pub fn next_wakeup(&self, next_blink: Option<Instant>) -> (wakeup: Wakeup)
        ensures
            wakeup == wakeup_for(*self, next_blink),
    {
        if self.enabled {
            if let Some(poll) = self.next_poll {
                return match next_blink {
                    Some(blink) => if before(blink, poll) {
                        Wakeup::Until(blink)
                    } else {
                        Wakeup::Until(poll)
                    },
                    None => Wakeup::Until(poll),
                };
            }
        }
        match next_blink {
            Some(blink) => Wakeup::Until(blink),
            None => Wakeup::Wait,
        }
    }
}

/// After a poll that was due, the next one is due exactly from one interval
/// later on, for as long as the scheduler stays enabled.
pub proof fn polls_keep_their_distance(
    scheduler: WinitPollScheduler,
    moment: Instant,
    later: Instant,
)
    requires
        poll_due(scheduler, moment),
    ensures
        poll_due(polled(scheduler, moment), later) == (match poll_after(
            moment,
            scheduler.interval,
        ) {
            Some(next) => !crate::clock::is_before(later, next),
            None => false,
        }),
{
}

/// A disabled scheduler never polls, and asking it changes nothing.
pub proof fn disabled_scheduler_is_silent(scheduler: WinitPollScheduler, moment: Instant)
    requires
        !scheduler.enabled,
    ensures
        !poll_due(scheduler, moment),
        polled(scheduler, moment) == scheduler,
{
}

/// A named key has its name as its value, whatever text it types, but for Space, whose
/// value is a blank.
pub proof fn named_keys_keep_their_name(name: Seq<char>, text: Option<Seq<char>>)
    ensures
        name != "Space"@ ==> key_value(LogicalKeyModel::Named(name), text) == name,
        key_value(LogicalKeyModel::Named("Space"@), text) == seq![' '],
{
    reveal_strlit(" ");
    assert(" "@ =~= seq![' ']);
}

/// Any other key has the text that it types as its value. Where it types none, a
/// character key has its character, a dead key the character that it stands for, if
/// any, and a key that could not be made out says so.
pub proof fn typed_text_is_the_value(
    key: LogicalKeyModel,
    text: Seq<char>,
    typed: Option<Seq<char>>,
    ch: char,
)
    requires
        !(key is Named),
        typed is None || typed == Some(Seq::<char>::empty()),
    ensures
        text.len() > 0 ==> key_value(key, Some(text)) == text,
        key_value(LogicalKeyModel::Character(text), typed) == text,
        key_value(LogicalKeyModel::Dead(Some(ch)), typed) == seq![ch],
        key_value(LogicalKeyModel::Dead(None), typed).len() == 0,
        key_value(LogicalKeyModel::Unidentified, typed) == "Unidentified"@,
{
}

/// Documents know the left, right and middle button and no other.
pub proof fn three_buttons_are_known(number: u16)
    ensures
        document_button(HostButton::Left) == Some(MouseButton::Left),
        document_button(HostButton::Right) == Some(MouseButton::Right),
        document_button(HostButton::Middle) == Some(MouseButton::Middle),
        document_button(HostButton::Back) is None,
        document_button(HostButton::Forward) is None,
        document_button(HostButton::Other(number)) is None,
{
}

/// A key event carries the modifiers that were last reported, in the phase that the key
/// is in.
pub proof fn keys_carry_the_modifiers<P>(
    bridge: WinitBridge<P>,
    held: Modifiers,
    key: String,
    code: String,
    repeat: bool,
    pressed: bool,
    action: WindowAction<P>,
)
    requires
        means(
            WindowInput::Keyboard { key, code, repeat, pressed },
            bridge_after(bridge, WindowInput::ModifiersChanged(held)),
            action,
        ),
    ensures
        action matches WindowAction::Key(phase, event) && phase is Down == pressed && event.key
            == key && event.code == code && event.repeat == repeat && event.shift_key == held.shift
            && event.ctrl_key == held.ctrl && event.alt_key == held.alt && event.meta_key
            == held.meta,
        bridge_after(bridge, WindowInput::ModifiersChanged(held)).cursor == bridge.cursor,
{
}

/// The wheel turns where the cursor is. A touch moves the cursor to the finger and is
/// dispatched there. A cursor that leaves the window dispatches a move outside and stays
/// noted where it was.
pub proof fn wheel_and_touch_have_a_place<P>(
    bridge: WinitBridge<P>,
    at: P,
    phase: TouchPhase,
    wheel: WindowAction<P>,
    touch: WindowAction<P>,
    left: WindowAction<P>,
)
    requires
        means(WindowInput::MouseWheel, bridge, wheel),
        means(WindowInput::Touch { phase, at }, bridge, touch),
        means(WindowInput::CursorLeft, bridge, left),
    ensures
        wheel == (WindowAction::Mouse { action: MouseAction::Wheel, at: bridge.cursor }),
        touch == (WindowAction::Touch { phase, at }),
        bridge_after(bridge, WindowInput::Touch { phase, at }).cursor == at,
        left is MoveOutside,
        bridge_after(bridge, WindowInput::CursorLeft) == bridge,
        bridge_after(bridge, WindowInput::MouseWheel) == bridge,
{
}

/// A new size and a new scale are taken and redrawn. No other event asks for a redraw by
/// itself, nor for more work of scripts.
pub proof fn resizes_are_redrawn<P>(
    bridge: WinitBridge<P>,
    input: WindowInput<P>,
    action: WindowAction<P>,
)
    requires
        means(input, bridge, action),
    ensures
        input is Resized <==> action is Resize,
        input is ScaleFactorChanged <==> action is Rescale,
        asked_at_once(input).needs_redraw <==> input is Resized || input is ScaleFactorChanged,
        !asked_at_once(input).jobs_pending,
        input is CloseRequested || input is Other || input is ModifiersChanged ==> action
            is Nothing,
        !no_forward().needs_redraw && !no_forward().jobs_pending && !no_forward().close_requested,
{
}

/// A touch on a target without gestures presses the left button, moves the mouse and
/// releases the button, also where it is cancelled.
pub proof fn touches_stand_for_the_left_button(phase: TouchPhase)
    ensures
        phase is Started ==> mouse_for_touch(phase) == MouseAction::Down(MouseButton::Left),
        phase is Moved ==> mouse_for_touch(phase) == MouseAction::Move,
        phase is Ended || phase is Cancelled ==> mouse_for_touch(phase) == MouseAction::Up(
            MouseButton::Left,
        ),
{
}

/// An enabled scheduler wakes up at the next poll unless a blink comes before it. A
/// disabled one, and one without a poll, wakes up for blinks alone, and where there is
/// none it waits.
pub proof fn wakeups_come_at_the_earlier(
    scheduler: WinitPollScheduler,
    poll: Instant,
    blink: Instant,
)
    ensures
        scheduler.enabled && scheduler.next_poll == Some(poll) ==> {
            &&& wakeup_for(scheduler, None) == Wakeup::Until(poll)
            &&& crate::clock::is_before(blink, poll) ==> wakeup_for(scheduler, Some(blink))
                == Wakeup::Until(blink)
            &&& !crate::clock::is_before(blink, poll) ==> wakeup_for(scheduler, Some(blink))
                == Wakeup::Until(poll)
        },
        !scheduler.enabled || scheduler.next_poll is None ==> {
            &&& wakeup_for(scheduler, Some(blink)) == Wakeup::Until(blink)
            &&& wakeup_for(scheduler, None) is Wait
        },
{
}

/// An enabled scheduler is due from the moment of its next poll on. A poll that is not
/// due leaves it as it is, and one that is due keeps its interval and keeps it enabled.
pub proof fn polls_are_due_from_their_moment(
    scheduler: WinitPollScheduler,
    poll: Instant,
    moment: Instant,
)
    requires
        scheduler.enabled,
        scheduler.next_poll == Some(poll),
    ensures
        poll_due(scheduler, moment) <==> !crate::clock::is_before(moment, poll),
        crate::clock::is_before(moment, poll) ==> polled(scheduler, moment) == scheduler,
        polled(scheduler, moment).interval == scheduler.interval,
        polled(scheduler, moment).enabled,
{
}

} // verus!
