//! Host input events and the result a dispatched event reports back.
use crate::text::same;
use vstd::prelude::*;

verus! {

/// Button pressed during a mouse event.
#[derive(Debug, Clone, Copy, PartialEq, Eq, Structural)]
pub enum MouseButton {
    Left,
    Right,
    Middle,
}

/// A mouse event without its coordinates.
#[derive(Debug, Clone, Copy, PartialEq, Eq, Structural)]
pub enum MouseAction {
    Move,
    Down(MouseButton),
    Up(MouseButton),
    Wheel,
}

/// How far a touch has come.
#[derive(Debug, Clone, Copy, PartialEq, Eq, Structural)]
pub enum TouchPhase {
    Started,
    Moved,
    Ended,
    Cancelled,
}

/// Keyboard event data forwarded from the host.
#[derive(Debug, Clone)]
pub struct KeyboardEvent {
    /// Human-readable key value (eg. `"a"`, `"Enter"`, `"Backspace"`).
    pub key: String,
    /// Physical key code (`"KeyA"`, `"Enter"`, etc.).
    pub code: String,
    /// Numeric virtual key code compatibility field.
    pub key_code: u32,
    /// Whether this key event is auto-repeated.
    pub repeat: bool,
    /// Modifier snapshot.
    pub shift_key: bool,
    pub ctrl_key: bool,
    pub alt_key: bool,
    pub meta_key: bool,
}

/// Whether a key goes down or comes up.
#[derive(Debug, Clone, Copy, PartialEq, Eq, Structural)]
pub enum KeyPhase {
    Down,
    Up,
}

/// The keys that drive native controls. A key value that names none of them
/// is `Other`.
#[derive(Debug, Clone, Copy, PartialEq, Eq, Structural)]
pub enum KeyName {
    ArrowLeft,
    ArrowRight,
    ArrowUp,
    ArrowDown,
    /// The older spelling of `ArrowUp`, which selects accept too.
    Up,
    /// The older spelling of `ArrowDown`, which selects accept too.
    Down,
    Home,
    End,
    PageUp,
    PageDown,
    Enter,
    /// `" "` or `"Space"`.
    Space,
    Escape,
    Tab,
    Backspace,
    Delete,
    Other,
}

/// The key that the text of `KeyboardEvent::key` names.
pub open spec fn key_name(key: Seq<char>) -> KeyName {
    if key == "ArrowLeft"@ {
        KeyName::ArrowLeft
    } else if key == "ArrowRight"@ {
        KeyName::ArrowRight
    } else if key == "ArrowUp"@ {
        KeyName::ArrowUp
    } else if key == "ArrowDown"@ {
        KeyName::ArrowDown
    } else if key == "Up"@ {
        KeyName::Up
    } else if key == "Down"@ {
        KeyName::Down
    } else if key == "Home"@ {
        KeyName::Home
    } else if key == "End"@ {
        KeyName::End
    } else if key == "PageUp"@ {
        KeyName::PageUp
    } else if key == "PageDown"@ {
        KeyName::PageDown
    } else if key == "Enter"@ {
        KeyName::Enter
    } else if key == " "@ || key == "Space"@ {
        KeyName::Space
    } else if key == "Escape"@ {
        KeyName::Escape
    } else if key == "Tab"@ {
        KeyName::Tab
    } else if key == "Backspace"@ {
        KeyName::Backspace
    } else if key == "Delete"@ {
        KeyName::Delete
    } else {
        KeyName::Other
    }
}

impl KeyboardEvent {
    /// The key that this event is about.
    pub open spec fn named(&self) -> KeyName {
        key_name(self.key@)
    }

    /// Whether Ctrl, Meta or Alt is held.
    pub open spec fn modified(&self) -> bool {
        self.ctrl_key || self.meta_key || self.alt_key
    }

    /// The key that this event is about.
    pub fn name(&self) -> (name: KeyName)
        ensures
            name == self.named(),
    {
        let key = self.key.as_str();
        if same(key, "ArrowLeft") {
            KeyName::ArrowLeft
        } else if same(key, "ArrowRight") {
            KeyName::ArrowRight
        } else if same(key, "ArrowUp") {
            KeyName::ArrowUp
        } else if same(key, "ArrowDown") {
            KeyName::ArrowDown
        } else if same(key, "Up") {
            KeyName::Up
        } else if same(key, "Down") {
            KeyName::Down
        } else if same(key, "Home") {
            KeyName::Home
        } else if same(key, "End") {
            KeyName::End
        } else if same(key, "PageUp") {
            KeyName::PageUp
        } else if same(key, "PageDown") {
            KeyName::PageDown
        } else if same(key, "Enter") {
            KeyName::Enter
        } else if same(key, " ") || same(key, "Space") {
            KeyName::Space
        } else if same(key, "Escape") {
            KeyName::Escape
        } else if same(key, "Tab") {
            KeyName::Tab
        } else if same(key, "Backspace") {
            KeyName::Backspace
        } else if same(key, "Delete") {
            KeyName::Delete
        } else {
            KeyName::Other
        }
    }

    /// Whether Ctrl, Meta or Alt is held.
    pub fn has_modifier(&self) -> (held: bool)
        ensures
            held == self.modified(),
    {
        self.ctrl_key || self.meta_key || self.alt_key
    }
}

/// What a dispatched event asks of the host.
#[derive(Debug, Clone, Copy, PartialEq, Eq, Structural)]
pub struct TickResult {
    /// The next paint will change something.
    pub needs_paint: bool,
    /// The script runtime still has queued jobs.
    pub jobs_pending: bool,
}

/// Nothing is asked of the host.
pub open spec fn quiet() -> TickResult {
    TickResult { needs_paint: false, jobs_pending: false }
}

impl Default for TickResult {
    fn default() -> (result: Self)
        ensures
            result == quiet(),
    {
        TickResult { needs_paint: false, jobs_pending: false }
    }
}

/// What two results ask for together.
pub open spec fn combined(a: TickResult, b: TickResult) -> TickResult {
    TickResult {
        needs_paint: a.needs_paint || b.needs_paint,
        jobs_pending: a.jobs_pending || b.jobs_pending,
    }
}

/// Merges the results of two dispatches: either one's request stands.
pub fn combine_tick_result(a: TickResult, b: TickResult) -> (result: TickResult)
    ensures
        result == combined(a, b),
{
    TickResult {
        needs_paint: a.needs_paint || b.needs_paint,
        jobs_pending: a.jobs_pending || b.jobs_pending,
    }
}

/// Merging results neither depends on their order nor on their grouping, and
/// a quiet result adds nothing.
pub proof fn combined_is_order_independent(a: TickResult, b: TickResult, c: TickResult)
    ensures
        combined(a, b) == combined(b, a),
        combined(combined(a, b), c) == combined(a, combined(b, c)),
        combined(a, quiet()) == a,
        combined(a, a) == a,
{
}

/// The character of a key value that is one printable character.
pub open spec fn printable_key(key: Seq<char>) -> Option<char> {
    if key.len() == 1 && !crate::text::is_control_char(key[0]) {
        Some(key[0])
    } else {
        None
    }
}

/// A key value is read as the key that it spells: each name as that key, a blank as
/// Space, and any other text as no key that controls know.
pub proof fn keys_go_by_name(key: Seq<char>)
    ensures
        key_name("ArrowLeft"@) is ArrowLeft,
        key_name("ArrowRight"@) is ArrowRight,
        key_name("ArrowUp"@) is ArrowUp,
        key_name("ArrowDown"@) is ArrowDown,
        key_name("Up"@) is Up,
        key_name("Down"@) is Down,
        key_name("Home"@) is Home,
        key_name("End"@) is End,
        key_name("PageUp"@) is PageUp,
        key_name("PageDown"@) is PageDown,
        key_name("Enter"@) is Enter,
        key_name("Space"@) is Space,
        key_name("Escape"@) is Escape,
        key_name("Tab"@) is Tab,
        key_name("Backspace"@) is Backspace,
        key_name("Delete"@) is Delete,
        key_name(" "@) is Space,
        (key != "ArrowLeft"@ && key != "ArrowRight"@ && key != "ArrowUp"@ && key != "ArrowDown"@ && key != "Up"@ && key != "Down"@ && key != "Home"@ && key != "End"@ && key != "PageUp"@ && key != "PageDown"@ && key != "Enter"@ && key != "Space"@ && key != "Escape"@ && key != "Tab"@ && key != "Backspace"@ && key != "Delete"@ && key != " "@) ==> key_name(key) is Other,
{
    reveal_strlit("ArrowLeft");
    reveal_strlit("ArrowRight");
    reveal_strlit("ArrowUp");
    reveal_strlit("ArrowDown");
    reveal_strlit("Up");
    reveal_strlit("Down");
    reveal_strlit("Home");
    reveal_strlit("End");
    reveal_strlit("PageUp");
    reveal_strlit("PageDown");
    reveal_strlit("Enter");
    reveal_strlit("Space");
    reveal_strlit("Escape");
    reveal_strlit("Tab");
    reveal_strlit("Backspace");
    reveal_strlit("Delete");
    reveal_strlit(" ");
    assert("ArrowLeft"@.len() == 9 && "ArrowLeft"@[0] == 'A');
    assert("ArrowRight"@.len() == 10 && "ArrowRight"@[0] == 'A');
    assert("ArrowUp"@.len() == 7 && "ArrowUp"@[0] == 'A');
    assert("ArrowDown"@.len() == 9 && "ArrowDown"@[0] == 'A');
    assert("Up"@.len() == 2 && "Up"@[0] == 'U');
    assert("Down"@.len() == 4 && "Down"@[0] == 'D');
    assert("Home"@.len() == 4 && "Home"@[0] == 'H');
    assert("End"@.len() == 3 && "End"@[0] == 'E');
    assert("PageUp"@.len() == 6 && "PageUp"@[0] == 'P');
    assert("PageDown"@.len() == 8 && "PageDown"@[0] == 'P');
    assert("Enter"@.len() == 5 && "Enter"@[0] == 'E');
    assert("Space"@.len() == 5 && "Space"@[0] == 'S');
    assert("Escape"@.len() == 6 && "Escape"@[0] == 'E');
    assert("Tab"@.len() == 3 && "Tab"@[0] == 'T');
    assert("Backspace"@.len() == 9 && "Backspace"@[0] == 'B');
    assert("Delete"@.len() == 6 && "Delete"@[0] == 'D');
    assert(" "@.len() == 1 && " "@[0] == ' ');
    assert("ArrowLeft"@[5] == 'L' && "ArrowDown"@[5] == 'D' && "Backspace"@[5] == 'p');
    assert("Enter"@[1] == 'n' && "Escape"@[1] == 's');
    assert("ArrowUp"@.len() == 7 && "PageUp"@[4] == 'U' && "PageDown"@[4] == 'D');
}

/// A key types a character exactly where its value is that one character and no
/// control character.
pub proof fn one_character_is_typed(key: Seq<char>, ch: char)
    ensures
        printable_key(seq![ch]) == (if crate::text::is_control_char(ch) { None } else { Some(ch) }),
        printable_key(key) is Some ==> key == seq![printable_key(key)->0],
        key.len() != 1 ==> printable_key(key) is None,
{
    if printable_key(key) is Some {
        assert(key =~= seq![printable_key(key)->0]);
    }
}

/// Ctrl, Meta and Alt count as modifiers, each by itself, and Shift does not.
pub proof fn modifiers_are_told(event: KeyboardEvent)
    ensures
        event.ctrl_key ==> event.modified(),
        event.meta_key ==> event.modified(),
        event.alt_key ==> event.modified(),
        !event.ctrl_key && !event.meta_key && !event.alt_key ==> !event.modified(),
{
}

/// A request of either result stands in the merged one, and nothing else does.
pub proof fn requests_stand(a: TickResult, b: TickResult)
    ensures
        combined(a, b).needs_paint <==> a.needs_paint || b.needs_paint,
        combined(a, b).jobs_pending <==> a.jobs_pending || b.jobs_pending,
        !quiet().needs_paint && !quiet().jobs_pending,
{
}

} // verus!
