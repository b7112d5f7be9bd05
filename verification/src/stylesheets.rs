//! Stylesheets registered by the host.
use std::collections::HashMap;
use vstd::prelude::*;

verus! {

/// Opaque identifier of a registered stylesheet. Pass it to
/// `replace_stylesheet` or `remove_stylesheet` to update or drop the sheet.
#[derive(Debug, Clone, Copy, PartialEq, Eq, Hash, Structural)]
pub struct StylesheetId(pub u64);

/// The registered stylesheets and the next id to hand out.
#[derive(Debug)]
pub struct Stylesheets {
    sheets: HashMap<u64, String>,
    next_id: u64,
}

/// What [`Stylesheets`] holds.
#[verifier::ext_equal]
pub struct SheetModel {
    /// CSS text by id.
    pub sheets: Map<u64, Seq<char>>,
    pub next_id: u64,
}

/// The id after `id`. Past the last one ids start over.
pub open spec fn following(id: u64) -> u64 {
    if id == u64::MAX {
        0
    } else {
        (id + 1) as u64
    }
}

/// The state with `css` registered under the next id.
pub open spec fn with_added(m: SheetModel, css: Seq<char>) -> SheetModel {
    SheetModel { sheets: m.sheets.insert(m.next_id, css), next_id: following(m.next_id) }
}

/// The state with the text of `id` replaced by `css`.
pub open spec fn with_replaced(m: SheetModel, id: u64, css: Seq<char>) -> SheetModel {
    SheetModel { sheets: m.sheets.insert(id, css), ..m }
}

/// The CSS texts by id.
pub open spec fn sheet_texts(sheets: Map<u64, String>) -> Map<u64, Seq<char>> {
    sheets.map_values(|css: String| css@)
}

/// Whether the given sources are registered under the first ids, in order.
pub open spec fn registered_initially(m: SheetModel, sources: Seq<String>) -> bool {
    &&& m.next_id == sources.len()
    &&& forall|id: u64|
        #![trigger m.sheets.dom().contains(id)]
        m.sheets.dom().contains(id) == (id < sources.len())
    &&& forall|i: int| 0 <= i < sources.len() ==> m.sheets[i as u64] == (#[trigger] sources[i])@
}

impl View for Stylesheets {
    type V = SheetModel;

    closed spec fn view(&self) -> SheetModel {
        SheetModel { sheets: sheet_texts(self.sheets@), next_id: self.next_id }
    }
}

impl Stylesheets {
    /// Registers the initial stylesheets under the ids from zero on.
    pub fn new(sources: &Vec<String>) -> (sheets: Self)
        ensures
            registered_initially(sheets@, sources@),
    {
        broadcast use vstd::std_specs::hash::group_hash_axioms;

        let mut sheets: HashMap<u64, String> = HashMap::new();
        let mut next_id: u64 = 0;
        let mut i: usize = 0;
        while i < sources.len()
            invariant
                i <= sources@.len(),
                next_id == i,
                forall|id: u64|
                    #![trigger sheets@.dom().contains(id)]
                    sheets@.dom().contains(id) == (id < i),
                forall|k: int| 0 <= k < i ==> sheets@[k as u64]@ == (#[trigger] sources@[k])@,
            decreases sources@.len() - i,
        {
            sheets.insert(next_id, sources[i].clone());
            next_id = next_id + 1;
            i += 1;
        }
        Stylesheets { sheets, next_id }
    }

    /// The text of a stylesheet.
    pub fn get(&self, id: StylesheetId) -> (css: Option<&String>)
        ensures
            match css {
                Some(css) => self@.sheets.dom().contains(id.0) && css@ == self@.sheets[id.0],
                None => !self@.sheets.dom().contains(id.0),
            },
    {
        broadcast use vstd::std_specs::hash::group_hash_axioms;

        self.sheets.get(&id.0)
    }

    /// Registers a stylesheet under a new id.
    pub fn add_stylesheet(&mut self, css: &str) -> (id: StylesheetId)
        ensures
            id == StylesheetId(old(self)@.next_id),
            final(self)@ == with_added(old(self)@, css@),
    {
        broadcast use vstd::std_specs::hash::group_hash_axioms;

        let id = StylesheetId(self.next_id);
        self.next_id = self.next_id.wrapping_add(1);
        self.sheets.insert(id.0, css.to_owned());
        proof {
            assert(self@.sheets =~= old(self)@.sheets.insert(id.0, css@));
        }
        id
    }

    /// Replaces the text of a registered stylesheet and returns the old text.
    /// Returns `None`, and changes nothing, when the id is not registered.
    pub fn replace_stylesheet(&mut self, id: StylesheetId, css: &str) -> (replaced: Option<String>)
        ensures
            match replaced {
                Some(text) => old(self)@.sheets.dom().contains(id.0) && text@
                    == old(self)@.sheets[id.0] && final(self)@ == with_replaced(
                    old(self)@,
                    id.0,
                    css@,
                ),
                None => !old(self)@.sheets.dom().contains(id.0) && final(self)@ == old(self)@,
            },
    {
        broadcast use vstd::std_specs::hash::group_hash_axioms;

        if !self.sheets.contains_key(&id.0) {
            return None;
        }
        let replaced = self.sheets.insert(id.0, css.to_owned());
        proof {
            assert(self@.sheets =~= old(self)@.sheets.insert(id.0, css@));
        }
        replaced
    }

    /// Drops a registered stylesheet and returns its text. Returns `None` when
    /// the id is not registered.
    pub fn remove_stylesheet(&mut self, id: StylesheetId) -> (removed: Option<String>)
        ensures
            match removed {
                Some(text) => old(self)@.sheets.dom().contains(id.0) && text@
                    == old(self)@.sheets[id.0],
                None => !old(self)@.sheets.dom().contains(id.0),
            },
            final(self)@ == (SheetModel {
                sheets: old(self)@.sheets.remove(id.0),
                ..old(self)@
            }),
    {
        broadcast use vstd::std_specs::hash::group_hash_axioms;

        let removed = self.sheets.remove(&id.0);
        proof {
            assert(self@.sheets =~= old(self)@.sheets.remove(id.0));
        }
        removed
    }

    /// Replaces a registered stylesheet, or registers it under a new id when
    /// the given one is unknown. Returns the id to use from now on, and the
    /// text that was replaced.
    pub fn upsert_stylesheet(&mut self, id: Option<StylesheetId>, css: &str) -> (done: (
        StylesheetId,
        Option<String>,
    ))
        ensures
            match id {
                Some(id) if old(self)@.sheets.dom().contains(id.0) => {
                    &&& done.0 == id
                    &&& done.1 matches Some(text) && text@ == old(self)@.sheets[id.0]
                    &&& final(self)@ == with_replaced(old(self)@, id.0, css@)
                },
                _ => {
                    &&& done.0 == StylesheetId(old(self)@.next_id)
                    &&& done.1 is None
                    &&& final(self)@ == with_added(old(self)@, css@)
                },
            },
    {
        if let Some(id) = id {
            if let Some(replaced) = self.replace_stylesheet(id, css) {
                return (id, Some(replaced));
            }
        }
        (self.add_stylesheet(css), None)
    }
}

/// Every registered id is one that was handed out already.
pub open spec fn ids_handed_out(m: SheetModel) -> bool {
    forall|id: u64| #[trigger] m.sheets.dom().contains(id) ==> id < m.next_id
}

/// As long as the ids have not started over, a new stylesheet gets an id that
/// no registered one has, keeps all others, and leaves every registered id
/// handed out.
pub proof fn new_ids_are_fresh(m: SheetModel, css: Seq<char>)
    requires
        ids_handed_out(m),
        m.next_id < u64::MAX,
    ensures
        !m.sheets.dom().contains(m.next_id),
        ids_handed_out(with_added(m, css)),
        forall|id: u64| #[trigger]
            m.sheets.dom().contains(id) ==> with_added(m, css).sheets[id] == m.sheets[id],
{
}

/// A registered stylesheet is found under the id that it got, with its text, and the
/// next one gets another id.
pub proof fn added_sheets_are_found(m: SheetModel, css: Seq<char>, id: u64)
    ensures
        with_added(m, css).sheets.dom().contains(m.next_id),
        with_added(m, css).sheets[m.next_id] == css,
        with_added(m, css).next_id != m.next_id,
        m.next_id < u64::MAX ==> with_added(m, css).next_id == m.next_id + 1,
        id != m.next_id ==> with_added(m, css).sheets.dom().contains(id)
            == m.sheets.dom().contains(id),
        id != m.next_id && m.sheets.dom().contains(id) ==> with_added(m, css).sheets[id]
            == m.sheets[id],
{
}

/// A replaced stylesheet has the new text. No other changes, and no id is handed out.
pub proof fn replaced_sheets_have_new_text(m: SheetModel, id: u64, css: Seq<char>, other: u64)
    requires
        m.sheets.dom().contains(id),
        other != id,
    ensures
        with_replaced(m, id, css).sheets.dom() == m.sheets.dom(),
        with_replaced(m, id, css).sheets[id] == css,
        with_replaced(m, id, css).next_id == m.next_id,
        m.sheets.dom().contains(other) ==> with_replaced(m, id, css).sheets[other]
            == m.sheets[other],
{
    assert(m.sheets.insert(id, css).dom() =~= m.sheets.dom());
}

/// Replacing a stylesheet by its old text undoes a replacement.
pub proof fn replacing_back_restores(m: SheetModel, id: u64, css: Seq<char>)
    requires
        m.sheets.dom().contains(id),
    ensures
        with_replaced(with_replaced(m, id, css), id, m.sheets[id]) == m,
{
    assert(m.sheets.insert(id, css).insert(id, m.sheets[id]) =~= m.sheets);
}

/// The initial stylesheets have the ids from zero on, in order, and nothing else is
/// registered.
pub proof fn initial_sheets_are_numbered(m: SheetModel, sources: Seq<String>, i: int, id: u64)
    requires
        registered_initially(m, sources),
        0 <= i < sources.len(),
    ensures
        m.sheets.dom().contains(i as u64),
        m.sheets[i as u64] == sources[i]@,
        id >= sources.len() ==> !m.sheets.dom().contains(id),
        m.next_id == sources.len(),
{
    assert(m.sheets[i as u64] == sources[i]@);
}

} // verus!
