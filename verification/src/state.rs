//! Reactive state: the host's copy of the state tree and the patches that
//! the script side has not seen yet.
use crate::json::{get_path, parse_path, set_path, Json, JsonModel};
use vstd::prelude::*;

verus! {

/// The state tree with the patches queued by host writes.
#[derive(Debug)]
pub struct StateStore {
    value: Json,
    patches: Vec<(String, Json)>,
    dirty: bool,
}

/// What a [`StateStore`] holds.
#[verifier::ext_equal]
pub struct StateModel {
    /// The full state tree.
    pub value: JsonModel,
    /// Path and value of each write since the last drain, in order.
    pub patches: Seq<(Seq<char>, JsonModel)>,
    /// Whether patches are queued.
    pub dirty: bool,
}

/// What queued patches hold.
pub open spec fn patch_models(patches: Seq<(String, Json)>) -> Seq<(Seq<char>, JsonModel)> {
    patches.map_values(|patch: (String, Json)| (patch.0@, patch.1@))
}

impl View for StateStore {
    type V = StateModel;

    closed spec fn view(&self) -> StateModel {
        StateModel {
            value: self.value@,
            patches: patch_models(self.patches@),
            dirty: self.dirty,
        }
    }
}

/// The state tree with `value` written at a dot-separated path.
pub open spec fn tree_with(tree: JsonModel, path: Seq<char>, value: JsonModel) -> JsonModel {
    crate::json::value_with(tree, crate::json::path_segments(path), value)
}

/// The value at a dot-separated path of the state tree.
pub open spec fn tree_at(tree: JsonModel, path: Seq<char>) -> Option<JsonModel> {
    crate::json::value_at(tree, crate::json::path_segments(path))
}

/// The state after the host wrote `value` at `path`.
pub open spec fn host_write(m: StateModel, path: Seq<char>, value: JsonModel) -> StateModel {
    StateModel {
        value: tree_with(m.value, path, value),
        patches: m.patches.push((path, value)),
        dirty: true,
    }
}

/// The state after the script side wrote `value` at `path`: nothing is queued
/// for it.
pub open spec fn script_write(m: StateModel, path: Seq<char>, value: JsonModel) -> StateModel {
    StateModel { value: tree_with(m.value, path, value), ..m }
}

/// The state after the queued patches were handed out.
pub open spec fn drained(m: StateModel) -> StateModel {
    StateModel { patches: Seq::empty(), dirty: false, ..m }
}

impl StateStore {
    /// The dirty flag tells whether patches are queued.
    pub open spec fn wf(&self) -> bool {
        self@.dirty == (self@.patches.len() > 0)
    }

    /// A store that holds `initial`, with nothing queued.
    pub fn new(initial: Json) -> (store: Self)
        ensures
            store.wf(),
            store@ == (StateModel { value: initial@, patches: Seq::empty(), dirty: false }),
    {
        let store = StateStore { value: initial, patches: Vec::new(), dirty: false };
        proof {
            assert(store@.patches =~= Seq::empty());
        }
        store
    }

    /// Writes `value` at the dot-separated `path` and queues a patch.
    pub fn set(&mut self, path: &str, value: Json)
        requires
            old(self).wf(),
            crate::json::indices_fit(crate::json::path_segments(path@)),
        ensures
            final(self).wf(),
            final(self)@ == host_write(old(self)@, path@, value@),
    {
        let parsed = parse_path(path);
        let copy = value.duplicate();
        set_path(&mut self.value, &parsed, copy);
        let ghost before = self.patches@;
        self.patches.push((path.to_owned(), value));
        self.dirty = true;
        proof {
            assert(patch_models(self.patches@) =~= patch_models(before).push((path@, value@)));
        }
    }

    /// Reads the value at the dot-separated `path`.
    pub fn get(&self, path: &str) -> (value: Option<Json>)
        ensures
            match value {
                Some(value) => tree_at(self@.value, path@) == Some(value@),
                None => tree_at(self@.value, path@) is None,
            },
    {
        get_path(&self.value, &parse_path(path))
    }

    /// A copy of the full state tree.
    pub fn snapshot(&self) -> (tree: Json)
        ensures
            tree@ == self@.value,
    {
        self.value.duplicate()
    }

    /// Whether patches are queued.
    pub fn is_dirty(&self) -> (dirty: bool)
        ensures
            dirty == self@.dirty,
    {
        self.dirty
    }

    /// Hands out the queued patches in the order they were written and clears
    /// the queue.
    pub fn drain_patches(&mut self) -> (queued: Vec<(String, Json)>)
        requires
            old(self).wf(),
        ensures
            final(self).wf(),
            patch_models(queued@) == old(self)@.patches,
            final(self)@ == drained(old(self)@),
    {
        let mut queued: Vec<(String, Json)> = Vec::new();
        if !self.dirty {
            proof {
                assert(patch_models(queued@) =~= self@.patches);
                assert(self@.patches =~= Seq::empty());
            }
            return queued;
        }
        std::mem::swap(&mut queued, &mut self.patches);
        self.dirty = false;
        proof {
            assert(self@.patches =~= Seq::empty());
        }
        queued
    }

    /// Mirrors a write of the script side without queuing it, so that it is
    /// not sent back.
    pub fn mirror_js_write(&mut self, path: &str, value: Json)
        requires
            crate::json::indices_fit(crate::json::path_segments(path@)),
        ensures
            final(self)@ == script_write(old(self)@, path@, value@),
    {
        let parsed = parse_path(path);
        set_path(&mut self.value, &parsed, value);
    }
}

/// What the host writes at a path it reads back there.
pub proof fn set_then_get(m: StateModel, path: Seq<char>, value: JsonModel)
    ensures
        tree_at(host_write(m, path, value).value, path) == Some(value),
{
    crate::json::written_value_is_read(m.value, crate::json::path_segments(path), value);
}

/// A write leaves alone what is found at a path that diverges from it.
pub proof fn set_keeps_other_paths(
    m: StateModel,
    path: Seq<char>,
    value: JsonModel,
    other: Seq<char>,
)
    requires
        crate::json::diverge(crate::json::path_segments(path), crate::json::path_segments(other)),
        tree_at(m.value, other) is Some,
    ensures
        tree_at(host_write(m, path, value).value, other) == tree_at(m.value, other),
{
    crate::json::write_keeps_other_paths(
        m.value,
        crate::json::path_segments(path),
        value,
        crate::json::path_segments(other),
    );
}

/// Writing at the empty path replaces the whole tree.
pub proof fn empty_path_replaces_tree(m: StateModel, value: JsonModel)
    ensures
        host_write(m, Seq::empty(), value).value == value,
{
}

/// A tree with patches applied one after the other.
pub open spec fn replayed(
    tree: JsonModel,
    patches: Seq<(Seq<char>, JsonModel)>,
) -> JsonModel
    decreases patches.len(),
{
    if patches.len() == 0 {
        tree
    } else {
        tree_with(replayed(tree, patches.drop_last()), patches.last().0, patches.last().1)
    }
}

/// The patches lead a reader of the last drained tree to the present tree:
/// whenever applying the queued patches to `tree` gives the state tree, it
/// still does after another host write.
pub proof fn patches_track_writes(
    tree: JsonModel,
    m: StateModel,
    path: Seq<char>,
    value: JsonModel,
)
    requires
        replayed(tree, m.patches) == m.value,
    ensures
        ({
            let after = host_write(m, path, value);
            replayed(tree, after.patches) == after.value
        }),
{
    assert(m.patches.push((path, value)).drop_last() =~= m.patches);
}

/// A write of the host queues exactly one patch, of its own path and value, behind
/// those that wait; a write of the script side queues none. Both write the same
/// value at the same place.
pub proof fn only_host_writes_are_queued(m: StateModel, path: Seq<char>, value: JsonModel)
    ensures
        host_write(m, path, value).patches == m.patches.push((path, value)),
        host_write(m, path, value).dirty,
        script_write(m, path, value).patches == m.patches,
        script_write(m, path, value).dirty == m.dirty,
        host_write(m, path, value).value == script_write(m, path, value).value,
        tree_at(script_write(m, path, value).value, path) == Some(value),
{
    set_then_get(m, path, value);
}

/// Handing out the patches empties the queue and leaves the tree alone.
pub proof fn draining_keeps_the_tree(m: StateModel)
    ensures
        drained(m).value == m.value,
        drained(m).patches.len() == 0,
        !drained(m).dirty,
{
}

/// A path that ends in a number reaches that item of the list which the path
/// before it reaches: it is read there for every index below the length, and
/// written there with the length and all other items kept.
pub proof fn numbers_reach_list_items(
    m: StateModel,
    path: Seq<char>,
    index: usize,
    value: JsonModel,
)
    requires
        path.len() > 0,
        tree_at(m.value, path) matches Some(JsonModel::Array(items)) && index < items.len(),
    ensures
        ({
            let item = path + seq!['.'] + crate::text::decimal(index as nat);
            let items = tree_at(m.value, path)->0->Array_0;
            &&& tree_at(m.value, item) == Some(items[index as int])
            &&& tree_at(host_write(m, item, value).value, path) == Some(
                JsonModel::Array(items.update(index as int, value)),
            )
        }),
{
    let digits = crate::text::decimal(index as nat);
    let item = path + seq!['.'] + digits;
    let items = tree_at(m.value, path)->0->Array_0;
    let list = JsonModel::Array(items);
    let segments = crate::json::path_segments(path);
    let last = seq![crate::json::Segment::Index(index)];
    crate::text::decimal_is_read_back(index as nat);
    crate::json::numbers_denote_indices(index, path);
    crate::json::dots_separate_segments(path, digits);
    assert(crate::json::path_segments(item) =~= segments + last);
    crate::json::reads_compose(m.value, segments, last);
    crate::json::segments_read_their_place(list, index, path);
    crate::json::writes_go_into_found_value(m.value, segments, last, value);
    crate::json::segments_write_their_place(list, index, path, value);
    let after = crate::json::value_with(list, last, value);
    assert(after->Array_0 =~= items.update(index as int, value));
}

/// A path that ends in a name reaches that member of the object which the path
/// before it reaches: it is read there, and written there with all other members
/// kept.
pub proof fn names_reach_members(
    m: StateModel,
    path: Seq<char>,
    name: Seq<char>,
    value: JsonModel,
)
    requires
        path.len() > 0,
        tree_at(m.value, path) matches Some(JsonModel::Object(_)),
        crate::json::part_segment(name) == crate::json::Segment::Key(name),
        forall|k: int| 0 <= k < name.len() ==> #[trigger] name[k] != '.',
    ensures
        ({
            let member = path + seq!['.'] + name;
            let members = tree_at(m.value, path)->0->Object_0;
            &&& tree_at(m.value, member) == (if members.dom().contains(name) {
                Some(members[name])
            } else {
                None
            })
            &&& tree_at(host_write(m, member, value).value, path) == Some(
                JsonModel::Object(members.insert(name, value)),
            )
        }),
{
    let member = path + seq!['.'] + name;
    let members = tree_at(m.value, path)->0->Object_0;
    let object = JsonModel::Object(members);
    let segments = crate::json::path_segments(path);
    let last = seq![crate::json::Segment::Key(name)];
    crate::json::dots_separate_segments(path, name);
    assert(crate::json::path_segments(member) =~= segments + last);
    crate::json::reads_compose(m.value, segments, last);
    crate::json::segments_read_their_place(object, 0, name);
    crate::json::writes_go_into_found_value(m.value, segments, last, value);
    crate::json::segments_write_their_place(object, 0, name, value);
}

} // verus!
