//! JSON values and paths into them.
use crate::text::{parse_digits, same, split_text};
use vstd::prelude::*;
use vstd::string::StrSliceExecFns;

verus! {

/// A JSON value. Numbers that are no integers are carried as the bits of
/// their double-precision representation.
#[derive(Debug, PartialEq, Eq)]
pub enum Json {
    Null,
    Bool(bool),
    UInt(u64),
    Int(i64),
    Real(u64),
    Text(String),
    Array(Vec<Json>),
    /// Members of an object. Where a key occurs twice, the first one counts.
    Object(Vec<(String, Json)>),
}

/// What a [`Json`] value holds.
#[verifier::ext_equal]
pub enum JsonModel {
    Null,
    Bool(bool),
    UInt(u64),
    Int(i64),
    Real(u64),
    Text(Seq<char>),
    Array(Seq<JsonModel>),
    Object(Map<Seq<char>, JsonModel>),
}

/// What a JSON value holds.
pub open spec fn model_of(value: Json) -> JsonModel
    decreases value,
{
    match value {
        Json::Null => JsonModel::Null,
        Json::Bool(flag) => JsonModel::Bool(flag),
        Json::UInt(number) => JsonModel::UInt(number),
        Json::Int(number) => JsonModel::Int(number),
        Json::Real(bits) => JsonModel::Real(bits),
        Json::Text(text) => JsonModel::Text(text@),
        Json::Array(items) => JsonModel::Array(items_model(items@)),
        Json::Object(members) => JsonModel::Object(members_model(members@)),
    }
}

/// What the items of an array hold.
pub open spec fn items_model(items: Seq<Json>) -> Seq<JsonModel>
    decreases items,
{
    if items.len() == 0 {
        Seq::empty()
    } else {
        items_model(items.subrange(0, items.len() - 1)).push(model_of(items[items.len() - 1]))
    }
}

/// What the members of an object hold, by key.
pub open spec fn members_model(members: Seq<(String, Json)>) -> Map<Seq<char>, JsonModel>
    decreases members,
{
    if members.len() == 0 {
        Map::empty()
    } else {
        members_model(members.subrange(1, members.len() as int)).insert(
            members[0].0@,
            model_of(members[0].1),
        )
    }
}

impl View for Json {
    type V = JsonModel;

    open spec fn view(&self) -> JsonModel {
        model_of(*self)
    }
}

proof fn lemma_items(items: Seq<Json>)
    ensures
        items_model(items).len() == items.len(),
        forall|i: int| 0 <= i < items.len() ==> #[trigger] items_model(items)[i] == items[i]@,
    decreases items.len(),
{
    if items.len() > 0 {
        lemma_items(items.subrange(0, items.len() - 1));
    }
}

/// Whether `members` has the key `key` before the position `upto`.
spec fn has_key(members: Seq<(String, Json)>, key: Seq<char>, upto: int) -> bool {
    exists|i: int| 0 <= i < upto && (#[trigger] members[i]).0@ == key
}

proof fn lemma_first_member(members: Seq<(String, Json)>, key: Seq<char>, at: int)
    requires
        0 <= at <= members.len(),
        !has_key(members, key, at),
        at < members.len() ==> members[at].0@ == key,
    ensures
        members_model(members).dom().contains(key) == (at < members.len()),
        at < members.len() ==> members_model(members)[key] == members[at].1@,
    decreases members.len(),
{
    if members.len() > 0 && at > 0 {
        let rest = members.subrange(1, members.len() as int);
        assert(members[0].0@ != key);
        assert forall|i: int| 0 <= i < at - 1 implies (#[trigger] rest[i]).0@ != key by {
            assert(members[i + 1].0@ != key);
        }
        lemma_first_member(rest, key, at - 1);
    }
}

proof fn lemma_update_member(members: Seq<(String, Json)>, at: int, value: Json)
    requires
        0 <= at < members.len(),
        !has_key(members, members[at].0@, at),
    ensures
        members_model(members.update(at, (members[at].0, value))) == members_model(members).insert(
            members[at].0@,
            value@,
        ),
    decreases members.len(),
{
    let key = members[at].0@;
    let after = members.update(at, (members[at].0, value));
    let rest = members.subrange(1, members.len() as int);
    let rest_after = after.subrange(1, members.len() as int);
    if at == 0 {
        assert(rest_after =~= rest);
    } else {
        assert(rest_after =~= rest.update(at - 1, (rest[at - 1].0, value)));
        assert forall|i: int| 0 <= i < at - 1 implies (#[trigger] rest[i]).0@ != key by {
            assert(members[i + 1].0@ != key);
        }
        lemma_update_member(rest, at - 1, value);
        assert(members[0].0@ != key);
    }
    assert(members_model(after) =~= members_model(members).insert(key, value@));
}

proof fn lemma_push_member(members: Seq<(String, Json)>, key: String, value: Json)
    requires
        !has_key(members, key@, members.len() as int),
    ensures
        members_model(members.push((key, value))) == members_model(members).insert(key@, value@),
    decreases members.len(),
{
    let after = members.push((key, value));
    let rest_after = after.subrange(1, after.len() as int);
    if members.len() == 0 {
        assert(rest_after =~= members);
        assert(after[0] == (key, value));
    } else {
        assert(after[0] == members[0]);
        let rest = members.subrange(1, members.len() as int);
        assert(rest_after =~= rest.push((key, value)));
        assert forall|i: int| 0 <= i < rest.len() implies (#[trigger] rest[i]).0@ != key@ by {
            assert(members[i + 1].0@ != key@);
        }
        lemma_push_member(rest, key, value);
        assert(members[0].0@ != key@);
    }
    assert(members_model(after) =~= members_model(members).insert(key@, value@));
}

fn find_member(members: &Vec<(String, Json)>, key: &str) -> (found: Option<usize>)
    ensures
        match found {
            Some(at) => at < members@.len() && members@[at as int].0@ == key@ && !has_key(
                members@,
                key@,
                at as int,
            ),
            None => !has_key(members@, key@, members@.len() as int),
        },
{
    let mut i: usize = 0;
    while i < members.len()
        invariant
            i <= members@.len(),
            !has_key(members@, key@, i as int),
        decreases members@.len() - i,
    {
        if same(members[i].0.as_str(), key) {
            return Some(i);
        }
        i += 1;
    }
    None
}

impl Json {
    /// A value that holds the same.
    pub fn duplicate(&self) -> (copy: Json)
        ensures
            copy@ == self@,
        decreases self,
    {
        match self {
            Json::Null => Json::Null,
            Json::Bool(flag) => Json::Bool(*flag),
            Json::UInt(number) => Json::UInt(*number),
            Json::Int(number) => Json::Int(*number),
            Json::Real(bits) => Json::Real(*bits),
            Json::Text(text) => Json::Text(text.clone()),
            Json::Array(items) => {
                let mut copies: Vec<Json> = Vec::new();
                let mut i: usize = 0;
                while i < items.len()
                    invariant
                        i <= items@.len(),
                        items_model(copies@) == items_model(items@.subrange(0, i as int)),
                        decreases_to!(self => items),
                    decreases items@.len() - i,
                {
                    let copy = items[i].duplicate();
                    let ghost before = copies@;
                    copies.push(copy);
                    proof {
                        let taken = items@.subrange(0, i + 1);
                        assert(taken.subrange(0, i as int) =~= items@.subrange(0, i as int));
                        assert(copies@.subrange(0, copies@.len() - 1) =~= before);
                    }
                    i += 1;
                }
                proof {
                    assert(items@.subrange(0, i as int) =~= items@);
                }
                Json::Array(copies)
            },
            Json::Object(members) => {
                let mut copies: Vec<(String, Json)> = Vec::new();
                let mut i: usize = 0;
                while i < members.len()
                    invariant
                        i <= members@.len(),
                        same_members(copies@, members@.subrange(0, i as int)),
                        decreases_to!(self => members),
                    decreases members@.len() - i,
                {
                    let copy = members[i].1.duplicate();
                    copies.push((members[i].0.clone(), copy));
                    i += 1;
                }
                proof {
                    assert(members@.subrange(0, i as int) =~= members@);
                    lemma_same_members(copies@, members@);
                }
                Json::Object(copies)
            },
        }
    }
}

impl Clone for Json {
    fn clone(&self) -> (copy: Self)
        ensures
            copy@ == self@,
    {
        self.duplicate()
    }
}

spec fn same_members(a: Seq<(String, Json)>, b: Seq<(String, Json)>) -> bool {
    &&& a.len() == b.len()
    &&& forall|i: int|
        0 <= i < a.len() ==> (#[trigger] a[i]).0@ == b[i].0@ && a[i].1@ == b[i].1@
}

proof fn lemma_same_members(a: Seq<(String, Json)>, b: Seq<(String, Json)>)
    requires
        same_members(a, b),
    ensures
        members_model(a) == members_model(b),
    decreases a.len(),
{
    if a.len() > 0 {
        lemma_same_members(a.subrange(1, a.len() as int), b.subrange(1, b.len() as int));
        assert(a[0].0@ == b[0].0@);
    }
}

/// One step of a path into a JSON value.
#[derive(Debug)]
pub enum PathSegment {
    Key(String),
    Index(usize),
}

/// What a [`PathSegment`] holds.
pub enum Segment {
    Key(Seq<char>),
    Index(usize),
}

impl View for PathSegment {
    type V = Segment;

    open spec fn view(&self) -> Segment {
        match *self {
            PathSegment::Key(key) => Segment::Key(key@),
            PathSegment::Index(index) => Segment::Index(index),
        }
    }
}

/// What the segments of a path hold.
pub open spec fn segments(path: Seq<PathSegment>) -> Seq<Segment> {
    path.map_values(|segment: PathSegment| segment@)
}

/// The index that a part of a path denotes: decimal digits, perhaps behind a
/// plus sign, of a number that fits in `usize`.
pub open spec fn part_index(part: Seq<char>) -> Option<usize> {
    let digits = if part.len() > 0 && part[0] == '+' {
        part.skip(1)
    } else {
        part
    };
    match crate::text::digits_number(digits) {
        Some(number) if number <= usize::MAX => Some(number as usize),
        _ => None,
    }
}

/// The segment that a part of a path denotes: an index where it is one, else
/// a key.
pub open spec fn part_segment(part: Seq<char>) -> Segment {
    match part_index(part) {
        Some(index) => Segment::Index(index),
        None => Segment::Key(part),
    }
}

/// The segments of a dot-separated path. The empty path has none.
pub open spec fn path_segments(path: Seq<char>) -> Seq<Segment> {
    if path.len() == 0 {
        Seq::empty()
    } else {
        crate::text::split_parts(path, '.').map_values(|part: Seq<char>| part_segment(part))
    }
}

/// The index that a part of a path denotes, if it denotes one.
fn parse_index(part: &str) -> (index: Option<usize>)
    ensures
        index == part_index(part@),
{
    let start: usize = if part.unicode_len() > 0 && part.get_char(0) == '+' {
        1
    } else {
        0
    };
    proof {
        if start == 0 {
            assert(part@.skip(0) =~= part@);
        }
    }
    match parse_digits(part, start) {
        Some(value) if value <= usize::MAX as u64 => Some(value as usize),
        _ => None,
    }
}

impl PathSegment {
    /// The segment that a part of a path denotes.
    pub fn from(part: &str) -> (segment: PathSegment)
        ensures
            segment@ == part_segment(part@),
    {
        match parse_index(part) {
            Some(index) => PathSegment::Index(index),
            None => PathSegment::Key(part.to_owned()),
        }
    }
}

/// Splits a dot-separated path into its segments.
pub fn parse_path(path: &str) -> (parsed: Vec<PathSegment>)
    ensures
        segments(parsed@) == path_segments(path@),
{
    let mut parsed: Vec<PathSegment> = Vec::new();
    if path.is_empty() {
        proof {
            assert(segments(parsed@) =~= path_segments(path@));
        }
        return parsed;
    }
    let parts = split_text(path, '.');
    let mut i: usize = 0;
    while i < parts.len()
        invariant
            i <= parts@.len(),
            parsed@.len() == i,
            forall|k: int| 0 <= k < i ==> (#[trigger] parsed@[k])@ == part_segment(parts@[k]@),
        decreases parts@.len() - i,
    {
        parsed.push(PathSegment::from(parts[i].as_str()));
        i += 1;
    }
    proof {
        assert forall|k: int| 0 <= k < parts@.len() implies segments(parsed@)[k] == (
        #[trigger] path_segments(path@)[k]) by {
            assert(parsed@[k]@ == part_segment(parts@[k]@));
            assert(crate::text::texts(parts@)[k] == parts@[k]@);
        }
        assert(segments(parsed@) =~= path_segments(path@));
    }
    parsed
}

/// The value at a path: keys step into objects and indices into arrays.
pub open spec fn value_at(root: JsonModel, path: Seq<Segment>) -> Option<JsonModel>
    decreases path.len(),
{
    if path.len() == 0 {
        Some(root)
    } else {
        match (path[0], root) {
            (Segment::Key(key), JsonModel::Object(members)) => if members.dom().contains(key) {
                value_at(members[key], path.drop_first())
            } else {
                None
            },
            (Segment::Index(index), JsonModel::Array(items)) => if index < items.len() {
                value_at(items[index as int], path.drop_first())
            } else {
                None
            },
            _ => None,
        }
    }
}

/// The members of an object, or none for any other value.
pub open spec fn members_of(root: JsonModel) -> Map<Seq<char>, JsonModel> {
    match root {
        JsonModel::Object(members) => members,
        _ => Map::empty(),
    }
}

/// The items of an array, or none for any other value.
pub open spec fn items_of(root: JsonModel) -> Seq<JsonModel> {
    match root {
        JsonModel::Array(items) => items,
        _ => Seq::empty(),
    }
}

/// An array with nulls appended until `index` is in range.
pub open spec fn padded(items: Seq<JsonModel>, index: int) -> Seq<JsonModel> {
    Seq::new(
        if index < items.len() {
            items.len()
        } else {
            (index + 1) as nat
        },
        |i: int|
            if i < items.len() {
                items[i]
            } else {
                JsonModel::Null
            },
    )
}

/// The value with `value` written at a path. What stands in the way is
/// replaced: a key makes an object of what it steps into, an index an array
/// that is long enough.
pub open spec fn value_with(root: JsonModel, path: Seq<Segment>, value: JsonModel) -> JsonModel
    decreases path.len(),
{
    if path.len() == 0 {
        value
    } else {
        let rest = path.drop_first();
        match path[0] {
            Segment::Key(key) => {
                let members = members_of(root);
                let child = if members.dom().contains(key) {
                    members[key]
                } else {
                    JsonModel::Null
                };
                JsonModel::Object(members.insert(key, value_with(child, rest, value)))
            },
            Segment::Index(index) => {
                let items = padded(items_of(root), index as int);
                JsonModel::Array(
                    items.update(index as int, value_with(items[index as int], rest, value)),
                )
            },
        }
    }
}

/// Whether every index of a path can be in range of an array.
pub open spec fn indices_fit(path: Seq<Segment>) -> bool {
    forall|i: int| 0 <= i < path.len() ==> #[trigger] path[i] != Segment::Index(usize::MAX)
}

/// Reads the value at the segments of `path` from `at` on.
fn read_from(root: &Json, path: &Vec<PathSegment>, at: usize) -> (value: Option<Json>)
    requires
        at <= path@.len(),
    ensures
        match value {
            Some(value) => value_at(root@, segments(path@).skip(at as int)) == Some(value@),
            None => value_at(root@, segments(path@).skip(at as int)) is None,
        },
    decreases path@.len() - at,
{
    let ghost left = segments(path@).skip(at as int);
    if at == path.len() {
        return Some(root.duplicate());
    }
    proof {
        assert(left.drop_first() =~= segments(path@).skip(at + 1));
    }
    match (&path[at], root) {
        (PathSegment::Key(key), Json::Object(members)) => {
            match find_member(members, key.as_str()) {
                Some(found) => {
                    proof {
                        lemma_first_member(members@, key@, found as int);
                    }
                    read_from(&members[found].1, path, at + 1)
                },
                None => {
                    proof {
                        lemma_first_member(members@, key@, members@.len() as int);
                    }
                    None
                },
            }
        },
        (PathSegment::Index(index), Json::Array(items)) => {
            proof {
                lemma_items(items@);
            }
            if *index < items.len() {
                read_from(&items[*index], path, at + 1)
            } else {
                None
            }
        },
        _ => None,
    }
}

/// Reads the value at `path`.
pub fn get_path(root: &Json, path: &Vec<PathSegment>) -> (value: Option<Json>)
    ensures
        match value {
            Some(value) => value_at(root@, segments(path@)) == Some(value@),
            None => value_at(root@, segments(path@)) is None,
        },
{
    proof {
        assert(segments(path@).skip(0) =~= segments(path@));
    }
    read_from(root, path, 0)
}

/// Writes `value` at the segments of `path` from `at` on.
fn write_from(root: &mut Json, path: &Vec<PathSegment>, at: usize, value: Json)
    requires
        at <= path@.len(),
        indices_fit(segments(path@)),
    ensures
        final(root)@ == value_with(old(root)@, segments(path@).skip(at as int), value@),
    decreases path@.len() - at,
{
    let ghost left = segments(path@).skip(at as int);
    let ghost before = root@;
    let ghost written = value@;
    if at == path.len() {
        *root = value;
        return ;
    }
    proof {
        assert(left.drop_first() =~= segments(path@).skip(at + 1));
        assert(segments(path@)[at as int] == left[0]);
    }
    match &path[at] {
        PathSegment::Key(key) => {
            if !matches!(root, Json::Object(_)) {
                *root = Json::Object(Vec::new());
            }
            if let Json::Object(members) = root {
                let ghost start = members@;
                assert(members_model(start) =~= members_of(before));
                let slot: usize = match find_member(members, key.as_str()) {
                    Some(found) => {
                        proof {
                            lemma_first_member(start, key@, found as int);
                        }
                        found
                    },
                    None => {
                        members.push((key.clone(), Json::Null));
                        proof {
                            lemma_first_member(start, key@, start.len() as int);
                            lemma_push_member(start, members@.last().0, Json::Null);
                        }
                        members.len() - 1
                    },
                };
                let ghost ready = members@;
                write_from(&mut members[slot].1, path, at + 1, value);
                proof {
                    let child = members@[slot as int].1;
                    assert(members@ =~= ready.update(slot as int, (ready[slot as int].0, child)));
                    lemma_update_member(ready, slot as int, child);
                    assert(members_model(members@) =~= members_of(before).insert(key@, child@));
                }
            }
        },
        PathSegment::Index(index) => {
            if !matches!(root, Json::Array(_)) {
                *root = Json::Array(Vec::new());
            }
            if let Json::Array(items) = root {
                let ghost start = items@;
                proof {
                    lemma_items(start);
                    assert(items_model(start) =~= items_of(before));
                }
                while items.len() <= *index
                    invariant
                        *index < usize::MAX,
                        start.len() <= items@.len(),
                        items@.len() <= start.len() || items@.len() <= *index + 1,
                        forall|k: int| 0 <= k < start.len() ==> items@[k] == start[k],
                        forall|k: int| start.len() <= k < items@.len() ==> items@[k] == Json::Null,
                    decreases *index + 1 - items@.len(),
                {
                    items.push(Json::Null);
                }
                let ghost ready = items@;
                proof {
                    lemma_items(ready);
                    assert(items_model(ready) =~= padded(items_of(before), *index as int));
                }
                write_from(&mut items[*index], path, at + 1, value);
                proof {
                    lemma_items(items@);
                    assert(items_model(items@) =~= items_model(ready).update(
                        *index as int,
                        items@[*index as int]@,
                    ));
                }
            }
        },
    }
}

/// Writes `value` at `path`. What stands in the way is replaced.
pub fn set_path(root: &mut Json, path: &Vec<PathSegment>, value: Json)
    requires
        indices_fit(segments(path@)),
    ensures
        final(root)@ == value_with(old(root)@, segments(path@), value@),
{
    proof {
        assert(segments(path@).skip(0) =~= segments(path@));
    }
    write_from(root, path, 0, value);
}

/// A value that was written at a path is read back there.
pub proof fn written_value_is_read(root: JsonModel, path: Seq<Segment>, value: JsonModel)
    ensures
        value_at(value_with(root, path, value), path) == Some(value),
    decreases path.len(),
{
    if path.len() > 0 {
        let rest = path.drop_first();
        match path[0] {
            Segment::Key(key) => {
                let members = members_of(root);
                let child = if members.dom().contains(key) {
                    members[key]
                } else {
                    JsonModel::Null
                };
                written_value_is_read(child, rest, value);
            },
            Segment::Index(index) => {
                let items = padded(items_of(root), index as int);
                written_value_is_read(items[index as int], rest, value);
            },
        }
    }
}

/// Whether two paths part ways at a step of the same kind: a common start,
/// then two different keys or two different indices.
pub open spec fn diverge(a: Seq<Segment>, b: Seq<Segment>) -> bool
    decreases a.len(),
{
    if a.len() == 0 || b.len() == 0 {
        false
    } else if a[0] == b[0] {
        diverge(a.drop_first(), b.drop_first())
    } else {
        (a[0] is Key) == (b[0] is Key)
    }
}

/// Writing at one path leaves alone what is found at a path that diverges
/// from it.
pub proof fn write_keeps_other_paths(
    root: JsonModel,
    path: Seq<Segment>,
    value: JsonModel,
    other: Seq<Segment>,
)
    requires
        diverge(path, other),
        value_at(root, other) is Some,
    ensures
        value_at(value_with(root, path, value), other) == value_at(root, other),
    decreases path.len(),
{
    let rest = path.drop_first();
    if path[0] == other[0] {
        match path[0] {
            Segment::Key(key) => {
                write_keeps_other_paths(members_of(root)[key], rest, value, other.drop_first());
            },
            Segment::Index(index) => {
                write_keeps_other_paths(
                    items_of(root)[index as int],
                    rest,
                    value,
                    other.drop_first(),
                );
            },
        }
    }
}

/// The last of two writes at the same path wins, as if the first had not
/// happened.
pub proof fn last_write_wins(root: JsonModel, path: Seq<Segment>, first: JsonModel, last: JsonModel)
    ensures
        value_at(value_with(value_with(root, path, first), path, last), path) == Some(last),
        value_with(value_with(root, path, first), path, last) == value_with(root, path, last),
    decreases path.len(),
{
    written_value_is_read(value_with(root, path, first), path, last);
    if path.len() > 0 {
        let rest = path.drop_first();
        match path[0] {
            Segment::Key(key) => {
                let members = members_of(root);
                let child = if members.dom().contains(key) {
                    members[key]
                } else {
                    JsonModel::Null
                };
                last_write_wins(child, rest, first, last);
                assert(members.insert(key, value_with(child, rest, first)).insert(
                    key,
                    value_with(child, rest, last),
                ) =~= members.insert(key, value_with(child, rest, last)));
            },
            Segment::Index(index) => {
                let at = index as int;
                let items = padded(items_of(root), at);
                last_write_wins(items[at], rest, first, last);
                let once = items.update(at, value_with(items[at], rest, first));
                assert(padded(once, at) =~= once);
                assert(once.update(at, value_with(items[at], rest, last)) =~= items.update(
                    at,
                    value_with(items[at], rest, last),
                ));
            },
        }
    }
}

/// The decimal notation of a number that fits denotes the index of that number,
/// with or without a plus sign. A part that starts with anything but a digit or a
/// plus sign denotes itself as a key.
pub proof fn numbers_denote_indices(index: usize, part: Seq<char>)
    ensures
        part_segment(crate::text::decimal(index as nat)) == Segment::Index(index),
        part_segment(seq!['+'] + crate::text::decimal(index as nat)) == Segment::Index(index),
        part.len() == 0 || !('0' <= part[0] <= '9' || part[0] == '+') ==> part_segment(part)
            == Segment::Key(part),
{
    let digits = crate::text::decimal(index as nat);
    crate::text::decimal_is_read_back(index as nat);
    assert('0' <= digits[0] <= '9');
    assert((seq!['+'] + digits).skip(1) =~= digits);
}

/// A number that does not fit denotes no index but itself as a key.
pub proof fn huge_numbers_are_keys(number: nat)
    requires
        number > usize::MAX,
    ensures
        part_segment(crate::text::decimal(number)) == Segment::Key(crate::text::decimal(number)),
{
    crate::text::decimal_is_read_back(number);
    assert('0' <= crate::text::decimal(number)[0] <= '9');
}

/// A dot and a part behind a path step one segment further; a part alone is one
/// segment. The empty path has no segment.
pub proof fn dots_separate_segments(path: Seq<char>, part: Seq<char>)
    requires
        forall|k: int| 0 <= k < part.len() ==> #[trigger] part[k] != '.',
    ensures
        path_segments(Seq::empty()) == Seq::<Segment>::empty(),
        part.len() > 0 ==> path_segments(part) == seq![part_segment(part)],
        path.len() > 0 ==> path_segments(path + seq!['.'] + part) == path_segments(path).push(
            part_segment(part),
        ),
{
    crate::text::appended_part_is_last(path, part, '.');
    assert(crate::text::split_parts(part, '.').map_values(|part: Seq<char>| part_segment(part))
        =~= seq![part_segment(part)]);
    assert(crate::text::split_parts(path, '.').push(part).map_values(
        |part: Seq<char>| part_segment(part),
    ) =~= crate::text::split_parts(path, '.').map_values(
        |part: Seq<char>| part_segment(part),
    ).push(part_segment(part)));
}

/// Reading along two paths one after the other is reading along the path made of
/// both.
pub proof fn reads_compose(root: JsonModel, first: Seq<Segment>, second: Seq<Segment>)
    ensures
        value_at(root, first + second) == (match value_at(root, first) {
            Some(value) => value_at(value, second),
            None => None,
        }),
    decreases first.len(),
{
    if first.len() == 0 {
        assert(first + second =~= second);
    } else {
        assert((first + second).drop_first() =~= first.drop_first() + second);
        match (first[0], root) {
            (Segment::Key(key), JsonModel::Object(members)) => {
                if members.dom().contains(key) {
                    reads_compose(members[key], first.drop_first(), second);
                }
            },
            (Segment::Index(index), JsonModel::Array(items)) => {
                if index < items.len() {
                    reads_compose(items[index as int], first.drop_first(), second);
                }
            },
            _ => {},
        }
    }
}

/// Writing along a path that starts where a value is found writes into that
/// value.
pub proof fn writes_go_into_found_value(
    root: JsonModel,
    first: Seq<Segment>,
    second: Seq<Segment>,
    value: JsonModel,
)
    requires
        value_at(root, first) is Some,
    ensures
        value_at(value_with(root, first + second, value), first) == Some(
            value_with(value_at(root, first)->0, second, value),
        ),
    decreases first.len(),
{
    if first.len() == 0 {
        assert(first + second =~= second);
    } else {
        let rest = first.drop_first();
        assert((first + second).drop_first() =~= rest + second);
        match (first[0], root) {
            (Segment::Key(key), JsonModel::Object(members)) => {
                writes_go_into_found_value(members[key], rest, second, value);
            },
            (Segment::Index(index), JsonModel::Array(items)) => {
                writes_go_into_found_value(items[index as int], rest, second, value);
                assert(padded(items, index as int)[index as int] == items[index as int]);
            },
            _ => {},
        }
    }
}

/// An index reads the item at that place of a list and nothing beyond its end;
/// it reads nothing from any other value. A key reads the member of that name of
/// an object and nothing from any other value.
pub proof fn segments_read_their_place(root: JsonModel, index: usize, key: Seq<char>)
    ensures
        value_at(root, seq![Segment::Index(index)]) == (match root {
            JsonModel::Array(items) => if index < items.len() {
                Some(items[index as int])
            } else {
                None
            },
            _ => None,
        }),
        value_at(root, seq![Segment::Key(key)]) == (match root {
            JsonModel::Object(members) => if members.dom().contains(key) {
                Some(members[key])
            } else {
                None
            },
            _ => None,
        }),
        value_at(root, Seq::empty()) == Some(root),
{
    reveal_with_fuel(value_at, 2);
    assert(seq![Segment::Index(index)].drop_first() =~= Seq::empty());
    assert(seq![Segment::Key(key)].drop_first() =~= Seq::empty());
}

/// Writing at an index of a list keeps all other items; a list that is too short
/// grows to hold the item, with nulls in between. Writing at a key of an object
/// keeps all other members.
pub proof fn segments_write_their_place(
    root: JsonModel,
    index: usize,
    key: Seq<char>,
    value: JsonModel,
)
    ensures
        root matches JsonModel::Array(items) ==> (value_with(
            root,
            seq![Segment::Index(index)],
            value,
        ) matches JsonModel::Array(after) && {
            &&& after.len() == (if index < items.len() {
                items.len() as int
            } else {
                index + 1
            })
            &&& after[index as int] == value
            &&& forall|i: int|
                0 <= i < items.len() && i != index ==> #[trigger] after[i] == items[i]
            &&& forall|i: int| items.len() <= i < index ==> #[trigger] after[i] == JsonModel::Null
        }),
        root matches JsonModel::Object(members) ==> value_with(
            root,
            seq![Segment::Key(key)],
            value,
        ) == JsonModel::Object(members.insert(key, value)),
{
    reveal_with_fuel(value_with, 2);
    assert(seq![Segment::Index(index)].drop_first() =~= Seq::empty());
    assert(seq![Segment::Key(key)].drop_first() =~= Seq::empty());
}

} // verus!
