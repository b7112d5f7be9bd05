//! Tracks `<img>` nodes so that `load` and `error` events can be dispatched
//! on them.
//!
//! A node is registered each time its `src` changes. Whether its image was
//! decoded is read off the document, and failed URLs come from the resource
//! provider; each transition is reported once per node and URL.
use crate::net::FetchEvent;
use crate::registry::Registry;
use crate::text::same;
use crate::urls::join_url;
use vstd::prelude::*;

verus! {

/// State per `<img>` node.
#[derive(Debug)]
pub struct ImgEntry {
    /// The URL that the node is waiting on.
    pub resolved_url: String,
    /// A `load` event was dispatched for this node and URL.
    pub loaded_dispatched: bool,
    /// An `error` event was dispatched for this node and URL.
    pub errored_dispatched: bool,
}

/// What an [`ImgEntry`] holds.
pub struct ImgModel {
    pub url: Seq<char>,
    pub loaded: bool,
    pub errored: bool,
}

impl View for ImgEntry {
    type V = ImgModel;

    open spec fn view(&self) -> ImgModel {
        ImgModel {
            url: self.resolved_url@,
            loaded: self.loaded_dispatched,
            errored: self.errored_dispatched,
        }
    }
}

/// Event for an image lifecycle transition.
#[derive(Debug, Clone, Copy, PartialEq, Eq, Structural)]
pub enum ImgEvent {
    Load { node_id: usize },
    Error { node_id: usize },
}

/// What the document holds for a watched node.
#[derive(Debug, Clone, Copy, PartialEq, Eq, Structural)]
pub enum ImgNode {
    /// The node is gone.
    Missing,
    /// The node is no element.
    NotElement,
    /// The node is an element, with or without a decoded image.
    Element { has_image: bool },
}

/// The watched nodes and the URLs that failed.
pub struct ImgWatcher {
    entries: Registry<ImgEntry>,
    failed_urls: Vec<String>,
}

/// What watched entries hold, with their ids.
pub open spec fn img_models(entries: Seq<(usize, ImgEntry)>) -> Seq<(usize, ImgModel)> {
    entries.map_values(|entry: (usize, ImgEntry)| (entry.0, entry.1@))
}

/// What an [`ImgWatcher`] holds.
#[verifier::ext_equal]
pub struct WatchModel {
    /// Tracked nodes in the order they were first registered.
    pub watched: Seq<(usize, ImgModel)>,
    /// The URLs whose fetch failed.
    pub failed: Set<Seq<char>>,
}

/// The URLs among `urls`.
pub open spec fn url_set(urls: Seq<String>) -> Set<Seq<char>> {
    Set::new(|url: Seq<char>| exists|i: int| 0 <= i < urls.len() && (#[trigger] urls[i])@ == url)
}

/// The URLs of the failed fetches among `events`.
pub open spec fn failures(events: Seq<FetchEvent>) -> Set<Seq<char>> {
    Set::new(
        |url: Seq<char>|
            exists|i: int|
                0 <= i < events.len() && !(#[trigger] events[i]).ok && events[i].resolved_url@
                    == url,
    )
}

impl View for ImgWatcher {
    type V = WatchModel;

    closed spec fn view(&self) -> WatchModel {
        WatchModel { watched: img_models(self.entries@), failed: url_set(self.failed_urls@) }
    }
}

/// The entries after the node `id` got the URL `url`. The same URL again
/// changes nothing; a new one starts without dispatched events.
pub open spec fn registered(watched: Seq<(usize, ImgModel)>, id: usize, url: Seq<char>) -> Seq<
    (usize, ImgModel),
> {
    let fresh = ImgModel { url, loaded: false, errored: false };
    match crate::registry::lookup(watched, id) {
        Some(entry) => if entry.url == url {
            watched
        } else {
            watched.update(crate::registry::slot_of(watched, id), (id, fresh))
        },
        None => watched.push((id, fresh)),
    }
}

/// The entries without the node `id`.
pub open spec fn cleared(watched: Seq<(usize, ImgModel)>, id: usize) -> Seq<(usize, ImgModel)> {
    if crate::registry::has_id(watched, id) {
        watched.remove(crate::registry::slot_of(watched, id))
    } else {
        watched
    }
}

/// The entries after the `src` attribute of the node `id` became `src`, which
/// stands for the URL `resolved`. An empty `src`, or one that stands for no URL,
/// leaves nothing to wait for.
pub open spec fn sourced(
    watched: Seq<(usize, ImgModel)>,
    id: usize,
    src: Seq<char>,
    resolved: Option<Seq<char>>,
) -> Seq<(usize, ImgModel)> {
    match resolved {
        Some(url) => if src.len() == 0 {
            cleared(watched, id)
        } else {
            registered(watched, id, url)
        },
        None => cleared(watched, id),
    }
}

/// The event that an entry gives rise to.
pub open spec fn img_event(id: usize, entry: ImgModel, node: ImgNode, failed: Set<Seq<char>>) -> Option<
    ImgEvent,
> {
    match node {
        ImgNode::Element { has_image } => if has_image && !entry.loaded {
            Some(ImgEvent::Load { node_id: id })
        } else if !entry.errored && failed.contains(entry.url) {
            Some(ImgEvent::Error { node_id: id })
        } else {
            None
        },
        _ => None,
    }
}

/// The entry with `event` noted as dispatched.
pub open spec fn noted(entry: ImgModel, event: Option<ImgEvent>) -> ImgModel {
    match event {
        Some(ImgEvent::Load { .. }) => ImgModel { loaded: true, ..entry },
        Some(ImgEvent::Error { .. }) => ImgModel { errored: true, ..entry },
        None => entry,
    }
}

/// The events of the first `upto` entries, in order.
pub open spec fn pending_events(
    watched: Seq<(usize, ImgModel)>,
    nodes: Seq<ImgNode>,
    failed: Set<Seq<char>>,
    upto: int,
) -> Seq<ImgEvent>
    decreases upto,
{
    if upto <= 0 {
        Seq::empty()
    } else {
        let before = pending_events(watched, nodes, failed, upto - 1);
        let (id, entry) = watched[upto - 1];
        match img_event(id, entry, nodes[upto - 1], failed) {
            Some(event) => before.push(event),
            None => before,
        }
    }
}

/// What is left of the first `upto` entries: missing nodes are dropped, and
/// dispatched events are noted.
pub open spec fn remaining(
    watched: Seq<(usize, ImgModel)>,
    nodes: Seq<ImgNode>,
    failed: Set<Seq<char>>,
    upto: int,
) -> Seq<(usize, ImgModel)>
    decreases upto,
{
    if upto <= 0 {
        Seq::empty()
    } else {
        let before = remaining(watched, nodes, failed, upto - 1);
        let (id, entry) = watched[upto - 1];
        if nodes[upto - 1] is Missing {
            before
        } else {
            before.push((id, noted(entry, img_event(id, entry, nodes[upto - 1], failed))))
        }
    }
}

impl ImgWatcher {
    /// No node is watched twice.
    pub open spec fn wf(&self) -> bool {
        crate::registry::distinct_ids(self@.watched)
    }

    /// A watcher that tracks nothing.
    pub fn new() -> (watcher: Self)
        ensures
            watcher.wf(),
            watcher@ == (WatchModel { watched: Seq::empty(), failed: Set::empty() }),
    {
        let watcher = ImgWatcher { entries: Registry::new(), failed_urls: Vec::new() };
        proof {
            assert(watcher@.watched =~= Seq::empty());
            assert(watcher@.failed =~= Set::empty());
        }
        watcher
    }

    /// Tracks `node_id` with `resolved_url`. The same URL again keeps what was
    /// dispatched; a new one starts over.
    pub fn register(&mut self, node_id: usize, resolved_url: String)
        requires
            old(self).wf(),
        ensures
            final(self).wf(),
            final(self)@ == (WatchModel {
                watched: registered(old(self)@.watched, node_id, resolved_url@),
                ..old(self)@
            }),
    {
        proof {
            lemma_img_ids(self.entries@);
            lemma_img_lookup(self.entries@, node_id);
        }
        if let Some(existing) = self.entries.get(node_id) {
            if same(existing.resolved_url.as_str(), resolved_url.as_str()) {
                return ;
            }
        }
        let ghost before = self.entries@;
        let entry = ImgEntry {
            resolved_url,
            loaded_dispatched: false,
            errored_dispatched: false,
        };
        self.entries.insert(node_id, entry);
        proof {
            assert(img_models(self.entries@) =~= registered(
                img_models(before),
                node_id,
                resolved_url@,
            ));
            lemma_img_ids(self.entries@);
        }
    }

    /// Stops tracking a node.
    pub fn clear(&mut self, node_id: usize)
        requires
            old(self).wf(),
        ensures
            final(self).wf(),
            final(self)@ == (WatchModel {
                watched: cleared(old(self)@.watched, node_id),
                ..old(self)@
            }),
    {
        let ghost before = self.entries@;
        proof {
            lemma_img_ids(self.entries@);
            lemma_img_lookup(self.entries@, node_id);
        }
        let _removed = self.entries.remove(node_id);
        proof {
            if crate::registry::has_id(before, node_id) {
                let slot = crate::registry::slot_of(before, node_id);
                assert(img_models(self.entries@) =~= img_models(before).remove(slot));
            }
            lemma_img_ids(self.entries@);
        }
    }

    /// Takes note that the `src` attribute of a node became `src` in a document
    /// with the base URL `base_url`.
    pub fn set_source(&mut self, node_id: usize, src: &str, base_url: &str)
        requires
            old(self).wf(),
        ensures
            final(self).wf(),
            final(self)@ == (WatchModel {
                watched: sourced(
                    old(self)@.watched,
                    node_id,
                    src@,
                    crate::urls::joined_url(base_url@, src@),
                ),
                ..old(self)@
            }),
    {
        self.source_resolved(node_id, src, join_url(base_url, src));
    }

    /// Takes note that the `src` attribute of a node became `src`, which stands
    /// for the URL `resolved`. The node is tracked with that URL; with an empty
    /// `src`, or one that stands for no URL, it is no longer tracked.
    pub fn source_resolved(&mut self, node_id: usize, src: &str, resolved: Option<String>)
        requires
            old(self).wf(),
        ensures
            final(self).wf(),
            final(self)@ == (WatchModel {
                watched: sourced(
                    old(self)@.watched,
                    node_id,
                    src@,
                    match resolved {
                        Some(url) => Some(url@),
                        None => None,
                    },
                ),
                ..old(self)@
            }),
    {
        match resolved {
            Some(url) => if same(src, "") {
                self.clear(node_id);
            } else {
                self.register(node_id, url);
            },
            None => self.clear(node_id),
        }
        proof {
            reveal_strlit("");
            if src@.len() == 0 {
                assert(src@ =~= ""@);
            }
        }
    }

    /// Notes the URLs of failed fetches. Successful ones need no note.
    pub fn ingest_fetch_events(&mut self, events: Vec<FetchEvent>)
        requires
            old(self).wf(),
        ensures
            final(self).wf(),
            final(self)@ == (WatchModel {
                failed: old(self)@.failed.union(failures(events@)),
                ..old(self)@
            }),
    {
        let mut i: usize = 0;
        proof {
            assert(self@.failed =~= old(self)@.failed.union(failures(events@.take(0))));
        }
        while i < events.len()
            invariant
                self.wf(),
                i <= events@.len(),
                self@.watched == old(self)@.watched,
                self@.failed == old(self)@.failed.union(failures(events@.take(i as int))),
            decreases events@.len() - i,
        {
            let ghost before = self.failed_urls@;
            if !events[i].ok {
                self.failed_urls.push(events[i].resolved_url.clone());
                proof {
                    lemma_url_pushed(before, self.failed_urls@.last());
                }
            }
            proof {
                lemma_failures_step(events@, i as int);
                assert(self@.failed =~= old(self)@.failed.union(failures(events@.take(i + 1))));
            }
            i += 1;
        }
        proof {
            assert(events@.take(i as int) =~= events@);
        }
    }

    fn has_failed(&self, url: &str) -> (failed: bool)
        ensures
            failed == self@.failed.contains(url@),
    {
        let mut i: usize = 0;
        while i < self.failed_urls.len()
            invariant
                i <= self.failed_urls@.len(),
                forall|k: int| 0 <= k < i ==> (#[trigger] self.failed_urls@[k])@ != url@,
            decreases self.failed_urls@.len() - i,
        {
            if same(self.failed_urls[i].as_str(), url) {
                return true;
            }
            i += 1;
        }
        false
    }

    /// The watched nodes in order. `collect_pending` takes what the document
    /// holds for each of them.
    pub fn tracked_ids(&self) -> (ids: Vec<usize>)
        ensures
            ids@.len() == self@.watched.len(),
            forall|i: int| 0 <= i < ids@.len() ==> #[trigger] ids@[i] == self@.watched[i].0,
    {
        let mut ids: Vec<usize> = Vec::new();
        let mut i: usize = 0;
        while i < self.entries.len()
            invariant
                i <= self.entries@.len(),
                ids@.len() == i,
                forall|k: int| 0 <= k < i ==> #[trigger] ids@[k] == self@.watched[k].0,
            decreases self.entries@.len() - i,
        {
            ids.push(self.entries.entry(i).0);
            i += 1;
        }
        ids
    }

    /// Produces one event per fresh transition of a watched node, and drops
    /// the nodes that are gone. `nodes` tells for each watched node, in order,
    /// what the document holds.
    pub fn collect_pending(&mut self, nodes: &Vec<ImgNode>) -> (events: Vec<ImgEvent>)
        requires
            old(self).wf(),
            nodes@.len() == old(self)@.watched.len(),
        ensures
            final(self).wf(),
            events@ == pending_events(
                old(self)@.watched,
                nodes@,
                old(self)@.failed,
                nodes@.len() as int,
            ),
            final(self)@ == (WatchModel {
                watched: remaining(
                    old(self)@.watched,
                    nodes@,
                    old(self)@.failed,
                    nodes@.len() as int,
                ),
                ..old(self)@
            }),
    {
        let mut events: Vec<ImgEvent> = Vec::new();
        let ghost watched = self@.watched;
        let ghost failed = self@.failed;
        let mut kept: Registry<ImgEntry> = Registry::new();
        let mut i: usize = 0;
        proof {
            lemma_img_ids(self.entries@);
            assert(img_models(kept@) =~= remaining(watched, nodes@, failed, 0));
        }
        while i < nodes.len()
            invariant
                self.entries.wf(),
                self@ == old(self)@,
                watched == self@.watched,
                failed == self@.failed,
                i <= nodes@.len(),
                nodes@.len() == watched.len(),
                events@ == pending_events(watched, nodes@, failed, i as int),
                kept.wf(),
                img_models(kept@) == remaining(watched, nodes@, failed, i as int),
                forall|k: int|
                    0 <= k < kept@.len() ==> exists|j: int|
                        0 <= j < i && (#[trigger] kept@[k]).0 == (#[trigger] watched[j]).0,
            decreases nodes@.len() - i,
        {
            let node_id: usize = self.entries.entry(i).0;
            let entry = &self.entries.entry(i).1;
            let ghost model = watched[i as int].1;
            let ghost before = kept@;
            assert(watched[i as int] == (node_id, entry@));
            if !matches!(nodes[i], ImgNode::Missing) {
                let mut next = ImgEntry {
                    resolved_url: entry.resolved_url.clone(),
                    loaded_dispatched: entry.loaded_dispatched,
                    errored_dispatched: entry.errored_dispatched,
                };
                if let ImgNode::Element { has_image } = nodes[i] {
                    if has_image && !entry.loaded_dispatched {
                        next.loaded_dispatched = true;
                        events.push(ImgEvent::Load { node_id });
                    } else if !entry.errored_dispatched && self.has_failed(
                        entry.resolved_url.as_str(),
                    ) {
                        next.errored_dispatched = true;
                        events.push(ImgEvent::Error { node_id });
                    }
                }
                proof {
                    if crate::registry::has_id(kept@, node_id) {
                        let slot = crate::registry::slot_of(kept@, node_id);
                        assert(kept@[slot].0 == node_id);
                        let j = choose|j: int|
                            0 <= j < i && kept@[slot].0 == (#[trigger] watched[j]).0;
                        assert(self.entries@[j].0 == watched[j].0);
                        assert(self.entries@[j].0 != self.entries@[i as int].0);
                    }
                }
                kept.insert(node_id, next);
                proof {
                    assert(img_models(kept@) =~= img_models(before).push((node_id, next@)));
                    assert forall|k: int| 0 <= k < kept@.len() implies exists|j: int|
                        0 <= j < i + 1 && (#[trigger] kept@[k]).0 == (#[trigger] watched[j]).0 by {
                        if k < before.len() {
                            assert(kept@[k] == before[k]);
                            let j = choose|j: int|
                                0 <= j < i && before[k].0 == (#[trigger] watched[j]).0;
                            assert(watched[j].0 == kept@[k].0);
                        } else {
                            assert(watched[i as int].0 == kept@[k].0);
                        }
                    }
                }
            }
            i += 1;
        }
        self.entries = kept;
        proof {
            lemma_img_ids(self.entries@);
        }
        events
    }

    /// Number of nodes currently watched.
    pub fn tracked_count(&self) -> (count: usize)
        ensures
            count == self@.watched.len(),
    {
        self.entries.len()
    }
}

proof fn lemma_url_pushed(urls: Seq<String>, added: String)
    ensures
        url_set(urls.push(added)) == url_set(urls).insert(added@),
{
    let after = urls.push(added);
    assert forall|url: Seq<char>| #[trigger] url_set(after).contains(url) == url_set(urls).insert(
        added@,
    ).contains(url) by {
        if url_set(urls).contains(url) {
            let k = choose|k: int| 0 <= k < urls.len() && (#[trigger] urls[k])@ == url;
            assert(after[k]@ == url);
        }
        assert(after[urls.len() as int]@ == added@);
        if url_set(after).contains(url) && url != added@ {
            let k = choose|k: int| 0 <= k < after.len() && (#[trigger] after[k])@ == url;
            assert(urls[k]@ == url);
        }
    }
    assert(url_set(after) =~= url_set(urls).insert(added@));
}

proof fn lemma_failures_step(events: Seq<FetchEvent>, at: int)
    requires
        0 <= at < events.len(),
    ensures
        failures(events.take(at + 1)) == (if events[at].ok {
            failures(events.take(at))
        } else {
            failures(events.take(at)).insert(events[at].resolved_url@)
        }),
{
    let before = events.take(at);
    let after = events.take(at + 1);
    let expected = if events[at].ok {
        failures(before)
    } else {
        failures(before).insert(events[at].resolved_url@)
    };
    assert forall|url: Seq<char>| #[trigger] failures(after).contains(url) == expected.contains(
        url,
    ) by {
        if failures(before).contains(url) {
            let k = choose|k: int|
                0 <= k < before.len() && !(#[trigger] before[k]).ok && before[k].resolved_url@
                    == url;
            assert(after[k] == before[k]);
        }
        assert(after[at] == events[at]);
        if failures(after).contains(url) {
            let k = choose|k: int|
                0 <= k < after.len() && !(#[trigger] after[k]).ok && after[k].resolved_url@ == url;
            if k < at {
                assert(before[k] == after[k]);
            }
        }
    }
    assert(failures(after) =~= expected);
}

proof fn lemma_img_ids(entries: Seq<(usize, ImgEntry)>)
    ensures
        crate::registry::distinct_ids(img_models(entries)) == crate::registry::distinct_ids(
            entries,
        ),
{
    let mapped = img_models(entries);
    if crate::registry::distinct_ids(mapped) {
        assert forall|i: int, j: int| 0 <= i < j < entries.len() implies (#[trigger] entries[i]).0
            != (#[trigger] entries[j]).0 by {
            assert(mapped[i].0 != mapped[j].0);
        }
    }
    if crate::registry::distinct_ids(entries) {
        assert forall|i: int, j: int| 0 <= i < j < mapped.len() implies (#[trigger] mapped[i]).0
            != (#[trigger] mapped[j]).0 by {
            assert(entries[i].0 != entries[j].0);
        }
    }
}

proof fn lemma_img_lookup(entries: Seq<(usize, ImgEntry)>, id: usize)
    requires
        crate::registry::distinct_ids(entries),
    ensures
        crate::registry::has_id(img_models(entries), id) == crate::registry::has_id(entries, id),
        crate::registry::has_id(entries, id) ==> crate::registry::slot_of(img_models(entries), id)
            == crate::registry::slot_of(entries, id),
        match crate::registry::lookup(entries, id) {
            Some(entry) => crate::registry::lookup(img_models(entries), id) == Some(entry@),
            None => crate::registry::lookup(img_models(entries), id) is None,
        },
{
    let mapped = img_models(entries);
    assert forall|i: int, j: int| 0 <= i < j < mapped.len() implies (#[trigger] mapped[i]).0 != (
    #[trigger] mapped[j]).0 by {
        assert(entries[i].0 != entries[j].0);
    }
    if crate::registry::has_id(entries, id) {
        let slot = crate::registry::slot_of(entries, id);
        assert(mapped[slot] == (entries[slot].0, entries[slot].1@));
        crate::registry::lemma_lookup_at(mapped, slot);
        crate::registry::lemma_lookup_at(entries, slot);
    } else if crate::registry::has_id(mapped, id) {
        let slot = crate::registry::slot_of(mapped, id);
        assert(entries[slot].0 == id);
    }
}

/// An event is reported at most once per node and URL: an entry that has it
/// noted never gives rise to it again, whatever the document and the provider
/// report.
pub proof fn events_do_not_repeat(
    id: usize,
    entry: ImgModel,
    node: ImgNode,
    failed: Set<Seq<char>>,
    later_node: ImgNode,
    later_failed: Set<Seq<char>>,
)
    requires
        img_event(id, entry, node, failed) is Some,
    ensures
        ({
            let event = img_event(id, entry, node, failed);
            img_event(id, noted(entry, event), later_node, later_failed) != event
        }),
{
}

/// Registering a new URL for a node forgets what was dispatched for the old
/// one: a failure of the new URL is reported.
pub proof fn new_url_starts_over(
    watched: Seq<(usize, ImgModel)>,
    id: usize,
    url: Seq<char>,
    failed: Set<Seq<char>>,
)
    requires
        crate::registry::distinct_ids(watched),
        crate::registry::lookup(watched, id) matches Some(entry) ==> entry.url != url,
        failed.contains(url),
    ensures
        ({
            let after = registered(watched, id, url);
            &&& crate::registry::lookup(after, id) matches Some(entry) && img_event(
                id,
                entry,
                ImgNode::Element { has_image: false },
                failed,
            ) == Some(ImgEvent::Error { node_id: id })
        }),
{
    lemma_registered(watched, id, url, id);
    let after = registered(watched, id, url);
    let slot = if crate::registry::has_id(watched, id) {
        crate::registry::slot_of(watched, id)
    } else {
        watched.len() as int
    };
    assert(after[slot].0 == id);
    crate::registry::lemma_lookup_at(after, slot);
}

/// How often `event` occurs among `events`.
pub open spec fn times(events: Seq<ImgEvent>, event: ImgEvent) -> nat
    decreases events.len(),
{
    if events.len() == 0 {
        0
    } else {
        times(events.drop_last(), event) + (if events.last() == event {
            1nat
        } else {
            0nat
        })
    }
}

proof fn lemma_times_push(events: Seq<ImgEvent>, added: ImgEvent, event: ImgEvent)
    ensures
        times(events.push(added), event) == times(events, event) + (if added == event {
            1nat
        } else {
            0nat
        }),
{
    assert(events.push(added).drop_last() =~= events);
}

proof fn lemma_times_add(first: Seq<ImgEvent>, second: Seq<ImgEvent>, event: ImgEvent)
    ensures
        times(first + second, event) == times(first, event) + times(second, event),
    decreases second.len(),
{
    if second.len() == 0 {
        assert(first + second =~= first);
    } else {
        assert((first + second).drop_last() =~= first + second.drop_last());
        lemma_times_add(first, second.drop_last(), event);
    }
}

/// How often an event that an entry may give rise to is reported for it.
pub open spec fn reports(found: Option<ImgEvent>, event: ImgEvent) -> nat {
    if found == Some(event) {
        1
    } else {
        0
    }
}

/// What collecting from the first `upto` entries means for the node `id`,
/// which has the slot `slot`, or none where that lies outside.
proof fn lemma_collect(
    watched: Seq<(usize, ImgModel)>,
    nodes: Seq<ImgNode>,
    failed: Set<Seq<char>>,
    upto: int,
    slot: int,
    id: usize,
    event: ImgEvent,
)
    requires
        crate::registry::distinct_ids(watched),
        nodes.len() == watched.len(),
        0 <= upto <= watched.len(),
        0 <= slot < watched.len() ==> watched[slot].0 == id,
        !(0 <= slot < watched.len()) ==> !crate::registry::has_id(watched, id),
        event == (ImgEvent::Load { node_id: id }) || event == (ImgEvent::Error { node_id: id }),
    ensures
        ({
            let rest = remaining(watched, nodes, failed, upto);
            let count = times(pending_events(watched, nodes, failed, upto), event);
            &&& crate::registry::distinct_ids(rest)
            &&& rest.len() <= upto
            &&& forall|k: int|
                0 <= k < rest.len() ==> exists|j: int|
                    0 <= j < upto && (#[trigger] rest[k]).0 == (#[trigger] watched[j]).0
            &&& if 0 <= slot < upto {
                let found = img_event(id, watched[slot].1, nodes[slot], failed);
                &&& count == reports(found, event)
                &&& crate::registry::lookup(rest, id) == (if nodes[slot] is Missing {
                    None
                } else {
                    Some(noted(watched[slot].1, found))
                })
            } else {
                &&& count == 0
                &&& !crate::registry::has_id(rest, id)
            }
        }),
    decreases upto,
{
    if upto > 0 {
        lemma_collect(watched, nodes, failed, upto - 1, slot, id, event);
        let last = upto - 1;
        let before = remaining(watched, nodes, failed, last);
        let rest = remaining(watched, nodes, failed, upto);
        let events = pending_events(watched, nodes, failed, last);
        let (last_id, entry) = watched[last];
        let found = img_event(last_id, entry, nodes[last], failed);
        if last != slot {
            if last_id == id {
                assert(crate::registry::has_id(watched, id));
                if last < slot {
                    assert(watched[last].0 != watched[slot].0);
                } else {
                    assert(watched[slot].0 != watched[last].0);
                }
            }
        }
        if found is Some {
            lemma_times_push(events, found->0, event);
        }
        if !(nodes[last] is Missing) {
            assert forall|k: int| 0 <= k < rest.len() implies exists|j: int|
                0 <= j < upto && (#[trigger] rest[k]).0 == (#[trigger] watched[j]).0 by {
                if k < before.len() {
                    assert(rest[k] == before[k]);
                    let j = choose|j: int|
                        0 <= j < last && before[k].0 == (#[trigger] watched[j]).0;
                    assert(watched[j].0 == rest[k].0);
                } else {
                    assert(watched[last].0 == rest[k].0);
                }
            }
            assert forall|i: int, j: int| 0 <= i < j < rest.len() implies (#[trigger] rest[i]).0
                != (#[trigger] rest[j]).0 by {
                assert(rest[i] == before[i]);
                if j < before.len() {
                    assert(rest[j] == before[j]);
                } else {
                    let k = choose|k: int|
                        0 <= k < last && before[i].0 == (#[trigger] watched[k]).0;
                    assert(watched[k].0 != watched[last].0);
                }
            }
            if last == slot {
                assert(rest[before.len() as int].0 == id);
                crate::registry::lemma_lookup_at(rest, before.len() as int);
            } else {
                if crate::registry::has_id(before, id) {
                    let at = crate::registry::slot_of(before, id);
                    assert(rest[at] == before[at]);
                    crate::registry::lemma_lookup_at(rest, at);
                } else if crate::registry::has_id(rest, id) {
                    let at = crate::registry::slot_of(rest, id);
                    if at < before.len() {
                        assert(before[at] == rest[at]);
                    }
                }
            }
        }
    }
}

/// Collecting treats every watched node by itself. The events for a node are
/// what its own entry gives rise to, each at most once: a `load` only where the
/// document holds a decoded image for it, an `error` only where its URL
/// failed. A node that is gone yields no event and is no longer tracked; any
/// other stays tracked, with the event noted.
pub proof fn collecting_treats_each_node_alone(
    watched: Seq<(usize, ImgModel)>,
    nodes: Seq<ImgNode>,
    failed: Set<Seq<char>>,
    slot: int,
)
    requires
        crate::registry::distinct_ids(watched),
        nodes.len() == watched.len(),
        0 <= slot < watched.len(),
    ensures
        ({
            let (id, entry) = watched[slot];
            let node = nodes[slot];
            let found = img_event(id, entry, node, failed);
            let events = pending_events(watched, nodes, failed, nodes.len() as int);
            let rest = remaining(watched, nodes, failed, nodes.len() as int);
            let loads = times(events, ImgEvent::Load { node_id: id });
            let errors = times(events, ImgEvent::Error { node_id: id });
            &&& loads == reports(found, ImgEvent::Load { node_id: id })
            &&& errors == reports(found, ImgEvent::Error { node_id: id })
            &&& loads > 0 ==> node == (ImgNode::Element { has_image: true }) && !entry.loaded
            &&& errors > 0 ==> failed.contains(entry.url) && !entry.errored
            &&& node is Missing ==> loads == 0 && errors == 0 && !crate::registry::has_id(rest, id)
            &&& !(node is Missing) ==> crate::registry::lookup(rest, id) == Some(
                noted(entry, found),
            )
        }),
{
    let id = watched[slot].0;
    let upto = nodes.len() as int;
    lemma_collect(watched, nodes, failed, upto, slot, id, ImgEvent::Load { node_id: id });
    lemma_collect(watched, nodes, failed, upto, slot, id, ImgEvent::Error { node_id: id });
}

/// A call that changes a watcher.
pub enum WatchStep {
    /// [`ImgWatcher::register`] with a node and its URL.
    Register { id: usize, url: Seq<char> },
    /// [`ImgWatcher::clear`] with a node.
    Clear { id: usize },
    /// [`ImgWatcher::ingest_fetch_events`] with fetch events.
    Ingest { events: Seq<FetchEvent> },
    /// [`ImgWatcher::collect_pending`] with what the document holds.
    Collect { nodes: Seq<ImgNode> },
}

/// The watcher after a call.
pub open spec fn stepped(model: WatchModel, step: WatchStep) -> WatchModel {
    match step {
        WatchStep::Register { id, url } => WatchModel {
            watched: registered(model.watched, id, url),
            ..model
        },
        WatchStep::Clear { id } => WatchModel { watched: cleared(model.watched, id), ..model },
        WatchStep::Ingest { events } => WatchModel {
            failed: model.failed.union(failures(events)),
            ..model
        },
        WatchStep::Collect { nodes } => WatchModel {
            watched: remaining(model.watched, nodes, model.failed, nodes.len() as int),
            ..model
        },
    }
}

/// The events that a call reports.
pub open spec fn step_events(model: WatchModel, step: WatchStep) -> Seq<ImgEvent> {
    match step {
        WatchStep::Collect { nodes } => pending_events(
            model.watched,
            nodes,
            model.failed,
            nodes.len() as int,
        ),
        _ => Seq::empty(),
    }
}

/// The events that a run of calls reports, in order.
pub open spec fn run_events(model: WatchModel, steps: Seq<WatchStep>) -> Seq<ImgEvent>
    decreases steps.len(),
{
    if steps.len() == 0 {
        Seq::empty()
    } else {
        step_events(model, steps[0]) + run_events(stepped(model, steps[0]), steps.skip(1))
    }
}

/// Whether a call can be made: `collect_pending` is told about every tracked
/// node.
pub open spec fn step_allowed(model: WatchModel, step: WatchStep) -> bool {
    step matches WatchStep::Collect { nodes } ==> nodes.len() == model.watched.len()
}

/// Whether a call leaves the node `id` with the URL it has: it does not clear
/// the node, and registers it with no URL but the tracked one.
pub open spec fn keeps_url(model: WatchModel, step: WatchStep, id: usize) -> bool {
    match step {
        WatchStep::Register { id: other, url } => other == id ==> (crate::registry::lookup(
            model.watched,
            id,
        ) matches Some(entry) && entry.url == url),
        WatchStep::Clear { id: other } => other != id,
        _ => true,
    }
}

/// Whether a run of calls can be made and leaves the node `id` with the URL it
/// has.
pub open spec fn run_keeps_url(model: WatchModel, steps: Seq<WatchStep>, id: usize) -> bool
    decreases steps.len(),
{
    steps.len() == 0 || {
        &&& step_allowed(model, steps[0])
        &&& keeps_url(model, steps[0], id)
        &&& run_keeps_url(stepped(model, steps[0]), steps.skip(1), id)
    }
}

/// Whether a run of calls ingests a failed fetch of `url`.
pub open spec fn run_fails(steps: Seq<WatchStep>, url: Seq<char>) -> bool {
    exists|i: int|
        0 <= i < steps.len() && (#[trigger] steps[i] matches WatchStep::Ingest { events }
            && failures(events).contains(url))
}

proof fn lemma_registered(
    watched: Seq<(usize, ImgModel)>,
    id: usize,
    url: Seq<char>,
    other: usize,
)
    requires
        crate::registry::distinct_ids(watched),
    ensures
        ({
            let after = registered(watched, id, url);
            &&& crate::registry::distinct_ids(after)
            &&& crate::registry::lookup(after, id) matches Some(entry) && entry.url == url
            &&& other != id ==> crate::registry::lookup(after, other) == crate::registry::lookup(
                watched,
                other,
            )
        }),
{
    let after = registered(watched, id, url);
    let slot = if crate::registry::has_id(watched, id) {
        crate::registry::slot_of(watched, id)
    } else {
        watched.len() as int
    };
    assert forall|i: int, j: int| 0 <= i < j < after.len() implies (#[trigger] after[i]).0 != (
    #[trigger] after[j]).0 by {
        if i < watched.len() && j < watched.len() {
            assert(watched[i].0 != watched[j].0);
        } else {
            assert(watched[i].0 != id);
        }
    }
    assert(after[slot].0 == id);
    crate::registry::lemma_lookup_at(after, slot);
    if other != id {
        if crate::registry::has_id(watched, other) {
            let at = crate::registry::slot_of(watched, other);
            assert(after[at] == watched[at]);
            crate::registry::lemma_lookup_at(after, at);
        } else if crate::registry::has_id(after, other) {
            let at = crate::registry::slot_of(after, other);
            assert(watched[at] == after[at]);
        }
    }
}

proof fn lemma_cleared(watched: Seq<(usize, ImgModel)>, id: usize, other: usize)
    requires
        crate::registry::distinct_ids(watched),
        other != id,
    ensures
        crate::registry::distinct_ids(cleared(watched, id)),
        crate::registry::lookup(cleared(watched, id), other) == crate::registry::lookup(
            watched,
            other,
        ),
{
    if crate::registry::has_id(watched, id) {
        crate::registry::lemma_remove(watched, crate::registry::slot_of(watched, id));
    }
}

/// At most one `load` and one `error` are reported per node and URL, over any
/// number of calls: as long as no call clears the node or gives it another URL,
/// the calls together report each event at most once, and not at all where it
/// was reported before. An `error` comes only after a failed fetch of that URL
/// was ingested. A node that is not tracked is not reported.
pub proof fn one_event_per_node_and_url(model: WatchModel, steps: Seq<WatchStep>, id: usize)
    requires
        crate::registry::distinct_ids(model.watched),
        run_keeps_url(model, steps, id),
    ensures
        ({
            let loads = times(run_events(model, steps), ImgEvent::Load { node_id: id });
            let errors = times(run_events(model, steps), ImgEvent::Error { node_id: id });
            match crate::registry::lookup(model.watched, id) {
                Some(entry) => {
                    &&& loads <= 1
                    &&& errors <= 1
                    &&& entry.loaded ==> loads == 0
                    &&& entry.errored ==> errors == 0
                    &&& errors > 0 ==> model.failed.contains(entry.url) || run_fails(
                        steps,
                        entry.url,
                    )
                },
                None => loads == 0 && errors == 0,
            }
        }),
    decreases steps.len(),
{
    if steps.len() > 0 {
        let load = ImgEvent::Load { node_id: id };
        let error = ImgEvent::Error { node_id: id };
        let step = steps[0];
        let next = stepped(model, step);
        let rest = steps.skip(1);
        let slot = if crate::registry::has_id(model.watched, id) {
            crate::registry::slot_of(model.watched, id)
        } else {
            (-1) as int
        };
        match step {
            WatchStep::Register { id: other, url } => {
                lemma_registered(model.watched, other, url, id);
            },
            WatchStep::Clear { id: other } => {
                lemma_cleared(model.watched, other, id);
            },
            WatchStep::Ingest { events } => {},
            WatchStep::Collect { nodes } => {
                let upto = nodes.len() as int;
                lemma_collect(model.watched, nodes, model.failed, upto, slot, id, load);
                lemma_collect(model.watched, nodes, model.failed, upto, slot, id, error);
            },
        }
        one_event_per_node_and_url(next, rest, id);
        let first = step_events(model, step);
        lemma_times_add(first, run_events(next, rest), load);
        lemma_times_add(first, run_events(next, rest), error);
        if let Some(entry) = crate::registry::lookup(model.watched, id) {
            if run_fails(rest, entry.url) {
                let i = choose|i: int|
                    0 <= i < rest.len() && (#[trigger] rest[i] matches WatchStep::Ingest { events }
                        && failures(events).contains(entry.url));
                assert(steps[i + 1] == rest[i]);
            }
            if next.failed.contains(entry.url) && !model.failed.contains(entry.url) {
                assert(steps[0] is Ingest);
            }
        }
    }
}

/// Registering a node twice with the same URL is the same as registering it
/// once. That still holds after any collecting in between that finds the node
/// in the document: the second call changes nothing.
pub proof fn registering_again_changes_nothing(
    watched: Seq<(usize, ImgModel)>,
    id: usize,
    url: Seq<char>,
    nodes: Seq<ImgNode>,
    failed: Set<Seq<char>>,
)
    requires
        crate::registry::distinct_ids(watched),
    ensures
        ({
            let once = registered(watched, id, url);
            let collected = remaining(once, nodes, failed, nodes.len() as int);
            &&& registered(once, id, url) == once
            &&& nodes.len() == once.len() && !(nodes[crate::registry::slot_of(once, id)] is Missing)
                ==> registered(collected, id, url) == collected
        }),
{
    lemma_registered(watched, id, url, id);
    let once = registered(watched, id, url);
    if nodes.len() == once.len() {
        let slot = crate::registry::slot_of(once, id);
        lemma_collect(
            once,
            nodes,
            failed,
            nodes.len() as int,
            slot,
            id,
            ImgEvent::Load { node_id: id },
        );
    }
}

/// Registering a node leaves every other node as it was, and tracks the node
/// with the given URL. A node that is tracked already is not tracked twice;
/// with a new URL it starts without dispatched events.
pub proof fn registering_touches_one_node(
    watched: Seq<(usize, ImgModel)>,
    id: usize,
    url: Seq<char>,
    other: usize,
)
    requires
        crate::registry::distinct_ids(watched),
        other != id,
    ensures
        ({
            let before = crate::registry::lookup(watched, id);
            let after = registered(watched, id, url);
            &&& crate::registry::lookup(after, other) == crate::registry::lookup(watched, other)
            &&& after.len() == watched.len() + (if before is Some {
                0nat
            } else {
                1nat
            })
            &&& crate::registry::lookup(after, id) == (match before {
                Some(entry) => if entry.url == url {
                    Some(entry)
                } else {
                    Some(ImgModel { url, loaded: false, errored: false })
                },
                None => Some(ImgModel { url, loaded: false, errored: false }),
            })
        }),
{
    lemma_registered(watched, id, url, other);
    let after = registered(watched, id, url);
    let slot = if crate::registry::has_id(watched, id) {
        crate::registry::slot_of(watched, id)
    } else {
        watched.len() as int
    };
    assert(after[slot].0 == id);
    crate::registry::lemma_lookup_at(after, slot);
}

/// A watched element whose image is there reports `load` unless it did so already. One
/// without an image to report, whose URL failed, reports `error` unless it did so already.
/// A node that is gone or no element reports nothing.
pub proof fn images_report_once(
    id: usize,
    entry: ImgModel,
    has_image: bool,
    failed: Set<Seq<char>>,
)
    ensures
        ({
            let event = img_event(id, entry, ImgNode::Element { has_image }, failed);
            let loads = has_image && !entry.loaded;
            let fails = !entry.errored && failed.contains(entry.url);
            &&& loads ==> event == Some(ImgEvent::Load { node_id: id })
            &&& !loads && fails ==> event == Some(ImgEvent::Error { node_id: id })
            &&& !loads && !fails ==> event is None
        }),
        img_event(id, entry, ImgNode::Missing, failed) is None,
        img_event(id, entry, ImgNode::NotElement, failed) is None,
{
}

/// A reported event is noted as that event and changes nothing else of the entry.
pub proof fn reports_are_noted(entry: ImgModel, id: usize)
    ensures
        noted(entry, Some(ImgEvent::Load { node_id: id })) == (ImgModel { loaded: true, ..entry }),
        noted(entry, Some(ImgEvent::Error { node_id: id })) == (ImgModel {
            errored: true,
            ..entry
        }),
        noted(entry, None) == entry,
{
}

/// A source that stands for a URL is waited for. An empty one, and one that stands for
/// none, is not waited for any more. Other nodes stay as they are.
pub proof fn sources_are_waited_for(
    watched: Seq<(usize, ImgModel)>,
    id: usize,
    src: Seq<char>,
    resolved: Option<Seq<char>>,
    other: usize,
)
    requires
        crate::registry::distinct_ids(watched),
        other != id,
    ensures
        ({
            let after = sourced(watched, id, src, resolved);
            &&& src.len() > 0 && resolved is Some ==> (crate::registry::lookup(after, id)
                matches Some(entry) && entry.url == resolved->0)
            &&& src.len() == 0 || resolved is None ==> !crate::registry::has_id(after, id)
            &&& crate::registry::lookup(after, other) == crate::registry::lookup(watched, other)
        }),
{
    if let Some(url) = resolved {
        lemma_registered(watched, id, url, other);
        lemma_registered(watched, id, url, id);
        let after = registered(watched, id, url);
        let slot = if crate::registry::has_id(watched, id) {
            crate::registry::slot_of(watched, id)
        } else {
            watched.len() as int
        };
        assert(after[slot].0 == id);
        crate::registry::lemma_lookup_at(after, slot);
        if crate::registry::has_id(watched, id) {
            crate::registry::lemma_lookup_at(watched, slot);
        }
    }
    lemma_cleared(watched, id, other);
    if crate::registry::has_id(watched, id) {
        let slot = crate::registry::slot_of(watched, id);
        let after = cleared(watched, id);
        assert forall|i: int| 0 <= i < after.len() implies (#[trigger] after[i]).0 != id by {
            let place = if i < slot { i } else { i + 1 };
            assert(after[i] == watched[place]);
            if place < slot {
                assert(watched[place].0 != watched[slot].0);
            } else {
                assert(watched[slot].0 != watched[place].0);
            }
        }
    }
}

/// The failed URLs are those of the fetches that did not succeed.
pub proof fn failures_are_the_failed_fetches(events: Seq<FetchEvent>, i: int, url: Seq<char>)
    ensures
        0 <= i < events.len() && !events[i].ok ==> failures(events).contains(
            events[i].resolved_url@,
        ),
        (forall|k: int|
            0 <= k < events.len() ==> events[k].ok || (#[trigger] events[k]).resolved_url@ != url)
            ==> !failures(events).contains(url),
{
}

} // verus!
