//! The upsert writer and the inference-eligibility gate: one assembled
//! item is persisted as one transaction-shaped step (tags, the item row,
//! its dependency edges, and its tag references), and a cheap staleness
//! check decides whether the item is worth handing to the extraction
//! backend.
use vstd::prelude::*;

use crate::model::{DetectedLanguage, Tag};
use crate::steam::Child;

verus! {

/// A normalized catalog item as the writer persists it. The catalog's
/// fractional quality score is carried in thousandths so the row holds
/// plain integers.
#[derive(Clone, Debug)]
pub struct WorkshopItem {
    pub appid: u64,
    pub author: String,
    /// Normalized plain-text description.
    pub description: String,
    /// Stable id in the catalog.
    pub id: String,
    pub languages: Vec<DetectedLanguage>,
    /// Source-of-truth staleness signal, in seconds.
    pub last_updated: u64,
    pub preview_url: Option<String>,
    pub title: String,
    pub tags: Vec<Tag>,
    pub score_milli: u32,
}

/// A directed dependency edge between two items; identity is the pair.
#[derive(Clone, Debug)]
pub struct DependencyEdge {
    pub source: String,
    pub target: String,
}

/// Whether a tag with this (app, slug) identity is present.
pub open spec fn tag_present(tags: Seq<Tag>, app: u64, slug: Seq<char>) -> bool {
    exists|i: int| 0 <= i < tags.len() && tags[i].app_id == app && tags[i].tag@ == slug
}

/// Whether an edge with this (source, target) identity is present.
pub open spec fn edge_present(edges: Seq<DependencyEdge>, s: Seq<char>, t: Seq<char>) -> bool {
    exists|i: int| 0 <= i < edges.len() && edges[i].source@ == s && edges[i].target@ == t
}

/// Whether `t` carries the identity and name of one of the incoming tags.
pub open spec fn tag_from(incoming: Seq<Tag>, t: Tag) -> bool {
    exists|j: int|
        0 <= j < incoming.len() && t.app_id == incoming[j].app_id && t.tag@ == incoming[j].tag@
            && t.display_name@ == incoming[j].display_name@
}

/// Whether `e` is an edge from `source` to one of the declared children.
pub open spec fn edge_from(children: Seq<Child>, source: Seq<char>, e: DependencyEdge) -> bool {
    e.source@ == source && (exists|j: int|
        0 <= j < children.len() && e.target@ == children[j].publishedfileid@)
}

/// Index of the item with this id, or -1.
pub open spec fn item_idx(items: Seq<WorkshopItem>, id: Seq<char>) -> int
    decreases items.len(),
{
    if items.len() == 0 {
        -1
    } else if items[0].id@ == id {
        0
    } else {
        let r = item_idx(items.drop_first(), id);
        if r < 0 {
            -1
        } else {
            r + 1
        }
    }
}

/// What `item_idx` finds: -1 exactly when no item has the id, and
/// otherwise the first index that does.
pub proof fn lemma_item_idx(items: Seq<WorkshopItem>, id: Seq<char>)
    ensures
        item_idx(items, id) == -1 <==> (forall|j: int| 0 <= j < items.len() ==> items[j].id@ != id),
        item_idx(items, id) != -1 ==> 0 <= item_idx(items, id) < items.len() && items[item_idx(
            items,
            id,
        )].id@ == id,
        forall|j: int| 0 <= j < item_idx(items, id) ==> items[j].id@ != id,
    decreases items.len(),
{
    if items.len() == 0 {
    } else if items[0].id@ == id {
    } else {
        let rest = items.drop_first();
        lemma_item_idx(rest, id);
        assert(forall|j: int| 0 <= j < rest.len() ==> rest[j] == items[j + 1]);
        let r = item_idx(rest, id);
        if r == -1 {
            assert forall|j: int| 0 <= j < items.len() implies items[j].id@ != id by {
                if j > 0 {
                    assert(items[j] == rest[j - 1]);
                }
            }
        } else {
            assert(items[r + 1] == rest[r]);
            assert forall|j: int| 0 <= j < r + 1 implies items[j].id@ != id by {
                if j > 0 {
                    assert(items[j] == rest[j - 1]);
                }
            }
        }
    }
}

/// A first match pins `item_idx` down.
pub proof fn lemma_item_idx_is(items: Seq<WorkshopItem>, id: Seq<char>, i: int)
    requires
        0 <= i < items.len(),
        items[i].id@ == id,
        forall|j: int| 0 <= j < i ==> items[j].id@ != id,
    ensures
        item_idx(items, id) == i,
{
    lemma_item_idx(items, id);
    let r = item_idx(items, id);
    if r == -1 {
        assert(items[i].id@ != id);
    } else if r < i {
        assert(items[r].id@ != id);
    } else if r > i {
        assert(items[i].id@ != id);
    }
}

/// The writer's store: the item rows, the tag table, and the dependency
/// edges.
#[derive(Debug)]
pub struct ItemStore {
    pub items: Vec<WorkshopItem>,
    pub tags: Vec<Tag>,
    pub edges: Vec<DependencyEdge>,
}

impl ItemStore {
    /// The writer invariant: item ids, tag identities and edge identities
    /// are unique.
    pub open spec fn wf(&self) -> bool {
        &&& forall|i: int, j: int|
            0 <= i < j < self.items@.len() ==> self.items@[i].id@ != self.items@[j].id@
        &&& forall|i: int, j: int|
            0 <= i < j < self.tags@.len() ==> !(self.tags@[i].app_id == self.tags@[j].app_id
                && self.tags@[i].tag@ == self.tags@[j].tag@)
        &&& forall|i: int, j: int|
            0 <= i < j < self.edges@.len() ==> !(self.edges@[i].source@ == self.edges@[j].source@
                && self.edges@[i].target@ == self.edges@[j].target@)
    }

    /// An empty store.
    pub fn new() -> (s: ItemStore)
        ensures
            s.wf(),
            s.items@.len() == 0,
            s.tags@.len() == 0,
            s.edges@.len() == 0,
    {
        ItemStore { items: Vec::new(), tags: Vec::new(), edges: Vec::new() }
    }

    /// Best-effort insert of one tag row, the duplicate ignored: the table
    /// is unchanged when the (app, slug) identity already exists, else
    /// extended by exactly this tag.
    fn upsert_tag(&mut self, t: &Tag)
        requires
            old(self).wf(),
        ensures
            final(self).wf(),
            final(self).items@ == old(self).items@,
            final(self).edges@ == old(self).edges@,
            tag_present(final(self).tags@, t.app_id, t.tag@),
            forall|i: int| 0 <= i < old(self).tags@.len() ==> final(self).tags@[i] == old(self).tags@[i],
            if tag_present(old(self).tags@, t.app_id, t.tag@) {
                final(self).tags@ == old(self).tags@
            } else {
                final(self).tags@.len() == old(self).tags@.len() + 1 && (final(self).tags@.last().app_id
                    == t.app_id && final(self).tags@.last().tag@ == t.tag@ && final(self).tags@.last().display_name@ == t.display_name@)
            },
    {
        let n = self.tags.len();
        let mut i: usize = 0;
        while i < n
            invariant
                *self == *old(self),
                self.wf(),
                i <= n,
                n == self.tags@.len(),
                forall|j: int|
                    0 <= j < i ==> !(self.tags@[j].app_id == t.app_id && self.tags@[j].tag@
                        == t.tag@),
            decreases n - i,
        {
            if self.tags[i].app_id == t.app_id && self.tags[i].tag == t.tag {
                proof {
                    assert(self.tags@[i as int].app_id == t.app_id && self.tags@[i as int].tag@
                        == t.tag@);
                }
                return ;
            }
            i = i + 1;
        }
        self.tags.push(
            Tag { app_id: t.app_id, display_name: t.display_name.clone(), tag: t.tag.clone() },
        );
        proof {
            let tags = self.tags@;
            let n = tags.len() as int;
            assert(tags[n - 1].app_id == t.app_id && tags[n - 1].tag@ == t.tag@);
            assert forall|a: int, b: int| 0 <= a < b < tags.len() implies !(tags[a].app_id
                == tags[b].app_id && tags[a].tag@ == tags[b].tag@) by {
                if b < n - 1 {
                    assert(tags[a] == old(self).tags@[a] && tags[b] == old(self).tags@[b]);
                } else {
                    assert(tags[a] == old(self).tags@[a]);
                }
            }
        }
    }

    /// Best-effort insert of one dependency edge, the duplicate ignored.
    fn upsert_edge(&mut self, source: &String, target: &String)
        requires
            old(self).wf(),
        ensures
            final(self).wf(),
            final(self).items@ == old(self).items@,
            final(self).tags@ == old(self).tags@,
            edge_present(final(self).edges@, source@, target@),
            forall|i: int| 0 <= i < old(self).edges@.len() ==> final(self).edges@[i] == old(self).edges@[i],
            if edge_present(old(self).edges@, source@, target@) {
                final(self).edges@ == old(self).edges@
            } else {
                final(self).edges@.len() == old(self).edges@.len() + 1 && (final(self).edges@.last().source@ == source@ && final(self).edges@.last().target@ == target@)
            },
    {
        let n = self.edges.len();
        let mut i: usize = 0;
        while i < n
            invariant
                *self == *old(self),
                self.wf(),
                i <= n,
                n == self.edges@.len(),
                forall|j: int|
                    0 <= j < i ==> !(self.edges@[j].source@ == source@ && self.edges@[j].target@
                        == target@),
            decreases n - i,
        {
            if self.edges[i].source == *source && self.edges[i].target == *target {
                proof {
                    assert(self.edges@[i as int].source@ == source@ && self.edges@[i as int].target@
                        == target@);
                }
                return ;
            }
            i = i + 1;
        }
        self.edges.push(DependencyEdge { source: source.clone(), target: target.clone() });
        proof {
            let edges = self.edges@;
            let n = edges.len() as int;
            assert(edges[n - 1].source@ == source@ && edges[n - 1].target@ == target@);
            assert forall|a: int, b: int| 0 <= a < b < edges.len() implies !(edges[a].source@
                == edges[b].source@ && edges[a].target@ == edges[b].target@) by {
                if b < n - 1 {
                    assert(edges[a] == old(self).edges@[a] && edges[b] == old(self).edges@[b]);
                } else {
                    assert(edges[a] == old(self).edges@[a]);
                }
            }
        }
    }

    /// First index of the item with this id, if the store knows it.
    fn find_item(&self, id: &String) -> (r: Option<usize>)
        ensures
            match r {
                Some(f) => f == item_idx(self.items@, id@) && f < self.items@.len(),
                None => item_idx(self.items@, id@) == -1,
            },
    {
        let n = self.items.len();
        let mut k: usize = 0;
        while k < n
            invariant
                k <= n,
                n == self.items@.len(),
                forall|j: int| 0 <= j < k ==> self.items@[j].id@ != id@,
            decreases n - k,
        {
            if self.items[k].id == *id {
                proof {
                    lemma_item_idx_is(self.items@, id@, k as int);
                }
                return Some(k);
            }
            k = k + 1;
        }
        proof {
            lemma_item_idx(self.items@, id@);
        }
        None
    }

    /// Persist one assembled item as the writer's transaction does, in
    /// order: best-effort insert of every referenced tag row; the item row
    /// itself, where reprocessing a known id overwrites the stored row so
    /// the staleness gate keeps comparing against the latest content; one
    /// dependency edge per declared child, duplicates ignored.
    pub fn insert_data(&mut self, item: WorkshopItem, children: Vec<Child>)
        requires
            old(self).wf(),
        ensures
            final(self).wf(),
            forall|i: int| 0 <= i < old(self).tags@.len() ==> final(self).tags@[i] == old(self).tags@[i],
            old(self).tags@.len() <= final(self).tags@.len(),
            forall|j: int|
                0 <= j < item.tags@.len() ==> tag_present(
                    final(self).tags@,
                    item.tags@[j].app_id,
                    item.tags@[j].tag@,
                ),
            forall|i: int|
                old(self).tags@.len() <= i < final(self).tags@.len() ==> tag_from(
                    item.tags@,
                    #[trigger] final(self).tags@[i],
                ),
            ({
                let k = item_idx(old(self).items@, item.id@);
                if k >= 0 {
                    final(self).items@ == old(self).items@.update(k, item)
                } else {
                    final(self).items@ == old(self).items@.push(item)
                }
            }),
            forall|i: int| 0 <= i < old(self).edges@.len() ==> final(self).edges@[i] == old(self).edges@[i],
            old(self).edges@.len() <= final(self).edges@.len(),
            forall|j: int|
                0 <= j < children@.len() ==> edge_present(
                    final(self).edges@,
                    item.id@,
                    children@[j].publishedfileid@,
                ),
            forall|i: int|
                old(self).edges@.len() <= i < final(self).edges@.len() ==> edge_from(
                    children@,
                    item.id@,
                    #[trigger] final(self).edges@[i],
                ),
    {
        let tag_count = item.tags.len();
        let mut i: usize = 0;
        while i < tag_count
            invariant
                self.wf(),
                i <= tag_count,
                tag_count == item.tags@.len(),
                self.items@ == old(self).items@,
                self.edges@ == old(self).edges@,
                forall|k: int| 0 <= k < old(self).tags@.len() ==> self.tags@[k] == old(self).tags@[k],
                old(self).tags@.len() <= self.tags@.len(),
                forall|j: int|
                    0 <= j < i ==> tag_present(self.tags@, item.tags@[j].app_id, item.tags@[j].tag@),
                forall|k: int|
                    old(self).tags@.len() <= k < self.tags@.len() ==> tag_from(
                        item.tags@.take(i as int),
                        #[trigger] self.tags@[k],
                    ),
            decreases tag_count - i,
        {
            let ghost before = self.tags@;
            let t = Tag {
                app_id: item.tags[i].app_id,
                display_name: item.tags[i].display_name.clone(),
                tag: item.tags[i].tag.clone(),
            };
            self.upsert_tag(&t);
            proof {
                assert forall|j: int| 0 <= j < i + 1 implies tag_present(
                    self.tags@,
                    item.tags@[j].app_id,
                    item.tags@[j].tag@,
                ) by {
                    if j < i {
                        let k = choose|k: int|
                            0 <= k < before.len() && before[k].app_id == item.tags@[j].app_id
                                && before[k].tag@ == item.tags@[j].tag@;
                        assert(self.tags@[k] == before[k]);
                    } else {
                        assert(tag_present(self.tags@, t.app_id, t.tag@));
                    }
                }
                assert forall|k: int|
                    old(self).tags@.len() <= k < self.tags@.len() implies tag_from(
                        item.tags@.take(i + 1),
                        #[trigger] self.tags@[k],
                    ) by {
                    let upto = item.tags@.take(i + 1);
                    if k < before.len() {
                        assert(self.tags@[k] == before[k]);
                        let j0 = choose|j: int|
                            0 <= j < item.tags@.take(i as int).len() && before[k].app_id
                                == item.tags@.take(i as int)[j].app_id && before[k].tag@
                                == item.tags@.take(i as int)[j].tag@ && before[k].display_name@
                                == item.tags@.take(i as int)[j].display_name@;
                        assert(upto[j0] == item.tags@[j0]);
                        assert(self.tags@[k].app_id == upto[j0].app_id && self.tags@[k].tag@
                            == upto[j0].tag@ && self.tags@[k].display_name@
                            == upto[j0].display_name@);
                    } else {
                        assert(upto[i as int] == item.tags@[i as int]);
                        assert(self.tags@[k].app_id == upto[i as int].app_id && self.tags@[k].tag@
                            == upto[i as int].tag@ && self.tags@[k].display_name@
                            == upto[i as int].display_name@);
                    }
                }
            }
            i = i + 1;
        }
        let item_id = item.id.clone();
        let ghost tags_done = self.tags@;
        let found = self.find_item(&item_id);
        proof {
            assert(item_id@ == item.id@);
        }
        match found {
            Some(f) => {
                self.items.set(f, item);
            },
            None => {
                self.items.push(item);
            },
        }
        proof {
            let items = self.items@;
            assert forall|a: int, b: int| 0 <= a < b < items.len() implies items[a].id@
                != items[b].id@ by {
                if b < old(self).items@.len() {
                    if a != item_idx(old(self).items@, item_id@) {
                        assert(items[a] == old(self).items@[a]);
                    }
                    if b != item_idx(old(self).items@, item_id@) {
                        assert(items[b] == old(self).items@[b]);
                    }
                    lemma_item_idx(old(self).items@, item_id@);
                } else {
                    assert(items[a] == old(self).items@[a]);
                    lemma_item_idx(old(self).items@, item_id@);
                }
            }
        }
        let ghost items_done = self.items@;
        let child_count = children.len();
        let mut c: usize = 0;
        while c < child_count
            invariant
                self.wf(),
                c <= child_count,
                child_count == children@.len(),
                self.items@ == items_done,
                self.tags@ == tags_done,
                forall|k: int| 0 <= k < old(self).edges@.len() ==> self.edges@[k] == old(self).edges@[k],
                old(self).edges@.len() <= self.edges@.len(),
                forall|j: int|
                    0 <= j < c ==> edge_present(
                        self.edges@,
                        item_id@,
                        children@[j].publishedfileid@,
                    ),
                forall|k: int|
                    old(self).edges@.len() <= k < self.edges@.len() ==> edge_from(
                        children@.take(c as int),
                        item_id@,
                        #[trigger] self.edges@[k],
                    ),
            decreases child_count - c,
        {
            let ghost before = self.edges@;
            self.upsert_edge(&item_id, &children[c].publishedfileid);
            proof {
                assert forall|j: int| 0 <= j < c + 1 implies edge_present(
                    self.edges@,
                    item_id@,
                    children@[j].publishedfileid@,
                ) by {
                    if j < c {
                        let k = choose|k: int|
                            0 <= k < before.len() && before[k].source@ == item_id@
                                && before[k].target@ == children@[j].publishedfileid@;
                        assert(self.edges@[k] == before[k]);
                    }
                }
                assert forall|k: int|
                    old(self).edges@.len() <= k < self.edges@.len() implies edge_from(
                        children@.take(c + 1),
                        item_id@,
                        #[trigger] self.edges@[k],
                    ) by {
                    let upto = children@.take(c + 1);
                    if k < before.len() {
                        assert(self.edges@[k] == before[k]);
                        let j0 = choose|j: int|
                            0 <= j < children@.take(c as int).len() && before[k].target@
                                == children@.take(c as int)[j].publishedfileid@;
                        assert(upto[j0] == children@[j0]);
                        assert(self.edges@[k].target@ == upto[j0].publishedfileid@);
                    } else {
                        assert(upto[c as int] == children@[c as int]);
                        assert(self.edges@[k].target@ == upto[c as int].publishedfileid@);
                    }
                }
            }
            c = c + 1;
        }
        proof {
            assert(item_id@ == item.id@);
            assert(item.tags@.take(tag_count as int) =~= item.tags@);
            assert(children@.take(child_count as int) =~= children@);
        }
    }

    /// The minimal projection the staleness gate reads: the stored
    /// `last_updated` and description of an item, if the store knows it.
    pub fn stored_meta(&self, id: &String) -> (r: Option<(u64, String)>)
        ensures
            ({
                let k = item_idx(self.items@, id@);
                match r {
                    Some(m) => k >= 0 && m.0 == self.items@[k].last_updated && m.1@
                        == self.items@[k].description@,
                    None => k == -1,
                }
            }),
    {
        let n = self.items.len();
        let mut i: usize = 0;
        while i < n
            invariant
                i <= n,
                n == self.items@.len(),
                forall|j: int| 0 <= j < i ==> self.items@[j].id@ != id@,
            decreases n - i,
        {
            if self.items[i].id == *id {
                proof {
                    lemma_item_idx_is(self.items@, id@, i as int);
                }
                return Some((self.items[i].last_updated, self.items[i].description.clone()));
            }
            i = i + 1;
        }
        proof {
            lemma_item_idx(self.items@, id@);
        }
        None
    }
}

/// Re-running the writer with tags whose identities are all present
/// already leaves the tag table exactly as it was: the contract's prefix
/// preservation, length bound and appended-from-incoming facts, together
/// with the table's uniqueness, leave no room for a new row.
pub proof fn lemma_tags_rerun_unchanged(old_tags: Seq<Tag>, new_tags: Seq<Tag>, incoming: Seq<Tag>)
    requires
        forall|i: int| 0 <= i < old_tags.len() ==> new_tags[i] == old_tags[i],
        old_tags.len() <= new_tags.len(),
        forall|i: int|
            old_tags.len() <= i < new_tags.len() ==> tag_from(incoming, #[trigger] new_tags[i]),
        forall|i: int, j: int|
            0 <= i < j < new_tags.len() ==> !(new_tags[i].app_id == new_tags[j].app_id
                && new_tags[i].tag@ == new_tags[j].tag@),
        forall|j: int|
            0 <= j < incoming.len() ==> tag_present(
                old_tags,
                (#[trigger] incoming[j]).app_id,
                incoming[j].tag@,
            ),
    ensures
        new_tags == old_tags,
{
    if new_tags.len() > old_tags.len() {
        let i = old_tags.len() as int;
        assert(tag_from(incoming, new_tags[i]));
        let j = choose|j: int|
            0 <= j < incoming.len() && new_tags[i].app_id == incoming[j].app_id && new_tags[i].tag@
                == incoming[j].tag@ && new_tags[i].display_name@ == incoming[j].display_name@;
        let k = choose|k: int|
            0 <= k < old_tags.len() && old_tags[k].app_id == incoming[j].app_id && old_tags[k].tag@
                == incoming[j].tag@;
        assert(new_tags[k] == old_tags[k]);
        assert(!(new_tags[k].app_id == new_tags[i].app_id && new_tags[k].tag@ == new_tags[i].tag@));
    }
    assert(new_tags =~= old_tags);
}

/// Re-running the writer with children whose edges all exist already
/// leaves the edge table exactly as it was, for the same reason.
pub proof fn lemma_edges_rerun_unchanged(
    old_edges: Seq<DependencyEdge>,
    new_edges: Seq<DependencyEdge>,
    children: Seq<Child>,
    source: Seq<char>,
)
    requires
        forall|i: int| 0 <= i < old_edges.len() ==> new_edges[i] == old_edges[i],
        old_edges.len() <= new_edges.len(),
        forall|i: int|
            old_edges.len() <= i < new_edges.len() ==> edge_from(
                children,
                source,
                #[trigger] new_edges[i],
            ),
        forall|i: int, j: int|
            0 <= i < j < new_edges.len() ==> !(new_edges[i].source@ == new_edges[j].source@
                && new_edges[i].target@ == new_edges[j].target@),
        forall|j: int|
            0 <= j < children.len() ==> edge_present(
                old_edges,
                source,
                (#[trigger] children[j]).publishedfileid@,
            ),
    ensures
        new_edges == old_edges,
{
    if new_edges.len() > old_edges.len() {
        let i = old_edges.len() as int;
        assert(edge_from(children, source, new_edges[i]));
        let j = choose|j: int|
            0 <= j < children.len() && new_edges[i].target@ == children[j].publishedfileid@;
        let k = choose|k: int|
            0 <= k < old_edges.len() && old_edges[k].source@ == source && old_edges[k].target@
                == children[j].publishedfileid@;
        assert(new_edges[k] == old_edges[k]);
        assert(!(new_edges[k].source@ == new_edges[i].source@ && new_edges[k].target@
            == new_edges[i].target@));
    }
    assert(new_edges =~= old_edges);
}

/// Whether English is among the detected languages.
pub open spec fn english_in(langs: Seq<DetectedLanguage>) -> bool {
    exists|i: int| 0 <= i < langs.len() && langs[i] == DetectedLanguage::English
}

/// The three-signal eligibility conjunction: the backend's language is
/// present, the stored `last_updated` differs, and the stored description
/// differs; an item the store has never seen counts as changed. A failed
/// lookup (`None`) fails closed: nothing is queued.
pub open spec fn ml_eligible_spec(
    lookup: Option<Option<(u64, Seq<char>)>>,
    langs: Seq<DetectedLanguage>,
    last_updated: u64,
    description: Seq<char>,
) -> bool {
    match lookup {
        None => false,
        Some(stored) => {
            let outdated = match stored {
                Some(m) => m.0 != last_updated,
                None => true,
            };
            let changed = match stored {
                Some(m) => m.1 != description,
                None => description != Seq::<char>::empty(),
            };
            english_in(langs) && outdated && changed
        },
    }
}

/// Decide whether an item is forwarded to the inference gate, per
/// [`ml_eligible_spec`]: `lookup` is the outcome of reading the stored
/// projection, `None` when that read failed.
pub fn maybe_queue_ml(lookup: Option<Option<(u64, String)>>, item: &WorkshopItem) -> (r: bool)
    ensures
        r == ml_eligible_spec(
            match lookup {
                Some(Some(m)) => Some(Some((m.0, m.1@))),
                Some(None) => Some(None),
                None => None,
            },
            item.languages@,
            item.last_updated,
            item.description@,
        ),
{
    let english = contains_english(&item.languages);
    match &lookup {
        None => false,
        Some(None) => {
            let empty_desc = item.description.as_str().is_empty();
            proof {
                if empty_desc {
                    assert(item.description@ =~= Seq::<char>::empty());
                }
            }
            english && !empty_desc
        },
        Some(Some(m)) => english && m.0 != item.last_updated && !(m.1 == item.description),
    }
}

/// Whether English is among the given languages.
fn contains_english(langs: &Vec<DetectedLanguage>) -> (r: bool)
    ensures
        r == english_in(langs@),
{
    let n = langs.len();
    let mut i: usize = 0;
    while i < n
        invariant
            i <= n,
            n == langs@.len(),
            forall|j: int| 0 <= j < i ==> langs@[j] != DetectedLanguage::English,
        decreases n - i,
    {
        if langs[i].code() == 1 {
            proof {
                assert(langs@[i as int] == DetectedLanguage::English);
            }
            return true;
        }
        i = i + 1;
    }
    false
}

/// An item whose `last_updated` and description are unchanged from the
/// stored row is never forwarded to the inference gate, whatever its
/// languages.
pub proof fn lemma_unchanged_never_queued(
    langs: Seq<DetectedLanguage>,
    last_updated: u64,
    description: Seq<char>,
)
    ensures
        !ml_eligible_spec(Some(Some((last_updated, description))), langs, last_updated, description),
{
}

} // verus!
