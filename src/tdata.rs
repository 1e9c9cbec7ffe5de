//! Milestone membership data and the tree that groups catalog items under
//! their milestones.
use vstd::prelude::*;
use crate::text::equals;

verus! {

/// Milestones and the items that belong to them, as configured.
#[derive(Debug)]
pub struct Data {
    pub milestones: Vec<Milestone>,
    pub items: Vec<Item>,
}

/// A named stage of progression.
#[derive(Debug)]
pub struct Milestone {
    pub name: String,
}

/// A configured item: its catalog name, tags, and the milestone it
/// belongs to.
#[derive(Debug)]
pub struct Item {
    pub name: String,
    pub tags: Vec<String>,
    pub milestone: String,
}

impl Item {
    pub fn copy(&self) -> (r: Item)
        ensures
            r.name == self.name,
            r.tags@ == self.tags@,
            r.milestone == self.milestone,
    {
        let mut tags: Vec<String> = Vec::new();
        let mut i: usize = 0;
        while i < self.tags.len()
            invariant
                i <= self.tags.len(),
                tags@ == self.tags@.take(i as int),
            decreases self.tags.len() - i,
        {
            tags.push(self.tags[i].clone());
            proof {
                assert(tags@ =~= self.tags@.take(i + 1));
            }
            i = i + 1;
        }
        proof {
            assert(self.tags@.take(self.tags.len() as int) =~= self.tags@);
        }
        Item { name: self.name.clone(), tags, milestone: self.milestone.clone() }
    }
}

impl Data {
    /// The data of several sources together: their milestones, then their
    /// items, each in source order.
    pub fn concat(parts: Vec<Data>) -> (r: Data)
        ensures
            r.milestones@ == parts@.map_values(|d: Data| d.milestones@).flatten(),
            r.items@ == parts@.map_values(|d: Data| d.items@).flatten(),
    {
        let ghost all = parts@;
        let mut milestones: Vec<Milestone> = Vec::new();
        let mut items: Vec<Item> = Vec::new();
        let mut rest = parts;
        let ghost done: int = 0;
        proof {
            assert(rest@ =~= all.skip(0));
            assert(all.take(0).map_values(|d: Data| d.milestones@) =~= Seq::<Seq<Milestone>>::empty());
            assert(all.take(0).map_values(|d: Data| d.items@) =~= Seq::<Seq<Item>>::empty());
        }
        while rest.len() > 0
            invariant
                0 <= done <= all.len(),
                rest@ == all.skip(done),
                milestones@ == all.take(done).map_values(|d: Data| d.milestones@).flatten(),
                items@ == all.take(done).map_values(|d: Data| d.items@).flatten(),
            decreases rest.len(),
        {
            let mut part = rest.remove(0);
            proof {
                assert(part == all[done]);
                let ms = all.take(done + 1).map_values(|d: Data| d.milestones@);
                assert(ms.drop_last() =~= all.take(done).map_values(|d: Data| d.milestones@));
                ms.lemma_flatten_push(ms.last());
                assert(ms =~= ms.drop_last().push(ms.last()));
                let is = all.take(done + 1).map_values(|d: Data| d.items@);
                assert(is.drop_last() =~= all.take(done).map_values(|d: Data| d.items@));
                assert(is =~= is.drop_last().push(is.last()));
            }
            milestones.append(&mut part.milestones);
            items.append(&mut part.items);
            proof {
                let ms = all.take(done + 1).map_values(|d: Data| d.milestones@);
                ms.drop_last().lemma_flatten_push(ms.last());
                let is = all.take(done + 1).map_values(|d: Data| d.items@);
                is.drop_last().lemma_flatten_push(is.last());
                done = done + 1;
                assert(rest@ =~= all.skip(done));
            }
        }
        proof {
            assert(all.take(done) =~= all);
        }
        Data { milestones, items }
    }
}

/// The index of the first milestone named `name`.
pub open spec fn milestone_index(ms: Seq<Milestone>, name: Seq<char>) -> Option<int>
    decreases ms.len(),
{
    if ms.len() == 0 {
        None
    } else {
        match milestone_index(ms.drop_last(), name) {
            Some(i) => Some(i),
            None => if ms.last().name@ == name {
                Some(ms.len() - 1)
            } else {
                None
            },
        }
    }
}

/// The index of the first catalog item named `name`.
pub open spec fn catalog_index(cat: Seq<crate::item::Item>, name: Seq<char>) -> Option<int>
    decreases cat.len(),
{
    if cat.len() == 0 {
        None
    } else {
        match catalog_index(cat.drop_last(), name) {
            Some(i) => Some(i),
            None => if cat.last().name@ == name {
                Some(cat.len() - 1)
            } else {
                None
            },
        }
    }
}

/// Why a tree could not be built: the configuration and the catalog
/// disagree.
#[derive(Debug, Clone, Copy, PartialEq, Eq, Structural)]
pub enum TreeError {
    /// An item names a milestone that is not configured.
    UnknownMilestone,
    /// An item has no catalog entry of its name.
    MissingWikiData,
}

/// What stops a configured item from entering the tree, if anything.
pub open spec fn item_error(ms: Seq<Milestone>, cat: Seq<crate::item::Item>, it: Item) -> Option<
    TreeError,
> {
    if milestone_index(ms, it.milestone@) is None {
        Some(TreeError::UnknownMilestone)
    } else if catalog_index(cat, it.name@) is None {
        Some(TreeError::MissingWikiData)
    } else {
        None
    }
}

/// The items that belong to milestone `m`, in their order.
pub open spec fn items_of(items: Seq<Item>, ms: Seq<Milestone>, m: int) -> Seq<Item>
    decreases items.len(),
{
    if items.len() == 0 {
        Seq::empty()
    } else {
        let prev = items_of(items.drop_last(), ms, m);
        if milestone_index(ms, items.last().milestone@) == Some(m) {
            prev.push(items.last())
        } else {
            prev
        }
    }
}

/// The milestones in configured order, each with its items.
pub struct TDataTree {
    pub milestones: Vec<TreeMilestone>,
}

pub struct TreeMilestone {
    pub name: String,
    pub items: Vec<TreeItem>,
}

/// A configured item and the index of its catalog entry.
pub struct TreeItem {
    pub tdata: Item,
    pub wiki_data: usize,
}

/// `t` is the tree entry of the configured item `it`.
pub open spec fn entry_of(t: TreeItem, it: Item, cat: Seq<crate::item::Item>) -> bool {
    &&& t.tdata.name == it.name
    &&& t.tdata.tags@ == it.tags@
    &&& t.tdata.milestone == it.milestone
    &&& catalog_index(cat, it.name@) == Some(t.wiki_data as int)
}

/// `tree` holds milestone `m` with the entries of its items in order,
/// for the milestones `m < upto`, or all when `upto` is their number.
pub open spec fn tree_holds(
    tree: Seq<TreeMilestone>,
    ms: Seq<Milestone>,
    items: Seq<Item>,
    cat: Seq<crate::item::Item>,
) -> bool {
    &&& tree.len() == ms.len()
    &&& forall|m: int|
        0 <= m < ms.len() ==> {
            let tm = #[trigger] tree[m];
            let want = items_of(items, ms, m);
            &&& tm.name == ms[m].name
            &&& tm.items@.len() == want.len()
            &&& forall|k: int| 0 <= k < want.len() ==> entry_of(#[trigger] tm.items@[k], want[k], cat)
        }
}

fn find_milestone(ms: &Vec<TreeMilestone>, name: &String) -> (r: Option<usize>)
    ensures
        match r {
            Some(i) => i < ms@.len() && ms@[i as int].name@ == name@ && forall|j: int|
                0 <= j < i ==> (#[trigger] ms@[j]).name@ != name@,
            None => forall|j: int| 0 <= j < ms@.len() ==> (#[trigger] ms@[j]).name@ != name@,
        },
{
    let mut i: usize = 0;
    while i < ms.len()
        invariant
            i <= ms.len(),
            forall|j: int| 0 <= j < i ==> (#[trigger] ms@[j]).name@ != name@,
        decreases ms.len() - i,
    {
        if equals(ms[i].name.as_str(), name.as_str()) {
            return Some(i);
        }
        i = i + 1;
    }
    None
}

proof fn lemma_milestone_index(ms: Seq<Milestone>, name: Seq<char>, i: Option<int>)
    requires
        match i {
            Some(i) => 0 <= i < ms.len() && ms[i].name@ == name && forall|j: int|
                0 <= j < i ==> (#[trigger] ms[j]).name@ != name,
            None => forall|j: int| 0 <= j < ms.len() ==> (#[trigger] ms[j]).name@ != name,
        },
    ensures
        milestone_index(ms, name) == i,
    decreases ms.len(),
{
    if ms.len() > 0 {
        let init = ms.drop_last();
        match i {
            Some(k) => {
                if k < ms.len() - 1 {
                    lemma_milestone_index(init, name, Some(k));
                } else {
                    lemma_milestone_index(init, name, None);
                }
            },
            None => {
                lemma_milestone_index(init, name, None);
            },
        }
    }
}

fn find_in_catalog(cat: &Vec<crate::item::Item>, name: &String) -> (r: Option<usize>)
    ensures
        match r {
            Some(i) => catalog_index(cat@, name@) == Some(i as int),
            None => catalog_index(cat@, name@) is None,
        },
{
    let mut i: usize = 0;
    while i < cat.len()
        invariant
            i <= cat.len(),
            catalog_index(cat@.take(i as int), name@) is None,
        decreases cat.len() - i,
    {
        proof {
            assert(cat@.take(i + 1).drop_last() =~= cat@.take(i as int));
        }
        if equals(cat[i].name.as_str(), name.as_str()) {
            proof {
                lemma_catalog_prefix(cat@, name@, i + 1);
            }
            return Some(i);
        }
        i = i + 1;
    }
    proof {
        assert(cat@.take(cat@.len() as int) =~= cat@);
    }
    None
}

/// A match within a prefix of the catalog is the catalog's first match.
proof fn lemma_catalog_prefix(cat: Seq<crate::item::Item>, name: Seq<char>, k: int)
    requires
        0 <= k <= cat.len(),
        catalog_index(cat.take(k), name) is Some,
    ensures
        catalog_index(cat, name) == catalog_index(cat.take(k), name),
    decreases cat.len() - k,
{
    if k < cat.len() {
        assert(cat.take(k + 1).drop_last() =~= cat.take(k));
        lemma_catalog_prefix(cat, name, k + 1);
    } else {
        assert(cat.take(k) =~= cat);
    }
}

impl TDataTree {
    /// Groups the configured items under their milestones, in the order
    /// they are listed, each with the index of the first catalog item of
    /// its name. An item whose milestone is not configured, or that the
    /// catalog lacks, stops the construction.
    pub fn from_tdata(tdata: &Data, catalog: &Vec<crate::item::Item>) -> (r: Result<
        TDataTree,
        TreeError,
    >)
        ensures
            match r {
                Ok(tree) => {
                    &&& forall|i: int|
                        0 <= i < tdata.items@.len() ==> item_error(
                            tdata.milestones@,
                            catalog@,
                            #[trigger] tdata.items@[i],
                        ) is None
                    &&& tree_holds(tree.milestones@, tdata.milestones@, tdata.items@, catalog@)
                },
                Err(e) => exists|i: int|
                    0 <= i < tdata.items@.len() && item_error(
                        tdata.milestones@,
                        catalog@,
                        tdata.items@[i],
                    ) == Some(e) && forall|j: int|
                        0 <= j < i ==> item_error(
                            tdata.milestones@,
                            catalog@,
                            #[trigger] tdata.items@[j],
                        ) is None,
            },
    {
        let ghost ms = tdata.milestones@;
        let ghost items = tdata.items@;
        let ghost cat = catalog@;
        let mut tree: Vec<TreeMilestone> = Vec::new();
        let mut m: usize = 0;
        while m < tdata.milestones.len()
            invariant
                m <= ms.len(),
                ms == tdata.milestones@,
                tree@.len() == m,
                forall|j: int|
                    0 <= j < m ==> (#[trigger] tree@[j]).name == ms[j].name && tree@[j].items@.len()
                        == 0,
            decreases ms.len() - m,
        {
            tree.push(TreeMilestone { name: tdata.milestones[m].name.clone(), items: Vec::new() });
            m = m + 1;
        }
        let mut i: usize = 0;
        proof {
            assert forall|mm: int| 0 <= mm < ms.len() implies items_of(items.take(0), ms, mm)
                =~= Seq::<Item>::empty() by {}
        }
        while i < tdata.items.len()
            invariant
                i <= items.len(),
                ms == tdata.milestones@,
                items == tdata.items@,
                cat == catalog@,
                forall|j: int| 0 <= j < i ==> item_error(ms, cat, #[trigger] items[j]) is None,
                tree_holds(tree@, ms, items.take(i as int), cat),
            decreases items.len() - i,
        {
            let it = &tdata.items[i];
            proof {
                assert(items.take(i + 1).drop_last() =~= items.take(i as int));
                assert(items.take(i + 1).last() == items[i as int]);
            }
            let mi = find_milestone(&tree, &it.milestone);
            proof {
                let o = match mi {
                    Some(k) => Some(k as int),
                    None => None,
                };
                assert forall|j: int| 0 <= j < ms.len() implies (#[trigger] ms[j]).name
                    == tree@[j].name by {}
                lemma_milestone_index(ms, it.milestone@, o);
            }
            let mi = match mi {
                Some(k) => k,
                None => return Err(TreeError::UnknownMilestone),
            };
            let wi = match find_in_catalog(catalog, &it.name) {
                Some(w) => w,
                None => return Err(TreeError::MissingWikiData),
            };
            let entry = TreeItem { tdata: it.copy(), wiki_data: wi };
            let ghost before = tree@;
            let mut slot = tree.remove(mi);
            slot.items.push(entry);
            tree.insert(mi, slot);
            proof {
                let now = items.take(i + 1);
                assert forall|mm: int| 0 <= mm < ms.len() implies {
                    let tm = #[trigger] tree@[mm];
                    let want = items_of(now, ms, mm);
                    &&& tm.name == ms[mm].name
                    &&& tm.items@.len() == want.len()
                    &&& forall|k: int|
                        0 <= k < want.len() ==> entry_of(#[trigger] tm.items@[k], want[k], cat)
                } by {
                    let old_want = items_of(items.take(i as int), ms, mm);
                    assert(before[mm].name == ms[mm].name);
                    if mm == mi {
                        assert(tree@[mm].items@ == before[mm].items@.push(entry));
                        let want = items_of(now, ms, mm);
                        assert(want == old_want.push(items[i as int]));
                        assert forall|k: int| 0 <= k < want.len() implies entry_of(
                            #[trigger] tree@[mm].items@[k],
                            want[k],
                            cat,
                        ) by {
                            if k < old_want.len() {
                                assert(entry_of(before[mm].items@[k], old_want[k], cat));
                            }
                        }
                    } else {
                        assert(tree@[mm] == before[mm]);
                    }
                }
            }
            i = i + 1;
        }
        proof {
            assert(items.take(items.len() as int) =~= items);
        }
        Ok(TDataTree { milestones: tree })
    }
}

} // verus!
