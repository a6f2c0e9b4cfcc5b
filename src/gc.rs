//! The garbage collector: picks the stale rows of a group and decides, for
//! each filesystem object behind them, whether it may be removed safely.
use vstd::prelude::*;
use crate::reconcile::{Action, Canonical, PathFacts, action1, is_action1};
use crate::store::{
    Store, TrackedLink, TrackedPath, descending, group_links, stale_links, stale_paths,
};
use crate::structs::{Ops, Setting, Title};
use crate::tools::text_eq;

verus! {

/// A stale (or, for trees, grouped) entity.
#[derive(Debug, Clone)]
pub struct Key {
    pub hash: u64,
    pub source: String,
    pub destination: String,
    pub category: String,
}

/// One tracked path of a tree entity, with its absolute source and destination.
#[derive(Debug, Clone)]
pub struct Path {
    pub hash: u64,
    /// The path relative to the tree, as the store keeps it.
    pub relative: String,
    pub source: String,
    pub destination: String,
    pub modified: i64,
    pub order: i64,
    pub category: String,
}

/// What the filesystem showed for a removal candidate.
#[derive(Debug, Clone, PartialEq, Eq)]
pub struct RemovalFacts {
    pub source: PathFacts,
    pub destination: PathFacts,
    /// The destination resolved through its links.
    pub canonical: Canonical,
}

/// A link may go when it points nowhere or still at the recorded source.
pub open spec fn link_removable(source: Seq<char>, c: Canonical) -> bool {
    match c {
        Canonical::Resolved(p) => p@ == source,
        Canonical::Missing => true,
        Canonical::Failed => false,
    }
}

/// Whether a link at the destination may be removed.
pub fn symlink_remove(source: &str, canonical: &Canonical) -> (r: bool)
    ensures
        r == link_removable(source@, *canonical),
{
    match canonical {
        Canonical::Resolved(p) => text_eq(p.as_str(), source),
        Canonical::Missing => true,
        Canonical::Failed => false,
    }
}

/// A stale entity's destination goes when it is a link that may go, or a
/// file whose time still equals its source's; directories stay.
pub open spec fn key_removal(source: Seq<char>, destination: Seq<char>, f: RemovalFacts, r: Option<Action>) -> bool {
    let present = f.destination.exists || f.destination.is_symlink;
    let removable = if f.destination.is_symlink {
        link_removable(source, f.canonical)
    } else {
        f.destination.is_file && f.source.modified == f.destination.modified
    };
    if present && removable {
        r matches Some(a) && is_action1(a, Ops::Rm_File, destination)
    } else {
        r is None
    }
}

/// A stale path of a tree goes when it is a link that may go, a file whose
/// time is still the recorded one, or a directory.
pub open spec fn path_removal(
    source: Seq<char>,
    destination: Seq<char>,
    recorded: i64,
    f: RemovalFacts,
    r: Option<Action>,
) -> bool {
    let present = f.destination.exists || f.destination.is_symlink;
    let file_like = f.destination.is_file || f.destination.is_symlink;
    if !present {
        r is None
    } else if !file_like {
        r matches Some(a) && is_action1(a, Ops::Rm_Dir, destination)
    } else if (f.destination.is_symlink && link_removable(source, f.canonical))
        || (!f.destination.is_symlink && recorded == f.destination.modified) {
        r matches Some(a) && is_action1(a, Ops::Rm_File, destination)
    } else {
        r is None
    }
}

impl Key {
    pub open spec fn of_row(row: TrackedLink, k: Key) -> bool {
        k.hash == row.hash && k.source == row.source && k.destination == row.destination
            && k.category == row.category
    }

    pub fn from_row(row: &TrackedLink) -> (r: Key)
        ensures
            Key::of_row(*row, r),
    {
        Key {
            hash: row.hash,
            source: row.source.clone(),
            destination: row.destination.clone(),
            category: row.category.clone(),
        }
    }

    /// The removal, if any, that this stale entity's destination allows.
    pub fn removal(&self, facts: &RemovalFacts) -> (r: Option<Action>)
        ensures
            key_removal(self.source@, self.destination@, *facts, r),
    {
        if facts.destination.exists || facts.destination.is_symlink {
            let to_remove = if facts.destination.is_symlink {
                symlink_remove(self.source.as_str(), &facts.canonical)
            } else {
                facts.destination.is_file && facts.source.modified == facts.destination.modified
            };
            if to_remove {
                return Some(self.remove_file());
            }
        }
        None
    }

    pub fn remove_file(&self) -> (r: Action)
        ensures
            is_action1(r, Ops::Rm_File, self.destination@),
    {
        action1(Ops::Rm_File, self.destination.as_str())
    }
}

impl Path {
    /// The removal, if any, that this stale path allows.
    pub fn removal(&self, facts: &RemovalFacts) -> (r: Option<Action>)
        ensures
            path_removal(self.source@, self.destination@, self.modified, *facts, r),
    {
        if facts.destination.exists || facts.destination.is_symlink {
            if facts.destination.is_file || facts.destination.is_symlink {
                let to_remove = if facts.destination.is_symlink {
                    symlink_remove(self.source.as_str(), &facts.canonical)
                } else {
                    self.modified == facts.destination.modified
                };
                if to_remove {
                    return Some(self.remove_file());
                }
            } else {
                return Some(self.remove_dir());
            }
        }
        None
    }

    pub fn remove_file(&self) -> (r: Action)
        ensures
            is_action1(r, Ops::Rm_File, self.destination@),
    {
        action1(Ops::Rm_File, self.destination.as_str())
    }

    pub fn remove_dir(&self) -> (r: Action)
        ensures
            is_action1(r, Ops::Rm_Dir, self.destination@),
    {
        action1(Ops::Rm_Dir, self.destination.as_str())
    }
}

/// The keys of rows, one for one.
pub open spec fn keys_of(rows: Seq<TrackedLink>, keys: Seq<Key>) -> bool {
    keys.len() == rows.len() && forall|i: int| 0 <= i < rows.len() ==> Key::of_row(rows[i], #[trigger] keys[i])
}

fn keys_from(rows: &Vec<TrackedLink>) -> (r: Vec<Key>)
    ensures
        keys_of(rows@, r@),
{
    let mut out: Vec<Key> = Vec::new();
    let mut i: usize = 0;
    while i < rows.len()
        invariant
            i <= rows@.len(),
            out@.len() == i,
            forall|j: int| 0 <= j < i ==> Key::of_row(rows@[j], #[trigger] out@[j]),
        decreases rows@.len() - i,
    {
        out.push(Key::from_row(&rows[i]));
        i = i + 1;
    }
    out
}

/// The entities that the collector visits for a group: the stale ones of a
/// link group; every one of a tree group, whose stale paths are then visited.
pub fn key_select(store: &Store, setting: Setting, title: Title) -> (r: Vec<Key>)
    ensures
        setting.spec_is_link() ==> keys_of(stale_links(store.primary@, title, setting), r@),
        !setting.spec_is_link() ==> keys_of(group_links(store.primary@, title, setting), r@),
{
    if setting.is_link() {
        let rows = store.select_stale(title, setting);
        keys_from(&rows)
    } else {
        let rows = store.select_group(title, setting);
        keys_from(&rows)
    }
}

/// A path row seen from its entity: absolute source and destination.
pub open spec fn path_of(key: Key, row: TrackedPath, p: Path) -> bool {
    p.hash == key.hash && p.relative == row.path && p.source@ == key.source@ + row.path@
        && p.destination@ == key.destination@ + row.path@ && p.modified == row.modified
        && p.order == row.path_order && p.category == key.category
}

/// The stale paths of an entity, deepest first, with absolute paths.
pub fn paths_select(store: &Store, key: &Key) -> (r: Vec<Path>)
    ensures
        exists|rows: Seq<TrackedPath>|
            rows.to_multiset() == stale_paths(store.secondary@, key.hash).to_multiset() && descending(rows)
                && rows.len() == r@.len()
                && forall|i: int| 0 <= i < rows.len() ==> path_of(*key, rows[i], #[trigger] r@[i]),
{
    let rows = store.select_stale_paths(key.hash);
    let mut out: Vec<Path> = Vec::new();
    let mut i: usize = 0;
    while i < rows.len()
        invariant
            i <= rows@.len(),
            out@.len() == i,
            forall|j: int| 0 <= j < i ==> path_of(*key, rows@[j], #[trigger] out@[j]),
        decreases rows@.len() - i,
    {
        let row = &rows[i];
        let source = key.source.clone().concat(row.path.as_str());
        let destination = key.destination.clone().concat(row.path.as_str());
        out.push(Path {
            hash: key.hash,
            relative: row.path.clone(),
            source,
            destination,
            modified: row.modified,
            order: row.path_order,
            category: key.category.clone(),
        });
        i = i + 1;
    }
    out
}

/// The path rows after the keep flags of every entity in `group` were cleared.
pub open spec fn paths_group_reset(rows: Seq<TrackedPath>, group: Seq<TrackedLink>) -> Seq<TrackedPath> {
    Seq::new(
        rows.len(),
        |i: int|
            if crate::store::has_link(group, rows[i].hash) {
                TrackedPath { keep: false, ..rows[i] }
            } else {
                rows[i]
            },
    )
}

/// Whether entity `id` is tracked and was not marked kept.
pub open spec fn stale_entity(rows: Seq<TrackedLink>, id: u64) -> bool {
    exists|i: int| 0 <= i < rows.len() && rows[i].hash == id && !rows[i].keep
}

/// Whether entity `id` still owns any path row.
pub open spec fn owns_paths(rows: Seq<TrackedPath>, id: u64) -> bool {
    exists|i: int| 0 <= i < rows.len() && rows[i].hash == id
}

impl Store {
    /// Clears every keep flag of a group: its entities' and their paths'.
    pub fn reset_group(&mut self, title: Title, setting: Setting)
        requires
            old(self).wf(),
        ensures
            final(self).wf(),
            final(self).primary@ == crate::store::reset(old(self).primary@, title, setting),
            final(self).secondary@ == paths_group_reset(old(self).secondary@, group_links(old(self).primary@, title, setting)),
    {
        let group = self.select_group(title, setting);
        self.reset_keep(title, setting);
        assert(paths_group_reset(old(self).secondary@, group@.subrange(0, 0)) =~= old(self).secondary@);
        let mut i: usize = 0;
        while i < group.len()
            invariant
                self.wf(),
                i <= group@.len(),
                group@ == group_links(old(self).primary@, title, setting),
                self.primary@ == crate::store::reset(old(self).primary@, title, setting),
                self.secondary@ == paths_group_reset(old(self).secondary@, group@.subrange(0, i as int)),
            decreases group@.len() - i,
        {
            let id = group[i].hash;
            self.reset_paths(id);
            proof {
                let g0 = group@.subrange(0, i as int);
                let g = group@.subrange(0, i + 1);
                assert(g[i as int].hash == id);
                assert forall|k: int| 0 <= k < old(self).secondary@.len() implies
                    crate::store::has_link(g, #[trigger] old(self).secondary@[k].hash)
                        == (crate::store::has_link(g0, old(self).secondary@[k].hash) || old(self).secondary@[k].hash == id) by {
                    let h = old(self).secondary@[k].hash;
                    if crate::store::has_link(g, h) && h != id {
                        let j = choose|j: int| 0 <= j < g.len() && g[j].hash == h;
                        assert(g0[j].hash == h);
                    }
                    if crate::store::has_link(g0, h) {
                        let j = choose|j: int| 0 <= j < g0.len() && g0[j].hash == h;
                        assert(g[j].hash == h);
                    }
                }
                assert(self.secondary@ =~= paths_group_reset(old(self).secondary@, g));
            }
            i = i + 1;
        }
        assert(group@.subrange(0, group@.len() as int) == group@);
    }

    /// Forgets a tree entity once it is stale and no path of it is left.
    pub fn settle_key(&mut self, id: u64)
        requires
            old(self).wf(),
        ensures
            final(self).wf(),
            final(self).secondary@ == old(self).secondary@,
            owns_paths(old(self).secondary@, id) || !stale_entity(old(self).primary@, id)
                ==> final(self).primary@ == old(self).primary@,
            !owns_paths(old(self).secondary@, id) && stale_entity(old(self).primary@, id)
                ==> final(self).primary@ == crate::store::without_link(old(self).primary@, id),
    {
        let mut i: usize = 0;
        while i < self.secondary.len()
            invariant
                *self == *old(self),
                self.wf(),
                i <= self.secondary@.len(),
                forall|j: int| 0 <= j < i ==> self.secondary@[j].hash != id,
            decreases self.secondary@.len() - i,
        {
            if self.secondary[i].hash == id {
                return;
            }
            i = i + 1;
        }
        match Store::find_link(&self.primary, id) {
            None => {},
            Some(k) => {
                if !self.primary[k].keep {
                    self.delete_primary(id);
                } else {
                    assert(!stale_entity(self.primary@, id)) by {
                        if stale_entity(self.primary@, id) {
                            let j = choose|j: int| 0 <= j < self.primary@.len() && self.primary@[j].hash == id && !self.primary@[j].keep;
                            assert(j == k);
                        }
                    }
                }
            },
        }
    }
}

} // verus!
