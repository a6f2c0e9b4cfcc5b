//! The tracking store: one row per declared entity ("primary") and one row
//! per path of a mirrored tree ("secondary"), each with a keep flag that the
//! mark-and-sweep collector reads.
use vstd::prelude::*;
use crate::structs::{Setting, Title};
use crate::tools::text_eq;

verus! {

/// A primary row: one logical declared entity.
pub struct TrackedLink {
    pub hash: u64,
    pub category: String,
    pub title: Title,
    pub setting: Setting,
    pub source: String,
    pub destination: String,
    pub keep: bool,
}

impl Clone for TrackedLink {
    fn clone(&self) -> (r: Self)
        ensures
            r == *self,
    {
        TrackedLink {
            hash: self.hash,
            category: self.category.clone(),
            title: self.title,
            setting: self.setting,
            source: self.source.clone(),
            destination: self.destination.clone(),
            keep: self.keep,
        }
    }
}

/// A secondary row: one path beneath a mirrored tree, owned by the primary
/// row with the same hash.
pub struct TrackedPath {
    pub hash: u64,
    pub path: String,
    pub modified: i64,
    pub path_order: i64,
    pub keep: bool,
}

impl Clone for TrackedPath {
    fn clone(&self) -> (r: Self)
        ensures
            r == *self,
    {
        TrackedPath {
            hash: self.hash,
            path: self.path.clone(),
            modified: self.modified,
            path_order: self.path_order,
            keep: self.keep,
        }
    }
}

/// The two tables.
pub struct Store {
    pub primary: Vec<TrackedLink>,
    pub secondary: Vec<TrackedPath>,
}

pub open spec fn in_group(r: TrackedLink, title: Title, setting: Setting) -> bool {
    r.title == title && r.setting == setting
}

pub open spec fn has_link(rows: Seq<TrackedLink>, id: u64) -> bool {
    exists|i: int| 0 <= i < rows.len() && rows[i].hash == id
}

/// At most one primary row per hash.
pub open spec fn links_unique(rows: Seq<TrackedLink>) -> bool {
    forall|i: int, j: int|
        0 <= i < rows.len() && 0 <= j < rows.len() && rows[i].hash == rows[j].hash ==> i == j
}

pub open spec fn with_keep(r: TrackedLink, keep: bool) -> TrackedLink {
    TrackedLink { keep: keep, ..r }
}

/// The rows after the entity `id` has been marked as still declared.
pub open spec fn marked(rows: Seq<TrackedLink>, id: u64) -> Seq<TrackedLink> {
    Seq::new(rows.len(), |i: int| if rows[i].hash == id { with_keep(rows[i], true) } else { rows[i] })
}

/// The rows after every keep flag of one group has been cleared.
pub open spec fn reset(rows: Seq<TrackedLink>, title: Title, setting: Setting) -> Seq<TrackedLink> {
    Seq::new(
        rows.len(),
        |i: int| if in_group(rows[i], title, setting) { with_keep(rows[i], false) } else { rows[i] },
    )
}

/// The rows after every entity of `declared` has been marked kept.
pub open spec fn mark_all(rows: Seq<TrackedLink>, declared: Set<u64>) -> Seq<TrackedLink> {
    Seq::new(rows.len(), |i: int| if declared.contains(rows[i].hash) { with_keep(rows[i], true) } else { rows[i] })
}

/// The rows after the stale rows of one group have been removed.
pub open spec fn sweep(rows: Seq<TrackedLink>, title: Title, setting: Setting) -> Seq<TrackedLink>
    decreases rows.len(),
{
    if rows.len() == 0 {
        rows
    } else {
        let rest = sweep(rows.drop_last(), title, setting);
        if is_stale(rows.last(), title, setting) { rest } else { rest.push(rows.last()) }
    }
}

/// The rows of one group, in table order.
pub open spec fn group_links(rows: Seq<TrackedLink>, title: Title, setting: Setting) -> Seq<TrackedLink>
    decreases rows.len(),
{
    if rows.len() == 0 {
        rows
    } else {
        let rest = group_links(rows.drop_last(), title, setting);
        if in_group(rows.last(), title, setting) { rest.push(rows.last()) } else { rest }
    }
}

pub open spec fn is_stale(r: TrackedLink, title: Title, setting: Setting) -> bool {
    in_group(r, title, setting) && !r.keep
}

/// The rows of one group whose keep flag is clear, in table order.
pub open spec fn stale_links(rows: Seq<TrackedLink>, title: Title, setting: Setting) -> Seq<TrackedLink>
    decreases rows.len(),
{
    if rows.len() == 0 {
        rows
    } else {
        let rest = stale_links(rows.drop_last(), title, setting);
        if is_stale(rows.last(), title, setting) { rest.push(rows.last()) } else { rest }
    }
}

/// The rows with the entity `id` taken out.
pub open spec fn without_link(rows: Seq<TrackedLink>, id: u64) -> Seq<TrackedLink>
    decreases rows.len(),
{
    if rows.len() == 0 {
        rows
    } else {
        let rest = without_link(rows.drop_last(), id);
        if rows.last().hash != id { rest.push(rows.last()) } else { rest }
    }
}

proof fn lemma_without_link_absent(rows: Seq<TrackedLink>, id: u64)
    requires
        !has_link(rows, id),
    ensures
        without_link(rows, id) == rows,
    decreases rows.len(),
{
    if rows.len() > 0 {
        assert(!has_link(rows.drop_last(), id)) by {
            if has_link(rows.drop_last(), id) {
                let i = choose|i: int| 0 <= i < rows.drop_last().len() && rows.drop_last()[i].hash == id;
                assert(rows[i].hash == id);
            }
        }
        lemma_without_link_absent(rows.drop_last(), id);
        assert(rows.last().hash != id);
        assert(rows.drop_last().push(rows.last()) == rows);
    }
}

/// Taking out the one row at `k` (the only row of its hash) is what
/// `without_link` says.
proof fn lemma_without_link_at(rows: Seq<TrackedLink>, k: int)
    requires
        0 <= k < rows.len(),
        links_unique(rows),
    ensures
        without_link(rows, rows[k].hash) == rows.remove(k),
    decreases rows.len(),
{
    let id = rows[k].hash;
    if k == rows.len() - 1 {
        assert(!has_link(rows.drop_last(), id)) by {
            if has_link(rows.drop_last(), id) {
                let i = choose|i: int| 0 <= i < rows.drop_last().len() && rows.drop_last()[i].hash == id;
                assert(rows[i].hash == rows[k].hash);
            }
        }
        lemma_without_link_absent(rows.drop_last(), id);
        assert(rows.remove(k) == rows.drop_last());
    } else {
        let d = rows.drop_last();
        assert(links_unique(d));
        assert(d[k] == rows[k]);
        lemma_without_link_at(d, k);
        assert(rows.last().hash != id);
        assert(rows.remove(k) == d.remove(k).push(rows.last()));
    }
}


pub open spec fn is_path(r: TrackedPath, id: u64, path: Seq<char>) -> bool {
    r.hash == id && r.path@ == path
}

pub open spec fn has_path(rows: Seq<TrackedPath>, id: u64, path: Seq<char>) -> bool {
    exists|i: int| 0 <= i < rows.len() && is_path(rows[i], id, path)
}

/// At most one secondary row per (hash, path).
pub open spec fn paths_unique(rows: Seq<TrackedPath>) -> bool {
    forall|i: int, j: int|
        0 <= i < rows.len() && 0 <= j < rows.len() && rows[i].hash == rows[j].hash
            && rows[i].path@ == rows[j].path@ ==> i == j
}

/// The modification time last recorded for a path, if it is tracked.
pub open spec fn tracked_modified(rows: Seq<TrackedPath>, id: u64, path: Seq<char>) -> Option<i64> {
    if has_path(rows, id, path) {
        Some(rows[choose|i: int| 0 <= i < rows.len() && is_path(rows[i], id, path)].modified)
    } else {
        None
    }
}

/// The rows after a path has been visited again at position `order`.
pub open spec fn path_marked(rows: Seq<TrackedPath>, id: u64, path: Seq<char>, order: i64) -> Seq<TrackedPath> {
    Seq::new(
        rows.len(),
        |i: int|
            if is_path(rows[i], id, path) {
                TrackedPath { keep: true, path_order: order, ..rows[i] }
            } else {
                rows[i]
            },
    )
}

/// The rows after a path's recorded modification time has been replaced.
pub open spec fn path_timed(rows: Seq<TrackedPath>, id: u64, path: Seq<char>, nanos: i64) -> Seq<TrackedPath> {
    Seq::new(
        rows.len(),
        |i: int| if is_path(rows[i], id, path) { TrackedPath { modified: nanos, ..rows[i] } } else { rows[i] },
    )
}

/// The rows after every keep flag of entity `id` has been cleared.
pub open spec fn paths_reset(rows: Seq<TrackedPath>, id: u64) -> Seq<TrackedPath> {
    Seq::new(rows.len(), |i: int| if rows[i].hash == id { TrackedPath { keep: false, ..rows[i] } } else { rows[i] })
}

/// The rows of entity `id` whose keep flag is clear, in table order.
pub open spec fn stale_paths(rows: Seq<TrackedPath>, id: u64) -> Seq<TrackedPath>
    decreases rows.len(),
{
    if rows.len() == 0 {
        rows
    } else {
        let rest = stale_paths(rows.drop_last(), id);
        if rows.last().hash == id && !rows.last().keep { rest.push(rows.last()) } else { rest }
    }
}

/// Deepest first: `path_order` never increases along the sequence.
pub open spec fn descending(rows: Seq<TrackedPath>) -> bool {
    forall|i: int, j: int| 0 <= i < j < rows.len() ==> rows[i].path_order >= rows[j].path_order
}

proof fn lemma_unique_index(rows: Seq<TrackedPath>, id: u64, path: Seq<char>, k: int)
    requires
        paths_unique(rows),
        0 <= k < rows.len(),
        is_path(rows[k], id, path),
    ensures
        tracked_modified(rows, id, path) == Some(rows[k].modified),
{
    let c = choose|i: int| 0 <= i < rows.len() && is_path(rows[i], id, path);
    assert(c == k);
}

proof fn lemma_update_keeps_unique(rows: Seq<TrackedPath>, k: int, row: TrackedPath)
    requires
        paths_unique(rows),
        0 <= k < rows.len(),
        row.hash == rows[k].hash,
        row.path@ == rows[k].path@,
    ensures
        paths_unique(rows.update(k, row)),
{
    let u = rows.update(k, row);
    assert forall|i: int, j: int|
        0 <= i < u.len() && 0 <= j < u.len() && u[i].hash == u[j].hash && u[i].path@ == u[j].path@ implies i == j by {
        assert(u[i].hash == rows[i].hash && u[i].path@ == rows[i].path@);
        assert(u[j].hash == rows[j].hash && u[j].path@ == rows[j].path@);
    }
}

impl Store {
    pub open spec fn wf(&self) -> bool {
        links_unique(self.primary@) && paths_unique(self.secondary@)
    }

    /// An empty store.
    pub fn new() -> (r: Store)
        ensures
            r.wf(),
            r.primary@.len() == 0,
            r.secondary@.len() == 0,
    {
        Store { primary: Vec::new(), secondary: Vec::new() }
    }

    /// Builds a store from rows read back from storage; a row that repeats
    /// the key of an earlier row (its hash, or its hash and path) is dropped.
    pub fn from_rows(primary: Vec<TrackedLink>, secondary: Vec<TrackedPath>) -> (r: Store)
        ensures
            r.wf(),
            links_unique(primary@) ==> r.primary@ == primary@,
            paths_unique(secondary@) ==> r.secondary@ == secondary@,
    {
        let mut rows: Vec<TrackedLink> = Vec::new();
        let mut i: usize = 0;
        while i < primary.len()
            invariant
                i <= primary.len(),
                links_unique(rows@),
                links_unique(primary@) ==> rows@ == primary@.subrange(0, i as int),
            decreases primary.len() - i,
        {
            let row = primary[i].clone();
            let found = Self::find_link(&rows, row.hash);
            if found.is_none() {
                rows.push(row);
            } else {
                proof {
                    if links_unique(primary@) {
                        let k = found.unwrap() as int;
                        assert(primary@[k] == rows@[k]);
                    }
                }
            }
            assert(links_unique(primary@) ==> primary@.subrange(0, i + 1) == primary@.subrange(0, i as int).push(primary@[i as int]));
            i = i + 1;
        }
        assert(links_unique(primary@) ==> primary@.subrange(0, primary@.len() as int) == primary@);
        let mut paths: Vec<TrackedPath> = Vec::new();
        let mut j: usize = 0;
        while j < secondary.len()
            invariant
                j <= secondary.len(),
                paths_unique(paths@),
                paths_unique(secondary@) ==> paths@ == secondary@.subrange(0, j as int),
            decreases secondary.len() - j,
        {
            let row = secondary[j].clone();
            let found = Self::find_path(&paths, row.hash, row.path.as_str());
            if found.is_none() {
                let ghost p = row.path@;
                let ghost h = row.hash;
                paths.push(row);
                assert forall|a: int, b: int|
                    0 <= a < paths@.len() && 0 <= b < paths@.len() && paths@[a].hash == paths@[b].hash
                        && paths@[a].path@ == paths@[b].path@ implies a == b by {
                    let n = paths@.len() - 1;
                    if a < n && b == n {
                        assert(is_path(paths@[a], h, p));
                    }
                    if b < n && a == n {
                        assert(is_path(paths@[b], h, p));
                    }
                }
            } else {
                proof {
                    if paths_unique(secondary@) {
                        let k = found.unwrap() as int;
                        assert(secondary@[k] == paths@[k]);
                    }
                }
            }
            assert(paths_unique(secondary@) ==> secondary@.subrange(0, j + 1) == secondary@.subrange(0, j as int).push(secondary@[j as int]));
            j = j + 1;
        }
        assert(paths_unique(secondary@) ==> secondary@.subrange(0, secondary@.len() as int) == secondary@);
        Store { primary: rows, secondary: paths }
    }

    /// The position of the row of entity `id`, if there is one.
    pub fn find_link(rows: &Vec<TrackedLink>, id: u64) -> (r: Option<usize>)
        ensures
            r is None <==> !has_link(rows@, id),
            r matches Some(k) ==> k < rows@.len() && rows@[k as int].hash == id,
    {
        let mut i: usize = 0;
        while i < rows.len()
            invariant
                i <= rows.len(),
                forall|j: int| 0 <= j < i ==> rows@[j].hash != id,
            decreases rows.len() - i,
        {
            if rows[i].hash == id {
                return Some(i);
            }
            i = i + 1;
        }
        None
    }

    /// Marks entity `id` as still declared; returns how many rows it touched
    /// (one if the entity is tracked, else none).
    pub fn update_primary(&mut self, id: u64) -> (r: usize)
        requires
            old(self).wf(),
        ensures
            final(self).wf(),
            final(self).primary@ == marked(old(self).primary@, id),
            final(self).secondary@ == old(self).secondary@,
            r == 0 <==> !has_link(old(self).primary@, id),
            r <= 1,
    {
        match Self::find_link(&self.primary, id) {
            None => {
                assert(marked(self.primary@, id) =~= self.primary@);
                0
            },
            Some(k) => {
                let mut row = self.primary[k].clone();
                row.keep = true;
                self.primary.set(k, row);
                assert(self.primary@ =~= marked(old(self).primary@, id));
                1
            },
        }
    }

    /// Records a newly created entity, or marks it if it is already tracked.
    pub fn upsert_primary(
        &mut self,
        id: u64,
        category: String,
        title: Title,
        setting: Setting,
        source: String,
        destination: String,
    )
        requires
            old(self).wf(),
        ensures
            final(self).wf(),
            final(self).secondary@ == old(self).secondary@,
            has_link(old(self).primary@, id) ==> final(self).primary@ == marked(old(self).primary@, id),
            !has_link(old(self).primary@, id) ==> final(self).primary@ == old(self).primary@.push(
                TrackedLink { hash: id, category, title, setting, source, destination, keep: true },
            ),
    {
        if self.update_primary(id) == 0 {
            assert(marked(old(self).primary@, id) =~= old(self).primary@);
            let row = TrackedLink { hash: id, category, title, setting, source, destination, keep: true };
            self.primary.push(row);
            assert forall|i: int, j: int|
                0 <= i < self.primary@.len() && 0 <= j < self.primary@.len()
                    && self.primary@[i].hash == self.primary@[j].hash implies i == j by {
                if i < old(self).primary@.len() && j == old(self).primary@.len() {
                    assert(old(self).primary@[i].hash == id);
                }
                if j < old(self).primary@.len() && i == old(self).primary@.len() {
                    assert(old(self).primary@[j].hash == id);
                }
            }
        }
    }

    /// Clears the keep flag of every row of one group, at the start of its pass.
    pub fn reset_keep(&mut self, title: Title, setting: Setting)
        requires
            old(self).wf(),
        ensures
            final(self).wf(),
            final(self).primary@ == reset(old(self).primary@, title, setting),
            final(self).secondary@ == old(self).secondary@,
    {
        let mut i: usize = 0;
        while i < self.primary.len()
            invariant
                i <= self.primary@.len(),
                self.primary@.len() == old(self).primary@.len(),
                self.secondary@ == old(self).secondary@,
                forall|j: int| 0 <= j < i ==> self.primary@[j] == reset(old(self).primary@, title, setting)[j],
                forall|j: int| i <= j < self.primary@.len() ==> self.primary@[j] == old(self).primary@[j],
            decreases self.primary@.len() - i,
        {
            if self.primary[i].title == title && self.primary[i].setting == setting {
                let mut row = self.primary[i].clone();
                row.keep = false;
                self.primary.set(i, row);
            }
            i = i + 1;
        }
        assert(self.primary@ =~= reset(old(self).primary@, title, setting));
    }

    /// The rows of one group whose keep flag is still clear.
    pub fn select_stale(&self, title: Title, setting: Setting) -> (r: Vec<TrackedLink>)
        ensures
            r@ == stale_links(self.primary@, title, setting),
    {
        let mut out: Vec<TrackedLink> = Vec::new();
        let mut i: usize = 0;
        while i < self.primary.len()
            invariant
                i <= self.primary@.len(),
                out@ == stale_links(self.primary@.subrange(0, i as int), title, setting),
            decreases self.primary@.len() - i,
        {
            let ghost pre = self.primary@.subrange(0, i + 1);
            assert(pre.drop_last() == self.primary@.subrange(0, i as int));
            if self.primary[i].title == title && self.primary[i].setting == setting && !self.primary[i].keep {
                out.push(self.primary[i].clone());
            }
            i = i + 1;
        }
        assert(self.primary@.subrange(0, self.primary@.len() as int) == self.primary@);
        out
    }

    /// Every row of one group.
    pub fn select_group(&self, title: Title, setting: Setting) -> (r: Vec<TrackedLink>)
        ensures
            r@ == group_links(self.primary@, title, setting),
    {
        let mut out: Vec<TrackedLink> = Vec::new();
        let mut i: usize = 0;
        while i < self.primary.len()
            invariant
                i <= self.primary@.len(),
                out@ == group_links(self.primary@.subrange(0, i as int), title, setting),
            decreases self.primary@.len() - i,
        {
            let ghost pre = self.primary@.subrange(0, i + 1);
            assert(pre.drop_last() == self.primary@.subrange(0, i as int));
            if self.primary[i].title == title && self.primary[i].setting == setting {
                out.push(self.primary[i].clone());
            }
            i = i + 1;
        }
        assert(self.primary@.subrange(0, self.primary@.len() as int) == self.primary@);
        out
    }

    /// Forgets entity `id`.
    pub fn delete_primary(&mut self, id: u64)
        requires
            old(self).wf(),
        ensures
            final(self).wf(),
            final(self).primary@ == without_link(old(self).primary@, id),
            final(self).secondary@ == old(self).secondary@,
    {
        match Self::find_link(&self.primary, id) {
            None => {
                proof { lemma_without_link_absent(self.primary@, id); }
            },
            Some(k) => {
                proof { lemma_without_link_at(self.primary@, k as int); }
                self.primary.remove(k);
                assert forall|i: int, j: int|
                    0 <= i < self.primary@.len() && 0 <= j < self.primary@.len()
                        && self.primary@[i].hash == self.primary@[j].hash implies i == j by {
                    let oi = if i < k { i } else { i + 1 };
                    let oj = if j < k { j } else { j + 1 };
                    assert(self.primary@[i] == old(self).primary@[oi]);
                    assert(self.primary@[j] == old(self).primary@[oj]);
                }
            },
        }
    }
    /// The position of the row of a tracked path, if there is one.
    pub fn find_path(rows: &Vec<TrackedPath>, id: u64, path: &str) -> (r: Option<usize>)
        ensures
            r is None <==> !has_path(rows@, id, path@),
            r matches Some(k) ==> k < rows@.len() && is_path(rows@[k as int], id, path@),
    {
        let mut i: usize = 0;
        while i < rows.len()
            invariant
                i <= rows.len(),
                forall|j: int| 0 <= j < i ==> !is_path(rows@[j], id, path@),
            decreases rows.len() - i,
        {
            if rows[i].hash == id && text_eq(rows[i].path.as_str(), path) {
                return Some(i);
            }
            i = i + 1;
        }
        None
    }

    /// The modification time last recorded for a path of entity `id`.
    pub fn get_modified(&self, id: u64, path: &str) -> (r: Option<i64>)
        requires
            self.wf(),
        ensures
            r == tracked_modified(self.secondary@, id, path@),
    {
        match Self::find_path(&self.secondary, id, path) {
            None => None,
            Some(k) => {
                proof { lemma_unique_index(self.secondary@, id, path@, k as int); }
                Some(self.secondary[k].modified)
            },
        }
    }

    /// Marks a path as visited again, at position `order` of the walk; returns
    /// how many rows it touched.
    pub fn update_secondary(&mut self, id: u64, path: &str, order: i64) -> (r: usize)
        requires
            old(self).wf(),
        ensures
            final(self).wf(),
            final(self).primary@ == old(self).primary@,
            final(self).secondary@ == path_marked(old(self).secondary@, id, path@, order),
            r == 0 <==> !has_path(old(self).secondary@, id, path@),
    {
        match Self::find_path(&self.secondary, id, path) {
            None => {
                assert(path_marked(self.secondary@, id, path@, order) =~= self.secondary@);
                0
            },
            Some(k) => {
                let mut row = self.secondary[k].clone();
                row.keep = true;
                row.path_order = order;
                proof { lemma_update_keeps_unique(self.secondary@, k as int, row); }
                self.secondary.set(k, row);
                proof {
                    assert forall|i: int| 0 <= i < self.secondary@.len() && i != k implies
                        !is_path(old(self).secondary@[i], id, path@) by {
                        if is_path(old(self).secondary@[i], id, path@) {
                            assert(old(self).secondary@[i].hash == old(self).secondary@[k as int].hash);
                        }
                    }
                }
                assert(self.secondary@ =~= path_marked(old(self).secondary@, id, path@, order));
                1
            },
        }
    }

    /// Records that a path was visited at position `order` of the walk: marks
    /// it, or starts tracking it with no recorded time.
    pub fn upsert_path(&mut self, id: u64, path: String, order: i64)
        requires
            old(self).wf(),
        ensures
            final(self).wf(),
            final(self).primary@ == old(self).primary@,
            has_path(old(self).secondary@, id, path@) ==> final(self).secondary@ == path_marked(
                old(self).secondary@, id, path@, order),
            !has_path(old(self).secondary@, id, path@) ==> final(self).secondary@ == old(self).secondary@.push(
                TrackedPath { hash: id, path, modified: 0, path_order: order, keep: true },
            ),
    {
        if self.update_secondary(id, path.as_str(), order) == 0 {
            assert(path_marked(old(self).secondary@, id, path@, order) =~= old(self).secondary@);
            let ghost p = path@;
            self.secondary.push(TrackedPath { hash: id, path, modified: 0, path_order: order, keep: true });
            assert forall|i: int, j: int|
                0 <= i < self.secondary@.len() && 0 <= j < self.secondary@.len()
                    && self.secondary@[i].hash == self.secondary@[j].hash
                    && self.secondary@[i].path@ == self.secondary@[j].path@ implies i == j by {
                let n = old(self).secondary@.len() as int;
                if i < n && j == n {
                    assert(is_path(old(self).secondary@[i], id, p));
                }
                if j < n && i == n {
                    assert(is_path(old(self).secondary@[j], id, p));
                }
            }
        }
    }

    /// Replaces the recorded modification time of a tracked path.
    pub fn update_modified(&mut self, id: u64, path: &str, nanos: i64)
        requires
            old(self).wf(),
        ensures
            final(self).wf(),
            final(self).primary@ == old(self).primary@,
            final(self).secondary@ == path_timed(old(self).secondary@, id, path@, nanos),
    {
        match Self::find_path(&self.secondary, id, path) {
            None => {
                assert(path_timed(self.secondary@, id, path@, nanos) =~= self.secondary@);
            },
            Some(k) => {
                let mut row = self.secondary[k].clone();
                row.modified = nanos;
                proof { lemma_update_keeps_unique(self.secondary@, k as int, row); }
                self.secondary.set(k, row);
                proof {
                    assert forall|i: int| 0 <= i < self.secondary@.len() && i != k implies
                        !is_path(old(self).secondary@[i], id, path@) by {
                        if is_path(old(self).secondary@[i], id, path@) {
                            assert(old(self).secondary@[i].hash == old(self).secondary@[k as int].hash);
                        }
                    }
                }
                assert(self.secondary@ =~= path_timed(old(self).secondary@, id, path@, nanos));
            },
        }
    }

    /// Clears the keep flag of every path of entity `id`.
    pub fn reset_paths(&mut self, id: u64)
        requires
            old(self).wf(),
        ensures
            final(self).wf(),
            final(self).primary@ == old(self).primary@,
            final(self).secondary@ == paths_reset(old(self).secondary@, id),
    {
        let mut i: usize = 0;
        while i < self.secondary.len()
            invariant
                i <= self.secondary@.len(),
                self.secondary@.len() == old(self).secondary@.len(),
                self.primary@ == old(self).primary@,
                forall|j: int| 0 <= j < i ==> self.secondary@[j] == paths_reset(old(self).secondary@, id)[j],
                forall|j: int| i <= j < self.secondary@.len() ==> self.secondary@[j] == old(self).secondary@[j],
            decreases self.secondary@.len() - i,
        {
            if self.secondary[i].hash == id {
                let mut row = self.secondary[i].clone();
                row.keep = false;
                self.secondary.set(i, row);
            }
            i = i + 1;
        }
        assert(self.secondary@ =~= paths_reset(old(self).secondary@, id));
        assert forall|i: int, j: int|
            0 <= i < self.secondary@.len() && 0 <= j < self.secondary@.len()
                && self.secondary@[i].hash == self.secondary@[j].hash
                && self.secondary@[i].path@ == self.secondary@[j].path@ implies i == j by {
            assert(self.secondary@[i].path == old(self).secondary@[i].path);
            assert(self.secondary@[j].path == old(self).secondary@[j].path);
        }
    }

    /// The stale paths of entity `id`, deepest (highest order) first.
    pub fn select_stale_paths(&self, id: u64) -> (r: Vec<TrackedPath>)
        ensures
            r@.to_multiset() == stale_paths(self.secondary@, id).to_multiset(),
            descending(r@),
    {
        let mut found: Vec<TrackedPath> = Vec::new();
        let mut i: usize = 0;
        while i < self.secondary.len()
            invariant
                i <= self.secondary@.len(),
                found@ == stale_paths(self.secondary@.subrange(0, i as int), id),
            decreases self.secondary@.len() - i,
        {
            let ghost pre = self.secondary@.subrange(0, i + 1);
            assert(pre.drop_last() == self.secondary@.subrange(0, i as int));
            if self.secondary[i].hash == id && !self.secondary[i].keep {
                found.push(self.secondary[i].clone());
            }
            i = i + 1;
        }
        assert(self.secondary@.subrange(0, self.secondary@.len() as int) == self.secondary@);
        sort_descending(found)
    }

    /// Forgets one tracked path.
    pub fn delete_path(&mut self, id: u64, path: &str)
        requires
            old(self).wf(),
        ensures
            final(self).wf(),
            final(self).primary@ == old(self).primary@,
            !has_path(old(self).secondary@, id, path@) ==> final(self).secondary@ == old(self).secondary@,
            has_path(old(self).secondary@, id, path@) ==> exists|k: int|
                0 <= k < old(self).secondary@.len() && is_path(old(self).secondary@[k], id, path@)
                    && final(self).secondary@ == old(self).secondary@.remove(k),
            !has_path(final(self).secondary@, id, path@),
    {
        match Self::find_path(&self.secondary, id, path) {
            None => {},
            Some(k) => {
                self.secondary.remove(k);
                assert forall|i: int, j: int|
                    0 <= i < self.secondary@.len() && 0 <= j < self.secondary@.len()
                        && self.secondary@[i].hash == self.secondary@[j].hash
                        && self.secondary@[i].path@ == self.secondary@[j].path@ implies i == j by {
                    let oi = if i < k { i } else { i + 1 };
                    let oj = if j < k { j } else { j + 1 };
                    assert(self.secondary@[i] == old(self).secondary@[oi]);
                    assert(self.secondary@[j] == old(self).secondary@[oj]);
                }
                assert(!has_path(self.secondary@, id, path@)) by {
                    if has_path(self.secondary@, id, path@) {
                        let i = choose|i: int| 0 <= i < self.secondary@.len() && is_path(self.secondary@[i], id, path@);
                        let oi = if i < k { i } else { i + 1 };
                        assert(self.secondary@[i] == old(self).secondary@[oi]);
                    }
                }
            },
        }
    }
    /// Tracks a path of entity `id` at position `order` with time `nanos`,
    /// kept.
    pub fn record_path(&mut self, id: u64, path: String, order: i64, nanos: i64)
        requires
            old(self).wf(),
        ensures
            final(self).wf(),
            final(self).primary@ == old(self).primary@,
            has_path(old(self).secondary@, id, path@) ==> final(self).secondary@ == path_timed(
                path_marked(old(self).secondary@, id, path@, order), id, path@, nanos),
            !has_path(old(self).secondary@, id, path@) ==> final(self).secondary@ == old(self).secondary@.push(
                TrackedPath { hash: id, path, modified: nanos, path_order: order, keep: true },
            ),
    {
        let ghost p = path@;
        let ghost had = has_path(self.secondary@, id, p);
        let key = path.clone();
        self.upsert_path(id, path, order);
        let ghost mid = self.secondary@;
        self.update_modified(id, key.as_str(), nanos);
        proof {
            if !had {
                let n = old(self).secondary@.len() as int;
                assert forall|i: int| 0 <= i < n implies !is_path(mid[i], id, p) by {
                    assert(mid[i] == old(self).secondary@[i]);
                }
                assert(self.secondary@ =~= old(self).secondary@.push(
                    TrackedPath { hash: id, path: key, modified: nanos, path_order: order, keep: true }));
            }
        }
    }
    /// Marks every entity of `ids` as still declared.
    pub fn mark_declared(&mut self, ids: &Vec<u64>)
        requires
            old(self).wf(),
        ensures
            final(self).wf(),
            final(self).primary@ == mark_all(old(self).primary@, ids@.to_set()),
            final(self).secondary@ == old(self).secondary@,
    {
        let mut i: usize = 0;
        assert(mark_all(old(self).primary@, ids@.subrange(0, 0).to_set()) =~= old(self).primary@);
        while i < ids.len()
            invariant
                self.wf(),
                i <= ids@.len(),
                self.primary@ == mark_all(old(self).primary@, ids@.subrange(0, i as int).to_set()),
                self.secondary@ == old(self).secondary@,
            decreases ids@.len() - i,
        {
            self.update_primary(ids[i]);
            proof {
                let s0 = ids@.subrange(0, i as int).to_set();
                let s1 = ids@.subrange(0, i + 1).to_set();
                let q0 = ids@.subrange(0, i as int);
                let q1 = ids@.subrange(0, i + 1);
                assert(q1 =~= q0.push(ids@[i as int]));
                vstd::seq_lib::lemma_seq_contains_after_push(q0, ids@[i as int], ids@[i as int]);
                assert(s1 =~= s0.insert(ids@[i as int])) by {
                    assert forall|x: u64| s1.contains(x) <==> s0.insert(ids@[i as int]).contains(x) by {
                        vstd::seq_lib::lemma_seq_contains_after_push(q0, ids@[i as int], x);
                    }
                }
                assert(self.primary@ =~= mark_all(old(self).primary@, s1));
            }
            i = i + 1;
        }
        assert(ids@.subrange(0, ids@.len() as int) == ids@);
    }

    /// Forgets every stale row of one group.
    pub fn delete_stale(&mut self, title: Title, setting: Setting)
        requires
            old(self).wf(),
        ensures
            final(self).wf(),
            final(self).primary@ == sweep(old(self).primary@, title, setting),
            final(self).secondary@ == old(self).secondary@,
    {
        let mut out: Vec<TrackedLink> = Vec::new();
        let ghost mut from: Seq<int> = Seq::empty();
        let mut i: usize = 0;
        while i < self.primary.len()
            invariant
                old(self).wf(),
                *self == *old(self),
                i <= self.primary@.len(),
                out@ == sweep(self.primary@.subrange(0, i as int), title, setting),
                from.len() == out@.len(),
                forall|k: int| 0 <= k < from.len() ==> 0 <= #[trigger] from[k] < i && out@[k] == self.primary@[from[k]],
                forall|a: int, b: int| 0 <= a < b < from.len() ==> from[a] < from[b],
            decreases self.primary@.len() - i,
        {
            let ghost pre = self.primary@.subrange(0, i + 1);
            assert(pre.drop_last() == self.primary@.subrange(0, i as int));
            if !(self.primary[i].title == title && self.primary[i].setting == setting && !self.primary[i].keep) {
                out.push(self.primary[i].clone());
                proof { from = from.push(i as int); }
            }
            i = i + 1;
        }
        assert(self.primary@.subrange(0, self.primary@.len() as int) == self.primary@);
        assert forall|a: int, b: int|
            0 <= a < out@.len() && 0 <= b < out@.len() && out@[a].hash == out@[b].hash implies a == b by {
            assert(self.primary@[from[a]].hash == self.primary@[from[b]].hash);
            if a < b { assert(from[a] < from[b]); }
            if b < a { assert(from[b] < from[a]); }
        }
        self.primary = out;
    }
}

/// Orders rows deepest first (by `path_order`, highest first), keeping
/// every row.
pub fn sort_descending(rows: Vec<TrackedPath>) -> (r: Vec<TrackedPath>)
    ensures
        r@.to_multiset() == rows@.to_multiset(),
        descending(r@),
{
    broadcast use vstd::seq_lib::group_to_multiset_ensures;
    let mut out: Vec<TrackedPath> = Vec::new();
    let mut i: usize = 0;
    while i < rows.len()
        invariant
            i <= rows.len(),
            out@.to_multiset() == rows@.subrange(0, i as int).to_multiset(),
            descending(out@),
        decreases rows.len() - i,
    {
        let row = rows[i].clone();
        let mut k: usize = 0;
        while k < out.len() && out[k].path_order >= row.path_order
            invariant
                k <= out.len(),
                forall|j: int| 0 <= j < k ==> out@[j].path_order >= row.path_order,
            decreases out.len() - k,
        {
            k = k + 1;
        }
        let ghost before = out@;
        proof { vstd::seq_lib::to_multiset_insert(before, k as int, row); }
        out.insert(k, row);
        assert(rows@.subrange(0, i + 1) == rows@.subrange(0, i as int).push(rows@[i as int]));
        proof { vstd::seq_lib::to_multiset_build(rows@.subrange(0, i as int), rows@[i as int]); }
        assert forall|a: int, b: int| 0 <= a < b < out@.len() implies out@[a].path_order >= out@[b].path_order by {
            if a < k && b < k {
                assert(out@[a] == before[a] && out@[b] == before[b]);
            } else if a < k && b == k {
            } else if a < k {
                assert(out@[a] == before[a] && out@[b] == before[b - 1]);
            } else if a == k {
                assert(out@[b] == before[b - 1]);
                if k < before.len() {
                    assert(before[k as int].path_order < row.path_order);
                    assert(before[k as int].path_order >= before[b - 1].path_order || b - 1 == k);
                }
            } else {
                assert(out@[a] == before[a - 1] && out@[b] == before[b - 1]);
            }
        }
        i = i + 1;
    }
    assert(rows@.subrange(0, rows@.len() as int) == rows@);
    out
}

} // verus!
