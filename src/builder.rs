//! The entity builder: turns declared fragments into concrete source and
//! destination paths and an identity, and turns each entity into the planned
//! links that the reconciler works through.
use vstd::prelude::*;
use vstd::string::*;
use crate::reconcile::{Link, OutputLog, parent_of, parent_text, same_log};
use crate::store::{Store, has_link, marked, path_marked, TrackedLink};
use crate::structs::{Ownership, Setting, Title, set_text, title_text};
use crate::tools::{calculate_hash, fixed, fixer, identity_of, lower_of, text_eq, to_lower};

verus! {

/// The state of the builder while it works through one category.
#[derive(Debug, Clone)]
pub struct Construct {
    pub source: String,
    pub destination: String,
    pub title: Title,
    pub setting: Setting,
    /// The category's configured source root.
    pub source_path: String,
    /// The category's configured destination root.
    pub destination_path: String,
    /// The current path relative to the mirrored tree.
    pub path: String,
    /// The directory that holds the mirrored source tree.
    pub spec_src: String,
    /// The directory that holds the mirrored destination tree.
    pub spec_dec: String,
    pub hash: u64,
    pub set: Ownership,
    pub linker: Vec<Link>,
    pub vec: OutputLog,
}

/// A declared entity with its concrete paths and identity.
#[derive(Debug, Clone, PartialEq, Eq)]
pub struct Declared {
    pub source: String,
    pub destination: String,
    pub hash: u64,
}

/// The source of a declared fragment: under the configured root unless the
/// class is generic (the fragment is then already absolute).
pub open spec fn source_for(set: Ownership, root: Seq<char>, fragment: Seq<char>) -> Seq<char> {
    if set == Ownership::Generic { fragment } else { root + fragment }
}

/// The destination of a declared fragment: under the home directory for the
/// home class.
pub open spec fn destination_for(set: Ownership, home: Seq<char>, fragment: Seq<char>) -> Seq<char> {
    if set == Ownership::Home { home + fragment } else { fragment }
}

/// `s` without the prefix `p` when it starts with it.
pub open spec fn strip_prefix(s: Seq<char>, p: Seq<char>) -> Seq<char> {
    if p.len() <= s.len() && s.subrange(0, p.len() as int) == p { s.subrange(p.len() as int, s.len() as int) } else { s }
}

/// Removes the prefix `p` from `s` when `s` starts with it.
pub fn trim_prefix(s: &str, p: &str) -> (r: String)
    ensures
        r@ == strip_prefix(s@, p@),
{
    let n = s.unicode_len();
    let m = p.unicode_len();
    if m <= n {
        let head = s.substring_char(0, m);
        if text_eq(head, p) {
            return String::from_str(s.substring_char(m, n));
        }
    }
    String::from_str(s)
}

/// Where the settings of one category come from: a configured value wins;
/// else destinations default to the user's configuration directory, and
/// sources to `<directory>/<category>/<name>` under the configured (or
/// default) base directory.
pub open spec fn location(
    configured: Option<Seq<char>>,
    directory: Option<Seq<char>>,
    category: Seq<char>,
    name: Seq<char>,
    config_dir: Seq<char>,
) -> Seq<char> {
    match configured {
        Some(c) => fixed(c),
        None => if name == "destination_config"@ {
            config_dir
        } else {
            let base = match directory {
                Some(d) => fixed(d),
                None => "/etc/declarch"@,
            };
            base + "/"@ + category + "/"@ + name
        },
    }
}

impl Construct {
    pub fn new() -> (r: Construct)
        ensures
            r.title == Title::Unset,
            r.setting == Setting::Unset,
            r.set == Ownership::Default,
            r.hash == 0,
            r.linker@.len() == 0,
            r.vec.lines@.len() == 0,
            r.vec.first,
            r.source@.len() == 0 && r.destination@.len() == 0 && r.path@.len() == 0,
            r.source_path@.len() == 0 && r.destination_path@.len() == 0,
            r.spec_src@.len() == 0 && r.spec_dec@.len() == 0,
    {
        Construct {
            source: String::new(),
            destination: String::new(),
            title: Title::Unset,
            setting: Setting::Unset,
            source_path: String::new(),
            destination_path: String::new(),
            path: String::new(),
            spec_src: String::new(),
            spec_dec: String::new(),
            hash: 0,
            set: Ownership::Default,
            linker: Vec::new(),
            vec: OutputLog::new(),
        }
    }

    /// Starts a category with the given setting.
    pub fn set(&mut self, title: Title, setting: Setting)
        ensures
            final(self).title == title,
            final(self).setting == setting,
            final(self).destination_path@.len() == 0,
            final(self).set == old(self).set,
            final(self).linker == old(self).linker,
            final(self).vec == old(self).vec,
            final(self).source_path == old(self).source_path,
    {
        self.title = title;
        self.setting = setting;
        self.destination_path = String::new();
    }

    /// The category's name in lower case.
    pub fn title_lower(&self) -> (r: String)
        ensures
            r@ == lower_of(title_text(self.title)),
    {
        let name = self.title.name();
        to_lower(name.as_str())
    }

    /// The location of `name` for this category: `configured` is the value
    /// given for it, `directory` the configured base directory.
    pub fn get_locations(&self, configured: Option<&str>, directory: Option<&str>, name: &str, config_dir: &str) -> (r: String)
        ensures
            r@ == location(
                match configured { Some(c) => Some(c@), None => None },
                match directory { Some(d) => Some(d@), None => None },
                lower_of(title_text(self.title)),
                name@,
                config_dir@,
            ),
    {
        match configured {
            Some(c) => fixer(c),
            None => {
                if text_eq(name, "destination_config") {
                    String::from_str(config_dir)
                } else {
                    let base = match directory {
                        Some(d) => fixer(d),
                        None => String::from_str("/etc/declarch"),
                    };
                    let category = self.title_lower();
                    let r = base.concat("/").concat(category.as_str()).concat("/").concat(name);
                    r
                }
            },
        }
    }

    /// The concrete entity for one source fragment and one destination
    /// fragment of the current ownership class.
    pub fn construct_entity(&self, source: &str, destination: &str, home: &str) -> (r: Declared)
        ensures
            r.source@ == source_for(self.set, self.source_path@, source@),
            r.destination@ == destination_for(self.set, home@, destination@),
            r.hash == identity_of(r.source@, r.destination@),
    {
        let src = if self.set == Ownership::Generic {
            String::from_str(source)
        } else {
            self.source_path.clone().concat(source)
        };
        let dst = if self.set == Ownership::Home {
            String::from_str(home).concat(destination)
        } else {
            String::from_str(destination)
        };
        let hash = calculate_hash(src.as_str(), dst.as_str());
        Declared { source: src, destination: dst, hash }
    }

    /// All entities of one declared list: its first fragment is the source,
    /// each further fragment a destination of it.
    pub fn construct_system(&self, fragments: &Vec<String>, home: &str) -> (r: Vec<Declared>)
        ensures
            fragments@.len() == 0 ==> r@.len() == 0,
            fragments@.len() > 0 ==> r@.len() == fragments@.len() - 1,
            forall|i: int| 0 <= i < r@.len() ==> {
                &&& (#[trigger] r@[i]).source@ == source_for(self.set, self.source_path@, fragments@[0]@)
                &&& r@[i].destination@ == destination_for(self.set, home@, fragments@[i + 1]@)
                &&& r@[i].hash == identity_of(r@[i].source@, r@[i].destination@)
            },
    {
        let mut out: Vec<Declared> = Vec::new();
        if fragments.len() == 0 {
            return out;
        }
        let mut i: usize = 1;
        while i < fragments.len()
            invariant
                1 <= i <= fragments@.len(),
                out@.len() == i - 1,
                forall|j: int| 0 <= j < out@.len() ==> {
                    &&& (#[trigger] out@[j]).source@ == source_for(self.set, self.source_path@, fragments@[0]@)
                    &&& out@[j].destination@ == destination_for(self.set, home@, fragments@[j + 1]@)
                    &&& out@[j].hash == identity_of(out@[j].source@, out@[j].destination@)
                },
            decreases fragments@.len() - i,
        {
            out.push(self.construct_entity(fragments[0].as_str(), fragments[i].as_str(), home));
            i = i + 1;
        }
        out
    }

    /// The entity for one entry of a configuration directory: the same
    /// relative path under the destination root.
    pub fn config_entity(&self, path: &str) -> (r: Declared)
        ensures
            r.source@ == path@,
            r.destination@ == self.destination_path@ + strip_prefix(path@, self.source_path@),
            r.hash == identity_of(r.source@, r.destination@),
    {
        let rel = trim_prefix(path, self.source_path.as_str());
        let dst = self.destination_path.clone().concat(rel.as_str());
        let src = String::from_str(path);
        let hash = calculate_hash(src.as_str(), dst.as_str());
        Declared { source: src, destination: dst, hash }
    }

    /// Makes `entity` the current one.
    pub fn select(&mut self, entity: &Declared)
        ensures
            final(self).source == entity.source,
            final(self).destination == entity.destination,
            final(self).hash == entity.hash,
            final(self).title == old(self).title,
            final(self).setting == old(self).setting,
            final(self).set == old(self).set,
            final(self).linker == old(self).linker,
            final(self).vec == old(self).vec,
    {
        self.source = entity.source.clone();
        self.destination = entity.destination.clone();
        self.hash = entity.hash;
        self.path = String::new();
    }

    /// Moves to one visited path of the mirrored tree: the destination is the
    /// path with the source tree's prefix replaced by the destination tree's.
    pub fn set_path(&mut self, path: &str)
        ensures
            final(self).path@ == strip_prefix(path@, old(self).spec_src@),
            final(self).source@ == path@,
            final(self).destination@ == old(self).spec_dec@ + strip_prefix(path@, old(self).spec_src@),
            final(self).spec_src == old(self).spec_src,
            final(self).spec_dec == old(self).spec_dec,
            final(self).title == old(self).title,
            final(self).setting == old(self).setting,
            final(self).set == old(self).set,
            final(self).hash == old(self).hash,
            final(self).linker == old(self).linker,
            final(self).vec == old(self).vec,
    {
        self.path = trim_prefix(path, self.spec_src.as_str());
        self.source = String::from_str(path);
        self.destination = self.spec_dec.clone().concat(self.path.as_str());
    }
}

/// The planned link for the builder's current path, at position `order`.
pub open spec fn link_of(c: Construct, order: i64, l: Link) -> bool {
    l.hash == c.hash && l.title == c.title && l.source == c.source && l.destination == c.destination
        && l.special_source == c.path && l.set == c.set && l.order == order && l.setting == c.setting
        && same_log(l.vec, c.vec)
}

impl Link {
    /// The planned link for the builder's current path.
    pub fn new(construct: &Construct, order: i64) -> (r: Link)
        ensures
            link_of(*construct, order, r),
    {
        Link {
            hash: construct.hash,
            source: construct.source.clone(),
            title: construct.title,
            destination: construct.destination.clone(),
            special_source: construct.path.clone(),
            set: construct.set,
            order,
            setting: construct.setting,
            vec: construct.vec.clone(),
        }
    }
}

/// The top of a tree to mirror is already a symbolic link: the destination
/// is inconsistent and a later run has to heal it.
#[derive(Debug, Clone, PartialEq, Eq)]
pub enum SymlinkCheck {
    SymlinkError(String),
}

/// The path rows after a walk visited `rels` in order: each visited path that
/// is already tracked is marked kept, with its visitation index as order.
pub open spec fn walk_marked(rows: Seq<crate::store::TrackedPath>, id: u64, rels: Seq<Seq<char>>) -> Seq<crate::store::TrackedPath>
    decreases rels.len(),
{
    if rels.len() == 0 {
        rows
    } else {
        path_marked(walk_marked(rows, id, rels.drop_last()), id, rels.last(), (rels.len() - 1) as i64)
    }
}

/// The relative paths of a walk beneath `base`.
pub open spec fn relatives(walk: Seq<String>, base: Seq<char>) -> Seq<Seq<char>> {
    Seq::new(walk.len(), |i: int| strip_prefix(walk[i]@, base))
}

/// The links planned for a walk: one per visited path, in visitation order,
/// each with its index as order.
pub open spec fn walk_links(c: Construct, walk: Seq<String>, links: Seq<Link>) -> bool {
    links.len() == walk.len() && forall|k: int| 0 <= k < walk.len() ==> {
        let l = #[trigger] links[k];
        &&& l.order == k
        &&& l.hash == c.hash
        &&& l.source@ == walk[k]@
        &&& l.special_source@ == strip_prefix(walk[k]@, c.spec_src@)
        &&& l.destination@ == c.spec_dec@ + strip_prefix(walk[k]@, c.spec_src@)
        &&& l.set == c.set && l.setting == c.setting && l.title == c.title
    }
}

impl Construct {
    /// Declares the current entity. A link is planned and its row marked
    /// kept; a tree is taken through `get_special` with its depth-first walk
    /// (`walk`, starting at the source itself).
    pub fn setting_match(&mut self, store: &mut Store, walk: &Vec<String>, top_is_symlink: bool) -> (r: Result<(), SymlinkCheck>)
        requires
            old(store).wf(),
            walk@.len() < 0x7fff_ffff_ffff_ffff,
        ensures
            final(store).wf(),
            old(self).setting.spec_is_link() ==> r is Ok
                && final(store).primary@ == marked(old(store).primary@, old(self).hash)
                && final(store).secondary@ == old(store).secondary@
                && final(self).linker@ == old(self).linker@.push(final(self).linker@.last())
                && link_of(*old(self), 0, final(self).linker@.last()),
            !old(self).setting.spec_is_link() ==> (r is Err <==> walk@.len() > 0 && top_is_symlink),
            !old(self).setting.spec_is_link() && r is Ok ==> final(store).secondary@ == walk_marked(
                old(store).secondary@, old(self).hash, relatives(walk@, parent_text(old(self).source@))),
            !old(self).setting.spec_is_link() && r is Ok ==> final(self).spec_src@ == parent_text(old(self).source@)
                && final(self).spec_dec@ == parent_text(old(self).destination@)
                && walk_links(*final(self), walk@, final(self).linker@.subrange(old(self).linker@.len() as int, final(self).linker@.len() as int)),
    {
        if self.setting.is_link() {
            let link = Link::new(self, 0);
            self.linker.push(link);
            store.update_primary(self.hash);
            Ok(())
        } else {
            self.get_special(store, walk, top_is_symlink)
        }
    }

    /// Plans a mirrored tree from its depth-first walk: the entity's row is
    /// recorded (source and destination being the directories that hold the
    /// two trees), every visited path already tracked is marked kept with its
    /// visitation index as order, and one link is planned per visited path.
    /// A top-level destination that is already a symbolic link is refused.
    pub fn get_special(&mut self, store: &mut Store, walk: &Vec<String>, top_is_symlink: bool) -> (r: Result<(), SymlinkCheck>)
        requires
            old(store).wf(),
            walk@.len() < 0x7fff_ffff_ffff_ffff,
        ensures
            final(store).wf(),
            final(self).spec_src@ == parent_text(old(self).source@),
            final(self).spec_dec@ == parent_text(old(self).destination@),
            final(self).hash == old(self).hash,
            r is Err <==> walk@.len() > 0 && top_is_symlink,
            r is Err ==> final(store).primary@ == old(store).primary@ && final(store).secondary@ == old(store).secondary@
                && final(self).linker@ == old(self).linker@,
            r is Ok ==> final(self).linker@.subrange(0, old(self).linker@.len() as int) == old(self).linker@,
            r is Ok ==> walk_links(*final(self), walk@, final(self).linker@.subrange(old(self).linker@.len() as int, final(self).linker@.len() as int)),
            r is Ok ==> final(store).secondary@ == walk_marked(old(store).secondary@, old(self).hash, relatives(walk@, final(self).spec_src@)),
            r is Ok && walk@.len() > 0 && has_link(old(store).primary@, old(self).hash) ==> final(store).primary@ == marked(old(store).primary@, old(self).hash),
            r is Ok && walk@.len() > 0 && !has_link(old(store).primary@, old(self).hash) ==> final(store).primary@ == old(store).primary@.push(
                TrackedLink {
                    hash: old(self).hash,
                    category: final(store).primary@.last().category,
                    title: old(self).title,
                    setting: old(self).setting,
                    source: final(self).spec_src,
                    destination: final(self).spec_dec,
                    keep: true,
                },
            ) && final(store).primary@.last().category@ == set_text(old(self).set),
            r is Ok && walk@.len() == 0 ==> final(store).primary@ == old(store).primary@,
    {
        self.spec_src = parent_of(self.source.as_str());
        self.spec_dec = parent_of(self.destination.as_str());
        let ghost start = self.linker@.len();
        let ghost rels = relatives(walk@, self.spec_src@);
        if walk.len() > 0 && top_is_symlink {
            self.set_path(walk[0].as_str());
            let dest = self.destination.clone();
            return Err(SymlinkCheck::SymlinkError(dest));
        }
        let mut i: usize = 0;
        assert(rels.subrange(0, 0) =~= Seq::<Seq<char>>::empty());
        while i < walk.len()
            invariant
                store.wf(),
                i <= walk@.len(),
                walk@.len() < 0x7fff_ffff_ffff_ffff,
                self.hash == old(self).hash,
                self.title == old(self).title,
                self.setting == old(self).setting,
                self.set == old(self).set,
                self.spec_src@ == parent_text(old(self).source@),
                self.spec_dec@ == parent_text(old(self).destination@),
                rels == relatives(walk@, self.spec_src@),
                self.linker@.len() == start + i,
                self.linker@.subrange(0, start as int) == old(self).linker@,
                walk_links(*self, walk@.subrange(0, i as int), self.linker@.subrange(start as int, start + i)),
                store.secondary@ == walk_marked(old(store).secondary@, old(self).hash, rels.subrange(0, i as int)),
                i == 0 ==> store.primary@ == old(store).primary@,
                i > 0 && has_link(old(store).primary@, old(self).hash) ==> store.primary@ == marked(old(store).primary@, old(self).hash),
                i > 0 && !has_link(old(store).primary@, old(self).hash) ==> store.primary@ == old(store).primary@.push(
                    TrackedLink {
                        hash: old(self).hash,
                        category: store.primary@.last().category,
                        title: old(self).title,
                        setting: old(self).setting,
                        source: self.spec_src,
                        destination: self.spec_dec,
                        keep: true,
                    },
                ) && store.primary@.last().category@ == set_text(old(self).set),
            decreases walk@.len() - i,
        {
            self.set_path(walk[i].as_str());
            if i == 0 {
                let category = self.set.name();
                store.upsert_primary(
                    self.hash,
                    category,
                    self.title,
                    self.setting,
                    self.spec_src.clone(),
                    self.spec_dec.clone(),
                );
            }
            store.update_secondary(self.hash, self.path.as_str(), i as i64);
            let link = Link::new(self, i as i64);
            let ghost prev_links = self.linker@;
            self.linker.push(link);
            proof {
                assert(rels.subrange(0, i + 1).drop_last() =~= rels.subrange(0, i as int));
                assert(rels.subrange(0, i + 1).last() == rels[i as int]);
                let links = self.linker@.subrange(start as int, start + i + 1);
                let w = walk@.subrange(0, i + 1);
                assert forall|k: int| 0 <= k < w.len() implies {
                    let l = #[trigger] links[k];
                    &&& l.order == k
                    &&& l.hash == self.hash
                    &&& l.source@ == w[k]@
                    &&& l.special_source@ == strip_prefix(w[k]@, self.spec_src@)
                    &&& l.destination@ == self.spec_dec@ + strip_prefix(w[k]@, self.spec_src@)
                    &&& l.set == self.set && l.setting == self.setting && l.title == self.title
                } by {
                    if k < i {
                        let prev = prev_links.subrange(start as int, start + i);
                        assert(links[k] == prev[k]);
                        assert(w[k] == walk@.subrange(0, i as int)[k]);
                    } else {
                        assert(links[k] == link);
                        assert(w[k] == walk@[i as int]);
                    }
                }
                assert(self.linker@.subrange(0, start as int) =~= old(self).linker@);
            }
            i = i + 1;
        }
        assert(walk@.subrange(0, walk@.len() as int) == walk@);
        assert(rels.subrange(0, walk@.len() as int) == rels);
        Ok(())
    }
}

/// Where a category's entities are declared.
#[derive(Debug, Clone, Copy, PartialEq, Eq, Structural)]
pub enum Section {
    /// Every entry of the category's configuration directory.
    ConfigDir,
    /// The lists of the configuration's path table.
    PathTable,
}

/// The setting and section of each category: configuration categories mirror
/// a directory, system categories and backups read the path table; backups
/// are copied, special categories mirrored recursively, the rest linked.
pub open spec fn category_plan(title: Title) -> Option<(Setting, Section)> {
    match title {
        Title::Config | Title::Secure_Config => Some((Setting::Link, Section::ConfigDir)),
        Title::Special_Config | Title::Secure_Special_Config => Some((Setting::Recursive, Section::ConfigDir)),
        Title::System | Title::Secure_System => Some((Setting::Link, Section::PathTable)),
        Title::Special_System | Title::Secure_Special_System => Some((Setting::Recursive, Section::PathTable)),
        Title::Backup | Title::Secure_Backup => Some((Setting::Copy, Section::PathTable)),
        Title::Unset => None,
    }
}

/// How one category is processed.
pub fn paths_process(title: Title) -> (r: Option<(Setting, Section)>)
    ensures
        r == category_plan(title),
{
    match title {
        Title::Config | Title::Secure_Config => Some((Setting::Link, Section::ConfigDir)),
        Title::Special_Config | Title::Secure_Special_Config => Some((Setting::Recursive, Section::ConfigDir)),
        Title::System | Title::Secure_System => Some((Setting::Link, Section::PathTable)),
        Title::Special_System | Title::Secure_Special_System => Some((Setting::Recursive, Section::PathTable)),
        Title::Backup | Title::Secure_Backup => Some((Setting::Copy, Section::PathTable)),
        Title::Unset => None,
    }
}

} // verus!
