//! The reconciler: for one planned link, decides from what the filesystem
//! showed which primitive operations to run, what to record in the store,
//! and how the outcome is reported.
use vstd::prelude::*;
use vstd::string::*;
use crate::structs::{Ops, Ownership, Setting, Title, ops_arity, set_text, title_text};
use crate::store::{Store, TrackedLink, TrackedPath, has_link, has_path, marked, path_marked, path_timed};
use crate::tools::text_eq;

verus! {

/// What the filesystem showed for one path.
#[derive(Debug, Clone, Copy, PartialEq, Eq, Structural)]
pub struct PathFacts {
    /// The path exists (following symbolic links).
    pub exists: bool,
    /// The path is a regular file (following symbolic links).
    pub is_file: bool,
    /// The path itself is a symbolic link.
    pub is_symlink: bool,
    /// The device of the path, or of its parent directory when it is absent.
    pub device: u64,
    /// Modification time in nanoseconds since the epoch (0 when absent).
    pub modified: i64,
}

/// What resolving a path through its links gave.
#[derive(Debug, Clone, PartialEq, Eq)]
pub enum Canonical {
    Resolved(String),
    /// The path, or a link on the way, points nowhere.
    Missing,
    /// Resolution failed for another reason.
    Failed,
}

/// Whether a link at some destination resolves to `source`.
pub open spec fn resolves_to(c: Canonical, source: Seq<char>) -> bool {
    match c {
        Canonical::Resolved(p) => p@ == source,
        _ => false,
    }
}

/// Whether `c` resolves exactly to `source`.
pub fn resolves(c: &Canonical, source: &str) -> (r: bool)
    ensures
        r == resolves_to(*c, source@),
{
    match c {
        Canonical::Resolved(p) => text_eq(p.as_str(), source),
        _ => false,
    }
}

/// One primitive filesystem operation and its path arguments.
#[derive(Debug, Clone, PartialEq, Eq)]
pub struct Action {
    pub op: Ops,
    pub args: Vec<String>,
}

pub open spec fn action_wf(a: Action) -> bool {
    a.args@.len() == ops_arity(a.op)
}

/// The action `op(first, second)`.
pub open spec fn is_action2(a: Action, op: Ops, first: Seq<char>, second: Seq<char>) -> bool {
    a.op == op && a.args@.len() == 2 && a.args@[0]@ == first && a.args@[1]@ == second
}

/// The action `op(only)`.
pub open spec fn is_action1(a: Action, op: Ops, only: Seq<char>) -> bool {
    a.op == op && a.args@.len() == 1 && a.args@[0]@ == only
}

pub fn action2(op: Ops, first: &str, second: &str) -> (r: Action)
    ensures
        is_action2(r, op, first@, second@),
{
    let mut args: Vec<String> = Vec::new();
    args.push(String::from_str(first));
    args.push(String::from_str(second));
    Action { op, args }
}

pub fn action1(op: Ops, only: &str) -> (r: Action)
    ensures
        is_action1(r, op, only@),
{
    let mut args: Vec<String> = Vec::new();
    args.push(String::from_str(only));
    Action { op, args }
}

/// How an entity's reconciliation is reported.
#[derive(Debug, Clone, Copy, PartialEq, Eq, Structural)]
pub enum Outcome {
    New,
    Converged,
    Conflict,
    Unchanged,
    Removed,
}

/// The presentation tag of a reported destination.
#[derive(Debug, Clone, Copy, PartialEq, Eq, Structural)]
pub enum Color {
    Blue,
    Red,
    Green,
    Plain,
}

/// What to write into the store once a plan's actions have succeeded.
#[derive(Debug, Clone, Copy, PartialEq, Eq, Structural)]
pub enum Record {
    Nothing,
    /// Track the entity itself (a primary row), kept.
    Entity,
    /// Track the path with this modification time.
    PathTime(i64),
    /// Track the path with the destination's modification time as measured
    /// after the actions ran.
    PathTimeAfter,
}

/// A refusal to reconcile one entity.
#[derive(Debug, Clone, PartialEq, Eq)]
pub enum LinkError {
    /// The declared source does not exist.
    NotFound(String),
}

/// Everything that one entity's reconciliation will do.
#[derive(Debug, Clone, PartialEq, Eq)]
pub struct Plan {
    pub actions: Vec<Action>,
    pub outcome: Outcome,
    pub record: Record,
}

/// What the filesystem showed around one link.
#[derive(Debug, Clone, PartialEq, Eq)]
pub struct LinkFacts {
    pub source: PathFacts,
    pub destination: PathFacts,
    /// The destination's parent directory exists.
    pub parent_exists: bool,
    /// The destination resolved through its links.
    pub destination_canonical: Canonical,
    /// The source resolved through its links.
    pub source_canonical: Canonical,
    /// The modification time last recorded for this path, if any.
    pub recorded: Option<i64>,
}

/// The directory part of a path: everything before its last `/`
/// (the root for a path directly under it, empty when there is no `/`).
pub open spec fn parent_text(p: Seq<char>) -> Seq<char> {
    if exists|k: int| 0 <= k < p.len() && p[k] == '/' {
        let k = choose|k: int| 0 <= k < p.len() && p[k] == '/' && forall|j: int| k < j < p.len() ==> p[j] != '/';
        if k == 0 { seq!['/'] } else { p.subrange(0, k) }
    } else {
        Seq::empty()
    }
}

/// The directory part of a path.
pub fn parent_of(p: &str) -> (r: String)
    ensures
        r@ == parent_text(p@),
{
    let n = p.unicode_len();
    let mut k: usize = n;
    while k > 0 && p.get_char(k - 1) != '/'
        invariant
            n == p@.len(),
            k <= n,
            forall|j: int| k <= j < n ==> p@[j] != '/',
        decreases k,
    {
        k = k - 1;
    }
    if k == 0 {
        assert(!exists|j: int| 0 <= j < p@.len() && p@[j] == '/');
        return String::new();
    }
    let last = k - 1;
    proof {
        let c = choose|c: int| 0 <= c < p@.len() && p@[c] == '/' && forall|j: int| c < j < p@.len() ==> p@[j] != '/';
        assert(p@[last as int] == '/');
        if c < last { assert(p@[last as int] != '/'); }
        if c > last { assert(p@[c] != '/'); }
        assert(c == last);
    }
    if last == 0 {
        let r = String::from_str("/");
        proof { reveal_strlit("/"); }
        assert(r@ =~= seq!['/']);
        r
    } else {
        String::from_str(p.substring_char(0, last))
    }
}

/// Plain and secured links.
pub open spec fn link_decision(
    set: Ownership,
    source: Seq<char>,
    destination: Seq<char>,
    facts: LinkFacts,
    plan: Plan,
) -> bool {
    let hard = set == Ownership::Root && facts.source.device == facts.destination.device;
    if facts.destination.exists {
        plan.actions@.len() == 0 && plan.record == Record::Nothing
            && plan.outcome == if verified(hard, source, facts) { Outcome::Unchanged } else { Outcome::Conflict }
    } else {
        plan.outcome == Outcome::New && plan.record == Record::Entity
            && creation(plan.actions@, hard, !facts.parent_exists, Ops::Symlink, source, destination)
    }
}

/// An existing destination still matches what was declared: a hardlink
/// has the source's modification time, a symbolic link resolves to it.
pub open spec fn verified(hard: bool, source: Seq<char>, facts: LinkFacts) -> bool {
    if hard {
        facts.source.modified == facts.destination.modified
    } else {
        resolves_to(facts.destination_canonical, source)
    }
}

/// Creating a destination: its parent directories first when missing, then
/// a hardlink when `hard`, else `op(source, destination)`.
pub open spec fn creation(
    actions: Seq<Action>,
    hard: bool,
    make_parent: bool,
    op: Ops,
    source: Seq<char>,
    destination: Seq<char>,
) -> bool {
    let last = if hard { Ops::Hardlink } else { op };
    if make_parent {
        actions.len() == 2 && is_action1(actions[0], Ops::Create_Dir_All, parent_text(destination))
            && is_action2(actions[1], last, source, destination)
    } else {
        actions.len() == 1 && is_action2(actions[0], last, source, destination)
    }
}

/// One entry of a mirrored tree.
pub open spec fn tree_decision(
    set: Ownership,
    source: Seq<char>,
    destination: Seq<char>,
    facts: LinkFacts,
    plan: Plan,
) -> bool {
    let hard = set == Ownership::Root && facts.source.device == facts.destination.device;
    if facts.destination.exists {
        plan.actions@.len() == 0 && plan.record == Record::Nothing
            && plan.outcome == if (facts.destination.is_file || facts.destination.is_symlink) && !verified(hard, source, facts) {
                Outcome::Conflict
            } else {
                Outcome::Unchanged
            }
    } else if facts.source.is_file {
        plan.outcome == Outcome::New && plan.record == Record::PathTimeAfter
            && creation(plan.actions@, hard, !facts.parent_exists, Ops::Symlink, source, destination)
    } else {
        plan.outcome == Outcome::New && plan.record == Record::PathTimeAfter
            && if facts.parent_exists {
                plan.actions@.len() == 1 && is_action1(plan.actions@[0], Ops::Create_Dir, destination)
            } else {
                plan.actions@.len() == 2 && is_action1(plan.actions@[0], Ops::Create_Dir_All, parent_text(destination))
                    && is_action1(plan.actions@[1], Ops::Create_Dir, destination)
            }
    }
}

/// What the copy algorithm does with one path.
#[derive(Debug, Clone, Copy, PartialEq, Eq, Structural)]
pub enum CopyAction {
    /// The source is itself a link: link to what it points at.
    LinkToTarget,
    /// Copy a file to an absent destination.
    CopyNew,
    /// Create a directory at an absent destination.
    MakeDir,
    /// First observation of an existing destination: adopt its time.
    Adopt,
    /// The destination reached the source's time by itself.
    Converge,
    /// The source is strictly newer: copy over the destination.
    Overwrite,
    /// The destination was changed outside this tool.
    Conflict,
    /// Nothing changed since the last run.
    Unchanged,
    /// An existing directory: nothing to copy.
    Skip,
}

/// The copy algorithm's choice from existence, kind and the three times.
pub open spec fn copy_choice(
    dst_exists: bool,
    src_is_file: bool,
    src_is_symlink: bool,
    recorded: Option<i64>,
    t_src: i64,
    t_dst: i64,
) -> CopyAction {
    if !dst_exists {
        if !src_is_file {
            CopyAction::MakeDir
        } else if src_is_symlink {
            CopyAction::LinkToTarget
        } else {
            CopyAction::CopyNew
        }
    } else if !src_is_file {
        CopyAction::Skip
    } else {
        match recorded {
            None => CopyAction::Adopt,
            Some(t) => if t_src == t_dst {
                if t != t_dst { CopyAction::Converge } else { CopyAction::Unchanged }
            } else if t_dst != t {
                CopyAction::Conflict
            } else if t_src > t_dst {
                CopyAction::Overwrite
            } else {
                CopyAction::Conflict
            },
        }
    }
}

/// Chooses what to do with one copied path.
pub fn choose_copy(
    dst_exists: bool,
    src_is_file: bool,
    src_is_symlink: bool,
    recorded: Option<i64>,
    t_src: i64,
    t_dst: i64,
) -> (r: CopyAction)
    ensures
        r == copy_choice(dst_exists, src_is_file, src_is_symlink, recorded, t_src, t_dst),
{
    if !dst_exists {
        if !src_is_file {
            CopyAction::MakeDir
        } else if src_is_symlink {
            CopyAction::LinkToTarget
        } else {
            CopyAction::CopyNew
        }
    } else if !src_is_file {
        CopyAction::Skip
    } else {
        match recorded {
            None => CopyAction::Adopt,
            Some(t) => if t_src == t_dst {
                if t != t_dst { CopyAction::Converge } else { CopyAction::Unchanged }
            } else if t_dst != t {
                CopyAction::Conflict
            } else if t_src > t_dst {
                CopyAction::Overwrite
            } else {
                CopyAction::Conflict
            },
        }
    }
}

/// The plan that carries out a copy choice.
pub open spec fn copy_plan(
    choice: CopyAction,
    source: Seq<char>,
    destination: Seq<char>,
    facts: LinkFacts,
    plan: Plan,
) -> bool {
    match choice {
        CopyAction::LinkToTarget => plan.outcome == Outcome::New && plan.record == Record::Nothing
            && match facts.source_canonical {
                Canonical::Resolved(target) => plan.actions@.len() == 1
                    && is_action2(plan.actions@[0], Ops::Symlink, target@, destination),
                _ => plan.actions@.len() == 0,
            },
        CopyAction::CopyNew => plan.outcome == Outcome::New && plan.record == Record::PathTimeAfter
            && plan.actions@.len() == 1 && is_action2(plan.actions@[0], Ops::Copy, source, destination),
        CopyAction::MakeDir => plan.outcome == Outcome::New && plan.record == Record::PathTime(0)
            && plan.actions@.len() == 1 && is_action1(plan.actions@[0], Ops::Create_Dir, destination),
        CopyAction::Adopt => plan.outcome == Outcome::New && plan.record == Record::PathTime(facts.destination.modified)
            && plan.actions@.len() == 0,
        CopyAction::Converge => plan.outcome == Outcome::Converged
            && plan.record == Record::PathTime(facts.destination.modified) && plan.actions@.len() == 0,
        CopyAction::Overwrite => plan.outcome == Outcome::New && plan.record == Record::PathTimeAfter
            && plan.actions@.len() == 1 && is_action2(plan.actions@[0], Ops::Copy, source, destination),
        CopyAction::Conflict => plan.outcome == Outcome::Conflict && plan.record == Record::Nothing
            && plan.actions@.len() == 0,
        CopyAction::Unchanged | CopyAction::Skip => plan.outcome == Outcome::Unchanged
            && plan.record == Record::Nothing && plan.actions@.len() == 0,
    }
}

/// The copy algorithm applied to what the filesystem showed.
pub open spec fn copy_decision(source: Seq<char>, destination: Seq<char>, facts: LinkFacts, plan: Plan) -> bool {
    copy_plan(
        copy_choice(
            facts.destination.exists,
            facts.source.is_file,
            facts.source.is_symlink,
            facts.recorded,
            facts.source.modified,
            facts.destination.modified,
        ),
        source,
        destination,
        facts,
        plan,
    )
}

/// One line of the run's report.
#[derive(Debug, PartialEq, Eq)]
pub struct LogLine {
    pub text: String,
    pub color: Color,
    /// A heading (category or ownership class) rather than a destination.
    pub heading: bool,
}

/// The run's ordered report, with what it needs to print each heading once.
#[derive(Debug, PartialEq, Eq)]
pub struct OutputLog {
    pub lines: Vec<LogLine>,
    /// No line has been written for the current category yet.
    pub first: bool,
    /// The ownership class whose heading was written last.
    pub last_set: Ownership,
}

impl Clone for LogLine {
    fn clone(&self) -> (r: Self)
        ensures
            r == *self,
    {
        LogLine { text: self.text.clone(), color: self.color, heading: self.heading }
    }
}

/// Two reports with the same lines and heading state.
pub open spec fn same_log(a: OutputLog, b: OutputLog) -> bool {
    a.lines@ == b.lines@ && a.first == b.first && a.last_set == b.last_set
}

impl Clone for OutputLog {
    fn clone(&self) -> (r: Self)
        ensures
            same_log(r, *self),
    {
        let mut lines: Vec<LogLine> = Vec::new();
        let mut i: usize = 0;
        while i < self.lines.len()
            invariant
                i <= self.lines@.len(),
                lines@ == self.lines@.subrange(0, i as int),
            decreases self.lines@.len() - i,
        {
            lines.push(self.lines[i].clone());
            assert(lines@ =~= self.lines@.subrange(0, i + 1));
            i = i + 1;
        }
        assert(lines@ =~= self.lines@);
        OutputLog { lines, first: self.first, last_set: self.last_set }
    }
}

impl OutputLog {
    pub fn new() -> (r: OutputLog)
        ensures
            r.lines@.len() == 0,
            r.first,
            r.last_set == Ownership::Unset,
    {
        OutputLog { lines: Vec::new(), first: true, last_set: Ownership::Unset }
    }
}

/// `s` with every `_` shown as a space.
pub open spec fn spaced(s: Seq<char>) -> Seq<char> {
    Seq::new(s.len(), |i: int| if s[i] == '_' { ' ' } else { s[i] })
}

/// Replaces every `_` with a space.
pub fn space_out(s: &str) -> (r: String)
    ensures
        r@ == spaced(s@),
{
    let n = s.unicode_len();
    let mut out = String::new();
    let mut i: usize = 0;
    while i < n
        invariant
            n == s@.len(),
            i <= n,
            out@ == spaced(s@).subrange(0, i as int),
        decreases n - i,
    {
        let c = s.get_char(i);
        let ghost prev = out@;
        if c == '_' {
            out.append(" ");
            proof { reveal_strlit(" "); }
            assert(" "@ =~= seq![' ']);
        } else {
            let piece = s.substring_char(i, i + 1);
            assert(piece@ =~= seq![s@[i as int]]);
            out.append(piece);
        }
        assert(spaced(s@).subrange(0, i + 1) =~= spaced(s@).subrange(0, i as int).push(spaced(s@)[i as int]));
        assert(out@ =~= spaced(s@).subrange(0, i + 1));
        i = i + 1;
    }
    assert(spaced(s@).subrange(0, n as int) =~= spaced(s@));
    out
}

/// The heading lines that a destination of class `set` needs after `last`.
pub open spec fn set_heading(set: Ownership, last: Ownership) -> Seq<(Seq<char>, bool)> {
    if set != Ownership::Default && set != last { seq![(set_text(set), true)] } else { Seq::empty() }
}

/// The class whose heading is current after `set_heading`.
pub open spec fn set_after(set: Ownership, last: Ownership) -> Ownership {
    if set != Ownership::Default && set != last { set } else { last }
}

/// The text and heading flag of each line.
pub open spec fn line_texts(lines: Seq<LogLine>) -> Seq<(Seq<char>, bool)> {
    Seq::new(lines.len(), |i: int| (lines[i].text@, lines[i].heading))
}

/// A planned link: one concrete source and destination of a declared entity.
#[derive(Debug, Clone)]
pub struct Link {
    pub hash: u64,
    pub source: String,
    pub title: Title,
    pub destination: String,
    /// The path relative to the mirrored tree (empty for a plain link).
    pub special_source: String,
    pub set: Ownership,
    pub order: i64,
    pub setting: Setting,
    pub vec: OutputLog,
}

impl Link {
    /// Reports this link's destination, preceded by the category heading
    /// (once per category) and the ownership-class heading (when it changes
    /// and is not the default).
    pub fn set_vec(&mut self, color: &Color)
        ensures
            final(self).hash == old(self).hash,
            final(self).source == old(self).source,
            final(self).destination == old(self).destination,
            final(self).special_source == old(self).special_source,
            final(self).set == old(self).set,
            final(self).title == old(self).title,
            final(self).setting == old(self).setting,
            final(self).order == old(self).order,
            !final(self).vec.first,
            final(self).vec.last_set == set_after(old(self).set, old(self).vec.last_set),
            line_texts(final(self).vec.lines@) == line_texts(old(self).vec.lines@)
                + (if old(self).vec.first { seq![(spaced(title_text(old(self).title)), true)] } else { Seq::empty() })
                + set_heading(old(self).set, old(self).vec.last_set)
                + seq![(old(self).destination@, false)],
            final(self).vec.lines@.last().color == *color,
    {
        let ghost before = line_texts(self.vec.lines@);
        if self.vec.first {
            let name = self.title.name();
            let text = space_out(name.as_str());
            self.vec.lines.push(LogLine { text, color: Color::Plain, heading: true });
            self.vec.first = false;
            assert(line_texts(self.vec.lines@) =~= before + seq![(spaced(title_text(old(self).title)), true)]);
        } else {
            assert(line_texts(self.vec.lines@) =~= before + Seq::empty());
        }
        self.push_set();
        let ghost after_set = line_texts(self.vec.lines@);
        let path = self.destination.clone();
        self.vec.lines.push(LogLine { text: path, color: *color, heading: false });
        assert(line_texts(self.vec.lines@) =~= after_set + seq![(old(self).destination@, false)]);
        assert(line_texts(self.vec.lines@) =~= before
            + (if old(self).vec.first { seq![(spaced(title_text(old(self).title)), true)] } else { Seq::empty() })
            + set_heading(old(self).set, old(self).vec.last_set)
            + seq![(old(self).destination@, false)]);
    }

    /// Writes the ownership-class heading when the class changed.
    pub fn push_set(&mut self)
        ensures
            final(self).hash == old(self).hash,
            final(self).source == old(self).source,
            final(self).destination == old(self).destination,
            final(self).special_source == old(self).special_source,
            final(self).set == old(self).set,
            final(self).title == old(self).title,
            final(self).setting == old(self).setting,
            final(self).order == old(self).order,
            final(self).vec.first == old(self).vec.first,
            final(self).vec.last_set == set_after(old(self).set, old(self).vec.last_set),
            line_texts(final(self).vec.lines@) == line_texts(old(self).vec.lines@) + set_heading(old(self).set, old(self).vec.last_set),
    {
        if self.set != Ownership::Default && self.set != self.vec.last_set {
            let text = self.set.name();
            self.vec.lines.push(LogLine { text, color: Color::Plain, heading: true });
            self.vec.last_set = self.set;
        }
        assert(line_texts(self.vec.lines@) =~= line_texts(old(self).vec.lines@) + set_heading(old(self).set, old(self).vec.last_set));
    }
}

/// Whether the source is missing, which refuses the entity.
pub open spec fn source_missing(facts: LinkFacts) -> bool {
    !facts.source.exists
}

/// The whole reconciliation of one link, by setting.
pub open spec fn link_result(link: Link, facts: LinkFacts, r: Result<Plan, LinkError>) -> bool {
    if link.setting == Setting::Unset {
        r matches Ok(plan) && plan.actions@.len() == 0 && plan.outcome == Outcome::Unchanged
            && plan.record == Record::Nothing
    } else if source_missing(facts) {
        r matches Err(LinkError::NotFound(p)) && p@ == link.source@
    } else {
        r matches Ok(plan) && if link.setting.spec_is_link() {
            link_decision(link.set, link.source@, link.destination@, facts, plan)
        } else if link.setting == Setting::Copy {
            copy_decision(link.source@, link.destination@, facts, plan)
        } else {
            tree_decision(link.set, link.source@, link.destination@, facts, plan)
        }
    }
}

impl Link {
    /// Copies the source over the destination.
    pub fn copy_file(&self) -> (r: Action)
        ensures
            is_action2(r, Ops::Copy, self.source@, self.destination@),
    {
        action2(Ops::Copy, self.source.as_str(), self.destination.as_str())
    }

    /// Creates the destination directory.
    pub fn create_dir(&self) -> (r: Action)
        ensures
            is_action1(r, Ops::Create_Dir, self.destination@),
    {
        action1(Ops::Create_Dir, self.destination.as_str())
    }

    /// Hardlinks the destination to the source.
    pub fn hard_link(&self) -> (r: Action)
        ensures
            is_action2(r, Ops::Hardlink, self.source@, self.destination@),
    {
        action2(Ops::Hardlink, self.source.as_str(), self.destination.as_str())
    }

    /// Creates the destination's missing parent directories.
    pub fn create_parents(&self) -> (r: Action)
        ensures
            is_action1(r, Ops::Create_Dir_All, parent_text(self.destination@)),
    {
        let parent = parent_of(self.destination.as_str());
        action1(Ops::Create_Dir_All, parent.as_str())
    }

    /// The actions that create an absent destination as a link: parent
    /// directories first if needed, then a hardlink for a root-owned source
    /// on the destination's device, else a symbolic link.
    fn creation_actions(&self, facts: &LinkFacts) -> (r: Vec<Action>)
        ensures
            creation(
                r@,
                self.set == Ownership::Root && facts.source.device == facts.destination.device,
                !facts.parent_exists,
                Ops::Symlink,
                self.source@,
                self.destination@,
            ),
    {
        let mut actions: Vec<Action> = Vec::new();
        if !facts.parent_exists {
            actions.push(self.create_parents());
        }
        if self.set == Ownership::Root && facts.source.device == facts.destination.device {
            actions.push(self.hard_link());
        } else {
            actions.push(action2(Ops::Symlink, self.source.as_str(), self.destination.as_str()));
        }
        actions
    }

    /// Whether an existing destination still matches the declaration.
    fn symlink_test(&self, facts: &LinkFacts) -> (r: bool)
        ensures
            r == verified(
                self.set == Ownership::Root && facts.source.device == facts.destination.device,
                self.source@,
                *facts,
            ),
    {
        if self.set == Ownership::Root && facts.source.device == facts.destination.device {
            facts.source.modified == facts.destination.modified
        } else {
            resolves(&facts.destination_canonical, self.source.as_str())
        }
    }

    /// A plain or secured link.
    pub fn link(&self, facts: &LinkFacts) -> (r: Plan)
        ensures
            link_decision(self.set, self.source@, self.destination@, *facts, r),
    {
        if facts.destination.exists {
            let outcome = if self.symlink_test(facts) { Outcome::Unchanged } else { Outcome::Conflict };
            Plan { actions: Vec::new(), outcome, record: Record::Nothing }
        } else {
            Plan { actions: self.creation_actions(facts), outcome: Outcome::New, record: Record::Entity }
        }
    }

    /// One entry of a mirrored tree.
    pub fn special_link(&self, facts: &LinkFacts) -> (r: Plan)
        ensures
            tree_decision(self.set, self.source@, self.destination@, *facts, r),
    {
        if facts.destination.exists {
            let outcome = if (facts.destination.is_file || facts.destination.is_symlink) && !self.symlink_test(facts) {
                Outcome::Conflict
            } else {
                Outcome::Unchanged
            };
            Plan { actions: Vec::new(), outcome, record: Record::Nothing }
        } else if facts.source.is_file {
            Plan { actions: self.creation_actions(facts), outcome: Outcome::New, record: Record::PathTimeAfter }
        } else {
            let mut actions: Vec<Action> = Vec::new();
            if !facts.parent_exists {
                actions.push(self.create_parents());
            }
            actions.push(self.create_dir());
            Plan { actions, outcome: Outcome::New, record: Record::PathTimeAfter }
        }
    }

    /// One path of a copied tree.
    pub fn copier(&self, facts: &LinkFacts) -> (r: Plan)
        ensures
            copy_decision(self.source@, self.destination@, *facts, r),
    {
        let choice = choose_copy(
            facts.destination.exists,
            facts.source.is_file,
            facts.source.is_symlink,
            facts.recorded,
            facts.source.modified,
            facts.destination.modified,
        );
        match choice {
            CopyAction::LinkToTarget => {
                let mut actions: Vec<Action> = Vec::new();
                match &facts.source_canonical {
                    Canonical::Resolved(target) => {
                        actions.push(action2(Ops::Symlink, target.as_str(), self.destination.as_str()));
                    },
                    _ => {},
                }
                Plan { actions, outcome: Outcome::New, record: Record::Nothing }
            },
            CopyAction::CopyNew | CopyAction::Overwrite => {
                let mut actions: Vec<Action> = Vec::new();
                actions.push(self.copy_file());
                Plan { actions, outcome: Outcome::New, record: Record::PathTimeAfter }
            },
            CopyAction::MakeDir => {
                let mut actions: Vec<Action> = Vec::new();
                actions.push(self.create_dir());
                Plan { actions, outcome: Outcome::New, record: Record::PathTime(0) }
            },
            CopyAction::Adopt => Plan {
                actions: Vec::new(),
                outcome: Outcome::New,
                record: Record::PathTime(facts.destination.modified),
            },
            CopyAction::Converge => Plan {
                actions: Vec::new(),
                outcome: Outcome::Converged,
                record: Record::PathTime(facts.destination.modified),
            },
            CopyAction::Conflict => Plan { actions: Vec::new(), outcome: Outcome::Conflict, record: Record::Nothing },
            CopyAction::Unchanged | CopyAction::Skip => Plan {
                actions: Vec::new(),
                outcome: Outcome::Unchanged,
                record: Record::Nothing,
            },
        }
    }

    /// Reconciles this link by its setting; a missing source refuses it.
    pub fn linker(&self, facts: &LinkFacts) -> (r: Result<Plan, LinkError>)
        ensures
            link_result(*self, *facts, r),
    {
        match self.setting {
            Setting::Unset => Ok(Plan { actions: Vec::new(), outcome: Outcome::Unchanged, record: Record::Nothing }),
            _ => {
                if !facts.source.exists {
                    return Err(LinkError::NotFound(self.source.clone()));
                }
                match self.setting {
                    Setting::Link | Setting::Secure_Link => Ok(self.link(facts)),
                    Setting::Copy => Ok(self.copier(facts)),
                    _ => Ok(self.special_link(facts)),
                }
            },
        }
    }

    /// Writes a plan's bookkeeping once its actions have succeeded;
    /// `measured` is the destination's modification time afterwards.
    pub fn record(&self, store: &mut Store, record: Record, measured: i64, category: String)
        requires
            old(store).wf(),
        ensures
            final(store).wf(),
            record == Record::Nothing ==> *final(store) == *old(store),
            record == Record::Entity ==> final(store).secondary@ == old(store).secondary@,
            record == Record::Entity && has_link(old(store).primary@, self.hash) ==> final(store).primary@ == marked(
                old(store).primary@, self.hash),
            record == Record::Entity && !has_link(old(store).primary@, self.hash) ==> final(store).primary@
                == old(store).primary@.push(
                TrackedLink {
                    hash: self.hash,
                    category,
                    title: self.title,
                    setting: self.setting,
                    source: self.source,
                    destination: self.destination,
                    keep: true,
                },
            ),
            (record is PathTime || record == Record::PathTimeAfter) ==> final(store).primary@ == old(store).primary@,
            (record is PathTime || record == Record::PathTimeAfter) ==> final(store).secondary@ == path_recorded(
                old(store).secondary@,
                self.hash,
                self.special_source,
                self.order,
                if record is PathTime { record->PathTime_0 } else { measured },
            ),
    {
        match record {
            Record::Nothing => {},
            Record::Entity => {
                store.upsert_primary(
                    self.hash,
                    category,
                    self.title,
                    self.setting,
                    self.source.clone(),
                    self.destination.clone(),
                );
            },
            Record::PathTime(t) => {
                store.record_path(self.hash, self.special_source.clone(), self.order, t);
            },
            Record::PathTimeAfter => {
                store.record_path(self.hash, self.special_source.clone(), self.order, measured);
            },
        }
    }
}

/// The secondary rows after a path of entity `id` was recorded at position
/// `order` with time `nanos`: the path is tracked, kept, and carries them.
pub open spec fn path_recorded(rows: Seq<TrackedPath>, id: u64, path: String, order: i64, nanos: i64) -> Seq<TrackedPath> {
    if has_path(rows, id, path@) {
        path_timed(path_marked(rows, id, path@, order), id, path@, nanos)
    } else {
        rows.push(TrackedPath { hash: id, path, modified: nanos, path_order: order, keep: true })
    }
}

} // verus!
