//! What holds across runs of the engine: idempotence, mark-and-sweep, copy
//! monotonicity and the order in which trees are built and taken down.
use vstd::prelude::*;
use crate::builder::{Construct, walk_links};
use crate::gc::key_removal;
use crate::reconcile::{
    CopyAction, LinkFacts, Outcome, Plan, Record, copy_choice, copy_plan, is_action1,
    is_action2, link_decision, resolves_to, tree_decision,
};
use crate::store::{
    TrackedLink, TrackedPath, descending, has_path, in_group, is_path, is_stale, path_marked,
    paths_unique, reset, stale_links, tracked_modified, with_keep, mark_all, sweep,
};
use crate::reconcile::path_recorded;
use crate::structs::{Ops, Ownership, Setting, Title};

verus! {

/// One group's bookkeeping over a run that declares `declared` and whose
/// removals all go through: reset, mark what is declared, sweep the rest.
pub open spec fn pass(rows: Seq<TrackedLink>, title: Title, setting: Setting, declared: Set<u64>) -> Seq<TrackedLink> {
    sweep(mark_all(reset(rows, title, setting), declared), title, setting)
}

proof fn lemma_sweep_members(x: Seq<TrackedLink>, title: Title, setting: Setting)
    ensures
        forall|i: int| 0 <= i < sweep(x, title, setting).len() ==> exists|j: int|
            0 <= j < x.len() && #[trigger] sweep(x, title, setting)[i] == x[j] && !is_stale(x[j], title, setting),
        forall|j: int| 0 <= j < x.len() && !is_stale(#[trigger] x[j], title, setting) ==> exists|i: int|
            0 <= i < sweep(x, title, setting).len() && sweep(x, title, setting)[i] == x[j],
    decreases x.len(),
{
    if x.len() > 0 {
        let d = x.drop_last();
        lemma_sweep_members(d, title, setting);
        let s = sweep(x, title, setting);
        let sd = sweep(d, title, setting);
        assert forall|i: int| 0 <= i < s.len() implies exists|j: int|
            0 <= j < x.len() && #[trigger] s[i] == x[j] && !is_stale(x[j], title, setting) by {
            if i < sd.len() {
                let j = choose|j: int| 0 <= j < d.len() && sd[i] == d[j] && !is_stale(d[j], title, setting);
                assert(s[i] == x[j]);
            } else {
                assert(s[i] == x[x.len() - 1]);
            }
        }
        assert forall|j: int| 0 <= j < x.len() && !is_stale(#[trigger] x[j], title, setting) implies exists|i: int|
            0 <= i < s.len() && s[i] == x[j] by {
            if j < d.len() {
                assert(d[j] == x[j]);
                let i = choose|i: int| 0 <= i < sd.len() && sd[i] == d[j];
                assert(s[i] == x[j]);
            } else {
                assert(s[sd.len() as int] == x[j]);
            }
        }
    }
}

proof fn lemma_sweep_nothing_stale(x: Seq<TrackedLink>, title: Title, setting: Setting)
    requires
        forall|i: int| 0 <= i < x.len() ==> !is_stale(#[trigger] x[i], title, setting),
    ensures
        sweep(x, title, setting) == x,
    decreases x.len(),
{
    if x.len() > 0 {
        lemma_sweep_nothing_stale(x.drop_last(), title, setting);
        assert(x.drop_last().push(x.last()) == x);
    }
}

proof fn lemma_stale_members(x: Seq<TrackedLink>, title: Title, setting: Setting)
    ensures
        forall|i: int| 0 <= i < stale_links(x, title, setting).len() ==> exists|j: int|
            0 <= j < x.len() && #[trigger] stale_links(x, title, setting)[i] == x[j] && is_stale(x[j], title, setting),
        forall|j: int| 0 <= j < x.len() && is_stale(#[trigger] x[j], title, setting) ==> exists|i: int|
            0 <= i < stale_links(x, title, setting).len() && stale_links(x, title, setting)[i] == x[j],
    decreases x.len(),
{
    if x.len() > 0 {
        let d = x.drop_last();
        lemma_stale_members(d, title, setting);
        let s = stale_links(x, title, setting);
        let sd = stale_links(d, title, setting);
        assert forall|i: int| 0 <= i < s.len() implies exists|j: int|
            0 <= j < x.len() && #[trigger] s[i] == x[j] && is_stale(x[j], title, setting) by {
            if i < sd.len() {
                let j = choose|j: int| 0 <= j < d.len() && sd[i] == d[j] && is_stale(d[j], title, setting);
                assert(s[i] == x[j]);
            } else {
                assert(s[i] == x[x.len() - 1]);
            }
        }
        assert forall|j: int| 0 <= j < x.len() && is_stale(#[trigger] x[j], title, setting) implies exists|i: int|
            0 <= i < s.len() && s[i] == x[j] by {
            if j < d.len() {
                assert(d[j] == x[j]);
                let i = choose|i: int| 0 <= i < sd.len() && sd[i] == d[j];
                assert(s[i] == x[j]);
            } else {
                assert(s[sd.len() as int] == x[j]);
            }
        }
    }
}

/// After a pass, every row of the group is declared and kept, and every
/// declared row outside the group is kept too.
proof fn lemma_pass_settled(rows: Seq<TrackedLink>, title: Title, setting: Setting, declared: Set<u64>)
    ensures
        forall|i: int| 0 <= i < pass(rows, title, setting, declared).len() ==> {
            let r = #[trigger] pass(rows, title, setting, declared)[i];
            (in_group(r, title, setting) ==> declared.contains(r.hash) && r.keep)
                && (declared.contains(r.hash) ==> r.keep)
        },
{
    let y = mark_all(reset(rows, title, setting), declared);
    lemma_sweep_members(y, title, setting);
    let p = pass(rows, title, setting, declared);
    assert forall|i: int| 0 <= i < p.len() implies {
        let r = #[trigger] p[i];
        (in_group(r, title, setting) ==> declared.contains(r.hash) && r.keep) && (declared.contains(r.hash) ==> r.keep)
    } by {
        let j = choose|j: int| 0 <= j < y.len() && p[i] == y[j] && !is_stale(y[j], title, setting);
        assert(y[j] == (if declared.contains(reset(rows, title, setting)[j].hash) {
            with_keep(reset(rows, title, setting)[j], true)
        } else {
            reset(rows, title, setting)[j]
        }));
    }
}

/// Reconciling an unchanged declaration twice leaves the store as the first
/// run left it, and the second run finds nothing stale to remove.
pub proof fn lemma_pass_idempotent(rows: Seq<TrackedLink>, title: Title, setting: Setting, declared: Set<u64>)
    ensures
        pass(pass(rows, title, setting, declared), title, setting, declared) == pass(rows, title, setting, declared),
        stale_links(
            mark_all(reset(pass(rows, title, setting, declared), title, setting), declared),
            title,
            setting,
        ).len() == 0,
{
    let p = pass(rows, title, setting, declared);
    lemma_pass_settled(rows, title, setting, declared);
    let y = mark_all(reset(p, title, setting), declared);
    assert forall|i: int| 0 <= i < p.len() implies y[i] == p[i] by {
        let r = p[i];
        assert(in_group(r, title, setting) ==> declared.contains(r.hash) && r.keep);
        assert(declared.contains(r.hash) ==> r.keep);
    }
    assert(y =~= p);
    assert forall|i: int| 0 <= i < p.len() implies !is_stale(#[trigger] p[i], title, setting) by {
        let r = p[i];
        assert(in_group(r, title, setting) ==> declared.contains(r.hash) && r.keep);
    }
    lemma_sweep_nothing_stale(p, title, setting);
    lemma_stale_members(y, title, setting);
    if stale_links(y, title, setting).len() > 0 {
        let s = stale_links(y, title, setting);
        let j = choose|j: int| 0 <= j < y.len() && s[0] == y[j] && is_stale(y[j], title, setting);
        assert(!is_stale(p[j], title, setting));
    }
}

/// On a second run over an unchanged filesystem the reconciler plans no
/// filesystem operation: an existing link or tree entry is only verified,
/// and a copy whose source, destination and recorded time agree is left alone.
pub proof fn lemma_settled_entities_are_quiet(
    set: Ownership,
    source: Seq<char>,
    destination: Seq<char>,
    facts: LinkFacts,
    plan: Plan,
    t: i64,
)
    ensures
        facts.destination.exists && link_decision(set, source, destination, facts, plan)
            ==> plan.actions@.len() == 0 && plan.record == Record::Nothing,
        facts.destination.exists && tree_decision(set, source, destination, facts, plan)
            ==> plan.actions@.len() == 0 && plan.record == Record::Nothing,
        copy_choice(true, true, false, Some(t), t, t) == CopyAction::Unchanged,
        copy_plan(CopyAction::Unchanged, source, destination, facts, plan) ==> plan.actions@.len() == 0
            && plan.record == Record::Nothing && plan.outcome == Outcome::Unchanged,
{
}

proof fn lemma_second_stale_are_dropped(settled: Seq<TrackedLink>, title: Title, setting: Setting, d1: Set<u64>, d2: Set<u64>)
    requires
        forall|i: int| 0 <= i < settled.len() ==> {
            let r = #[trigger] settled[i];
            (in_group(r, title, setting) ==> d1.contains(r.hash) && r.keep) && (d1.contains(r.hash) ==> r.keep)
        },
    ensures
        ({
            let st = stale_links(mark_all(reset(settled, title, setting), d2), title, setting);
            forall|i: int| 0 <= i < st.len() ==> d1.contains(#[trigger] st[i].hash) && !d2.contains(st[i].hash)
        }),
{
    let y2 = mark_all(reset(settled, title, setting), d2);
    let st = stale_links(y2, title, setting);
    lemma_stale_members(y2, title, setting);
    assert forall|i: int| 0 <= i < st.len() implies d1.contains(#[trigger] st[i].hash) && !d2.contains(st[i].hash) by {
        let j = choose|j: int| 0 <= j < y2.len() && st[i] == y2[j] && is_stale(y2[j], title, setting);
        assert(y2[j].hash == settled[j].hash);
        assert(in_group(settled[j], title, setting));
    }
}

proof fn lemma_second_finds_dropped(settled: Seq<TrackedLink>, title: Title, setting: Setting, d2: Set<u64>)
    ensures
        ({
            let st = stale_links(mark_all(reset(settled, title, setting), d2), title, setting);
            forall|j: int| 0 <= j < settled.len() && in_group(#[trigger] settled[j], title, setting) && !d2.contains(settled[j].hash)
                ==> exists|i: int| 0 <= i < st.len() && st[i].hash == settled[j].hash
        }),
{
    let y2 = mark_all(reset(settled, title, setting), d2);
    let st = stale_links(y2, title, setting);
    lemma_stale_members(y2, title, setting);
    assert forall|j: int| 0 <= j < settled.len() && in_group(#[trigger] settled[j], title, setting) && !d2.contains(settled[j].hash)
        implies exists|i: int| 0 <= i < st.len() && st[i].hash == settled[j].hash by {
        assert(is_stale(y2[j], title, setting));
        let i = choose|i: int| 0 <= i < st.len() && st[i] == y2[j];
        assert(st[i].hash == settled[j].hash);
    }
}

proof fn lemma_second_keeps_declared(settled: Seq<TrackedLink>, title: Title, setting: Setting, d2: Set<u64>)
    ensures
        forall|j: int| #![trigger settled[j]] 0 <= j < settled.len() && (d2.contains(settled[j].hash) || !in_group(settled[j], title, setting))
            ==> exists|i: int| 0 <= i < pass(settled, title, setting, d2).len()
                && pass(settled, title, setting, d2)[i] == mark_all(reset(settled, title, setting), d2)[j],
{
    let y2 = mark_all(reset(settled, title, setting), d2);
    lemma_sweep_members(y2, title, setting);
    assert forall|j: int| #![trigger settled[j]] 0 <= j < settled.len() && (d2.contains(settled[j].hash) || !in_group(settled[j], title, setting))
        implies exists|i: int| 0 <= i < pass(settled, title, setting, d2).len()
            && pass(settled, title, setting, d2)[i] == y2[j] by {
        let r0 = reset(settled, title, setting)[j];
        assert(in_group(r0, title, setting) == in_group(settled[j], title, setting));
        assert(r0.hash == settled[j].hash);
        assert(y2[j] == (if d2.contains(r0.hash) { with_keep(r0, true) } else { r0 }));
        assert(!in_group(settled[j], title, setting) ==> r0 == settled[j]);
        assert(!is_stale(y2[j], title, setting));
        let sw = sweep(y2, title, setting);
        let i = choose|i: int| 0 <= i < sw.len() && sw[i] == y2[j];
        assert(pass(settled, title, setting, d2) == sw);
    }
}

/// Mark-and-sweep: after reconciling `d1` and then its subset `d2`, the rows
/// found stale in the second run are exactly those of `d1` outside `d2`, and
/// every row of `d2` (and every row outside the group) survives the sweep.
pub proof fn lemma_mark_and_sweep(
    rows: Seq<TrackedLink>,
    title: Title,
    setting: Setting,
    d1: Set<u64>,
    d2: Set<u64>,
)
    requires
        d2.subset_of(d1),
    ensures
        ({
            let settled = pass(rows, title, setting, d1);
            let y2 = mark_all(reset(settled, title, setting), d2);
            let st = stale_links(y2, title, setting);
            &&& forall|i: int| 0 <= i < st.len() ==> d1.contains(#[trigger] st[i].hash) && !d2.contains(st[i].hash)
            &&& forall|j: int| 0 <= j < settled.len() && in_group(#[trigger] settled[j], title, setting) && !d2.contains(settled[j].hash)
                ==> exists|i: int| 0 <= i < st.len() && st[i].hash == settled[j].hash
            &&& forall|j: int| #![trigger settled[j]] 0 <= j < settled.len() && (d2.contains(settled[j].hash) || !in_group(settled[j], title, setting))
                ==> exists|i: int| 0 <= i < pass(settled, title, setting, d2).len()
                    && pass(settled, title, setting, d2)[i] == y2[j]
        }),
{
    let settled = pass(rows, title, setting, d1);
    lemma_pass_settled(rows, title, setting, d1);
    lemma_second_stale_are_dropped(settled, title, setting, d1, d2);
    lemma_second_finds_dropped(settled, title, setting, d2);
    lemma_second_keeps_declared(settled, title, setting, d2);
}

/// A stale entity whose destination is unchanged since it was created (a
/// link that still resolves to its source, or a file with its source's time)
/// is removed by the collector.
pub proof fn lemma_unmodified_stale_is_removed(
    source: Seq<char>,
    destination: Seq<char>,
    f: crate::gc::RemovalFacts,
    r: Option<crate::reconcile::Action>,
)
    requires
        key_removal(source, destination, f, r),
        (f.destination.is_symlink && resolves_to(f.canonical, source))
            || (f.destination.exists && f.destination.is_file && !f.destination.is_symlink
                && f.source.modified == f.destination.modified),
    ensures
        r matches Some(a) && is_action1(a, Ops::Rm_File, destination),
{
}

/// Copy monotonicity: from a recorded time `t0` that the destination still
/// carries, a strictly newer source is copied exactly once; a destination
/// changed on its own while the source stayed at `t0` is a conflict and
/// nothing is copied.
pub proof fn lemma_copy_monotonic(
    t0: i64,
    t_src: i64,
    t_dst: i64,
    source: Seq<char>,
    destination: Seq<char>,
    facts: LinkFacts,
    plan: Plan,
)
    ensures
        t_dst == t0 && t_src > t_dst ==> copy_choice(true, true, false, Some(t0), t_src, t_dst) == CopyAction::Overwrite,
        copy_plan(CopyAction::Overwrite, source, destination, facts, plan) ==> plan.actions@.len() == 1
            && is_action2(plan.actions@[0], Ops::Copy, source, destination) && plan.record == Record::PathTimeAfter,
        t_src == t0 && t_dst != t0 ==> copy_choice(true, true, false, Some(t0), t_src, t_dst) == CopyAction::Conflict,
        copy_plan(CopyAction::Conflict, source, destination, facts, plan) ==> plan.actions@.len() == 0
            && plan.outcome == Outcome::Conflict,
{
}

/// Once a time is recorded for a path, it is the time the store gives back.
pub proof fn lemma_recorded_time(rows: Seq<TrackedPath>, id: u64, path: String, order: i64, nanos: i64)
    requires
        paths_unique(rows),
    ensures
        paths_unique(path_recorded(rows, id, path, order, nanos)),
        tracked_modified(path_recorded(rows, id, path, order, nanos), id, path@) == Some(nanos),
{
    let out = path_recorded(rows, id, path, order, nanos);
    if has_path(rows, id, path@) {
        let k = choose|k: int| 0 <= k < rows.len() && is_path(rows[k], id, path@);
        let m = path_marked(rows, id, path@, order);
        assert forall|i: int, j: int|
            0 <= i < out.len() && 0 <= j < out.len() && out[i].hash == out[j].hash && out[i].path@ == out[j].path@
            implies i == j by {
            assert(out[i].hash == rows[i].hash && out[i].path == rows[i].path);
            assert(out[j].hash == rows[j].hash && out[j].path == rows[j].path);
        }
        assert(is_path(out[k], id, path@));
        let c = choose|i: int| 0 <= i < out.len() && is_path(out[i], id, path@);
        assert(c == k);
    } else {
        let n = rows.len() as int;
        assert forall|i: int, j: int|
            0 <= i < out.len() && 0 <= j < out.len() && out[i].hash == out[j].hash && out[i].path@ == out[j].path@
            implies i == j by {
            if i < n && j == n {
                assert(is_path(rows[i], id, path@));
            }
            if j < n && i == n {
                assert(is_path(rows[j], id, path@));
            }
        }
        assert(is_path(out[n], id, path@));
        let c = choose|i: int| 0 <= i < out.len() && is_path(out[i], id, path@);
        assert(c == n);
    }
}

/// The links of a tree are planned in visitation order: their orders
/// strictly increase with the index of the walk.
pub proof fn lemma_walk_orders_increase(c: Construct, walk: Seq<String>, links: Seq<crate::reconcile::Link>)
    requires
        walk_links(c, walk, links),
    ensures
        forall|a: int, b: int| 0 <= a < b < links.len() ==> links[a].order < links[b].order,
{
    assert forall|a: int, b: int| 0 <= a < b < links.len() implies links[a].order < links[b].order by {
        assert(links[a].order == a);
        assert(links[b].order == b);
    }
}

/// The collector takes a tree down deepest first: paths with distinct
/// orders come out in strictly descending order.
pub proof fn lemma_removal_descends(rows: Seq<TrackedPath>)
    requires
        descending(rows),
        forall|a: int, b: int| 0 <= a < b < rows.len() ==> rows[a].path_order != rows[b].path_order,
    ensures
        forall|a: int, b: int| 0 <= a < b < rows.len() ==> rows[a].path_order > rows[b].path_order,
{
}

} // verus!
