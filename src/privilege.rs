//! The privilege boundary: a mutating primitive runs in this process when the
//! process owns its target, and otherwise is handed, alone, to a minimal
//! helper whose whole invocation is the operation's name and its paths.
use vstd::prelude::*;
use crate::reconcile::{Action, action_wf};
use crate::structs::{Ops, ops_arity, ops_named, ops_text};

verus! {

/// The owning user and group of a path, or of a process.
#[derive(Debug, Clone, Copy, PartialEq, Eq, Structural)]
pub struct Owner {
    pub uid: u32,
    pub gid: u32,
}

/// Where a primitive runs.
#[derive(Debug, Clone, PartialEq, Eq)]
pub enum Dispatch {
    /// In this process, which owns the target.
    InProcess,
    /// In the helper, invoked once with exactly these arguments.
    Helper(Vec<String>),
}

/// The character views of a list of strings.
pub open spec fn texts(v: Seq<String>) -> Seq<Seq<char>> {
    Seq::new(v.len(), |i: int| v[i]@)
}

/// The helper's invocation for an action: its name, then its paths in the
/// order the in-process call takes them.
pub open spec fn helper_argv(a: Action) -> Seq<Seq<char>> {
    seq![ops_text(a.op)] + texts(a.args@)
}

/// The process may act itself only on what it owns, user and group alike.
pub fn check_perms(target: Owner, me: Owner) -> (r: bool)
    ensures
        r == (target == me),
{
    target.uid == me.uid && target.gid == me.gid
}

/// Decides where `action` runs, given the owner of its first path (or of
/// that path's parent when it does not exist yet) and this process's ids.
pub fn operations(action: &Action, target: Owner, me: Owner) -> (r: Dispatch)
    ensures
        target == me ==> r == Dispatch::InProcess,
        target != me ==> (r matches Dispatch::Helper(argv) && texts(argv@) == helper_argv(*action)),
{
    if check_perms(target, me) {
        Dispatch::InProcess
    } else {
        let mut argv: Vec<String> = Vec::new();
        argv.push(action.op.name());
        let mut i: usize = 0;
        while i < action.args.len()
            invariant
                i <= action.args@.len(),
                texts(argv@) == seq![ops_text(action.op)] + texts(action.args@.subrange(0, i as int)),
            decreases action.args@.len() - i,
        {
            let ghost prev = argv@;
            let item = action.args[i].clone();
            assert(item@ == action.args@[i as int]@);
            argv.push(item);
            assert(texts(argv@) =~= texts(prev).push(action.args@[i as int]@));
            assert(texts(action.args@.subrange(0, i + 1)) =~= texts(action.args@.subrange(0, i as int)).push(action.args@[i as int]@));
            assert(texts(argv@) =~= seq![ops_text(action.op)] + texts(action.args@.subrange(0, i + 1)));
            i = i + 1;
        }
        assert(action.args@.subrange(0, action.args@.len() as int) == action.args@);
        Dispatch::Helper(argv)
    }
}

/// The request that the helper accepts from its invocation: a known operation
/// name followed by exactly as many paths as that operation takes.
pub open spec fn request_of(argv: Seq<Seq<char>>) -> Option<(Ops, Seq<Seq<char>>)> {
    if argv.len() >= 1 && ops_named(argv[0]) is Some
        && argv.len() - 1 == ops_arity(ops_named(argv[0])->Some_0) {
        Some((ops_named(argv[0])->Some_0, argv.subrange(1, argv.len() as int)))
    } else {
        None
    }
}

/// Validates the helper's invocation; anything but one well-formed request
/// is refused.
pub fn parse_request(argv: &Vec<String>) -> (r: Option<Action>)
    ensures
        r is None <==> request_of(texts(argv@)) is None,
        r matches Some(a) ==> request_of(texts(argv@)) == Some((a.op, texts(a.args@))) && action_wf(a),
{
    if argv.len() < 1 {
        return None;
    }
    match Ops::from_str(argv[0].as_str()) {
        Err(_) => {
            assert(texts(argv@)[0] == argv@[0]@);
            None
        },
        Ok(op) => {
            assert(texts(argv@)[0] == argv@[0]@);
            if argv.len() - 1 != op.arity() {
                return None;
            }
            let mut args: Vec<String> = Vec::new();
            let mut i: usize = 1;
            while i < argv.len()
                invariant
                    1 <= i <= argv@.len(),
                    texts(args@) == texts(argv@).subrange(1, i as int),
                    args@.len() == i - 1,
                decreases argv@.len() - i,
            {
                args.push(argv[i].clone());
                assert(texts(args@) =~= texts(argv@).subrange(1, i + 1));
                i = i + 1;
            }
            Some(Action { op, args })
        },
    }
}

/// Every operation's name reads back as that operation.
pub proof fn lemma_ops_name_round_trip(op: Ops)
    ensures
        ops_named(ops_text(op)) == Some(op),
{
    reveal_strlit("Copy");
    reveal_strlit("Symlink");
    reveal_strlit("Create_Dir");
    reveal_strlit("Create_Dir_All");
    reveal_strlit("Hardlink");
    reveal_strlit("Rm_File");
    reveal_strlit("Rm_Dir");
    assert("Copy"@.len() == 4 && "Symlink"@.len() == 7 && "Create_Dir"@.len() == 10);
    assert("Create_Dir_All"@.len() == 14 && "Hardlink"@.len() == 8 && "Rm_File"@.len() == 7);
    assert("Rm_Dir"@.len() == 6);
    assert("Symlink"@[0] != "Rm_File"@[0]);
}

/// For a target owned by someone else the engine does not act itself: it
/// invokes the helper once, and the helper reads back exactly the requested
/// operation with the same paths in the same order.
pub proof fn lemma_foreign_owner_goes_through_helper(action: Action, target: Owner, me: Owner, argv: Seq<String>)
    requires
        action_wf(action),
        target != me,
        texts(argv) == helper_argv(action),
    ensures
        request_of(texts(argv)) == Some((action.op, texts(action.args@))),
{
    lemma_ops_name_round_trip(action.op);
    let t = texts(argv);
    assert(t[0] == ops_text(action.op));
    assert(t.subrange(1, t.len() as int) =~= texts(action.args@));
}

} // verus!
