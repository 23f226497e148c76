//! What holds of the plans over every listing and every event: what a
//! reconcile loads, what a purge leaves, and where each event kind leads.
use crate::naming::{is_package, lemma_package_has_name, stem_of};
use crate::plan::{event_spec, plan_spec, steps_for, EventKind, Policy, Step};
use vstd::prelude::*;

verus! {

/// The paths that a list of steps loads, in order.
pub open spec fn loads_of(steps: Seq<Step>) -> Seq<Seq<char>>
    decreases steps.len(),
{
    if steps.len() == 0 {
        seq![]
    } else {
        match steps.last() {
            Step::Load(p) => loads_of(steps.drop_last()).push(p),
            _ => loads_of(steps.drop_last()),
        }
    }
}

/// The package files of a listing, in order.
pub open spec fn packages_in(entries: Seq<Seq<char>>) -> Seq<Seq<char>>
    decreases entries.len(),
{
    if entries.len() == 0 {
        seq![]
    } else if is_package(entries.last()) {
        packages_in(entries.drop_last()).push(entries.last())
    } else {
        packages_in(entries.drop_last())
    }
}

/// Whether a step leaves the directory and the kernel as they are, apart from
/// the load it may ask for.
pub open spec fn touches_no_file(s: Step) -> bool {
    s is Load || s is SkipInvalid || s is NoteModified
}

/// The directory after one step. A deletion removes its path; an unload of
/// `name` removes whatever `unloaded(name)` holds, the files that the module
/// manager's side of the unload took away, which may be none at all.
pub open spec fn after_step(
    dir: Set<Seq<char>>,
    s: Step,
    unloaded: spec_fn(Seq<char>) -> Set<Seq<char>>,
) -> Set<Seq<char>> {
    match s {
        Step::Delete(p) => dir.remove(p),
        Step::Unload(name) => dir.difference(unloaded(name)),
        _ => dir,
    }
}

/// The directory after a list of steps, in order.
pub open spec fn after_steps(
    dir: Set<Seq<char>>,
    steps: Seq<Step>,
    unloaded: spec_fn(Seq<char>) -> Set<Seq<char>>,
) -> Set<Seq<char>>
    decreases steps.len(),
{
    if steps.len() == 0 {
        dir
    } else {
        after_step(after_steps(dir, steps.drop_last(), unloaded), steps.last(), unloaded)
    }
}

proof fn lemma_loads_append(a: Seq<Step>, b: Seq<Step>)
    ensures
        loads_of(a + b) == loads_of(a) + loads_of(b),
    decreases b.len(),
{
    if b.len() == 0 {
        assert(a + b =~= a);
        assert(loads_of(b) =~= Seq::<Seq<char>>::empty());
        assert(loads_of(a) + loads_of(b) =~= loads_of(a));
    } else {
        assert((a + b).drop_last() =~= a + b.drop_last());
        lemma_loads_append(a, b.drop_last());
        match b.last() {
            Step::Load(p) => {
                assert(loads_of(a) + loads_of(b.drop_last()).push(p) =~= (loads_of(a) + loads_of(
                    b.drop_last(),
                )).push(p));
            },
            _ => {},
        }
    }
}

proof fn lemma_after_append(
    dir: Set<Seq<char>>,
    a: Seq<Step>,
    b: Seq<Step>,
    unloaded: spec_fn(Seq<char>) -> Set<Seq<char>>,
)
    ensures
        after_steps(dir, a + b, unloaded) == after_steps(after_steps(dir, a, unloaded), b, unloaded),
    decreases b.len(),
{
    if b.len() == 0 {
        assert(a + b =~= a);
    } else {
        assert((a + b).drop_last() =~= a + b.drop_last());
        lemma_after_append(dir, a, b.drop_last(), unloaded);
    }
}

proof fn lemma_after_shrinks(
    dir: Set<Seq<char>>,
    steps: Seq<Step>,
    unloaded: spec_fn(Seq<char>) -> Set<Seq<char>>,
)
    ensures
        after_steps(dir, steps, unloaded).subset_of(dir),
    decreases steps.len(),
{
    if steps.len() > 0 {
        lemma_after_shrinks(dir, steps.drop_last(), unloaded);
    }
}

proof fn lemma_purge_removes(
    dir: Set<Seq<char>>,
    entries: Seq<Seq<char>>,
    unloaded: spec_fn(Seq<char>) -> Set<Seq<char>>,
)
    ensures
        forall|j: int|
            0 <= j < entries.len() && is_package(#[trigger] entries[j]) ==> !after_steps(
                dir,
                plan_spec(Policy::Purge, entries),
                unloaded,
            ).contains(entries[j]),
    decreases entries.len(),
{
    if entries.len() > 0 {
        let pre = entries.drop_last();
        let p = entries.last();
        let tail = steps_for(Policy::Purge, p);
        lemma_purge_removes(dir, pre, unloaded);
        lemma_after_append(dir, plan_spec(Policy::Purge, pre), tail, unloaded);
        let mid = after_steps(dir, plan_spec(Policy::Purge, pre), unloaded);
        lemma_after_shrinks(mid, tail, unloaded);
        if is_package(p) {
            assert(tail.drop_last().drop_last() =~= Seq::<Step>::empty());
            assert(!after_steps(mid, tail, unloaded).contains(p));
        }
        assert forall|j: int|
            0 <= j < entries.len() && is_package(#[trigger] entries[j]) implies !after_steps(
                dir,
                plan_spec(Policy::Purge, entries),
                unloaded,
            ).contains(entries[j]) by {
            if j < pre.len() {
                assert(pre[j] == entries[j]);
            }
        }
    }
}

/// A reconcile over an unchanged directory may be repeated: it deletes and
/// unloads nothing, so the directory stays as it was, and it attempts a load of
/// exactly the package files of the listing, in listing order, every time it
/// runs; two runs in succession attempt those loads twice.
pub proof fn lemma_reconcile_repeatable(entries: Seq<Seq<char>>)
    ensures
        forall|i: int|
            0 <= i < plan_spec(Policy::LoadAll, entries).len() ==> touches_no_file(
                #[trigger] plan_spec(Policy::LoadAll, entries)[i],
            ),
        loads_of(plan_spec(Policy::LoadAll, entries)) == packages_in(entries),
        loads_of(plan_spec(Policy::LoadAll, entries) + plan_spec(Policy::LoadAll, entries))
            == packages_in(entries) + packages_in(entries),
    decreases entries.len(),
{
    let plan = plan_spec(Policy::LoadAll, entries);
    if entries.len() > 0 {
        let pre = entries.drop_last();
        let p = entries.last();
        lemma_reconcile_repeatable(pre);
        let tail = steps_for(Policy::LoadAll, p);
        lemma_loads_append(plan_spec(Policy::LoadAll, pre), tail);
        if is_package(p) {
            lemma_package_has_name(p);
            assert(tail == seq![Step::Load(p)]);
            assert(tail.drop_last() =~= Seq::<Step>::empty());
            assert(loads_of(tail.drop_last()) =~= Seq::<Seq<char>>::empty());
            assert(loads_of(tail) =~= seq![p]);
            assert(packages_in(pre) + seq![p] =~= packages_in(pre).push(p));
        } else {
            if stem_of(p).len() == 0 {
                assert(tail == seq![Step::SkipInvalid(p)]);
                assert(tail.drop_last() =~= Seq::<Step>::empty());
                assert(loads_of(tail.drop_last()) =~= Seq::<Seq<char>>::empty());
            } else {
                assert(tail.len() == 0);
            }
            assert(loads_of(tail) =~= Seq::<Seq<char>>::empty());
            assert(packages_in(pre) + Seq::<Seq<char>>::empty() =~= packages_in(pre));
        }
        assert forall|i: int| 0 <= i < plan.len() implies touches_no_file(#[trigger] plan[i]) by {
            if i >= plan_spec(Policy::LoadAll, pre).len() {
                assert(plan[i] == tail[i - plan_spec(Policy::LoadAll, pre).len()]);
            } else {
                assert(plan[i] == plan_spec(Policy::LoadAll, pre)[i]);
            }
        }
    } else {
        assert(plan + plan =~= plan);
    }
    lemma_loads_append(plan, plan);
}

/// After a purge over a complete listing of the directory, no package file is
/// left, whatever each unload did.
pub proof fn lemma_purge_complete(
    entries: Seq<Seq<char>>,
    unloaded: spec_fn(Seq<char>) -> Set<Seq<char>>,
)
    ensures
        forall|p: Seq<char>|
            #[trigger] after_steps(
                entries.to_set(),
                plan_spec(Policy::Purge, entries),
                unloaded,
            ).contains(p) ==> !is_package(p),
{
    let dir = entries.to_set();
    let last = after_steps(dir, plan_spec(Policy::Purge, entries), unloaded);
    lemma_purge_removes(dir, entries, unloaded);
    lemma_after_shrinks(dir, plan_spec(Policy::Purge, entries), unloaded);
    assert forall|p: Seq<char>| #[trigger] last.contains(p) implies !is_package(p) by {
        assert(dir.contains(p));
        let j = choose|j: int| 0 <= j < entries.len() && entries[j] == p;
        assert(entries[j] == p);
    }
}

/// A created file is loaded, once, by its path, if it is a package file; any
/// other created file is left alone.
pub proof fn lemma_create_routing(p: Seq<char>)
    ensures
        event_spec(EventKind::Create, seq![p]) == if is_package(p) {
            seq![Step::Load(p)]
        } else {
            seq![]
        },
{
    assert(seq![p].drop_last() =~= Seq::<Seq<char>>::empty());
    assert(plan_spec(Policy::Created, seq![p]) == plan_spec(Policy::Created, seq![]) + steps_for(
        Policy::Created,
        p,
    ));
    assert(event_spec(EventKind::Create, seq![p]) =~= steps_for(Policy::Created, p));
}

/// A removed file with a module name leads to exactly one unload of that name,
/// then a deletion of the same path.
pub proof fn lemma_remove_routing(p: Seq<char>)
    requires
        stem_of(p).len() > 0,
    ensures
        event_spec(EventKind::Remove, seq![p]) == seq![Step::Unload(stem_of(p)), Step::Delete(p)],
{
    assert(seq![p].drop_last() =~= Seq::<Seq<char>>::empty());
    assert(plan_spec(Policy::Removed, seq![p]) == plan_spec(Policy::Removed, seq![]) + steps_for(
        Policy::Removed,
        p,
    ));
    assert(event_spec(EventKind::Remove, seq![p]) =~= steps_for(Policy::Removed, p));
}

/// A modification event only notes each path: no load, no unload, no deletion.
pub proof fn lemma_modify_inert(paths: Seq<Seq<char>>)
    ensures
        event_spec(EventKind::Modify, paths).len() == paths.len(),
        forall|i: int|
            0 <= i < paths.len() ==> #[trigger] event_spec(EventKind::Modify, paths)[i]
                == Step::NoteModified(paths[i]),
    decreases paths.len(),
{
    if paths.len() > 0 {
        let pre = paths.drop_last();
        lemma_modify_inert(pre);
        assert forall|i: int| 0 <= i < paths.len() implies #[trigger] event_spec(
            EventKind::Modify,
            paths,
        )[i] == Step::NoteModified(paths[i]) by {
            if i < pre.len() {
                assert(pre[i] == paths[i]);
                assert(event_spec(EventKind::Modify, pre)[i] == Step::NoteModified(pre[i]));
            }
        }
    }
}

} // verus!
