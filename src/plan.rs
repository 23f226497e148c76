//! What each batch and each file-system event asks for: loads, unloads,
//! deletions and notes, in order.
use crate::naming::{file_stem, is_package, is_package_file, stem_of};
use vstd::prelude::*;

verus! {

/// One thing for the host to do.
#[derive(Clone, Debug, PartialEq, Eq)]
pub enum Action {
    /// Ask the module manager to load the package file at this path.
    Load(String),
    /// Ask the module manager to unload the module of this name.
    Unload(String),
    /// Delete the file at this path, if it is still there.
    Delete(String),
    /// Report that the file at this path was modified; nothing else.
    NoteModified(String),
    /// Report that the entry at this path has an empty module name; skip it.
    SkipInvalid(String),
}

/// The mathematical value of an [`Action`].
pub enum Step {
    Load(Seq<char>),
    Unload(Seq<char>),
    Delete(Seq<char>),
    NoteModified(Seq<char>),
    SkipInvalid(Seq<char>),
}

impl View for Action {
    type V = Step;

    open spec fn view(&self) -> Step {
        match self {
            Action::Load(p) => Step::Load(p@),
            Action::Unload(n) => Step::Unload(n@),
            Action::Delete(p) => Step::Delete(p@),
            Action::NoteModified(p) => Step::NoteModified(p@),
            Action::SkipInvalid(p) => Step::SkipInvalid(p@),
        }
    }
}

/// The kind of a file-system change event.
#[derive(Clone, Copy, Debug, PartialEq, Eq, Structural)]
pub enum EventKind {
    Create,
    Remove,
    Modify,
    Other,
}

/// A file-system change event: its kind and the paths it concerns.
#[derive(Clone, Debug)]
pub struct FsEvent {
    pub kind: EventKind,
    pub paths: Vec<String>,
}

/// Which rule turns one path into steps.
#[derive(Clone, Copy, Debug, PartialEq, Eq, Structural)]
pub enum Policy {
    /// Startup reconcile: load every package file, skip empty names.
    LoadAll,
    /// Safe-mode purge: unload and delete every package file.
    Purge,
    /// A created file: load it if it is a package file.
    Created,
    /// A removed file: unload its module and delete what is left of it.
    Removed,
    /// A modified file: report it, nothing more.
    Modified,
}

/// The strings of a vector, as sequences of characters.
pub open spec fn texts(v: Seq<String>) -> Seq<Seq<char>> {
    v.map_values(|s: String| s@)
}

/// The steps of a sequence of actions.
pub open spec fn steps_of(v: Seq<Action>) -> Seq<Step> {
    v.map_values(|a: Action| a@)
}

/// The steps that `policy` asks for on the path `p`.
pub open spec fn steps_for(policy: Policy, p: Seq<char>) -> Seq<Step> {
    match policy {
        Policy::LoadAll => if stem_of(p).len() == 0 {
            seq![Step::SkipInvalid(p)]
        } else if is_package(p) {
            seq![Step::Load(p)]
        } else {
            seq![]
        },
        Policy::Purge => if is_package(p) {
            seq![Step::Unload(stem_of(p)), Step::Delete(p)]
        } else {
            seq![]
        },
        Policy::Created => if is_package(p) {
            seq![Step::Load(p)]
        } else {
            seq![]
        },
        Policy::Removed => if stem_of(p).len() == 0 {
            seq![Step::SkipInvalid(p)]
        } else {
            seq![Step::Unload(stem_of(p)), Step::Delete(p)]
        },
        Policy::Modified => seq![Step::NoteModified(p)],
    }
}

/// The steps that `policy` asks for on each path in turn, concatenated: every
/// path is dealt with, whatever happens to the others.
pub open spec fn plan_spec(policy: Policy, paths: Seq<Seq<char>>) -> Seq<Step>
    decreases paths.len(),
{
    if paths.len() == 0 {
        seq![]
    } else {
        plan_spec(policy, paths.drop_last()) + steps_for(policy, paths.last())
    }
}

/// The steps that an event of `kind` on `paths` asks for.
pub open spec fn event_spec(kind: EventKind, paths: Seq<Seq<char>>) -> Seq<Step> {
    match kind {
        EventKind::Create => plan_spec(Policy::Created, paths),
        EventKind::Remove => plan_spec(Policy::Removed, paths),
        EventKind::Modify => plan_spec(Policy::Modified, paths),
        EventKind::Other => seq![],
    }
}

proof fn lemma_plan_prefix(policy: Policy, paths: Seq<Seq<char>>, i: int)
    requires
        0 <= i < paths.len(),
    ensures
        plan_spec(policy, paths.subrange(0, i + 1)) == plan_spec(policy, paths.subrange(0, i))
            + steps_for(policy, paths[i]),
{
    assert(paths.subrange(0, i + 1).drop_last() =~= paths.subrange(0, i));
}

/// Appends to `out` the steps that `policy` asks for on `path`.
fn push_steps(policy: Policy, path: &String, out: &mut Vec<Action>)
    ensures
        steps_of(final(out)@) == steps_of(old(out)@) + steps_for(policy, path@),
{
    let ghost start = out@;
    match policy {
        Policy::LoadAll => {
            let name = file_stem(path.as_str());
            if name.as_str().unicode_len() == 0 {
                out.push(Action::SkipInvalid(path.clone()));
            } else if is_package_file(path.as_str()) {
                out.push(Action::Load(path.clone()));
            }
        },
        Policy::Purge => {
            if is_package_file(path.as_str()) {
                out.push(Action::Unload(file_stem(path.as_str())));
                out.push(Action::Delete(path.clone()));
            }
        },
        Policy::Created => {
            if is_package_file(path.as_str()) {
                out.push(Action::Load(path.clone()));
            }
        },
        Policy::Removed => {
            let name = file_stem(path.as_str());
            if name.as_str().unicode_len() == 0 {
                out.push(Action::SkipInvalid(path.clone()));
            } else {
                out.push(Action::Unload(name));
                out.push(Action::Delete(path.clone()));
            }
        },
        Policy::Modified => {
            out.push(Action::NoteModified(path.clone()));
        },
    }
    assert(steps_of(out@) =~= steps_of(start) + steps_for(policy, path@));
}

/// The steps that `policy` asks for on each of `paths`, in order.
fn plan(policy: Policy, paths: &Vec<String>) -> (r: Vec<Action>)
    ensures
        steps_of(r@) == plan_spec(policy, texts(paths@)),
{
    let mut out: Vec<Action> = Vec::new();
    let mut i: usize = 0;
    assert(texts(paths@).subrange(0, 0) =~= Seq::<Seq<char>>::empty());
    assert(steps_of(out@) =~= Seq::<Step>::empty());
    while i < paths.len()
        invariant
            i <= paths.len(),
            steps_of(out@) == plan_spec(policy, texts(paths@).subrange(0, i as int)),
        decreases paths.len() - i,
    {
        push_steps(policy, &paths[i], &mut out);
        proof {
            lemma_plan_prefix(policy, texts(paths@), i as int);
        }
        i = i + 1;
    }
    assert(texts(paths@).subrange(0, i as int) =~= texts(paths@));
    out
}

/// The startup reconcile over a directory listing: a load for each package
/// file, in listing order, and a skip for each entry with an empty name.
pub fn plan_load_all(entries: &Vec<String>) -> (r: Vec<Action>)
    ensures
        steps_of(r@) == plan_spec(Policy::LoadAll, texts(entries@)),
{
    plan(Policy::LoadAll, entries)
}

/// The safe-mode purge over a directory listing: for each package file, an
/// unload of its module and then, whatever the unload did, a deletion.
pub fn plan_purge_all(entries: &Vec<String>) -> (r: Vec<Action>)
    ensures
        steps_of(r@) == plan_spec(Policy::Purge, texts(entries@)),
{
    plan(Policy::Purge, entries)
}

/// A created-file event: a load for each path that is a package file.
pub fn handle_create_event(paths: &Vec<String>) -> (r: Vec<Action>)
    ensures
        steps_of(r@) == plan_spec(Policy::Created, texts(paths@)),
{
    plan(Policy::Created, paths)
}

/// A removed-file event: for each path, an unload of the module it names and
/// a deletion of the path; a path with an empty name is skipped.
pub fn handle_remove_event(paths: &Vec<String>) -> (r: Vec<Action>)
    ensures
        steps_of(r@) == plan_spec(Policy::Removed, texts(paths@)),
{
    plan(Policy::Removed, paths)
}

/// A modified-file event: a note for each path, nothing else.
pub fn handle_modify_event(paths: &Vec<String>) -> (r: Vec<Action>)
    ensures
        steps_of(r@) == plan_spec(Policy::Modified, texts(paths@)),
{
    plan(Policy::Modified, paths)
}

/// Routes an event by its kind; an event of another kind asks for nothing.
pub fn route_event(event: &FsEvent) -> (r: Vec<Action>)
    ensures
        steps_of(r@) == event_spec(event.kind, texts(event.paths@)),
{
    match event.kind {
        EventKind::Create => handle_create_event(&event.paths),
        EventKind::Remove => handle_remove_event(&event.paths),
        EventKind::Modify => handle_modify_event(&event.paths),
        EventKind::Other => {
            let r: Vec<Action> = Vec::new();
            assert(steps_of(r@) =~= Seq::<Step>::empty());
            r
        },
    }
}

} // verus!
