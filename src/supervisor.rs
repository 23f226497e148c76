//! The startup sequence: make sure the directory exists, then either purge
//! (safe mode) or reconcile and install the watcher.
use vstd::prelude::*;

verus! {

/// A stage of the startup sequence.
#[derive(Clone, Copy, Debug, PartialEq, Eq, Structural)]
pub enum Stage {
    /// Create the package directory if it is missing.
    EnsureDir,
    /// Safe mode: unload and delete every package file.
    Purge,
    /// Load every package file in the directory.
    LoadAll,
    /// Install the directory watcher.
    InstallWatcher,
    /// Startup is over and succeeded.
    Done,
    /// Startup is over and failed.
    Failed,
}

/// The stage after `stage`, given whether it succeeded. Only a missing
/// directory or a watcher that cannot be installed fails the startup; a purge
/// or a reconcile goes on whatever its steps did.
pub open spec fn next_spec(safe_mode: bool, stage: Stage, succeeded: bool) -> Stage {
    match stage {
        Stage::EnsureDir => if !succeeded {
            Stage::Failed
        } else if safe_mode {
            Stage::Purge
        } else {
            Stage::LoadAll
        },
        Stage::Purge => Stage::Done,
        Stage::LoadAll => Stage::InstallWatcher,
        Stage::InstallWatcher => if succeeded {
            Stage::Done
        } else {
            Stage::Failed
        },
        Stage::Done => Stage::Done,
        Stage::Failed => Stage::Failed,
    }
}

/// The stage to start with.
pub fn first_stage() -> (r: Stage)
    ensures
        r == Stage::EnsureDir,
{
    Stage::EnsureDir
}

/// The stage that follows `stage`, given whether it succeeded.
pub fn next_stage(safe_mode: bool, stage: Stage, succeeded: bool) -> (r: Stage)
    ensures
        r == next_spec(safe_mode, stage, succeeded),
{
    match stage {
        Stage::EnsureDir => if !succeeded {
            Stage::Failed
        } else if safe_mode {
            Stage::Purge
        } else {
            Stage::LoadAll
        },
        Stage::Purge => Stage::Done,
        Stage::LoadAll => Stage::InstallWatcher,
        Stage::InstallWatcher => if succeeded {
            Stage::Done
        } else {
            Stage::Failed
        },
        Stage::Done => Stage::Done,
        Stage::Failed => Stage::Failed,
    }
}

/// Whether the sequence is over.
pub fn is_final(stage: Stage) -> (r: bool)
    ensures
        r == (stage == Stage::Done || stage == Stage::Failed),
{
    match stage {
        Stage::Done | Stage::Failed => true,
        _ => false,
    }
}

/// The stages visited from the start, given the outcome of each stage in turn.
pub open spec fn trace(safe_mode: bool, outcomes: Seq<bool>) -> Seq<Stage>
    decreases outcomes.len(),
{
    if outcomes.len() == 0 {
        seq![Stage::EnsureDir]
    } else {
        let t = trace(safe_mode, outcomes.drop_last());
        t.push(next_spec(safe_mode, t.last(), outcomes.last()))
    }
}

proof fn lemma_safe_trace_shape(outcomes: Seq<bool>)
    ensures
        trace(true, outcomes).len() == outcomes.len() + 1,
        trace(true, outcomes)[0] == Stage::EnsureDir,
        forall|i: int|
            1 <= i < trace(true, outcomes).len() ==> #[trigger] trace(true, outcomes)[i] == (if outcomes[0] {
                if i == 1 {
                    Stage::Purge
                } else {
                    Stage::Done
                }
            } else {
                Stage::Failed
            }),
    decreases outcomes.len(),
{
    if outcomes.len() > 0 {
        let prev = outcomes.drop_last();
        lemma_safe_trace_shape(prev);
        if prev.len() > 0 {
            assert(prev[0] == outcomes[0]);
        }
    }
}

/// In safe mode the startup never reconciles and never installs the watcher;
/// the purge runs at most once, right after the directory is ensured, and
/// exactly once when that succeeded.
pub proof fn lemma_safe_mode_short_circuit(outcomes: Seq<bool>)
    ensures
        forall|i: int|
            0 <= i < trace(true, outcomes).len() ==> #[trigger] trace(true, outcomes)[i]
                != Stage::LoadAll && trace(true, outcomes)[i] != Stage::InstallWatcher,
        forall|i: int|
            0 <= i < trace(true, outcomes).len() && #[trigger] trace(true, outcomes)[i]
                == Stage::Purge ==> i == 1,
        outcomes.len() >= 1 && outcomes[0] ==> trace(true, outcomes)[1] == Stage::Purge,
{
    lemma_safe_trace_shape(outcomes);
}

} // verus!
