//! Application of a package's local patches, one at a time, with a verbose
//! diagnostic re-run and a rollback of the package directory on failure.
use crate::placeholder::{sort_texts, sorted_texts};
use crate::plan::texts;
use crate::version::{decimal, decimal_text};
use vstd::prelude::*;

verus! {

/// Where a patch session stands.
#[derive(Clone, Copy, Debug, PartialEq, Eq, Structural)]
pub enum PatchState {
    /// Patch `i` is being applied.
    Applying(usize),
    /// Patch `i` failed; it is being re-run with verbose output.
    Diagnosing(usize),
    /// Patch `i` failed; the package directory is being removed.
    RollingBack(usize),
    /// Every patch applied.
    Done,
    /// Patch `index` failed and the directory was removed, or its removal
    /// failed too when `rollback_failed`.
    Failed { index: usize, rollback_failed: bool },
}

/// What the caller does next.
#[derive(Clone, Copy, Debug, PartialEq, Eq, Structural)]
pub enum PatchAction {
    /// Apply patch `index` to the package directory, with verbose output
    /// when `verbose`.
    Apply { index: usize, verbose: bool },
    /// Remove the whole package directory.
    RemoveDir,
    /// Stop: every patch applied.
    Finish,
    /// Stop: report the failure of patch `index`, with the removal's own
    /// failure chained in when `rollback_failed`.
    Report { index: usize, rollback_failed: bool },
}

/// The outcome of the last action.
#[derive(Clone, Copy, Debug, PartialEq, Eq, Structural)]
pub enum PatchEvent {
    Succeeded,
    Failed,
}

/// The first state and action of a session over `count` patches.
pub open spec fn patch_start_spec(count: nat) -> (PatchState, PatchAction) {
    if count == 0 {
        (PatchState::Done, PatchAction::Finish)
    } else {
        (PatchState::Applying(0), PatchAction::Apply { index: 0, verbose: false })
    }
}

/// The next state and action, given the outcome of the last action. The
/// result of the verbose re-run is not looked at.
pub open spec fn patch_next_spec(count: nat, s: PatchState, e: PatchEvent) -> (PatchState, PatchAction) {
    match s {
        PatchState::Applying(i) => match e {
            PatchEvent::Succeeded => if i + 1 < count {
                (PatchState::Applying((i + 1) as usize), PatchAction::Apply { index: (i + 1) as usize, verbose: false })
            } else {
                (PatchState::Done, PatchAction::Finish)
            },
            PatchEvent::Failed => (PatchState::Diagnosing(i), PatchAction::Apply { index: i, verbose: true }),
        },
        PatchState::Diagnosing(i) => (PatchState::RollingBack(i), PatchAction::RemoveDir),
        PatchState::RollingBack(i) => {
            let failed = e == PatchEvent::Failed;
            (
                PatchState::Failed { index: i, rollback_failed: failed },
                PatchAction::Report { index: i, rollback_failed: failed },
            )
        },
        PatchState::Done => (PatchState::Done, PatchAction::Finish),
        PatchState::Failed { index, rollback_failed } => (
            s,
            PatchAction::Report { index, rollback_failed },
        ),
    }
}

/// Whether a state is one that a session over `count` patches can be in.
pub open spec fn patch_state_ok(count: nat, s: PatchState) -> bool {
    match s {
        PatchState::Applying(i) => i < count,
        PatchState::Diagnosing(i) => i < count,
        PatchState::RollingBack(i) => i < count,
        PatchState::Done => true,
        PatchState::Failed { index, .. } => index < count,
    }
}

/// Starts a session over `count` patches.
pub fn patch_start(count: usize) -> (r: (PatchState, PatchAction))
    ensures
        r == patch_start_spec(count as nat),
        patch_state_ok(count as nat, r.0),
{
    if count == 0 {
        (PatchState::Done, PatchAction::Finish)
    } else {
        (PatchState::Applying(0), PatchAction::Apply { index: 0, verbose: false })
    }
}

/// Advances a session by the outcome of its last action.
pub fn patch_next(count: usize, s: PatchState, e: PatchEvent) -> (r: (PatchState, PatchAction))
    requires
        patch_state_ok(count as nat, s),
    ensures
        r == patch_next_spec(count as nat, s, e),
        patch_state_ok(count as nat, r.0),
{
    match s {
        PatchState::Applying(i) => match e {
            PatchEvent::Succeeded => if i + 1 < count {
                (PatchState::Applying(i + 1), PatchAction::Apply { index: i + 1, verbose: false })
            } else {
                (PatchState::Done, PatchAction::Finish)
            },
            PatchEvent::Failed => (PatchState::Diagnosing(i), PatchAction::Apply { index: i, verbose: true }),
        },
        PatchState::Diagnosing(i) => (PatchState::RollingBack(i), PatchAction::RemoveDir),
        PatchState::RollingBack(i) => {
            let failed = e == PatchEvent::Failed;
            (
                PatchState::Failed { index: i, rollback_failed: failed },
                PatchAction::Report { index: i, rollback_failed: failed },
            )
        },
        PatchState::Done => (PatchState::Done, PatchAction::Finish),
        PatchState::Failed { index, rollback_failed } => (
            s,
            PatchAction::Report { index, rollback_failed },
        ),
    }
}

/// A failed patch is never left in place: the failure of patch `i` leads,
/// whatever the verbose re-run gives, to the removal of the package
/// directory, and then to a report of patch `i`; when the removal
/// succeeds, the directory is gone and the report names patch `i` alone.
pub proof fn lemma_failed_patch_rolls_back(count: nat, i: usize, verbose_outcome: PatchEvent, removal: PatchEvent)
    requires
        i < count,
    ensures
        ({
            let (s1, a1) = patch_next_spec(count, PatchState::Applying(i), PatchEvent::Failed);
            let (s2, a2) = patch_next_spec(count, s1, verbose_outcome);
            let (s3, a3) = patch_next_spec(count, s2, removal);
            &&& a1 == PatchAction::Apply { index: i, verbose: true }
            &&& a2 == PatchAction::RemoveDir
            &&& a3 == PatchAction::Report { index: i, rollback_failed: removal == PatchEvent::Failed }
            &&& s3 == PatchState::Failed { index: i, rollback_failed: removal == PatchEvent::Failed }
        }),
{
}

/// A session finishes only after the last patch applied, and reports a
/// failure only right after an attempt to remove the package directory.
pub proof fn lemma_patch_outcomes(count: nat, s: PatchState, e: PatchEvent)
    requires
        patch_state_ok(count, s),
    ensures
        patch_next_spec(count, s, e).0 == PatchState::Done && s != PatchState::Done ==> s == PatchState::Applying(
            (count - 1) as usize,
        ) && e == PatchEvent::Succeeded,
        patch_next_spec(count, s, e).0 is Failed && !(s is Failed) ==> s is RollingBack,
{
}

/// The order in which patch files are applied: by file name.
pub fn patch_order(names: &Vec<String>) -> (r: Vec<String>)
    ensures
        texts(r@).to_multiset() == texts(names@).to_multiset(),
        sorted_texts(texts(r@)),
{
    let mut r = crate::placeholder::copy_texts(names);
    sort_texts(&mut r);
    r
}

/// The arguments of `git apply` for a package directory: the strip count
/// rebases the patch's recorded paths onto the directory, whose path has
/// `depth` ancestors.
pub fn patch_command_args(crate_dir: &str, depth: u64, verbose: bool) -> (r: Vec<String>)
    ensures
        r.len() == if verbose { 4int } else { 3int },
        r[0]@ == "apply"@,
        r[1]@ == "-p"@ + decimal(depth as nat),
        r[2]@ == "--directory="@ + crate_dir@,
        verbose ==> r[3]@ == "-v"@,
{
    let mut r: Vec<String> = Vec::new();
    r.push(String::from_str("apply"));
    let mut p = String::from_str("-p");
    let d = decimal_text(depth);
    p.append(d.as_str());
    r.push(p);
    let mut dir = String::from_str("--directory=");
    dir.append(crate_dir);
    r.push(dir);
    if verbose {
        r.push(String::from_str("-v"));
    }
    r
}

} // verus!
