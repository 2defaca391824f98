//! The rename executor: turns a plan into the one filesystem action it calls
//! for (or none), and settles the terminal outcome of an entry. The rename
//! system call itself is the caller's: the executor only decides and reports,
//! so a dry run provably never asks for a mutation.

use vstd::prelude::*;
use crate::plan::RenamePlan;

verus! {

/// The terminal state of one processed entry.
#[derive(Clone, Copy, PartialEq, Eq, Structural, Debug)]
pub enum Outcome {
    /// Nothing to do: a directory, or a name that already carries a stamp.
    Skipped,
    /// A rename was planned but dry-run mode suppressed it.
    Simulated,
    /// The rename was performed.
    Renamed,
    /// The rename call failed; the file keeps its original name.
    Failed,
    /// The file vanished between discovery and rename.
    NotFound,
}

/// What the caller observed when it attempted the rename call.
#[derive(Clone, Copy, PartialEq, Eq, Structural, Debug)]
pub enum RenameAttempt {
    Completed,
    SourceMissing,
    IoFailure,
}

/// The single filesystem action a plan calls for.
pub enum ExecAction {
    NoMutation,
    DoRename { source: String, target: String },
}

/// Decides the action for a plan. In dry-run mode, and for a plan with no
/// target, no mutation is ever requested.
pub fn decide_action(plan: &RenamePlan, dry_run: bool) -> (r: ExecAction)
    ensures
        dry_run ==> r is NoMutation,
        plan.target_path is None ==> r is NoMutation,
        !dry_run && plan.target_path is Some ==> (plan.target_path matches Some(t)
            && r matches ExecAction::DoRename { source, target } && source@ == plan.source_path@
            && target@ == t@),
{
    if dry_run {
        return ExecAction::NoMutation;
    }
    match &plan.target_path {
        None => ExecAction::NoMutation,
        Some(t) => ExecAction::DoRename { source: plan.source_path.clone(), target: t.clone() },
    }
}

/// The terminal outcome that one observed rename attempt settles to.
pub open spec fn outcome_of_attempt(a: RenameAttempt) -> Outcome {
    match a {
        RenameAttempt::Completed => Outcome::Renamed,
        RenameAttempt::SourceMissing => Outcome::NotFound,
        RenameAttempt::IoFailure => Outcome::Failed,
    }
}

/// Settles the terminal state of one entry: skipped plans and dry runs settle
/// without an attempt; a live rename settles to what its attempt observed.
pub fn execute(plan: &RenamePlan, dry_run: bool, attempt: Option<RenameAttempt>) -> (r: Outcome)
    requires
        plan.target_path is Some && !dry_run ==> attempt is Some,
    ensures
        plan.target_path is None ==> r == Outcome::Skipped,
        plan.target_path is Some && dry_run ==> r == Outcome::Simulated,
        plan.target_path is Some && !dry_run ==> (attempt matches Some(a) && r
            == outcome_of_attempt(a)),
{
    match &plan.target_path {
        None => Outcome::Skipped,
        Some(_) => {
            if dry_run {
                Outcome::Simulated
            } else {
                match attempt {
                    Some(RenameAttempt::Completed) => Outcome::Renamed,
                    Some(RenameAttempt::SourceMissing) => Outcome::NotFound,
                    Some(RenameAttempt::IoFailure) => Outcome::Failed,
                    None => Outcome::Skipped,
                }
            }
        },
    }
}

/// The report line for one processed file: source and destination names, and
/// in dry-run mode a marker at the end.
pub open spec fn report_line_chars(
    source_name: Seq<char>,
    target_name: Seq<char>,
    dry_run: bool,
) -> Seq<char> {
    source_name + " -> "@ + target_name + (if dry_run {
        " (dry-run)"@
    } else {
        Seq::<char>::empty()
    })
}

/// Renders the report line for one processed file.
pub fn report_line(source_name: &str, target_name: &str, dry_run: bool) -> (r: String)
    ensures
        r@ == report_line_chars(source_name@, target_name@, dry_run),
{
    let mut out = source_name.to_owned();
    out.append(" -> ");
    out.append(target_name);
    if dry_run {
        out.append(" (dry-run)");
    }
    assert(out@ =~= report_line_chars(source_name@, target_name@, dry_run));
    out
}

/// Aside from the marker appended at its end, a dry run reports exactly the
/// line a live run would report.
pub proof fn lemma_dry_run_reports_match(source_name: Seq<char>, target_name: Seq<char>)
    ensures
        report_line_chars(source_name, target_name, false) == report_line_chars(
            source_name,
            target_name,
            true,
        ).take(report_line_chars(source_name, target_name, false).len() as int),
{
    assert(report_line_chars(source_name, target_name, false) =~= report_line_chars(
        source_name,
        target_name,
        true,
    ).take(report_line_chars(source_name, target_name, false).len() as int));
}

} // verus!
