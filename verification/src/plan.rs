//! Planning a single move: the final destination path, the decision of
//! what to do with the destination, and the tally of failed moves.

use vstd::prelude::*;

use crate::batch::FlushedBatch;
use crate::batch::clone_components;
use crate::year::spec_decimal;
use crate::year::u64_decimal;

verus! {

/// The final destination of one pending move:
/// `<output>/<year>/<relative path>`, as path components.
pub fn destination(output: &Vec<String>, year: u64, rel: &Vec<String>) -> (dst: Vec<String>)
    ensures
        dst.deep_view() == output.deep_view().push(spec_decimal(year as nat)) + rel.deep_view(),
{
    let mut dst = clone_components(output);
    dst.push(u64_decimal(year));
    let ghost head = output.deep_view().push(spec_decimal(year as nat));
    proof {
        assert(dst.deep_view() =~= head);
    }
    let ghost base = dst@.len();
    let mut i: usize = 0;
    while i < rel.len()
        invariant
            i <= rel.len(),
            dst@.len() == base + i,
            base == head.len(),
            dst.deep_view().subrange(0, base as int) =~= head,
            forall|k: int| 0 <= k < i ==> dst@[base + k]@ == rel@[k]@,
        decreases rel.len() - i,
    {
        dst.push(rel[i].clone());
        i += 1;
    }
    proof {
        assert(dst.deep_view() =~= head + rel.deep_view());
    }
    dst
}

/// The destinations of a whole flushed batch, one per move, in batch
/// order: every member shares the batch's one year component.
pub fn batch_destinations(output: &Vec<String>, batch: &FlushedBatch) -> (dsts: Vec<Vec<String>>)
    ensures
        dsts@.len() == batch.moves@.len(),
        forall|k: int|
            0 <= k < dsts@.len() ==> #[trigger] dsts@[k].deep_view() == output.deep_view().push(
                spec_decimal(batch.year as nat),
            ) + batch.moves@[k].rel.deep_view(),
{
    let mut dsts: Vec<Vec<String>> = Vec::new();
    let mut i: usize = 0;
    while i < batch.moves.len()
        invariant
            i <= batch.moves@.len(),
            dsts@.len() == i,
            forall|k: int|
                0 <= k < i ==> #[trigger] dsts@[k].deep_view() == output.deep_view().push(
                    spec_decimal(batch.year as nat),
                ) + batch.moves@[k].rel.deep_view(),
        decreases batch.moves@.len() - i,
    {
        let dst = destination(output, batch.year, &batch.moves[i].rel);
        dsts.push(dst);
        i += 1;
    }
    dsts
}

/// What is to be done with one planned move.
#[derive(Clone, Copy, Debug, PartialEq, Eq, Structural)]
pub enum MoveAction {
    /// Print the intent only: a dry run mutates nothing.
    PrintOnly,
    /// The destination already exists and overwriting is not allowed:
    /// leave both files untouched and record an error.
    RefuseExisting,
    /// Rename the source to the destination.
    Rename,
}

/// The decision for one move, from the dry-run flag, the force flag, and
/// whether the destination already exists.
pub open spec fn spec_move_action(dry_run: bool, force: bool, dest_exists: bool) -> MoveAction {
    if dry_run {
        MoveAction::PrintOnly
    } else if dest_exists && !force {
        MoveAction::RefuseExisting
    } else {
        MoveAction::Rename
    }
}

/// Executable twin of `spec_move_action`.
pub fn move_action(dry_run: bool, force: bool, dest_exists: bool) -> (a: MoveAction)
    ensures
        a == spec_move_action(dry_run, force, dest_exists),
        a is PrintOnly <==> dry_run,
        a is RefuseExisting <==> (!dry_run && dest_exists && !force),
        a is Rename <==> (!dry_run && (force || !dest_exists)),
{
    if dry_run {
        MoveAction::PrintOnly
    } else if dest_exists && !force {
        MoveAction::RefuseExisting
    } else {
        MoveAction::Rename
    }
}

/// Whether one move counts as failed: a refused overwrite always does, a
/// rename does when the rename itself failed, and a dry run never does.
pub open spec fn spec_move_failed(action: MoveAction, rename_ok: bool) -> bool {
    action is RefuseExisting || (action is Rename && !rename_ok)
}

/// Executable twin of `spec_move_failed`.
pub fn move_failed(action: MoveAction, rename_ok: bool) -> (e: bool)
    ensures
        e == spec_move_failed(action, rename_ok),
{
    match action {
        MoveAction::PrintOnly => false,
        MoveAction::RefuseExisting => true,
        MoveAction::Rename => !rename_ok,
    }
}

/// The number of failures in a sequence of per-move outcomes
/// (`true` marks a failed move).
pub open spec fn spec_error_count(outcomes: Seq<bool>) -> int
    decreases outcomes.len(),
{
    if outcomes.len() == 0 {
        0
    } else {
        spec_error_count(outcomes.drop_last()) + if outcomes.last() {
            1int
        } else {
            0int
        }
    }
}

/// Counts the failed moves of a run.
pub fn count_failures(outcomes: &Vec<bool>) -> (n: usize)
    ensures
        n == spec_error_count(outcomes@),
{
    let mut n: usize = 0;
    let mut i: usize = 0;
    while i < outcomes.len()
        invariant
            i <= outcomes.len(),
            n <= i,
            n == spec_error_count(outcomes@.subrange(0, i as int)),
        decreases outcomes.len() - i,
    {
        proof {
            assert(outcomes@.subrange(0, i + 1).drop_last() =~= outcomes@.subrange(0, i as int));
            assert(outcomes@.subrange(0, i + 1).last() == outcomes@[i as int]);
        }
        if outcomes[i] {
            n += 1;
        }
        i += 1;
    }
    proof {
        assert(outcomes@.subrange(0, outcomes@.len() as int) =~= outcomes@);
    }
    n
}

/// The process exit code: zero on a clean run, one when any move failed.
pub fn exit_code(total_errors: usize) -> (c: u8)
    ensures
        c == 0 <==> total_errors == 0,
        c == 1 <==> total_errors > 0,
{
    if total_errors > 0 {
        1
    } else {
        0
    }
}

} // verus!
