//! Properties of a whole traversal, proved over the event-stream model:
//! every matched file is flushed exactly once, every batch's year comes
//! from its own members' representative timestamp, a dry run plans no
//! mutation and no errors, and a conflict without force refuses the move.

use vstd::prelude::*;

use crate::batch::BatchV;
use crate::batch::EventV;
use crate::batch::MoveV;
use crate::batch::batch_of;
use crate::batch::move_of;
use crate::batch::mtimes_of;
use crate::batch::spec_flush;
use crate::batch::spec_flush_depth;
use crate::batch::spec_run;
use crate::batch::spec_state;
use crate::batch::strip_path;
use crate::filter::FilterV;
use crate::filter::spec_accepts;
use crate::mtime::AgePolicy;
use crate::mtime::extreme_of;
use crate::mtime::lemma_extreme_newest_is_max;
use crate::mtime::lemma_extreme_oldest_is_min;
use crate::mtime::mtime_le;
use crate::plan::MoveAction;
use crate::plan::spec_error_count;
use crate::plan::spec_move_action;
use crate::plan::spec_move_failed;
use crate::year::spec_year_of;

verus! {

/// All moves of a sequence of batches, in flush order.
pub open spec fn all_moves(batches: Seq<BatchV>) -> Seq<MoveV>
    decreases batches.len(),
{
    if batches.len() == 0 {
        Seq::empty()
    } else {
        all_moves(batches.drop_last()) + batches.last().moves
    }
}

/// The moves of the files of an event stream that pass the filter, in
/// observation order.
pub open spec fn accepted_moves(filter: FilterV, strip: int, events: Seq<EventV>) -> Seq<MoveV>
    decreases events.len(),
{
    if events.len() == 0 {
        Seq::empty()
    } else {
        let rest = accepted_moves(filter, strip, events.drop_last());
        match events.last() {
            EventV::File { path, name, mtime } => {
                if spec_accepts(filter, name) {
                    rest.push(move_of(path, strip, mtime))
                } else {
                    rest
                }
            },
            EventV::Dir { .. } => rest,
        }
    }
}

proof fn lemma_state_partition(policy: AgePolicy, filter: FilterV, strip: int, events: Seq<EventV>)
    ensures
        ({
            let st = spec_state(policy, filter, strip, events);
            all_moves(st.out) + st.pending == accepted_moves(filter, strip, events)
        }),
    decreases events.len(),
{
    let st = spec_state(policy, filter, strip, events);
    let acc = accepted_moves(filter, strip, events);
    if events.len() == 0 {
        assert(all_moves(st.out) + st.pending =~= acc);
    } else {
        lemma_state_partition(policy, filter, strip, events.drop_last());
        let st0 = spec_state(policy, filter, strip, events.drop_last());
        let acc0 = accepted_moves(filter, strip, events.drop_last());
        match events.last() {
            EventV::File { path, name, mtime } => {
                if spec_accepts(filter, name) {
                    let m = move_of(path, strip, mtime);
                    assert(all_moves(st.out) + st.pending =~= (all_moves(st0.out)
                        + st0.pending).push(m));
                    assert(acc =~= acc0.push(m));
                } else {
                    assert(st == st0);
                }
            },
            EventV::Dir { depth } => {
                if depth <= spec_flush_depth() && st0.pending.len() > 0 {
                    assert(st.out.drop_last() =~= st0.out);
                    assert(all_moves(st.out) == all_moves(st0.out) + st0.pending);
                    assert(all_moves(st.out) + st.pending =~= all_moves(st0.out) + st0.pending);
                } else {
                    assert(st == st0);
                }
            },
        }
    }
}

/// Every file of the walk that passes the filter appears in exactly one
/// flushed batch: the concatenation of all flushed batches, in flush
/// order, is exactly the sequence of accepted files in observation order.
pub proof fn lemma_each_file_flushed_once(
    policy: AgePolicy,
    filter: FilterV,
    strip: int,
    events: Seq<EventV>,
)
    ensures
        all_moves(spec_run(policy, filter, strip, events)) == accepted_moves(
            filter,
            strip,
            events,
        ),
{
    lemma_state_partition(policy, filter, strip, events);
    let st = spec_state(policy, filter, strip, events);
    let fin = spec_flush(policy, st);
    if st.pending.len() > 0 {
        assert(fin.out.drop_last() =~= st.out);
        assert(all_moves(fin.out) == all_moves(st.out) + st.pending);
    } else {
        assert(all_moves(st.out) + st.pending =~= all_moves(st.out));
    }
}

proof fn lemma_state_batches_wf(policy: AgePolicy, filter: FilterV, strip: int, events: Seq<
    EventV,
>)
    ensures
        ({
            let st = spec_state(policy, filter, strip, events);
            forall|k: int|
                0 <= k < st.out.len() ==> #[trigger] st.out[k].moves.len() > 0 && st.out[k]
                    == batch_of(policy, st.out[k].moves)
        }),
    decreases events.len(),
{
    if events.len() > 0 {
        lemma_state_batches_wf(policy, filter, strip, events.drop_last());
        let st0 = spec_state(policy, filter, strip, events.drop_last());
        let st = spec_state(policy, filter, strip, events);
        assert forall|k: int| 0 <= k < st.out.len() implies #[trigger] st.out[k].moves.len() > 0
            && st.out[k] == batch_of(policy, st.out[k].moves) by {
            if k < st0.out.len() {
                assert(st.out[k] == st0.out[k]);
            }
        }
    }
}

/// Every flushed batch is non-empty, and its year is computed from the
/// representative timestamp of its own members alone: the files of one
/// batch never affect another batch's year.
pub proof fn lemma_batch_year_from_own_members(
    policy: AgePolicy,
    filter: FilterV,
    strip: int,
    events: Seq<EventV>,
    k: int,
)
    requires
        0 <= k < spec_run(policy, filter, strip, events).len(),
    ensures
        spec_run(policy, filter, strip, events)[k].moves.len() > 0,
        spec_run(policy, filter, strip, events)[k].year == spec_year_of(
            extreme_of(
                policy,
                mtimes_of(spec_run(policy, filter, strip, events)[k].moves),
            ).secs,
        ),
{
    lemma_state_batches_wf(policy, filter, strip, events);
    let st = spec_state(policy, filter, strip, events);
    let run = spec_run(policy, filter, strip, events);
    if st.pending.len() > 0 && k == run.len() - 1 {
        assert(run[k] == batch_of(policy, st.pending));
    } else {
        assert(run[k] == st.out[k]);
    }
}

/// Under `Oldest` (and `Default`), every flushed batch's year is the year
/// of the minimum modification time among its own members; under
/// `Newest`, of the maximum.
pub proof fn lemma_batch_year_is_extreme_member(
    policy: AgePolicy,
    filter: FilterV,
    strip: int,
    events: Seq<EventV>,
    k: int,
)
    requires
        0 <= k < spec_run(policy, filter, strip, events).len(),
    ensures
        ({
            let b = spec_run(policy, filter, strip, events)[k];
            let rep = extreme_of(policy, mtimes_of(b.moves));
            &&& b.year == spec_year_of(rep.secs)
            &&& exists|j: int| 0 <= j < b.moves.len() && b.moves[j].mtime == rep
            &&& (!policy.spec_is_newest() ==> forall|j: int|
                0 <= j < b.moves.len() ==> mtime_le(rep, b.moves[j].mtime))
            &&& (policy.spec_is_newest() ==> forall|j: int|
                0 <= j < b.moves.len() ==> mtime_le(b.moves[j].mtime, rep))
        }),
{
    lemma_batch_year_from_own_members(policy, filter, strip, events, k);
    let b = spec_run(policy, filter, strip, events)[k];
    let ms = mtimes_of(b.moves);
    assert(ms.len() == b.moves.len());
    assert forall|j: int| 0 <= j < b.moves.len() implies ms[j] == b.moves[j].mtime by {}
    if policy.spec_is_newest() {
        lemma_extreme_newest_is_max(policy, ms);
    } else {
        lemma_extreme_oldest_is_min(policy, ms);
    }
    let rep = extreme_of(policy, ms);
    let i0 = choose|i: int| 0 <= i < ms.len() && ms[i] == extreme_of(policy, ms);
    assert(0 <= i0 < b.moves.len() && b.moves[i0].mtime == rep);
    assert forall|j: int| 0 <= j < b.moves.len() && !policy.spec_is_newest() implies mtime_le(
        rep,
        b.moves[j].mtime,
    ) by {
        assert(mtime_le(rep, ms[j]));
    }
    assert forall|j: int| 0 <= j < b.moves.len() && policy.spec_is_newest() implies mtime_le(
        b.moves[j].mtime,
        rep,
    ) by {
        assert(mtime_le(ms[j], rep));
    }
}

/// A dry run mutates nothing and reports no errors: whatever the force
/// flag and the state of the destination, the planned action only prints,
/// and such an action never counts as a failure.
pub proof fn lemma_dry_run_is_harmless(force: bool, dest_exists: bool, rename_ok: bool)
    ensures
        spec_move_action(true, force, dest_exists) is PrintOnly,
        !spec_move_failed(spec_move_action(true, force, dest_exists), rename_ok),
{
}

/// A run whose every move outcome is a success reports zero errors.
pub proof fn lemma_no_failures_no_errors(outcomes: Seq<bool>)
    requires
        forall|i: int| 0 <= i < outcomes.len() ==> !outcomes[i],
    ensures
        spec_error_count(outcomes) == 0,
    decreases outcomes.len(),
{
    if outcomes.len() > 0 {
        lemma_no_failures_no_errors(outcomes.drop_last());
    }
}

/// A whole dry run reports zero errors: whatever the force flag, the
/// state of each destination and the fate each rename would have had,
/// the tally over every planned move is zero.
pub proof fn lemma_dry_run_reports_zero_errors(moves: Seq<(bool, bool, bool)>)
    ensures
        spec_error_count(
            moves.map_values(
                |t: (bool, bool, bool)| spec_move_failed(spec_move_action(true, t.0, t.1), t.2),
            ),
        ) == 0,
{
    let outcomes = moves.map_values(
        |t: (bool, bool, bool)| spec_move_failed(spec_move_action(true, t.0, t.1), t.2),
    );
    assert forall|i: int| 0 <= i < outcomes.len() implies !outcomes[i] by {}
    lemma_no_failures_no_errors(outcomes);
}

/// Moving onto an existing destination without force is refused: the
/// planned action renames nothing, leaves the destination and the source
/// in place, and counts as exactly one error.
pub proof fn lemma_conflict_without_force_refused(rename_ok: bool)
    ensures
        spec_move_action(false, false, true) is RefuseExisting,
        spec_move_failed(spec_move_action(false, false, true), rename_ok),
{
}

/// Stripping removes exactly the first `strip` path components: zero
/// keeps the whole path, a count short of the length keeps the tail from
/// that position, and a count at or past the length leaves nothing.
pub proof fn lemma_strip_semantics(path: Seq<Seq<char>>, strip: int)
    requires
        strip >= 0,
    ensures
        strip == 0 ==> strip_path(path, strip) == path,
        strip < path.len() ==> strip_path(path, strip) == path.subrange(
            strip,
            path.len() as int,
        ),
        strip >= path.len() ==> strip_path(path, strip) == Seq::<Seq<char>>::empty(),
{
    if strip == 0 && path.len() > 0 {
        assert(path.subrange(0, path.len() as int) =~= path);
    }
}

} // verus!
