//! The batch accumulator: pending moves, the running representative
//! timestamp, depth-triggered flushing, and the event-stream model of a
//! whole traversal.
//!
//! Paths are sequences of components. A file's source path is the path as
//! the walk yields it, beginning with the components of the root argument;
//! its relative destination is that path with the first `strip` components
//! removed.

use vstd::prelude::*;

use crate::filter::FilterV;
use crate::filter::InvalidPattern;
use crate::filter::PatternFilter;
use crate::filter::spec_accepts;
use crate::mtime::AgePolicy;
use crate::mtime::Mtime;
use crate::mtime::combine_mtime;
use crate::mtime::extreme_of;
use crate::year::spec_year_of;
use crate::year::year_of_secs;

verus! {

/// The mathematical content of one pending move.
#[verifier::ext_equal]
pub ghost struct MoveV {
    pub src: Seq<Seq<char>>,
    pub rel: Seq<Seq<char>>,
    pub mtime: Mtime,
}

/// The mathematical content of one flushed batch.
#[verifier::ext_equal]
pub ghost struct BatchV {
    pub year: int,
    pub moves: Seq<MoveV>,
}

/// The mathematical content of one traversal event.
#[verifier::ext_equal]
pub ghost enum EventV {
    File { path: Seq<Seq<char>>, name: Seq<char>, mtime: Mtime },
    Dir { depth: int },
}

/// One matched file waiting in the current batch: its source path, its
/// relative destination path, and its modification time.
#[derive(Debug)]
pub struct PendingMove {
    pub src: Vec<String>,
    pub rel: Vec<String>,
    pub mtime: Mtime,
}

impl DeepView for PendingMove {
    type V = MoveV;

    open spec fn deep_view(&self) -> MoveV {
        MoveV { src: self.src.deep_view(), rel: self.rel.deep_view(), mtime: self.mtime }
    }
}

/// One flushed batch: the representative year and the moves that share it.
#[derive(Debug)]
pub struct FlushedBatch {
    pub year: u64,
    pub moves: Vec<PendingMove>,
}

impl DeepView for FlushedBatch {
    type V = BatchV;

    open spec fn deep_view(&self) -> BatchV {
        BatchV { year: self.year as int, moves: self.moves.deep_view() }
    }
}

/// One event of a depth-first walk: a file with its path components, base
/// name and modification time, or a directory at its depth relative to
/// the walk root.
#[derive(Debug)]
pub enum WalkEvent {
    File { path: Vec<String>, name: String, mtime: Mtime },
    Dir { depth: usize },
}

impl DeepView for WalkEvent {
    type V = EventV;

    open spec fn deep_view(&self) -> EventV {
        match self {
            WalkEvent::File { path, name, mtime } => EventV::File {
                path: path.deep_view(),
                name: name.deep_view(),
                mtime: *mtime,
            },
            WalkEvent::Dir { depth } => EventV::Dir { depth: *depth as int },
        }
    }
}

/// A directory boundary at this depth or shallower flushes the batch.
pub open spec fn spec_flush_depth() -> int {
    2
}

/// The relative destination path: the source path with its first `strip`
/// components removed, empty when `strip` reaches past its end.
pub open spec fn strip_path(path: Seq<Seq<char>>, strip: int) -> Seq<Seq<char>> {
    if strip >= path.len() {
        Seq::empty()
    } else if strip <= 0 {
        path
    } else {
        path.subrange(strip, path.len() as int)
    }
}

/// The pending move recorded for a matched file.
pub open spec fn move_of(path: Seq<Seq<char>>, strip: int, mtime: Mtime) -> MoveV {
    MoveV { src: path, rel: strip_path(path, strip), mtime }
}

/// The modification times of a sequence of pending moves.
pub open spec fn mtimes_of(moves: Seq<MoveV>) -> Seq<Mtime> {
    moves.map_values(|m: MoveV| m.mtime)
}

/// The batch flushed from a non-empty pending sequence: its year is the
/// year of the representative timestamp of its own members.
pub open spec fn batch_of(policy: AgePolicy, pending: Seq<MoveV>) -> BatchV {
    BatchV {
        year: spec_year_of(extreme_of(policy, mtimes_of(pending)).secs),
        moves: pending,
    }
}

/// The model state of a traversal: the open batch and the batches flushed
/// so far.
#[verifier::ext_equal]
pub ghost struct RunV {
    pub pending: Seq<MoveV>,
    pub out: Seq<BatchV>,
}

impl RunV {
    /// The state before any event.
    pub open spec fn init() -> RunV {
        RunV { pending: Seq::empty(), out: Seq::empty() }
    }
}

/// Flushing: a non-empty open batch is appended to the output and the
/// open batch is emptied; an empty one leaves the state unchanged.
pub open spec fn spec_flush(policy: AgePolicy, st: RunV) -> RunV {
    if st.pending.len() == 0 {
        st
    } else {
        RunV { pending: Seq::empty(), out: st.out.push(batch_of(policy, st.pending)) }
    }
}

/// One event: a matched file joins the open batch; a directory at depth
/// two or shallower flushes it; anything else changes nothing.
pub open spec fn spec_step(
    policy: AgePolicy,
    filter: FilterV,
    strip: int,
    st: RunV,
    ev: EventV,
) -> RunV {
    match ev {
        EventV::File { path, name, mtime } => {
            if spec_accepts(filter, name) {
                RunV { pending: st.pending.push(move_of(path, strip, mtime)), out: st.out }
            } else {
                st
            }
        },
        EventV::Dir { depth } => {
            if depth <= spec_flush_depth() {
                spec_flush(policy, st)
            } else {
                st
            }
        },
    }
}

/// The model state after a sequence of events.
pub open spec fn spec_state(
    policy: AgePolicy,
    filter: FilterV,
    strip: int,
    events: Seq<EventV>,
) -> RunV
    decreases events.len(),
{
    if events.len() == 0 {
        RunV::init()
    } else {
        spec_step(
            policy,
            filter,
            strip,
            spec_state(policy, filter, strip, events.drop_last()),
            events.last(),
        )
    }
}

/// The batches a whole traversal flushes: those flushed at directory
/// boundaries, and the final unconditional flush.
pub open spec fn spec_run(
    policy: AgePolicy,
    filter: FilterV,
    strip: int,
    events: Seq<EventV>,
) -> Seq<BatchV> {
    spec_flush(policy, spec_state(policy, filter, strip, events)).out
}

/// Copies a vector of path components.
pub fn clone_components(v: &Vec<String>) -> (r: Vec<String>)
    ensures
        r.deep_view() == v.deep_view(),
{
    let mut r: Vec<String> = Vec::new();
    let mut i: usize = 0;
    while i < v.len()
        invariant
            i <= v.len(),
            r@.len() == i,
            forall|k: int| 0 <= k < i ==> r@[k]@ == v@[k]@,
        decreases v.len() - i,
    {
        r.push(v[i].clone());
        i += 1;
    }
    proof {
        assert(r.deep_view() =~= v.deep_view());
    }
    r
}

/// Removes the first `strip` components of a path.
pub fn strip_components(path: &Vec<String>, strip: usize) -> (rel: Vec<String>)
    ensures
        rel.deep_view() == strip_path(path.deep_view(), strip as int),
{
    let start = if strip >= path.len() {
        path.len()
    } else {
        strip
    };
    let mut rel: Vec<String> = Vec::new();
    let mut i: usize = start;
    while i < path.len()
        invariant
            start <= i <= path.len(),
            rel@.len() == i - start,
            forall|k: int| 0 <= k < i - start ==> rel@[k]@ == path@[start + k]@,
        decreases path.len() - i,
    {
        rel.push(path[i].clone());
        i += 1;
    }
    proof {
        assert(rel.deep_view() =~= strip_path(path.deep_view(), strip as int));
    }
    rel
}

/// The batch accumulator: the filter, the strip count, the open batch and
/// its running representative timestamp.
pub struct Organizer {
    pub policy: AgePolicy,
    pub strip: usize,
    pub filter: PatternFilter,
    pub batch: Vec<PendingMove>,
    pub extreme: Option<Mtime>,
}

impl Organizer {
    /// The open batch's mathematical content.
    pub open spec fn pending(self) -> Seq<MoveV> {
        self.batch.deep_view()
    }

    /// Well-formed: the filter's patterns are valid, and the running
    /// timestamp is exactly the representative of the open batch (absent
    /// if and only if the batch is empty).
    pub open spec fn wf(self) -> bool {
        &&& self.filter.wf()
        &&& (self.extreme is None <==> self.pending().len() == 0)
        &&& (self.pending().len() > 0 ==> self.extreme == Some(
            extreme_of(self.policy, mtimes_of(self.pending())),
        ))
    }

    /// The configuration is unchanged by an operation.
    pub open spec fn same_config(self, other: Organizer) -> bool {
        &&& self.policy == other.policy
        &&& self.strip == other.strip
        &&& self.filter == other.filter
    }

    /// A fresh accumulator with an empty batch.
    pub fn new(policy: AgePolicy, strip: usize, filter: PatternFilter) -> (r: Organizer)
        requires
            filter.wf(),
        ensures
            r.wf(),
            r.policy == policy,
            r.strip == strip,
            r.filter == filter,
            r.pending() =~= Seq::<MoveV>::empty(),
            r.extreme is None,
    {
        Organizer { policy, strip, filter, batch: Vec::new(), extreme: None }
    }

    /// Observes one file of the walk. When the base name passes the
    /// filter, the file joins the open batch and the running timestamp
    /// narrows toward the policy's extreme; otherwise nothing changes.
    pub fn on_file(&mut self, path: &Vec<String>, name: &String, mtime: Mtime) -> (added: bool)
        requires
            old(self).wf(),
        ensures
            final(self).wf(),
            old(self).same_config(*final(self)),
            added == spec_accepts(old(self).filter@, name@),
            added ==> final(self).pending() == old(self).pending().push(
                move_of(path.deep_view(), old(self).strip as int, mtime),
            ),
            !added ==> *final(self) == *old(self),
    {
        if !self.filter.accepts(name) {
            return false;
        }
        let src = clone_components(path);
        let rel = strip_components(path, self.strip);
        let ghost prev = self.pending();
        self.extreme = Some(
            match self.extreme {
                None => mtime,
                Some(cur) => combine_mtime(self.policy, cur, mtime),
            },
        );
        self.batch.push(PendingMove { src, rel, mtime });
        proof {
            let m = move_of(path.deep_view(), self.strip as int, mtime);
            assert(self.pending() =~= prev.push(m));
            let ms = mtimes_of(self.pending());
            assert(ms =~= mtimes_of(prev).push(mtime));
            if prev.len() == 0 {
                assert(extreme_of(self.policy, ms) == mtime);
            } else {
                assert(ms.drop_last() =~= mtimes_of(prev));
                assert(ms.last() == mtime);
            }
        }
        true
    }

    /// Flushes the open batch: returns the batch labelled with the year
    /// of its representative timestamp, or nothing when it is empty, and
    /// leaves the accumulator empty either way.
    pub fn flush(&mut self) -> (r: Option<FlushedBatch>)
        requires
            old(self).wf(),
        ensures
            final(self).wf(),
            old(self).same_config(*final(self)),
            final(self).pending().len() == 0,
            final(self).extreme is None,
            old(self).pending().len() == 0 ==> r is None && *final(self) == *old(self),
            old(self).pending().len() > 0 ==> (r matches Some(b) && b.deep_view()
                =~= batch_of(old(self).policy, old(self).pending())),
    {
        match self.extreme {
            None => None,
            Some(m) => {
                let year = year_of_secs(m.secs);
                let mut moves: Vec<PendingMove> = Vec::new();
                core::mem::swap(&mut moves, &mut self.batch);
                self.extreme = None;
                Some(FlushedBatch { year, moves })
            },
        }
    }

    /// Observes one directory boundary of the walk: at depth two or
    /// shallower the open batch is flushed, deeper ones change nothing.
    pub fn on_dir(&mut self, depth: usize) -> (r: Option<FlushedBatch>)
        requires
            old(self).wf(),
        ensures
            final(self).wf(),
            old(self).same_config(*final(self)),
            depth > spec_flush_depth() ==> r is None && *final(self) == *old(self),
            depth <= spec_flush_depth() ==> {
                &&& final(self).pending().len() == 0
                &&& final(self).extreme is None
                &&& (old(self).pending().len() == 0 ==> r is None && *final(self) == *old(self))
                &&& (old(self).pending().len() > 0 ==> (r matches Some(b) && b.deep_view()
                    =~= batch_of(old(self).policy, old(self).pending())))
            },
    {
        if depth <= 2 {
            self.flush()
        } else {
            None
        }
    }
}

/// Runs a whole traversal: validates the pattern lists, feeds every event
/// to a fresh accumulator, and returns every batch the traversal flushes,
/// in flush order. Fails exactly when a pattern is invalid, identifying
/// the first invalid one.
pub fn organize_events(
    policy: AgePolicy,
    strip: usize,
    accept_pats: Vec<String>,
    reject_pats: Vec<String>,
    events: &Vec<WalkEvent>,
) -> (r: Result<Vec<FlushedBatch>, InvalidPattern>)
    ensures
        r is Ok <==> {
            &&& forall|k: int|
                0 <= k < accept_pats.deep_view().len() ==> crate::filter::glob_valid(
                    accept_pats.deep_view()[k],
                )
            &&& forall|k: int|
                0 <= k < reject_pats.deep_view().len() ==> crate::filter::glob_valid(
                    reject_pats.deep_view()[k],
                )
        },
        match r {
            Ok(batches) => batches.deep_view() == spec_run(
                policy,
                FilterV {
                    accept_pats: accept_pats.deep_view(),
                    reject_pats: reject_pats.deep_view(),
                },
                strip as int,
                events.deep_view(),
            ),
            Err(e) => {
                &&& !e.in_reject ==> {
                    &&& 0 <= e.index < accept_pats.deep_view().len()
                    &&& !crate::filter::glob_valid(accept_pats.deep_view()[e.index as int])
                    &&& forall|k: int|
                        0 <= k < e.index ==> crate::filter::glob_valid(
                            accept_pats.deep_view()[k],
                        )
                }
                &&& e.in_reject ==> {
                    &&& 0 <= e.index < reject_pats.deep_view().len()
                    &&& !crate::filter::glob_valid(reject_pats.deep_view()[e.index as int])
                    &&& forall|k: int|
                        0 <= k < e.index ==> crate::filter::glob_valid(
                            reject_pats.deep_view()[k],
                        )
                    &&& forall|k: int|
                        0 <= k < accept_pats.deep_view().len() ==> crate::filter::glob_valid(
                            accept_pats.deep_view()[k],
                        )
                }
            },
        },
{
    let filter = match PatternFilter::new(accept_pats, reject_pats) {
        Ok(f) => f,
        Err(e) => {
            return Err(e);
        },
    };
    let ghost fv = filter@;
    let mut org = Organizer::new(policy, strip, filter);
    let mut out: Vec<FlushedBatch> = Vec::new();
    let ghost evs = events.deep_view();
    let mut i: usize = 0;
    while i < events.len()
        invariant
            org.wf(),
            org.policy == policy,
            org.strip == strip,
            org.filter@ == fv,
            i <= events.len(),
            evs == events.deep_view(),
            org.pending() == spec_state(policy, fv, strip as int, evs.subrange(0, i as int)).pending,
            out.deep_view() == spec_state(policy, fv, strip as int, evs.subrange(0, i as int)).out,
        decreases events.len() - i,
    {
        let ghost pre = spec_state(policy, fv, strip as int, evs.subrange(0, i as int));
        let ghost out_pre = out.deep_view();
        match &events[i] {
            WalkEvent::File { path, name, mtime } => {
                org.on_file(path, name, *mtime);
            },
            WalkEvent::Dir { depth } => {
                match org.on_dir(*depth) {
                    Some(b) => {
                        out.push(b);
                        proof {
                            assert(out.deep_view() =~= out_pre.push(out@.last().deep_view()));
                        }
                    },
                    None => {},
                }
            },
        }
        proof {
            assert(evs.subrange(0, i + 1).drop_last() =~= evs.subrange(0, i as int));
            assert(evs.subrange(0, i + 1).last() == evs[i as int]);
            assert(evs[i as int] == events@[i as int].deep_view());
            let post = spec_step(policy, fv, strip as int, pre, evs[i as int]);
            assert(org.pending() =~= post.pending);
            assert(out.deep_view() =~= post.out);
        }
        i += 1;
    }
    proof {
        assert(evs.subrange(0, evs.len() as int) =~= evs);
    }
    let ghost st = spec_state(policy, fv, strip as int, evs);
    let ghost out_pre = out.deep_view();
    match org.flush() {
        Some(b) => {
            out.push(b);
            proof {
                assert(out.deep_view() =~= out_pre.push(out@.last().deep_view()));
            }
        },
        None => {},
    }
    proof {
        assert(out.deep_view() =~= spec_flush(policy, st).out);
    }
    Ok(out)
}

} // verus!
