//! Modification timestamps, the age policy, and the representative
//! (extreme) timestamp of a batch.

use vstd::prelude::*;

verus! {

/// Rule selecting the representative timestamp of a batch: the oldest or
/// the newest member. `Default` behaves as `Oldest`.
#[derive(Clone, Copy, Debug, PartialEq, Eq, Structural)]
pub enum AgePolicy {
    Default,
    Oldest,
    Newest,
}

impl AgePolicy {
    /// True when the policy keeps the newest member's timestamp.
    pub open spec fn spec_is_newest(self) -> bool {
        self is Newest
    }

    /// Executable twin of `spec_is_newest`.
    pub fn is_newest(self) -> (r: bool)
        ensures
            r == self.spec_is_newest(),
    {
        match self {
            AgePolicy::Newest => true,
            _ => false,
        }
    }
}

/// A file's last-modification time: whole seconds since the Unix epoch
/// plus the sub-second part in nanoseconds.
#[derive(Clone, Copy, Debug, PartialEq, Eq, Structural)]
pub struct Mtime {
    pub secs: u64,
    pub nanos: u32,
}

/// Total order on timestamps: by seconds, then by nanoseconds.
pub open spec fn mtime_le(a: Mtime, b: Mtime) -> bool {
    a.secs < b.secs || (a.secs == b.secs && a.nanos <= b.nanos)
}

/// The member a batch keeps of two timestamps: the larger under `Newest`,
/// the smaller under `Oldest` or `Default`.
pub open spec fn combine(policy: AgePolicy, a: Mtime, b: Mtime) -> Mtime {
    if policy.spec_is_newest() {
        if mtime_le(a, b) {
            b
        } else {
            a
        }
    } else {
        if mtime_le(a, b) {
            a
        } else {
            b
        }
    }
}

/// The representative timestamp of a non-empty sequence of member
/// timestamps, folded in observation order.
pub open spec fn extreme_of(policy: AgePolicy, ms: Seq<Mtime>) -> Mtime
    recommends
        ms.len() > 0,
    decreases ms.len(),
{
    if ms.len() <= 1 {
        ms[0]
    } else {
        combine(policy, extreme_of(policy, ms.drop_last()), ms.last())
    }
}

/// Executable twin of `combine`.
pub fn combine_mtime(policy: AgePolicy, a: Mtime, b: Mtime) -> (r: Mtime)
    ensures
        r == combine(policy, a, b),
{
    let a_le_b = a.secs < b.secs || (a.secs == b.secs && a.nanos <= b.nanos);
    if policy.is_newest() {
        if a_le_b {
            b
        } else {
            a
        }
    } else {
        if a_le_b {
            a
        } else {
            b
        }
    }
}

/// Under `Oldest` (and `Default`), the representative timestamp of a batch
/// is a member of the batch and is less than or equal to every member.
pub proof fn lemma_extreme_oldest_is_min(policy: AgePolicy, ms: Seq<Mtime>)
    requires
        !policy.spec_is_newest(),
        ms.len() > 0,
    ensures
        exists|i: int| 0 <= i < ms.len() && ms[i] == extreme_of(policy, ms),
        forall|i: int| 0 <= i < ms.len() ==> mtime_le(extreme_of(policy, ms), ms[i]),
    decreases ms.len(),
{
    if ms.len() == 1 {
        assert(ms[0] == extreme_of(policy, ms));
    } else {
        lemma_extreme_oldest_is_min(policy, ms.drop_last());
        let prev = extreme_of(policy, ms.drop_last());
        let cur = extreme_of(policy, ms);
        if mtime_le(prev, ms.last()) {
            let j = choose|j: int| 0 <= j < ms.drop_last().len() && ms.drop_last()[j] == prev;
            assert(ms[j] == cur);
        } else {
            assert(ms[ms.len() - 1] == cur);
        }
        assert forall|i: int| 0 <= i < ms.len() implies mtime_le(cur, ms[i]) by {
            if i < ms.len() - 1 {
                assert(ms.drop_last()[i] == ms[i]);
                assert(mtime_le(prev, ms[i]));
            }
        }
    }
}

/// Under `Newest`, the representative timestamp of a batch is a member of
/// the batch and every member is less than or equal to it.
pub proof fn lemma_extreme_newest_is_max(policy: AgePolicy, ms: Seq<Mtime>)
    requires
        policy.spec_is_newest(),
        ms.len() > 0,
    ensures
        exists|i: int| 0 <= i < ms.len() && ms[i] == extreme_of(policy, ms),
        forall|i: int| 0 <= i < ms.len() ==> mtime_le(ms[i], extreme_of(policy, ms)),
    decreases ms.len(),
{
    if ms.len() == 1 {
        assert(ms[0] == extreme_of(policy, ms));
    } else {
        lemma_extreme_newest_is_max(policy, ms.drop_last());
        let prev = extreme_of(policy, ms.drop_last());
        let cur = extreme_of(policy, ms);
        if mtime_le(prev, ms.last()) {
            assert(ms[ms.len() - 1] == cur);
        } else {
            let j = choose|j: int| 0 <= j < ms.drop_last().len() && ms.drop_last()[j] == prev;
            assert(ms[j] == cur);
        }
        assert forall|i: int| 0 <= i < ms.len() implies mtime_le(ms[i], cur) by {
            if i < ms.len() - 1 {
                assert(ms.drop_last()[i] == ms[i]);
                assert(mtime_le(ms[i], prev));
            }
        }
    }
}

} // verus!
