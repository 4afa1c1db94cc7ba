//! Accept/reject filtering of file names by shell-style glob patterns.
//!
//! The pattern language itself is the `glob` crate's; the library keeps the
//! validated pattern strings and states the filtering policy over two
//! uninterpreted names for what that crate computes.

use vstd::prelude::*;

verus! {

/// Whether `glob::Pattern::new` accepts the pattern string.
pub uninterp spec fn glob_valid(pattern: Seq<char>) -> bool;

/// Whether the compiled pattern matches the candidate string under the
/// default match options.
pub uninterp spec fn glob_matches(pattern: Seq<char>, name: Seq<char>) -> bool;

/// Relies on glob::Pattern::new: whether a pattern string compiles is a
/// function of the string alone.
#[verifier::external_body]
fn glob_pattern_valid(pattern: &String) -> (r: bool)
    ensures
        r == glob_valid(pattern@),
{
    glob::Pattern::new(pattern.as_str()).is_ok()
}

/// Relies on glob::Pattern::new and glob::Pattern::matches: with default
/// match options the outcome is a function of the pattern string and the
/// candidate string alone.
#[verifier::external_body]
fn glob_match(pattern: &String, name: &String) -> (r: bool)
    requires
        glob_valid(pattern@),
    ensures
        r == glob_matches(pattern@, name@),
{
    match glob::Pattern::new(pattern.as_str()) {
        Ok(p) => p.matches(name.as_str()),
        Err(_) => false,
    }
}

/// The mathematical content of a filter: the two pattern lists.
#[verifier::ext_equal]
pub ghost struct FilterV {
    pub accept_pats: Seq<Seq<char>>,
    pub reject_pats: Seq<Seq<char>>,
}

/// A file name passes the filter when it matches at least one accept
/// pattern (an empty accept list matches everything) and matches no
/// reject pattern.
pub open spec fn spec_accepts(f: FilterV, name: Seq<char>) -> bool {
    &&& (f.accept_pats.len() == 0 || exists|i: int|
        0 <= i < f.accept_pats.len() && glob_matches(f.accept_pats[i], name))
    &&& (forall|j: int| 0 <= j < f.reject_pats.len() ==> !glob_matches(f.reject_pats[j], name))
}

/// Identifies the first pattern string that the glob syntax refuses:
/// its position, and whether it stood in the reject list.
#[derive(Clone, Copy, Debug, PartialEq, Eq, Structural)]
pub struct InvalidPattern {
    pub in_reject: bool,
    pub index: usize,
}

/// A validated accept/reject filter on file base names.
#[derive(Debug)]
pub struct PatternFilter {
    pub accept_pats: Vec<String>,
    pub reject_pats: Vec<String>,
}

impl View for PatternFilter {
    type V = FilterV;

    open spec fn view(&self) -> FilterV {
        FilterV { accept_pats: self.accept_pats.deep_view(), reject_pats: self.reject_pats.deep_view() }
    }
}

impl PatternFilter {
    /// Every held pattern string is one the glob syntax accepts.
    pub open spec fn wf(self) -> bool {
        &&& (forall|i: int| 0 <= i < self@.accept_pats.len() ==> glob_valid(self@.accept_pats[i]))
        &&& (forall|j: int| 0 <= j < self@.reject_pats.len() ==> glob_valid(self@.reject_pats[j]))
    }

    /// Validates the pattern lists. Returns the filter when every pattern
    /// compiles, and otherwise the place of the first invalid one, the
    /// accept list checked first.
    pub fn new(accept_pats: Vec<String>, reject_pats: Vec<String>) -> (r: Result<
        PatternFilter,
        InvalidPattern,
    >)
        ensures
            match r {
                Ok(f) => {
                    &&& f.wf()
                    &&& f@.accept_pats == accept_pats.deep_view()
                    &&& f@.reject_pats == reject_pats.deep_view()
                },
                Err(e) => {
                    &&& !e.in_reject ==> {
                        &&& 0 <= e.index < accept_pats.deep_view().len()
                        &&& !glob_valid(accept_pats.deep_view()[e.index as int])
                        &&& forall|k: int|
                            0 <= k < e.index ==> glob_valid(accept_pats.deep_view()[k])
                    }
                    &&& e.in_reject ==> {
                        &&& 0 <= e.index < reject_pats.deep_view().len()
                        &&& !glob_valid(reject_pats.deep_view()[e.index as int])
                        &&& forall|k: int|
                            0 <= k < e.index ==> glob_valid(reject_pats.deep_view()[k])
                        &&& forall|k: int|
                            0 <= k < accept_pats.deep_view().len() ==> glob_valid(
                                accept_pats.deep_view()[k],
                            )
                    }
                },
            },
            r is Ok <==> {
                &&& forall|k: int|
                    0 <= k < accept_pats.deep_view().len() ==> glob_valid(accept_pats.deep_view()[k])
                &&& forall|k: int|
                    0 <= k < reject_pats.deep_view().len() ==> glob_valid(reject_pats.deep_view()[k])
            },
    {
        let mut i: usize = 0;
        while i < accept_pats.len()
            invariant
                i <= accept_pats.len(),
                forall|k: int| 0 <= k < i ==> glob_valid(accept_pats.deep_view()[k]),
            decreases accept_pats.len() - i,
        {
            if !glob_pattern_valid(&accept_pats[i]) {
                return Err(InvalidPattern { in_reject: false, index: i });
            }
            i += 1;
        }
        let mut j: usize = 0;
        while j < reject_pats.len()
            invariant
                j <= reject_pats.len(),
                forall|k: int| 0 <= k < accept_pats.deep_view().len() ==> glob_valid(
                    accept_pats.deep_view()[k],
                ),
                forall|k: int| 0 <= k < j ==> glob_valid(reject_pats.deep_view()[k]),
            decreases reject_pats.len() - j,
        {
            if !glob_pattern_valid(&reject_pats[j]) {
                return Err(InvalidPattern { in_reject: true, index: j });
            }
            j += 1;
        }
        Ok(PatternFilter { accept_pats, reject_pats })
    }

    /// Whether a file with base name `name` should be processed.
    pub fn accepts(&self, name: &String) -> (r: bool)
        requires
            self.wf(),
        ensures
            r == spec_accepts(self@, name@),
    {
        let mut matched: bool = self.accept_pats.len() == 0;
        let mut i: usize = 0;
        while i < self.accept_pats.len()
            invariant
                self.wf(),
                i <= self.accept_pats.len(),
                matched == (self@.accept_pats.len() == 0 || exists|k: int|
                    0 <= k < i && glob_matches(self@.accept_pats[k], name@)),
            decreases self.accept_pats.len() - i,
        {
            proof {
                assert(self@.accept_pats[i as int] == self.accept_pats@[i as int]@);
            }
            if glob_match(&self.accept_pats[i], name) {
                matched = true;
                assert(glob_matches(self@.accept_pats[i as int], name@));
            } else {
                assert(!glob_matches(self@.accept_pats[i as int], name@));
            }
            i += 1;
        }
        if !matched {
            return false;
        }
        let mut j: usize = 0;
        while j < self.reject_pats.len()
            invariant
                self.wf(),
                j <= self.reject_pats.len(),
                matched == (self@.accept_pats.len() == 0 || exists|k: int|
                    0 <= k < self@.accept_pats.len() && glob_matches(self@.accept_pats[k], name@)),
                matched,
                forall|k: int| 0 <= k < j ==> !glob_matches(self@.reject_pats[k], name@),
            decreases self.reject_pats.len() - j,
        {
            proof {
                assert(self@.reject_pats[j as int] == self.reject_pats@[j as int]@);
            }
            if glob_match(&self.reject_pats[j], name) {
                return false;
            }
            j += 1;
        }
        true
    }
}

} // verus!
