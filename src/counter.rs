//! Call counting per call pattern and the comparison of the count
//! against what the pattern declared.
use vstd::prelude::*;

use crate::error::MockError;

verus! {

/// How the declared number of calls of a pattern is to be read.
#[derive(Clone, Copy, Debug, PartialEq, Eq, Structural)]
pub enum Exactness {
    /// The pattern must be matched exactly `count` times.
    Exact,
    /// The pattern must be matched at least `count` times.
    AtLeast,
    /// The pattern must be matched at least `count + 1` times.
    /// A response chain that was opened with `then` and left open-ended
    /// still has to be reached once.
    AtLeastPlusOne,
}

/// The declared call count of one call pattern.
#[derive(Clone, Copy, Debug, PartialEq, Eq, Structural)]
pub struct CallCountExpectation {
    pub count: usize,
    pub exactness: Exactness,
}

impl CallCountExpectation {
    /// The least number of calls that satisfies the expectation.
    pub open spec fn minimum(self) -> int {
        match self.exactness {
            Exactness::AtLeastPlusOne => self.count + 1,
            _ => self.count as int,
        }
    }

    /// Whether `actual` calls satisfy the expectation.
    pub open spec fn is_satisfied_by(self, actual: int) -> bool {
        match self.exactness {
            Exactness::Exact => actual == self.count,
            _ => actual >= self.minimum(),
        }
    }

    /// The expectation of a fresh pattern: at least zero calls.
    pub open spec fn new_spec() -> Self {
        CallCountExpectation { count: 0, exactness: Exactness::AtLeast }
    }

    /// No calls are required: at least zero.
    pub fn new() -> (r: Self)
        ensures
            r == Self::new_spec(),
    {
        CallCountExpectation { count: 0, exactness: Exactness::AtLeast }
    }

    /// Adds `times` to the declared count, and records `exactness` as the
    /// way to read it from now on. The count is never lowered.
    pub fn add_to_minimum(&mut self, times: usize, exactness: Exactness)
        requires
            old(self).count + times <= usize::MAX,
        ensures
            final(self).count == old(self).count + times,
            final(self).exactness == exactness,
    {
        self.count = self.count + times;
        self.exactness = exactness;
    }

    /// A counter with this expectation that has seen no calls yet.
    pub open spec fn into_counter_spec(self) -> CallCounter {
        CallCounter { expectation: self, actual_count: 0 }
    }

    /// A counter with this expectation that has seen no calls yet.
    pub fn into_counter(self) -> (r: CallCounter)
        ensures
            r == self.into_counter_spec(),
    {
        CallCounter { expectation: self, actual_count: 0 }
    }
}

/// The calls that one call pattern has matched, with what it declared.
#[derive(Debug)]
pub struct CallCounter {
    pub expectation: CallCountExpectation,
    pub actual_count: usize,
}

impl CallCounter {
    /// The declared count where it is exact; `None` otherwise.
    pub fn get_expected_exact_count(&self) -> (r: Option<usize>)
        ensures
            r == (if self.expectation.exactness == Exactness::Exact {
                Some(self.expectation.count)
            } else {
                None::<usize>
            }),
    {
        match self.expectation.exactness {
            Exactness::Exact => Some(self.expectation.count),
            _ => None,
        }
    }

    /// Counts one more call and returns the count before it, which is the
    /// zero-based index of this call. The count stays at `usize::MAX` once
    /// it is there.
    pub fn fetch_add(&mut self) -> (r: usize)
        ensures
            r == old(self).actual_count,
            final(self).expectation == old(self).expectation,
            final(self).actual_count == next_count(old(self).actual_count),
    {
        let current = self.actual_count;
        self.actual_count = current.saturating_add(1);
        current
    }

    /// The error that verification reports for this counter, if any.
    pub open spec fn failure(&self, name: String, pat_index: usize) -> Option<MockError> {
        if self.expectation.is_satisfied_by(self.actual_count as int) {
            None
        } else {
            Some(
                MockError::FailedVerification {
                    name,
                    pat_index,
                    expectation: self.expectation,
                    actual_count: self.actual_count,
                },
            )
        }
    }

    /// Appends to `errors` the failure of this counter, if its count does
    /// not satisfy the expectation.
    pub fn verify(&self, name: &String, pat_index: usize, errors: &mut Vec<MockError>)
        ensures
            final(errors)@ == old(errors)@ + option_seq(self.failure(*name, pat_index)),
    {
        let satisfied = match self.expectation.exactness {
            Exactness::Exact => self.actual_count == self.expectation.count,
            Exactness::AtLeast => self.actual_count >= self.expectation.count,
            Exactness::AtLeastPlusOne => self.actual_count > self.expectation.count,
        };
        if !satisfied {
            errors.push(
                MockError::FailedVerification {
                    name: name.clone(),
                    pat_index,
                    expectation: self.expectation,
                    actual_count: self.actual_count,
                },
            );
        }
        proof {
            if satisfied {
                assert(final(errors)@ =~= old(errors)@ + option_seq(self.failure(*name, pat_index)));
            } else {
                assert(final(errors)@ =~= old(errors)@ + option_seq(self.failure(*name, pat_index)));
            }
        }
    }
}

/// A counter value after one more call, saturating at `usize::MAX`.
pub open spec fn next_count(n: usize) -> usize {
    if n < usize::MAX {
        (n + 1) as usize
    } else {
        n
    }
}

/// The sequence that holds the value of `o`, if any.
pub open spec fn option_seq<T>(o: Option<T>) -> Seq<T> {
    match o {
        Some(v) => seq![v],
        None => Seq::empty(),
    }
}

/// A pattern expected to be matched at least `m` times passes
/// verification after `m` calls, and fails after `m - 1` with an
/// undercount that names the pattern.
pub proof fn lemma_at_least_times(name: String, pat_index: usize, m: usize)
    ensures
        ({
            let expectation = CallCountExpectation { count: m, exactness: Exactness::AtLeast };
            &&& (CallCounter { expectation, actual_count: m }).failure(name, pat_index) is None
            &&& m > 0 ==> (CallCounter { expectation, actual_count: (m - 1) as usize }).failure(
                name,
                pat_index,
            ) == Some(
                MockError::FailedVerification {
                    name,
                    pat_index,
                    expectation,
                    actual_count: (m - 1) as usize,
                },
            )
        }),
{
}

} // verus!
