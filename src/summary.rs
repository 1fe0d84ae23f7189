use vstd::prelude::*;
use crate::compare::{ComparisonResult, Outcome};

verus! {

/// Totals of one verification pass.
#[derive(Clone, Copy, Debug, PartialEq, Eq, Structural)]
pub struct Summary {
    pub total: usize,
    pub passed: usize,
    pub failed: usize,
}

/// Only an exact match passes; every other outcome is a failure.
pub open spec fn passes(o: Outcome) -> bool {
    o is Match
}

/// How many of `results` pass.
pub open spec fn count_passed(results: Seq<ComparisonResult>) -> nat
    decreases results.len(),
{
    if results.len() == 0 {
        0
    } else {
        count_passed(results.drop_last()) + if passes(results.last()@) {
            1nat
        } else {
            0nat
        }
    }
}

/// Whether `r` counts as passed.
pub fn is_pass(r: &ComparisonResult) -> (b: bool)
    ensures
        b == passes(r@),
{
    match r {
        ComparisonResult::Match => true,
        _ => false,
    }
}

/// Counts the outcomes of one pass, one result per verified file.
pub fn summarize(results: &Vec<ComparisonResult>) -> (s: Summary)
    ensures
        s.total == results@.len(),
        s.passed == count_passed(results@),
        s.failed == results@.len() - count_passed(results@),
{
    let mut passed: usize = 0;
    let mut i: usize = 0;
    while i < results.len()
        invariant
            i <= results@.len(),
            passed == count_passed(results@.take(i as int)),
            passed <= i,
        decreases results@.len() - i,
    {
        assert(results@.take(i + 1).drop_last() =~= results@.take(i as int));
        if is_pass(&results[i]) {
            passed = passed + 1;
        }
        i = i + 1;
    }
    assert(results@.take(results@.len() as int) =~= results@);
    Summary { total: results.len(), passed, failed: results.len() - passed }
}

impl Summary {
    /// Whether every verified file matched.
    pub fn all_passed(&self) -> (b: bool)
        ensures
            b == (self.failed == 0),
    {
        self.failed == 0
    }

    /// The process status for this pass: zero only when nothing failed.
    pub fn exit_code(&self) -> (code: i32)
        ensures
            code == 0 <==> self.failed == 0,
            self.failed != 0 ==> code == 1,
    {
        if self.failed == 0 {
            0
        } else {
            1
        }
    }
}

} // verus!
