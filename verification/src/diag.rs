//! Results of the substrate self-tests.
use vstd::prelude::*;
use crate::text::{chars_eq_str};

verus! {

/// The result of one self-test.
#[derive(Debug, Clone)]
pub struct TestResult {
    pub component: String,
    /// "NOMINAL", "FAULT" or "DEGRADED".
    pub status: String,
    pub details: String,
    pub timestamp: String,
}

/// Runs the substrate self-tests.
pub struct DiagnosticEngine;

/// How many of the first `n` results report a fault.
pub open spec fn fault_count_upto(rs: Seq<TestResult>, n: int) -> nat
    decreases n,
{
    if n <= 0 {
        0
    } else {
        fault_count_upto(rs, n - 1) + if rs[n - 1].status@ == "FAULT"@ { 1nat } else { 0nat }
    }
}

impl DiagnosticEngine {
    /// How many results report a fault.
    pub fn fault_count(results: &[TestResult]) -> (n: usize)
        ensures
            n == fault_count_upto(results@, results@.len() as int),
    {
        let mut n: usize = 0;
        let mut i: usize = 0;
        while i < results.len()
            invariant
                i <= results@.len(),
                n <= i,
                n == fault_count_upto(results@, i as int),
            decreases results@.len() - i,
        {
            let s = crate::text::chars_of(results[i].status.as_str());
            if chars_eq_str(s.as_slice(), "FAULT") {
                n = n + 1;
            }
            i = i + 1;
        }
        n
    }
}

} // verus!
