//! Outcomes of test cases.

pub mod result;

use crate::util::result::{Fault, TestError, TestErrorView, TestResult};
use vstd::prelude::*;
use vstd::string::StringExecFns;

verus! {

/// How a run of a test case ended: it came back with an outcome, or it
/// panicked, with a message or without one.
#[derive(Debug, PartialEq, Eq)]
pub enum Run {
    Returned(TestResult),
    Panicked(Option<String>),
}

/// The outcome of a run. A panic is an error of the run, never a verdict on
/// the tested party.
pub fn run_outcome(run: Run) -> (out: TestResult)
    ensures
        match run {
            Run::Returned(outcome) => out == outcome,
            Run::Panicked(Some(msg)) => out matches Err(e) && e@ == TestErrorView::Error(
                Fault::Other,
                "Test panicked: "@ + msg@,
            ),
            Run::Panicked(None) => out matches Err(e) && e@ == TestErrorView::Error(
                Fault::Other,
                "Test panicked with a weird type"@,
            ),
        },
{
    match run {
        Run::Returned(outcome) => outcome,
        Run::Panicked(Some(msg)) => Err(
            TestError::Error(
                Fault::Other,
                String::from_str("Test panicked: ").concat(msg.as_str()),
            ),
        ),
        Run::Panicked(None) => Err(
            TestError::Error(Fault::Other, String::from_str("Test panicked with a weird type")),
        ),
    }
}

} // verus!
