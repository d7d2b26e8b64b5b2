//! The negative outcomes of a test, and how they are told apart.

use crate::record::RecordView;
use crate::Response;
use crate::ResponseView;
use vstd::prelude::*;
use vstd::string::StringExecFns;

verus! {

/// A test's outcome.
pub type TestResult<T = ()> = Result<T, TestError>;

/// The source of an error that is not a verdict on the tested party.
#[derive(Debug, Clone, Copy, PartialEq, Eq, Structural)]
pub enum Fault {
    /// Name resolution, TCP or TLS setup failed.
    Connection,
    /// The TLS session gave no exported keying material.
    KeyExport,
    /// A refill pointed to another UDP target than the first negotiation.
    Invariant,
    /// Anything else.
    Other,
}

/// The negative outcome of a test.
#[derive(Debug, Clone, PartialEq, Eq)]
pub enum TestError {
    /// The tested party did something wrong. Holds what it sent, if anything.
    Fail(String, Option<Box<Response>>),
    /// The test does not apply to the tested party.
    Skipped,
    /// The test could not be carried through.
    Error(Fault, String),
}

/// The mathematical value of a [`TestError`].
pub enum TestErrorView {
    Fail(Seq<char>, Option<ResponseView>),
    Skipped,
    Error(Fault, Seq<char>),
}

impl View for TestError {
    type V = TestErrorView;

    open spec fn view(&self) -> TestErrorView {
        match *self {
            TestError::Fail(msg, response) => TestErrorView::Fail(
                msg@,
                match response {
                    Some(r) => Some(r@),
                    None => None,
                },
            ),
            TestError::Skipped => TestErrorView::Skipped,
            TestError::Error(fault, msg) => TestErrorView::Error(fault, msg@),
        }
    }
}

impl TestErrorView {
    /// The text that comes with the outcome.
    pub open spec fn message(self) -> Seq<char> {
        match self {
            TestErrorView::Fail(msg, _) => msg,
            TestErrorView::Skipped => Seq::empty(),
            TestErrorView::Error(_, msg) => msg,
        }
    }

    /// The outcome in one line.
    pub open spec fn summary(self) -> Seq<char> {
        match self {
            TestErrorView::Fail(msg, _) => "Test case failed: "@ + msg,
            TestErrorView::Skipped => "Test was skipped"@,
            TestErrorView::Error(_, msg) => "A different error occurred: "@ + msg,
        }
    }

    /// A violation of the record protocol: the stream was malformed, and the
    /// records that had arrived are kept.
    pub open spec fn is_protocol_violation(self, records: Seq<RecordView>) -> bool {
        self matches TestErrorView::Fail(_, Some(ResponseView::KeInvalid(kept))) && kept == records
    }

    /// A well-formed answer that does not confirm what was asked for.
    pub open spec fn is_negotiation_mismatch(self, response: crate::nts_ke::ResponseView) -> bool {
        self matches TestErrorView::Fail(_, Some(ResponseView::KeResponse(kept))) && kept
            == response
    }
}

/// A failed test, with what the tested party sent.
pub fn fail<T>(msg: String, response: Response) -> (out: TestResult<T>)
    ensures
        out matches Err(e) && e@ == TestErrorView::Fail(msg@, Some(response@)),
{
    Err(TestError::Fail(msg, Some(Box::new(response))))
}

/// A failed test where the tested party sent nothing.
pub fn fail_no_response<T>(msg: String) -> (out: TestResult<T>)
    ensures
        out matches Err(e) && e@ == TestErrorView::Fail(msg@, None),
{
    Err(TestError::Fail(msg, None))
}

impl TestError {
    /// The outcome in one line.
    pub fn to_string(&self) -> (out: String)
        ensures
            out@ == self@.summary(),
    {
        match self {
            TestError::Fail(msg, _) => String::from_str("Test case failed: ").concat(msg.as_str()),
            TestError::Skipped => String::from_str("Test was skipped"),
            TestError::Error(_, msg) => String::from_str("A different error occurred: ").concat(
                msg.as_str(),
            ),
        }
    }
}

} // verus!
