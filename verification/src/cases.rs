//! The test cases for key establishment: what each asks of the server and
//! what it expects of the answer.

use crate::nts_ke::{
    option_ids_view, Request, RequestView, Response, ResponseView, AEAD_AES_SIV_CMAC_256,
    PROTOCOL_NTPV4,
};
use crate::record::{views, Record, RecordView};
use crate::util::result::{fail, TestErrorView, TestResult};
use vstd::prelude::*;
use vstd::string::StringExecFns;

verus! {

/// An id that no protocol and no algorithm has: it is reserved.
pub const RESERVED_ID: u16 = 0xFFFF;

/// The error code with which a server turns down a bad request.
pub const BAD_REQUEST: u16 = 1;

/// The number of cookies that a server hands out with an answer.
pub const COOKIES_PER_ANSWER: usize = 8;

/// A test case for key establishment.
#[derive(Debug, Clone, Copy, PartialEq, Eq, Structural)]
pub enum KeCase {
    /// A valid request gets a valid answer.
    Happy,
    /// Asked only for a protocol that does not exist, the server confirms
    /// none.
    ErrorOnUnknownNextProtocol,
    /// The server passes over a protocol that it does not know.
    IgnoreUnknownExtraProtocols,
    /// Asked only for an algorithm that does not exist, the server confirms
    /// none.
    ErrorOnUnknownAead,
    /// The server passes over an algorithm that it does not know.
    IgnoreUnknownExtraAead,
    /// A request that is nothing but the end of a message is answered with
    /// an error.
    EmptyMessageResolvesInError,
}

/// What a test case finds wrong with an answer.
#[derive(Debug, Clone, Copy, PartialEq, Eq, Structural)]
pub enum Complaint {
    OtherProtocols,
    OtherAead,
    ErrorCode,
    WarningCode,
    NotEightCookies,
    NextProtocolNotEmpty,
    NextProtocolNotExpected,
    AeadNotEmpty,
    AeadNotExpected,
    NoErrorToEmptyMessage,
}

impl Complaint {
    /// The report of the complaint.
    pub open spec fn message(self) -> Seq<char> {
        match self {
            Complaint::OtherProtocols =>
                "Server did reply with different protocols then we asked for"@,
            Complaint::OtherAead => "Server did reply with different AEAD then we asked for"@,
            Complaint::ErrorCode => "Server did reply with error code to normal request"@,
            Complaint::WarningCode => "Server did reply with warning code to normal request"@,
            Complaint::NotEightCookies => "Server did not reply with 8 cookies"@,
            Complaint::NextProtocolNotEmpty => "Server did not respond with empty next protocol"@,
            Complaint::NextProtocolNotExpected =>
                "Server did not respond with expected next protocol"@,
            Complaint::AeadNotEmpty => "Server did not respond with empty aead"@,
            Complaint::AeadNotExpected => "Server did not respond with expected aead"@,
            Complaint::NoErrorToEmptyMessage =>
                "Server did not respond with error to empty message"@,
        }
    }
}

impl KeCase {
    /// The records that the test case sends.
    pub open spec fn asks(self) -> Seq<RecordView> {
        match self {
            KeCase::Happy => Request::default_view().records(),
            KeCase::ErrorOnUnknownNextProtocol => (RequestView {
                next_protocol: seq![RESERVED_ID],
                ..Request::default_view()
            }).records(),
            KeCase::IgnoreUnknownExtraProtocols => (RequestView {
                next_protocol: seq![RESERVED_ID, PROTOCOL_NTPV4],
                ..Request::default_view()
            }).records(),
            KeCase::ErrorOnUnknownAead => (RequestView {
                aead: seq![RESERVED_ID],
                ..Request::default_view()
            }).records(),
            KeCase::IgnoreUnknownExtraAead => (RequestView {
                aead: seq![RESERVED_ID, AEAD_AES_SIV_CMAC_256],
                ..Request::default_view()
            }).records(),
            KeCase::EmptyMessageResolvesInError => seq![RecordView::EndOfMessage],
        }
    }

    /// What the test case holds against an answer, if anything. Where
    /// several things are wrong, the first in the order of the checks
    /// counts.
    pub open spec fn verdict(self, response: ResponseView) -> Option<Complaint> {
        match self {
            KeCase::Happy => if response.next_protocol != Some(seq![PROTOCOL_NTPV4]) {
                Some(Complaint::OtherProtocols)
            } else if response.aead != Some(seq![AEAD_AES_SIV_CMAC_256]) {
                Some(Complaint::OtherAead)
            } else if response.errors.len() != 0 {
                Some(Complaint::ErrorCode)
            } else if response.warnings.len() != 0 {
                Some(Complaint::WarningCode)
            } else if response.cookies.len() != COOKIES_PER_ANSWER {
                Some(Complaint::NotEightCookies)
            } else {
                None
            },
            KeCase::ErrorOnUnknownNextProtocol => if response.next_protocol != Some(
                Seq::<u16>::empty(),
            ) {
                Some(Complaint::NextProtocolNotEmpty)
            } else {
                None
            },
            KeCase::IgnoreUnknownExtraProtocols => if response.next_protocol != Some(
                seq![PROTOCOL_NTPV4],
            ) {
                Some(Complaint::NextProtocolNotExpected)
            } else {
                None
            },
            KeCase::ErrorOnUnknownAead => if response.aead != Some(Seq::<u16>::empty()) {
                Some(Complaint::AeadNotEmpty)
            } else {
                None
            },
            KeCase::IgnoreUnknownExtraAead => if response.aead != Some(
                seq![AEAD_AES_SIV_CMAC_256],
            ) {
                Some(Complaint::AeadNotExpected)
            } else {
                None
            },
            KeCase::EmptyMessageResolvesInError => if response.errors != seq![BAD_REQUEST] {
                Some(Complaint::NoErrorToEmptyMessage)
            } else {
                None
            },
        }
    }

    /// All test cases, in the order in which they are run.
    pub fn all() -> (cases: Vec<KeCase>)
        ensures
            cases@ == seq![
                KeCase::Happy,
                KeCase::ErrorOnUnknownNextProtocol,
                KeCase::IgnoreUnknownExtraProtocols,
                KeCase::ErrorOnUnknownAead,
                KeCase::IgnoreUnknownExtraAead,
                KeCase::EmptyMessageResolvesInError,
            ],
    {
        let mut cases: Vec<KeCase> = Vec::new();
        cases.push(KeCase::Happy);
        cases.push(KeCase::ErrorOnUnknownNextProtocol);
        cases.push(KeCase::IgnoreUnknownExtraProtocols);
        cases.push(KeCase::ErrorOnUnknownAead);
        cases.push(KeCase::IgnoreUnknownExtraAead);
        cases.push(KeCase::EmptyMessageResolvesInError);
        assert(cases@ =~= seq![
            KeCase::Happy,
            KeCase::ErrorOnUnknownNextProtocol,
            KeCase::IgnoreUnknownExtraProtocols,
            KeCase::ErrorOnUnknownAead,
            KeCase::IgnoreUnknownExtraAead,
            KeCase::EmptyMessageResolvesInError,
        ]);
        cases
    }

    /// The name under which the test case is reported.
    pub open spec fn label(self) -> Seq<char> {
        match self {
            KeCase::Happy => "nts_ke::happy"@,
            KeCase::ErrorOnUnknownNextProtocol => "nts_ke::error_on_unknown_next_protocol"@,
            KeCase::IgnoreUnknownExtraProtocols => "nts_ke::ignore_unknown_extra_protocols"@,
            KeCase::ErrorOnUnknownAead => "nts_ke::error_on_unknown_aead"@,
            KeCase::IgnoreUnknownExtraAead => "nts_ke::ignore_unknown_extra_aead"@,
            KeCase::EmptyMessageResolvesInError => "nts_ke::empty_message_resolves_in_error"@,
        }
    }

    /// The name under which the test case is reported.
    pub fn name(self) -> (name: &'static str)
        ensures
            name@ == self.label(),
    {
        match self {
            KeCase::Happy => "nts_ke::happy",
            KeCase::ErrorOnUnknownNextProtocol => "nts_ke::error_on_unknown_next_protocol",
            KeCase::IgnoreUnknownExtraProtocols => "nts_ke::ignore_unknown_extra_protocols",
            KeCase::ErrorOnUnknownAead => "nts_ke::error_on_unknown_aead",
            KeCase::IgnoreUnknownExtraAead => "nts_ke::ignore_unknown_extra_aead",
            KeCase::EmptyMessageResolvesInError => "nts_ke::empty_message_resolves_in_error",
        }
    }

    /// The records that the test case sends. All of them can be encoded.
    pub fn request(self) -> (records: Vec<Record>)
        ensures
            views(records@) == self.asks(),
            forall|i: int| 0 <= i < records.len() ==> (#[trigger] records[i])@.encodable(),
    {
        let mut request = Request::default();
        match self {
            KeCase::Happy => {},
            KeCase::ErrorOnUnknownNextProtocol => {
                request.next_protocol = ids(RESERVED_ID, None);
            },
            KeCase::IgnoreUnknownExtraProtocols => {
                request.next_protocol = ids(RESERVED_ID, Some(PROTOCOL_NTPV4));
            },
            KeCase::ErrorOnUnknownAead => {
                request.aead = ids(RESERVED_ID, None);
            },
            KeCase::IgnoreUnknownExtraAead => {
                request.aead = ids(RESERVED_ID, Some(AEAD_AES_SIV_CMAC_256));
            },
            KeCase::EmptyMessageResolvesInError => {
                let mut records: Vec<Record> = Vec::new();
                records.push(Record::EndOfMessage);
                assert(views(records@) =~= seq![RecordView::EndOfMessage]);
                return records;
            },
        }
        let ghost asked = request@;
        let records = request.into_records();
        proof {
            assert(asked.records().len() == 3);
            assert(asked.records()[0] == RecordView::NextProtocol {
                protocol_ids: asked.next_protocol,
            });
            assert(asked.records()[1] == RecordView::AeadAlgorithm {
                critical: false,
                algorithm_ids: asked.aead,
            });
            assert(asked.records()[2] == RecordView::EndOfMessage);
            assert forall|i: int| 0 <= i < records.len() implies (#[trigger] records[i])@.encodable() by {
                assert(records[i]@ == views(records@)[i]);
            }
        }
        records
    }

    /// Judges the answer that the server gave to the request of the test
    /// case. A failure keeps the answer.
    pub fn judge(self, response: Response) -> (out: TestResult)
        ensures
            match self.verdict(response@) {
                None => out is Ok,
                Some(complaint) => out matches Err(e) && e@ == TestErrorView::Fail(
                    complaint.message(),
                    Some(crate::ResponseView::KeResponse(response@)),
                ),
            },
    {
        let complaint: Option<&'static str> = match self {
            KeCase::Happy => {
                if !ids_are(&response.next_protocol, Some(PROTOCOL_NTPV4)) {
                    Some("Server did reply with different protocols then we asked for")
                } else if !ids_are(&response.aead, Some(AEAD_AES_SIV_CMAC_256)) {
                    Some("Server did reply with different AEAD then we asked for")
                } else if response.errors.len() != 0 {
                    Some("Server did reply with error code to normal request")
                } else if response.warnings.len() != 0 {
                    Some("Server did reply with warning code to normal request")
                } else if response.cookies.len() != COOKIES_PER_ANSWER {
                    Some("Server did not reply with 8 cookies")
                } else {
                    None
                }
            },
            KeCase::ErrorOnUnknownNextProtocol => {
                if !ids_are(&response.next_protocol, None) {
                    Some("Server did not respond with empty next protocol")
                } else {
                    None
                }
            },
            KeCase::IgnoreUnknownExtraProtocols => {
                if !ids_are(&response.next_protocol, Some(PROTOCOL_NTPV4)) {
                    Some("Server did not respond with expected next protocol")
                } else {
                    None
                }
            },
            KeCase::ErrorOnUnknownAead => {
                if !ids_are(&response.aead, None) {
                    Some("Server did not respond with empty aead")
                } else {
                    None
                }
            },
            KeCase::IgnoreUnknownExtraAead => {
                if !ids_are(&response.aead, Some(AEAD_AES_SIV_CMAC_256)) {
                    Some("Server did not respond with expected aead")
                } else {
                    None
                }
            },
            KeCase::EmptyMessageResolvesInError => {
                let only_bad_request = response.errors.len() == 1 && response.errors[0]
                    == BAD_REQUEST;
                assert(only_bad_request == (response.errors@ =~= seq![BAD_REQUEST]));
                if !only_bad_request {
                    Some("Server did not respond with error to empty message")
                } else {
                    None
                }
            },
        };
        assert(response@.cookies.len() == response.cookies@.len());
        match complaint {
            None => Ok(()),
            Some(msg) => fail(String::from_str(msg), crate::Response::KeResponse(response)),
        }
    }
}

/// A list of one id, or of two.
fn ids(first: u16, second: Option<u16>) -> (list: Vec<u16>)
    ensures
        list@ == match second {
            Some(second) => seq![first, second],
            None => seq![first],
        },
{
    let mut list: Vec<u16> = Vec::new();
    list.push(first);
    if let Some(second) = second {
        list.push(second);
    }
    assert(list@ =~= match second {
        Some(second) => seq![first, second],
        None => seq![first],
    });
    list
}

/// Whether a list is there and holds the expected id and nothing else, or,
/// where none is expected, is there and empty.
fn ids_are(list: &Option<Vec<u16>>, expected: Option<u16>) -> (same: bool)
    ensures
        same == (option_ids_view(*list) == Some(
            match expected {
                Some(id) => seq![id],
                None => Seq::<u16>::empty(),
            },
        )),
{
    match list {
        None => false,
        Some(ids) => {
            let same = match expected {
                Some(id) => ids.len() == 1 && ids[0] == id,
                None => ids.len() == 0,
            };
            assert(same == (ids@ =~= match expected {
                Some(id) => seq![id],
                None => Seq::<u16>::empty(),
            }));
            same
        },
    }
}

} // verus!
