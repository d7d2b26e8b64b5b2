//! Datagrams exchanged with the NTP port of the tested party.

use crate::util::result::{fail, fail_no_response, Fault, TestError, TestErrorView, TestResult};
use crate::RawBytes;
use crate::{hex_digits, hex_encode};
use crate::ResponseView;
use vstd::prelude::*;
use vstd::string::StringExecFns;

verus! {

/// Largest datagram that is sent or taken in.
pub const MAX_LEN: usize = 9000;

/// A datagram to send.
#[derive(Debug, Clone, PartialEq, Eq)]
pub struct UdpRequest(pub Vec<u8>);

/// A datagram that came back.
#[derive(Debug, Clone, PartialEq, Eq)]
pub struct UdpResponse(pub Vec<u8>);

impl View for UdpRequest {
    type V = Seq<u8>;

    open spec fn view(&self) -> Seq<u8> {
        self.0@
    }
}

impl View for UdpResponse {
    type V = Seq<u8>;

    open spec fn view(&self) -> Seq<u8> {
        self.0@
    }
}

impl UdpResponse {
    /// The bytes of the datagram in hexadecimal.
    pub fn to_hex(&self) -> (out: String)
        ensures
            out@ == hex_digits(self@),
    {
        hex_encode(self.0.as_slice())
    }
}

/// What came of waiting for the answer to a datagram.
#[derive(Debug, Clone, PartialEq, Eq)]
pub enum Received {
    /// A datagram of `len` bytes arrived in `buffer`.
    Datagram { buffer: Vec<u8>, len: usize },
    /// The wait ran into the timeout.
    TimedOut,
    /// The socket reported another error.
    Failed { reason: String },
}

/// What one request came to. A timeout is no error: the server may well
/// choose not to answer. The answer is the part of the buffer that the
/// datagram filled.
pub fn pester_raw(received: Received) -> (out: TestResult<Option<UdpResponse>>)
    ensures
        match received {
            Received::Datagram { buffer, len } => out matches Ok(Some(response)) && response@
                == if len <= buffer@.len() {
                buffer@.take(len as int)
            } else {
                buffer@
            },
            Received::TimedOut => out matches Ok(None),
            Received::Failed { reason } => out matches Err(e) && e@ == TestErrorView::Error(
                Fault::Other,
                "Could not receive response: "@ + reason@,
            ),
        },
{
    match received {
        Received::Datagram { buffer, len } => {
            let mut bytes = buffer;
            bytes.truncate(len);
            Ok(Some(UdpResponse(bytes)))
        },
        Received::TimedOut => Ok(None),
        Received::Failed { reason } => Err(
            TestError::Error(
                Fault::Other,
                String::from_str("Could not receive response: ").concat(reason.as_str()),
            ),
        ),
    }
}

/// The answer to the poll that follows a test.
#[derive(Debug, Clone, PartialEq, Eq)]
pub struct PollAnswer {
    /// The packet as it arrived.
    pub packet: RawBytes,
    /// Whether it is a valid server response to the poll.
    pub valid: bool,
}

/// The verdict of the poll that follows a test: the server must still answer
/// a normal poll, and answer it validly.
pub fn udp_server_still_alive(poll: TestResult<Option<PollAnswer>>) -> (out: TestResult)
    ensures
        out is Ok <==> (poll matches Ok(Some(answer)) && answer.valid),
        match poll {
            Ok(Some(answer)) => !answer.valid ==> (out matches Err(e) && e@ == TestErrorView::Fail(
                "After test: Poll was answered by invalid response"@,
                Some(ResponseView::UdpResponse(answer.packet@)),
            )),
            Ok(None) => out matches Err(e) && e@ == TestErrorView::Fail(
                "After test: Server did no longer reply to normal poll"@,
                None,
            ),
            Err(error) => out matches Err(e) && e@ == TestErrorView::Fail(
                "After test: Server did no longer reply to normal poll. Error: "@
                    + error@.summary(),
                None,
            ),
        },
{
    match poll {
        Ok(Some(answer)) => {
            if answer.valid {
                Ok(())
            } else {
                fail(
                    String::from_str("After test: Poll was answered by invalid response"),
                    crate::Response::UdpResponse(answer.packet),
                )
            }
        },
        Ok(None) => fail_no_response(
            String::from_str("After test: Server did no longer reply to normal poll"),
        ),
        Err(error) => fail_no_response(
            String::from_str(
                "After test: Server did no longer reply to normal poll. Error: ",
            ).concat(error.to_string().as_str()),
        ),
    }
}

} // verus!
