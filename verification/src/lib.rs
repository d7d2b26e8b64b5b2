//! Conformance testing of NTS key establishment: the record protocol, the
//! validation of what a server answers, and the bookkeeping of the cookies
//! and keys that a negotiation yields. Sockets, TLS and the clock are left
//! to the caller; this crate decides what goes over them and what to make of
//! what comes back.

pub mod cases;
pub mod nts;
pub mod nts_ke;
pub mod record;
pub mod session;
pub mod udp;
pub mod util;

pub use session::{KeyPair, NtsServer, UdpTarget};
pub use util::result::{Fault, TestError, TestResult};

use crate::nts::NtsCookie;
use crate::nts_ke::NtsKeConnection;
use crate::record::{views, Record, RecordView};
use crate::session::{delivered, refusal, take, Pooled};
use crate::util::result::TestErrorView;
use core::time::Duration;
use vstd::prelude::*;

verus! {

/// Bytes that are shown in hexadecimal.
#[derive(Debug, Clone, PartialEq, Eq)]
pub struct RawBytes(pub Vec<u8>);

impl View for RawBytes {
    type V = Seq<u8>;

    open spec fn view(&self) -> Seq<u8> {
        self.0@
    }
}

/// The lower-case hexadecimal digit of a number below sixteen.
pub open spec fn hex_digit(nibble: int) -> char {
    seq!['0', '1', '2', '3', '4', '5', '6', '7', '8', '9', 'a', 'b', 'c', 'd', 'e', 'f'][nibble]
}

/// Two hexadecimal digits for each byte, the high half first.
pub open spec fn hex_digits(bytes: Seq<u8>) -> Seq<char> {
    Seq::new(
        2 * bytes.len(),
        |i: int|
            if i % 2 == 0 {
                hex_digit((bytes[i / 2] / 16) as int)
            } else {
                hex_digit((bytes[i / 2] % 16) as int)
            },
    )
}

/// `hex::encode`: two lower-case hexadecimal digits for each byte, in order.
#[verifier::external_body]
pub(crate) fn hex_encode(bytes: &[u8]) -> (out: String)
    ensures
        out@ == hex_digits(bytes@),
{
    hex::encode(bytes)
}

impl RawBytes {
    /// The bytes in hexadecimal.
    pub fn to_hex(&self) -> (out: String)
        ensures
            out@ == hex_digits(self@),
    {
        hex_encode(self.0.as_slice())
    }
}

impl From<Vec<u8>> for RawBytes {
    fn from(value: Vec<u8>) -> (out: Self) {
        RawBytes(value)
    }
}

impl vstd::std_specs::convert::FromSpecImpl<Vec<u8>> for RawBytes {
    open spec fn obeys_from_spec() -> bool {
        true
    }

    open spec fn from_spec(value: Vec<u8>) -> Self {
        RawBytes(value)
    }
}

/// What the tested party sent, kept with a test's outcome for the report.
#[derive(Debug, Clone, PartialEq, Eq)]
pub enum Response {
    /// A datagram that is no NTP packet.
    UdpUnparsable(RawBytes),
    /// A datagram that is an NTP packet.
    UdpResponse(RawBytes),
    /// A key establishment answer that passed validation.
    KeResponse(nts_ke::Response),
    /// The records of a key establishment answer that did not.
    KeInvalid(Vec<Record>),
}

/// The mathematical value of a [`Response`].
pub enum ResponseView {
    UdpUnparsable(Seq<u8>),
    UdpResponse(Seq<u8>),
    KeResponse(nts_ke::ResponseView),
    KeInvalid(Seq<RecordView>),
}

impl View for Response {
    type V = ResponseView;

    open spec fn view(&self) -> ResponseView {
        match *self {
            Response::UdpUnparsable(bytes) => ResponseView::UdpUnparsable(bytes@),
            Response::UdpResponse(bytes) => ResponseView::UdpResponse(bytes@),
            Response::KeResponse(response) => ResponseView::KeResponse(response@),
            Response::KeInvalid(records) => ResponseView::KeInvalid(views(records@)),
        }
    }
}

impl From<udp::UdpResponse> for Response {
    fn from(value: udp::UdpResponse) -> (out: Self) {
        Response::UdpUnparsable(RawBytes(value.0))
    }
}

impl vstd::std_specs::convert::FromSpecImpl<udp::UdpResponse> for Response {
    open spec fn obeys_from_spec() -> bool {
        true
    }

    open spec fn from_spec(value: udp::UdpResponse) -> Self {
        Response::UdpUnparsable(RawBytes(value.0))
    }
}

impl From<nts_ke::Response> for Response {
    fn from(value: nts_ke::Response) -> (out: Self) {
        Response::KeResponse(value)
    }
}

impl vstd::std_specs::convert::FromSpecImpl<nts_ke::Response> for Response {
    open spec fn obeys_from_spec() -> bool {
        true
    }

    open spec fn from_spec(value: nts_ke::Response) -> Self {
        Response::KeResponse(value)
    }
}

impl From<Vec<Record>> for Response {
    fn from(value: Vec<Record>) -> (out: Self) {
        Response::KeInvalid(value)
    }
}

impl vstd::std_specs::convert::FromSpecImpl<Vec<Record>> for Response {
    open spec fn obeys_from_spec() -> bool {
        true
    }

    open spec fn from_spec(value: Vec<Record>) -> Self {
        Response::KeInvalid(value)
    }
}

/// The tested party: a plain NTP server, or one that also does NTS.
#[derive(Debug)]
pub enum Server {
    Ntp(UdpTarget),
    Nts(NtsServer),
}

/// What a test case is run against.
#[derive(Debug)]
pub struct TestConfig {
    pub server: Server,
    pub timeout: Duration,
}

impl TestConfig {
    /// Where the datagrams of a test go.
    pub fn udp(&self) -> (target: UdpTarget)
        ensures
            target == match self.server {
                Server::Ntp(target) => target,
                Server::Nts(server) => server.target(),
            },
    {
        match &self.server {
            Server::Ntp(target) => *target,
            Server::Nts(server) => server.udp_host(),
        }
    }

    /// A fresh key establishment connection to the server. A test that
    /// needs one is skipped where the server does no NTS.
    pub fn ke(&self) -> (out: TestResult<NtsKeConnection>)
        ensures
            match self.server {
                Server::Ntp(_) => out matches Err(e) && e@ == TestErrorView::Skipped,
                Server::Nts(server) => out matches Ok(connection) && connection.host()
                    == server.host() && connection.port() == server.port()
                    && connection.buffered() == Seq::<u8>::empty() && connection.collected()
                    == Seq::<RecordView>::empty(),
            },
    {
        match &self.server {
            Server::Ntp(_) => Err(TestError::Skipped),
            Server::Nts(server) => Ok(
                NtsKeConnection::new(server.ke_host().as_str(), server.ke_port()),
            ),
        }
    }

    /// Hands out one cookie with its keys, as [`NtsServer::take_cookie`]
    /// does. A test that needs one is skipped where the server does no NTS.
    pub fn take_cookie(&mut self) -> (out: TestResult<Option<(NtsCookie, KeyPair)>>)
        ensures
            match old(self).server {
                Server::Ntp(_) => out matches Err(e) && e@ == TestErrorView::Skipped && *final(self)
                    == *old(self),
                Server::Nts(server) => out matches Ok(taken) && final(self).server matches Server::Nts(
                    after,
                ) && cookie_taken(server, taken, after),
            },
            final(self).timeout == old(self).timeout,
    {
        match &mut self.server {
            Server::Ntp(_) => Err(TestError::Skipped),
            Server::Nts(server) => Ok(server.take_cookie()),
        }
    }

    /// Takes in the outcome of a further negotiation and hands out one of
    /// its cookies, as [`NtsServer::refill`] does. A test that needs a
    /// cookie is skipped where the server does no NTS.
    pub fn refill(&mut self, cookies: Vec<NtsCookie>, udp_host: UdpTarget, keys: KeyPair) -> (out:
        TestResult<(NtsCookie, KeyPair)>)
        ensures
            match old(self).server {
                Server::Ntp(_) => out matches Err(e) && e@ == TestErrorView::Skipped && *final(self)
                    == *old(self),
                Server::Nts(server) => final(self).server matches Server::Nts(after)
                    && cookies_refilled(server, cookies@, udp_host, keys, out, after),
            },
            final(self).timeout == old(self).timeout,
    {
        match &mut self.server {
            Server::Ntp(_) => Err(TestError::Skipped),
            Server::Nts(server) => server.refill(cookies, udp_host, keys),
        }
    }
}

/// What a refill does to a server: where the outcome of the negotiation is
/// refused, nothing changes; else its cookies fill the pool but the one that
/// is handed out, and its keys are the keys of the server.
pub open spec fn cookies_refilled(
    before: NtsServer,
    cookies: Seq<NtsCookie>,
    udp_host: UdpTarget,
    keys: KeyPair,
    out: TestResult<(NtsCookie, KeyPair)>,
    after: NtsServer,
) -> bool {
    &&& match refusal(before.pool(), before.target(), cookies, udp_host) {
        Some(refusal) => out matches Err(e) && e@ == TestErrorView::Error(
            Fault::Invariant,
            refusal.message(),
        ) && after.pool() == before.pool() && after.keys() == before.keys(),
        None => out matches Ok((cookie, taken_keys)) && take(delivered(cookies, keys)) == Some(
            (Pooled { cookie: cookie@, keys: taken_keys }, after.pool()),
        ) && after.keys() == keys,
    }
    &&& after.target() == before.target()
    &&& after.host() == before.host()
    &&& after.port() == before.port()
}

/// What one take does to a server: it hands out the cookie that was pooled
/// last, with the keys that belong to it, and nothing where the pool is
/// empty. Nothing else changes.
pub open spec fn cookie_taken(
    before: NtsServer,
    taken: Option<(NtsCookie, KeyPair)>,
    after: NtsServer,
) -> bool {
    &&& match take(before.pool()) {
        Some((pooled, rest)) => taken matches Some((cookie, keys)) && cookie@ == pooled.cookie
            && keys == pooled.keys && after.pool() == rest,
        None => taken is None && after.pool() == before.pool(),
    }
    &&& after.keys() == before.keys()
    &&& after.target() == before.target()
    &&& after.host() == before.host()
    &&& after.port() == before.port()
}

} // verus!
