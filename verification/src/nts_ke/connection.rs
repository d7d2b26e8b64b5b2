//! One side of a key establishment connection, without the socket.

use super::negotiation::{
    context_bytes, key_context, Negotiated, DIRECTION_C2S, DIRECTION_S2C,
};
use super::request::Request;
use super::response::{
    lemma_validate_accepts, option_ids_view, validate, well_formed, Response, ResponseView,
    Violation,
};
use super::{AEAD_AES_SIV_CMAC_256, NTP_PORT, PROTOCOL_NTPV4};
use crate::nts::cookie_views;
use crate::record::{
    after_step, encode, feed, next_record, option_view, views, wire_all, Record, RecordDecoder,
    RecordView,
};
use crate::util::result::{fail, Fault, TestError, TestResult};
use vstd::prelude::*;
use vstd::string::StringExecFns;

verus! {

/// The only id of a list that holds exactly one.
fn single_id(ids: &Option<Vec<u16>>) -> (id: Option<u16>)
    ensures
        id == match option_ids_view(*ids) {
            Some(list) => if list.len() == 1 {
                Some(list[0])
            } else {
                None
            },
            None => None,
        },
{
    match ids {
        Some(list) => if list.len() == 1 {
            Some(list[0])
        } else {
            None
        },
        None => None,
    }
}

/// The ways in which an exchange ends without an answer.
pub enum Ending {
    /// The peer closed the stream and the last whole record is no
    /// `EndOfMessage`.
    ClosedEarly,
    /// The records do not make up an answer.
    Invalid(Violation),
}

impl Ending {
    /// The report of this ending of an exchange that brought the given
    /// records.
    pub open spec fn message(self, records: Seq<RecordView>) -> Seq<char> {
        match self {
            Ending::ClosedEarly => "NTS-KE closed connection without sending EndOfMessage"@,
            Ending::Invalid(violation) => violation.message(records),
        }
    }
}

/// What an exchange comes to once the peer has closed the stream, given the
/// records that arrived whole.
pub open spec fn concluded(records: Seq<RecordView>) -> Result<ResponseView, Ending> {
    if records.len() > 0 && records.last() == RecordView::EndOfMessage {
        match validate(records) {
            Ok(response) => Ok(response),
            Err(violation) => Err(Ending::Invalid(violation)),
        }
    } else {
        Err(Ending::ClosedEarly)
    }
}

/// An exchange ends in an answer exactly where the records that arrived
/// are well formed.
pub proof fn lemma_concluded_accepts(records: Seq<RecordView>)
    ensures
        concluded(records) is Ok <==> well_formed(records),
{
    lemma_validate_accepts(records);
}

/// One side of a key establishment connection, without the socket: it turns
/// what is to be sent into bytes and the bytes that arrive into records. The
/// caller writes and reads the TLS stream.
pub struct NtsKeConnection {
    host: String,
    port: u16,
    record_decoder: RecordDecoder,
    records: Vec<Record>,
}

impl NtsKeConnection {
    /// The name of the server that the connection goes to.
    pub closed spec fn host(&self) -> Seq<char> {
        self.host@
    }

    /// The TCP port that the connection goes to.
    pub closed spec fn port(&self) -> u16 {
        self.port
    }

    /// The bytes that arrived and are not yet part of a whole record.
    pub closed spec fn buffered(&self) -> Seq<u8> {
        self.record_decoder@
    }

    /// The records that arrived in the running exchange.
    pub closed spec fn collected(&self) -> Seq<RecordView> {
        views(self.records@)
    }

    /// The state of a connection to `host` and `port` on which nothing has
    /// arrived.
    pub fn new(host: &str, port: u16) -> (connection: NtsKeConnection)
        ensures
            connection.host() == host@,
            connection.port() == port,
            connection.buffered() == Seq::<u8>::empty(),
            connection.collected() == Seq::<RecordView>::empty(),
    {
        let connection = NtsKeConnection {
            host: String::from_str(host),
            port,
            record_decoder: RecordDecoder::new(),
            records: Vec::new(),
        };
        assert(views(connection.records@) =~= Seq::<RecordView>::empty());
        connection
    }

    /// The name of the server to connect to.
    pub fn ke_host(&self) -> (host: &String)
        ensures
            host@ == self.host(),
    {
        &self.host
    }

    /// The TCP port to connect to.
    pub fn ke_port(&self) -> (port: u16)
        ensures
            port == self.port(),
    {
        self.port
    }

    /// The bytes to write in order to send the record.
    pub fn send_record(&self, record: &Record) -> (bytes: Vec<u8>)
        requires
            record@.encodable(),
        ensures
            bytes@ == record@.wire(),
    {
        encode(record)
    }

    /// Takes in bytes that were read from the stream.
    pub fn extend(&mut self, bytes: &[u8])
        ensures
            final(self).buffered() == old(self).buffered() + bytes@,
            final(self).collected() == old(self).collected(),
            final(self).host() == old(self).host(),
            final(self).port() == old(self).port(),
    {
        self.record_decoder.extend(bytes);
    }

    /// The next record, if it has arrived whole. `None` asks for more bytes:
    /// read the stream and hand them to [`NtsKeConnection::extend`].
    pub fn recv_record(&mut self) -> (out: TestResult<Option<Record>>)
        ensures
            out matches Ok(step) && option_view(step) == next_record(old(self).buffered()),
            final(self).buffered() == after_step(old(self).buffered()),
            final(self).collected() == old(self).collected(),
            final(self).host() == old(self).host(),
            final(self).port() == old(self).port(),
    {
        match self.record_decoder.step() {
            Ok(step) => Ok(step),
            Err(_) => Err(
                TestError::Error(Fault::Other, String::from_str("Could not read from NTS records")),
            ),
        }
    }

    /// Starts an exchange: gives the bytes that send every record of the
    /// request in one write. What arrives afterwards goes to
    /// [`NtsKeConnection::received`] until the peer closes the stream, and
    /// [`NtsKeConnection::closed`] then gives the answer.
    pub fn exchange(&mut self, request: &Vec<Record>) -> (bytes: Vec<u8>)
        requires
            forall|i: int| 0 <= i < request.len() ==> (#[trigger] request[i])@.encodable(),
        ensures
            bytes@ == wire_all(views(request@)),
            final(self).collected() == Seq::<RecordView>::empty(),
            final(self).buffered() == old(self).buffered(),
            final(self).host() == old(self).host(),
            final(self).port() == old(self).port(),
    {
        let mut bytes: Vec<u8> = Vec::new();
        let mut i: usize = 0;
        let ghost all = views(request@);
        assert(all.skip(0) =~= all);
        while i < request.len()
            invariant
                i <= request.len(),
                all == views(request@),
                forall|j: int| 0 <= j < request.len() ==> (#[trigger] request[j])@.encodable(),
                bytes@ + wire_all(all.skip(i as int)) == wire_all(all),
            decreases request.len() - i,
        {
            let mut piece = encode(&request[i]);
            let ghost before = bytes@;
            let ghost rest = all.skip(i as int);
            assert(rest[0] == request[i as int]@);
            assert(rest.drop_first() =~= all.skip(i + 1));
            bytes.append(&mut piece);
            assert(bytes@ + wire_all(all.skip(i + 1)) =~= before + (rest[0].wire() + wire_all(
                rest.drop_first(),
            )));
            i += 1;
        }
        assert(wire_all(all.skip(i as int)) =~= Seq::<u8>::empty());
        assert(bytes@ + Seq::<u8>::empty() =~= bytes@);
        self.records = Vec::new();
        assert(views(self.records@) =~= Seq::<RecordView>::empty());
        bytes
    }

    /// Takes in bytes that arrived during an exchange and keeps every record
    /// that they complete.
    pub fn received(&mut self, bytes: &[u8]) -> (out: TestResult<()>)
        ensures
            out is Ok,
            (final(self).collected(), final(self).buffered()) == feed(
                (old(self).collected(), old(self).buffered()),
                bytes@,
            ),
            final(self).host() == old(self).host(),
            final(self).port() == old(self).port(),
    {
        self.record_decoder.extend(bytes);
        let ghost had = views(self.records@);
        match self.record_decoder.drain() {
            Ok(mut more) => {
                let ghost added = views(more@);
                self.records.append(&mut more);
                assert(views(self.records@) =~= had + added);
                Ok(())
            },
            Err(_) => Err(
                TestError::Error(Fault::Other, String::from_str("Could not read from NTS records")),
            ),
        }
    }

    /// The outcome of the exchange once the peer has closed the stream. The
    /// records must end in `EndOfMessage` and make up an answer; bytes of an
    /// unfinished record behind them are not looked at. The records are
    /// handed over to the outcome: none is kept.
    pub fn closed(&mut self) -> (out: TestResult<Response>)
        ensures
            match concluded(old(self).collected()) {
                Ok(response) => out matches Ok(r) && r@ == response,
                Err(ending) => out matches Err(e) && e@.is_protocol_violation(
                    old(self).collected(),
                ) && e@.message() == ending.message(old(self).collected()),
            },
            final(self).collected() == Seq::<RecordView>::empty(),
            final(self).buffered() == old(self).buffered(),
            final(self).host() == old(self).host(),
            final(self).port() == old(self).port(),
    {
        let mut records: Vec<Record> = Vec::new();
        assert(views(records@) =~= Seq::<RecordView>::empty());
        core::mem::swap(&mut self.records, &mut records);
        let n = records.len();
        let terminated = n > 0 && match &records[n - 1] {
            Record::EndOfMessage => true,
            _ => false,
        };
        if !terminated {
            return fail(
                String::from_str("NTS-KE closed connection without sending EndOfMessage"),
                crate::Response::KeInvalid(records),
            );
        }
        Response::try_from(records)
    }

    /// The bytes that send the default request: NTPv4 as next protocol and
    /// AES-SIV-CMAC-256 as AEAD algorithm. Starts an exchange like
    /// [`NtsKeConnection::exchange`].
    pub fn do_request(&mut self) -> (bytes: Vec<u8>)
        ensures
            bytes@ == wire_all(Request::default_view().records()),
            final(self).collected() == Seq::<RecordView>::empty(),
            final(self).buffered() == old(self).buffered(),
            final(self).host() == old(self).host(),
            final(self).port() == old(self).port(),
    {
        let request = Request::default();
        proof {
            assert(request@.records() =~= seq![
                RecordView::NextProtocol { protocol_ids: seq![PROTOCOL_NTPV4] },
                RecordView::AeadAlgorithm {
                    critical: false,
                    algorithm_ids: seq![AEAD_AES_SIV_CMAC_256],
                },
                RecordView::EndOfMessage,
            ]);
        }
        let records = request.into_records();
        assert forall|i: int| 0 <= i < records.len() implies (#[trigger] records[i])@.encodable() by {
            assert(records[i]@ == views(records@)[i]);
        }
        self.exchange(&records)
    }

    /// What the answer to the default request comes to. The answer must
    /// confirm exactly the algorithm and the protocol that were asked for.
    /// The NTP server is the one that the answer names, else the key
    /// establishment server itself; the port is the one that the answer
    /// names, else 123.
    pub fn negotiated(&self, response: Response) -> (out: TestResult<Negotiated>)
        ensures
            match response@.confirmation() {
                Ok(()) => out matches Ok(n) && cookie_views(n.cookies@) == response@.cookies
                    && n.udp_host@ == (match response@.server {
                    Some(name) => name,
                    None => self.host(),
                }) && n.udp_port == (match response@.port {
                    Some(port) => port,
                    None => NTP_PORT,
                }) && n.c2s_context@ == context_bytes(
                    PROTOCOL_NTPV4,
                    AEAD_AES_SIV_CMAC_256,
                    DIRECTION_C2S,
                ) && n.s2c_context@ == context_bytes(
                    PROTOCOL_NTPV4,
                    AEAD_AES_SIV_CMAC_256,
                    DIRECTION_S2C,
                ),
                Err(mismatch) => out matches Err(e) && e@.is_negotiation_mismatch(response@)
                    && e@.message() == mismatch.message(),
            },
    {
        let aead = single_id(&response.aead);
        let aead = match aead {
            Some(id) => id,
            None => {
                return fail(
                    String::from_str("KE did not reply with exactly one AEAD"),
                    crate::Response::KeResponse(response),
                );
            },
        };
        if aead != AEAD_AES_SIV_CMAC_256 {
            return fail(
                String::from_str("KE replied with an aead we did not ask for"),
                crate::Response::KeResponse(response),
            );
        }
        let next_protocol = single_id(&response.next_protocol);
        let next_protocol = match next_protocol {
            Some(id) => id,
            None => {
                return fail(
                    String::from_str("KE did not reply with exactly one next_protocol"),
                    crate::Response::KeResponse(response),
                );
            },
        };
        if next_protocol != PROTOCOL_NTPV4 {
            return fail(
                String::from_str("KE replied with an protocol we did not ask for"),
                crate::Response::KeResponse(response),
            );
        }
        let udp_host = match response.server {
            Some(name) => name,
            None => self.host.clone(),
        };
        let udp_port = match response.port {
            Some(port) => port,
            None => NTP_PORT,
        };
        Ok(
            Negotiated {
                cookies: response.cookies,
                udp_host,
                udp_port,
                c2s_context: key_context(next_protocol, aead, DIRECTION_C2S),
                s2c_context: key_context(next_protocol, aead, DIRECTION_S2C),
            },
        )
    }
}

} // verus!
