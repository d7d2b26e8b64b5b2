//! What is asked of a key establishment server.

use super::{AEAD_AES_SIV_CMAC_256, PROTOCOL_NTPV4};
use crate::record::{
    feed_all, joined, lemma_drain_wire_all, lemma_streaming_invariance, views, wire_all, Record,
    RecordView, ID_LIST_LIMIT, MAX_BODY_BYTES,
};
use vstd::prelude::*;
use vstd::string::StringExecFnsIsAscii;

verus! {

/// The view of a string that may be absent.
pub open spec fn option_string_view(s: Option<String>) -> Option<Seq<char>> {
    match s {
        Some(s) => Some(s@),
        None => None,
    }
}

/// All fields needed for a key establishment request.
#[derive(Debug, Clone, Eq, PartialEq)]
pub struct Request {
    pub next_protocol: Vec<u16>,
    pub aead: Vec<u16>,
    pub critical_aead: bool,
    pub server: Option<String>,
    pub port: Option<u16>,
}

/// The mathematical value of a [`Request`].
pub struct RequestView {
    pub next_protocol: Seq<u16>,
    pub aead: Seq<u16>,
    pub critical_aead: bool,
    pub server: Option<Seq<char>>,
    pub port: Option<u16>,
}

impl View for Request {
    type V = RequestView;

    open spec fn view(&self) -> RequestView {
        RequestView {
            next_protocol: self.next_protocol@,
            aead: self.aead@,
            critical_aead: self.critical_aead,
            server: option_string_view(self.server),
            port: self.port,
        }
    }
}

impl RequestView {
    /// The records of the request, in the order in which they are sent. The
    /// order is fixed: next protocols, AEAD algorithms, the server and the
    /// port where they are asked for, and the end of the message.
    pub open spec fn records(self) -> Seq<RecordView> {
        seq![
            RecordView::NextProtocol { protocol_ids: self.next_protocol },
            RecordView::AeadAlgorithm { critical: self.critical_aead, algorithm_ids: self.aead },
        ] + match self.server {
            Some(name) => seq![RecordView::Server { critical: false, name }],
            None => Seq::empty(),
        } + match self.port {
            Some(port) => seq![RecordView::Port { critical: false, port }],
            None => Seq::empty(),
        } + seq![RecordView::EndOfMessage]
    }

    /// Whether every record of the request can be encoded.
    pub open spec fn encodable(self) -> bool {
        forall|i: int| 0 <= i < self.records().len() ==> (#[trigger] self.records()[i]).encodable()
    }
}

/// However the bytes of a request are cut into pieces on their way, the
/// receiver that is fed the pieces in order gets the records of the request,
/// in order, and is left with no byte over.
pub proof fn lemma_request_survives_any_cut(request: RequestView, chunks: Seq<Seq<u8>>)
    requires
        request.encodable(),
        joined(chunks) == wire_all(request.records()),
    ensures
        feed_all(chunks) == (request.records(), Seq::<u8>::empty()),
{
    let records = request.records();
    assert forall|i: int| 0 <= i < records.len() implies records[i].encodable()
        && records[i].canonical() by {
        assert(!(records[i] is Unknown));
    }
    lemma_drain_wire_all(records);
    lemma_streaming_invariance(chunks);
}

impl Default for Request {
    /// The request for NTPv4 with AES-SIV-CMAC-256.
    fn default() -> (request: Self)
        ensures
            request@ == Request::default_view(),
    {
        let mut next_protocol: Vec<u16> = Vec::new();
        next_protocol.push(PROTOCOL_NTPV4);
        let mut aead: Vec<u16> = Vec::new();
        aead.push(AEAD_AES_SIV_CMAC_256);
        let request = Request { next_protocol, aead, critical_aead: false, server: None, port: None };
        assert(request.next_protocol@ =~= seq![PROTOCOL_NTPV4]);
        assert(request.aead@ =~= seq![AEAD_AES_SIV_CMAC_256]);
        request
    }
}

impl Request {
    /// The default request: NTPv4 with AES-SIV-CMAC-256, nothing else.
    pub open spec fn default_view() -> RequestView {
        RequestView {
            next_protocol: seq![PROTOCOL_NTPV4],
            aead: seq![AEAD_AES_SIV_CMAC_256],
            critical_aead: false,
            server: None,
            port: None,
        }
    }

    /// The records of the request, in the order in which they are sent.
    pub fn into_records(self) -> (records: Vec<Record>)
        ensures
            views(records@) == self@.records(),
    {
        let mut records: Vec<Record> = Vec::new();
        records.push(Record::NextProtocol { protocol_ids: self.next_protocol });
        records.push(
            Record::AeadAlgorithm { critical: self.critical_aead, algorithm_ids: self.aead },
        );
        if let Some(name) = self.server {
            records.push(Record::Server { critical: false, name });
        }
        if let Some(port) = self.port {
            records.push(Record::Port { critical: false, port });
        }
        records.push(Record::EndOfMessage);
        assert(views(records@) =~= self@.records());
        records
    }

    /// Whether every record of the request can be encoded.
    pub fn is_encodable(&self) -> (ok: bool)
        ensures
            ok == self@.encodable(),
    {
        let ids_fit = self.next_protocol.len() < ID_LIST_LIMIT && self.aead.len() < ID_LIST_LIMIT;
        let name_fits = match &self.server {
            Some(name) => name.is_ascii() && name.as_str().as_bytes().len() < MAX_BODY_BYTES,
            None => true,
        };
        proof {
            let records = self@.records();
            assert(records[0] == RecordView::NextProtocol { protocol_ids: self.next_protocol@ });
            assert(records[1] == RecordView::AeadAlgorithm {
                critical: self.critical_aead,
                algorithm_ids: self.aead@,
            });
            if self.server is Some {
                assert(records[2] == RecordView::Server {
                    critical: false,
                    name: self.server->0@,
                });
            }
            if ids_fit && name_fits {
                assert forall|i: int| 0 <= i < records.len() implies (#[trigger] records[i]).encodable() by {
                    if i >= 2 {
                        if self.server is Some && i > 2 {
                            assert(records[i] is Port || records[i] is EndOfMessage);
                        }
                        if self.server is None {
                            assert(records[i] is Port || records[i] is EndOfMessage);
                        }
                    }
                }
            }
        }
        ids_fit && name_fits
    }
}

} // verus!
