//! NTS-KE records and their wire format.
//!
//! A record on the wire is a two-byte type field whose top bit is the critical
//! flag, a two-byte body length, and the body. All integers are big-endian.
//! The encoding and decoding itself is done by `ntp_proto`; this module states
//! the format as specification functions, wraps the calls, and proves what
//! follows from the format.

use ntp_proto::NtsRecord;
use ntp_proto::NtsRecordDecoder;
use vstd::prelude::*;
use vstd::string::StringExecFnsIsAscii;
use vstd::utf8::{decode_utf8, encode_utf8, is_ascii_chars, valid_utf8};

verus! {

/// Number of bytes in front of every record body.
pub const HEADER_BYTES: usize = 4;

/// Largest body that fits the two-byte length field.
pub const MAX_BODY_BYTES: usize = 65535;

/// The encoder refuses lists of this many ids or more.
pub const ID_LIST_LIMIT: usize = 32767;

/// One NTS-KE record.
#[derive(Debug, Clone, PartialEq, Eq)]
pub enum Record {
    EndOfMessage,
    NextProtocol { protocol_ids: Vec<u16> },
    Error { errorcode: u16 },
    Warning { warningcode: u16 },
    AeadAlgorithm { critical: bool, algorithm_ids: Vec<u16> },
    NewCookie { cookie_data: Vec<u8> },
    Server { critical: bool, name: String },
    Port { critical: bool, port: u16 },
    Unknown { record_type: u16, critical: bool, data: Vec<u8> },
}

/// The mathematical value of a [`Record`].
pub enum RecordView {
    EndOfMessage,
    NextProtocol { protocol_ids: Seq<u16> },
    Error { errorcode: u16 },
    Warning { warningcode: u16 },
    AeadAlgorithm { critical: bool, algorithm_ids: Seq<u16> },
    NewCookie { cookie_data: Seq<u8> },
    Server { critical: bool, name: Seq<char> },
    Port { critical: bool, port: u16 },
    Unknown { record_type: u16, critical: bool, data: Seq<u8> },
}

impl View for Record {
    type V = RecordView;

    open spec fn view(&self) -> RecordView {
        match *self {
            Record::EndOfMessage => RecordView::EndOfMessage,
            Record::NextProtocol { protocol_ids } => RecordView::NextProtocol {
                protocol_ids: protocol_ids@,
            },
            Record::Error { errorcode } => RecordView::Error { errorcode },
            Record::Warning { warningcode } => RecordView::Warning { warningcode },
            Record::AeadAlgorithm { critical, algorithm_ids } => RecordView::AeadAlgorithm {
                critical,
                algorithm_ids: algorithm_ids@,
            },
            Record::NewCookie { cookie_data } => RecordView::NewCookie {
                cookie_data: cookie_data@,
            },
            Record::Server { critical, name } => RecordView::Server { critical, name: name@ },
            Record::Port { critical, port } => RecordView::Port { critical, port },
            Record::Unknown { record_type, critical, data } => RecordView::Unknown {
                record_type,
                critical,
                data: data@,
            },
        }
    }
}

/// The views of a sequence of records, in order.
pub open spec fn views(records: Seq<Record>) -> Seq<RecordView> {
    records.map_values(|r: Record| r@)
}

/// Big-endian bytes of a 16-bit number.
pub open spec fn be16(x: int) -> Seq<u8> {
    seq![(x / 256) as u8, (x % 256) as u8]
}

/// The 16-bit number with the given big-endian bytes.
pub open spec fn from_be16(hi: u8, lo: u8) -> int {
    hi * 256 + lo
}

/// A list of 16-bit ids as bytes, each id big-endian.
pub open spec fn ids_to_bytes(ids: Seq<u16>) -> Seq<u8> {
    Seq::new(
        2 * ids.len(),
        |i: int|
            if i % 2 == 0 {
                (ids[i / 2] / 256) as u8
            } else {
                (ids[i / 2] % 256) as u8
            },
    )
}

/// The list of 16-bit ids held in a body of even length.
pub open spec fn bytes_to_ids(body: Seq<u8>) -> Seq<u16> {
    Seq::new(body.len() / 2, |i: int| from_be16(body[2 * i], body[2 * i + 1]) as u16)
}

impl RecordView {
    /// The record type code, without the critical bit.
    pub open spec fn code(self) -> int {
        match self {
            RecordView::EndOfMessage => 0,
            RecordView::NextProtocol { .. } => 1,
            RecordView::Error { .. } => 2,
            RecordView::Warning { .. } => 3,
            RecordView::AeadAlgorithm { .. } => 4,
            RecordView::NewCookie { .. } => 5,
            RecordView::Server { .. } => 6,
            RecordView::Port { .. } => 7,
            RecordView::Unknown { record_type, .. } => (record_type % 0x8000) as int,
        }
    }

    /// Whether the critical bit is set on the wire.
    pub open spec fn is_critical(self) -> bool {
        match self {
            RecordView::EndOfMessage => true,
            RecordView::NextProtocol { .. } => true,
            RecordView::Error { .. } => true,
            RecordView::Warning { .. } => true,
            RecordView::AeadAlgorithm { critical, .. } => critical,
            RecordView::NewCookie { .. } => false,
            RecordView::Server { critical, .. } => critical,
            RecordView::Port { critical, .. } => critical,
            RecordView::Unknown { critical, .. } => critical,
        }
    }

    /// The two-byte type field: the code, plus the critical bit.
    pub open spec fn type_field(self) -> int {
        self.code() + if self.is_critical() {
            0x8000int
        } else {
            0int
        }
    }

    /// The record body.
    pub open spec fn body(self) -> Seq<u8> {
        match self {
            RecordView::EndOfMessage => Seq::empty(),
            RecordView::NextProtocol { protocol_ids } => ids_to_bytes(protocol_ids),
            RecordView::Error { errorcode } => be16(errorcode as int),
            RecordView::Warning { warningcode } => be16(warningcode as int),
            RecordView::AeadAlgorithm { algorithm_ids, .. } => ids_to_bytes(algorithm_ids),
            RecordView::NewCookie { cookie_data } => cookie_data,
            RecordView::Server { name, .. } => encode_utf8(name),
            RecordView::Port { port, .. } => be16(port as int),
            RecordView::Unknown { data, .. } => data,
        }
    }

    /// The records that the encoder accepts. It refuses a body that does not
    /// fit the length field, an unknown type with the critical bit inside the
    /// type number, and a server name that is not ASCII.
    pub open spec fn encodable(self) -> bool {
        match self {
            RecordView::NextProtocol { protocol_ids } => protocol_ids.len() < ID_LIST_LIMIT,
            RecordView::AeadAlgorithm { algorithm_ids, .. } => algorithm_ids.len() < ID_LIST_LIMIT,
            RecordView::NewCookie { cookie_data } => cookie_data.len() <= MAX_BODY_BYTES,
            RecordView::Server { name, .. } => is_ascii_chars(name) && encode_utf8(name).len()
                < MAX_BODY_BYTES,
            RecordView::Unknown { record_type, data, .. } => record_type < 0x8000 && data.len()
                <= MAX_BODY_BYTES,
            _ => true,
        }
    }

    /// The record as it goes over the wire.
    pub open spec fn wire(self) -> Seq<u8> {
        be16(self.type_field()) + be16(self.body().len() as int) + self.body()
    }

    /// The records that come back from the wire as they went. All do but an
    /// `Unknown` that holds the type and a body of a known kind: that one
    /// comes back as the known kind.
    pub open spec fn canonical(self) -> bool {
        self is Unknown ==> decode_body(self.type_field(), self.body()) is Unknown
    }
}

/// Several records as they go over the wire, one behind the other.
pub open spec fn wire_all(records: Seq<RecordView>) -> Seq<u8>
    decreases records.len(),
{
    if records.len() == 0 {
        Seq::empty()
    } else {
        records[0].wire() + wire_all(records.drop_first())
    }
}

/// The record that a type field and a body decode to. A type code that is not
/// known, or that comes with a body or a critical bit that its kind does not
/// allow, gives `Unknown` with the body kept as it is.
pub open spec fn decode_body(type_field: int, body: Seq<u8>) -> RecordView {
    let critical = type_field >= 0x8000;
    let code = type_field % 0x8000;
    if code == 0 && body.len() == 0 && critical {
        RecordView::EndOfMessage
    } else if code == 1 && body.len() % 2 == 0 && critical {
        RecordView::NextProtocol { protocol_ids: bytes_to_ids(body) }
    } else if code == 2 && body.len() == 2 && critical {
        RecordView::Error { errorcode: from_be16(body[0], body[1]) as u16 }
    } else if code == 3 && body.len() == 2 && critical {
        RecordView::Warning { warningcode: from_be16(body[0], body[1]) as u16 }
    } else if code == 4 && body.len() % 2 == 0 {
        RecordView::AeadAlgorithm { critical, algorithm_ids: bytes_to_ids(body) }
    } else if code == 5 && !critical {
        RecordView::NewCookie { cookie_data: body }
    } else if code == 6 && valid_utf8(body) {
        RecordView::Server { critical, name: decode_utf8(body) }
    } else if code == 7 && body.len() == 2 {
        RecordView::Port { critical, port: from_be16(body[0], body[1]) as u16 }
    } else {
        RecordView::Unknown { record_type: code as u16, critical, data: body }
    }
}

/// Length of the first record in the buffer, header included. Meaningful once
/// the buffer holds a header.
pub open spec fn frame_len(buffer: Seq<u8>) -> int {
    HEADER_BYTES + from_be16(buffer[2], buffer[3])
}

/// The buffer holds at least one whole record.
pub open spec fn has_frame(buffer: Seq<u8>) -> bool {
    buffer.len() >= HEADER_BYTES && buffer.len() >= frame_len(buffer)
}

/// The first record in a buffer that holds one.
pub open spec fn first_record(buffer: Seq<u8>) -> RecordView {
    decode_body(from_be16(buffer[0], buffer[1]), buffer.subrange(HEADER_BYTES as int, frame_len(buffer)))
}

/// What one decoding step hands out: the first record, once it is whole.
pub open spec fn next_record(buffer: Seq<u8>) -> Option<RecordView> {
    if has_frame(buffer) {
        Some(first_record(buffer))
    } else {
        None
    }
}

/// What one decoding step leaves in the buffer.
pub open spec fn after_step(buffer: Seq<u8>) -> Seq<u8> {
    if has_frame(buffer) {
        buffer.skip(frame_len(buffer))
    } else {
        buffer
    }
}

/// The view of a record that may be absent.
pub open spec fn option_view(record: Option<Record>) -> Option<RecordView> {
    match record {
        Some(r) => Some(r@),
        None => None,
    }
}

/// Why a buffer did not decode to a record.
#[derive(Debug, Clone, Copy, PartialEq, Eq, Structural)]
pub enum DecodeError {
    /// The buffer ends before the record does.
    NeedMoreData,
    /// The decoder gave up on the bytes.
    InvalidEncoding,
}

/// `ntp_proto::NtsRecordDecoder`, the streaming decoder. Nothing is known of
/// a value of it but what the wrappers below state.
#[verifier::external_type_specification]
#[verifier::external_body]
pub struct ExNtsRecordDecoder(ntp_proto::NtsRecordDecoder);

/// The bytes that a decoder has taken in and not yet handed out as records.
pub uninterp spec fn decoder_buffer(decoder: NtsRecordDecoder) -> Seq<u8>;

/// `NtsRecordDecoder::new`: a decoder that holds no bytes.
#[verifier::external_body]
fn decoder_new() -> (decoder: NtsRecordDecoder)
    ensures
        decoder_buffer(decoder) == Seq::<u8>::empty(),
{
    NtsRecordDecoder::new()
}

/// `NtsRecordDecoder::extend`: the bytes are appended to those that the
/// decoder holds.
#[verifier::external_body]
fn decoder_extend(decoder: &mut NtsRecordDecoder, bytes: &[u8])
    ensures
        decoder_buffer(*final(decoder)) == decoder_buffer(*old(decoder)) + bytes@,
{
    decoder.extend(bytes.iter().copied());
}

/// `NtsRecordDecoder::step`: while the buffer is short of a whole record it
/// returns nothing and keeps the buffer. Once a whole record is buffered it
/// decodes it as [`decode_body`] says and drops its bytes from the buffer.
/// It reports an error only if the reader runs dry inside a record, which
/// cannot happen once the whole record is buffered.
#[verifier::external_body]
fn decoder_step(decoder: &mut NtsRecordDecoder) -> (out: Result<Option<Record>, DecodeError>)
    ensures
        out matches Ok(step) && option_view(step) == next_record(decoder_buffer(*old(decoder))),
        decoder_buffer(*final(decoder)) == after_step(decoder_buffer(*old(decoder))),
{
    decoder.step().map_err(|_| DecodeError::InvalidEncoding).map(|o| o.map(|r| match r {
        NtsRecord::EndOfMessage => Record::EndOfMessage,
        NtsRecord::NextProtocol { protocol_ids } => Record::NextProtocol { protocol_ids },
        NtsRecord::Error { errorcode } => Record::Error { errorcode },
        NtsRecord::Warning { warningcode } => Record::Warning { warningcode },
        NtsRecord::AeadAlgorithm { critical, algorithm_ids } => Record::AeadAlgorithm { critical, algorithm_ids },
        NtsRecord::NewCookie { cookie_data } => Record::NewCookie { cookie_data },
        NtsRecord::Server { critical, name } => Record::Server { critical, name },
        NtsRecord::Port { critical, port } => Record::Port { critical, port },
        NtsRecord::Unknown { record_type, critical, data } => Record::Unknown { record_type, critical, data },
    }))
}

/// `NtsRecord::write` into an empty buffer: the bytes of [`RecordView::wire`].
/// The encoder fails on the records that [`RecordView::encodable`] leaves out.
#[verifier::external_body]
fn write_record(record: &Record) -> (out: Vec<u8>)
    requires
        record@.encodable(),
    ensures
        out@ == record@.wire(),
{
    let mut out = Vec::new();
    let outside = match record.clone() {
        Record::EndOfMessage => NtsRecord::EndOfMessage,
        Record::NextProtocol { protocol_ids } => NtsRecord::NextProtocol { protocol_ids },
        Record::Error { errorcode } => NtsRecord::Error { errorcode },
        Record::Warning { warningcode } => NtsRecord::Warning { warningcode },
        Record::AeadAlgorithm { critical, algorithm_ids } => NtsRecord::AeadAlgorithm { critical, algorithm_ids },
        Record::NewCookie { cookie_data } => NtsRecord::NewCookie { cookie_data },
        Record::Server { critical, name } => NtsRecord::Server { critical, name },
        Record::Port { critical, port } => NtsRecord::Port { critical, port },
        Record::Unknown { record_type, critical, data } => NtsRecord::Unknown { record_type, critical, data },
    };
    outside.write(&mut out).unwrap();
    out
}

impl Record {
    /// Whether [`encode`] accepts the record.
    pub fn is_encodable(&self) -> (ok: bool)
        ensures
            ok == self@.encodable(),
    {
        match self {
            Record::NextProtocol { protocol_ids } => protocol_ids.len() < ID_LIST_LIMIT,
            Record::AeadAlgorithm { algorithm_ids, .. } => algorithm_ids.len() < ID_LIST_LIMIT,
            Record::NewCookie { cookie_data } => cookie_data.len() <= MAX_BODY_BYTES,
            Record::Server { name, .. } => {
                name.is_ascii() && name.as_str().as_bytes().len() < MAX_BODY_BYTES
            },
            Record::Unknown { record_type, data, .. } => *record_type < 0x8000 && data.len()
                <= MAX_BODY_BYTES,
            _ => true,
        }
    }
}

/// Serializes one record.
pub fn encode(record: &Record) -> (out: Vec<u8>)
    requires
        record@.encodable(),
    ensures
        out@ == record@.wire(),
{
    write_record(record)
}

/// What decoding the front of a buffer gives: the first record with the
/// number of bytes it took, or the demand for more bytes.
pub open spec fn decode_spec(buffer: Seq<u8>) -> Result<(RecordView, int), DecodeError> {
    if has_frame(buffer) {
        Ok((first_record(buffer), frame_len(buffer)))
    } else {
        Err(DecodeError::NeedMoreData)
    }
}

/// Decodes the record at the front of the buffer and says how many bytes it
/// took. Bytes behind the record are left alone.
pub fn decode(buffer: &[u8]) -> (out: Result<(Record, usize), DecodeError>)
    ensures
        match decode_spec(buffer@) {
            Ok((record, consumed)) => out matches Ok((r, n)) && r@ == record && n == consumed,
            Err(e) => out == Err::<(Record, usize), DecodeError>(e),
        },
{
    let mut decoder = decoder_new();
    decoder_extend(&mut decoder, buffer);
    assert(decoder_buffer(decoder) == buffer@);
    match decoder_step(&mut decoder) {
        Ok(Some(record)) => {
            let hi: usize = buffer[2] as usize;
            let lo: usize = buffer[3] as usize;
            Ok((record, HEADER_BYTES + hi * 256 + lo))
        },
        Ok(None) => Err(DecodeError::NeedMoreData),
        Err(e) => Err(e),
    }
}

/// All whole records at the front of a buffer, in order, and the bytes of
/// the unfinished record behind them.
pub open spec fn drain(buffer: Seq<u8>) -> (Seq<RecordView>, Seq<u8>)
    decreases buffer.len(),
{
    if has_frame(buffer) {
        let (records, rest) = drain(buffer.skip(frame_len(buffer)));
        (seq![first_record(buffer)] + records, rest)
    } else {
        (Seq::empty(), buffer)
    }
}

/// The state of a decoder that is fed a piece of input and then drained:
/// the records handed out so far, and the bytes held back.
pub open spec fn feed(state: (Seq<RecordView>, Seq<u8>), chunk: Seq<u8>) -> (
    Seq<RecordView>,
    Seq<u8>,
) {
    (state.0 + drain(state.1 + chunk).0, drain(state.1 + chunk).1)
}

/// The state of a fresh decoder after it was fed the pieces in order and
/// drained after each.
pub open spec fn feed_all(chunks: Seq<Seq<u8>>) -> (Seq<RecordView>, Seq<u8>)
    decreases chunks.len(),
{
    if chunks.len() == 0 {
        (Seq::empty(), Seq::empty())
    } else {
        feed(feed_all(chunks.drop_last()), chunks.last())
    }
}

/// The pieces of input, joined.
pub open spec fn joined(chunks: Seq<Seq<u8>>) -> Seq<u8>
    decreases chunks.len(),
{
    if chunks.len() == 0 {
        Seq::empty()
    } else {
        joined(chunks.drop_last()) + chunks.last()
    }
}

/// A 16-bit number comes back from its two bytes.
pub proof fn lemma_be16_round_trip(x: int)
    requires
        0 <= x < 0x10000,
    ensures
        be16(x).len() == 2,
        from_be16(be16(x)[0], be16(x)[1]) == x,
{
}

/// A list of ids comes back from its bytes.
pub proof fn lemma_ids_round_trip(ids: Seq<u16>)
    ensures
        ids_to_bytes(ids).len() == 2 * ids.len(),
        bytes_to_ids(ids_to_bytes(ids)) == ids,
{
    let bytes = ids_to_bytes(ids);
    assert forall|i: int| 0 <= i < ids.len() implies bytes_to_ids(bytes)[i] == ids[i] by {
        assert((2 * i) / 2 == i);
        assert((2 * i + 1) / 2 == i);
        assert(bytes[2 * i] == (ids[i] / 256) as u8);
        assert(bytes[2 * i + 1] == (ids[i] % 256) as u8);
    }
    assert(bytes_to_ids(bytes) =~= ids);
}

/// The encoding of a record is one whole frame: a header that gives the
/// length of the body, and the body.
pub proof fn lemma_wire_is_frame(record: RecordView, rest: Seq<u8>)
    requires
        record.encodable(),
    ensures
        record.wire().len() == HEADER_BYTES + record.body().len(),
        record.body().len() < 0x10000,
        has_frame(record.wire() + rest),
        frame_len(record.wire() + rest) == record.wire().len(),
        first_record(record.wire() + rest) == decode_body(record.type_field(), record.body()),
        (record.wire() + rest).skip(record.wire().len() as int) == rest,
{
    broadcast use vstd::utf8::is_ascii_chars_encode_utf8;

    let body = record.body();
    match record {
        RecordView::NextProtocol { protocol_ids } => {
            lemma_ids_round_trip(protocol_ids);
        },
        RecordView::AeadAlgorithm { algorithm_ids, .. } => {
            lemma_ids_round_trip(algorithm_ids);
        },
        _ => {},
    }
    assert(body.len() < 0x10000);
    lemma_be16_round_trip(record.type_field());
    lemma_be16_round_trip(body.len() as int);
    let buffer = record.wire() + rest;
    assert(buffer[0] == be16(record.type_field())[0]);
    assert(buffer[1] == be16(record.type_field())[1]);
    assert(buffer[2] == be16(body.len() as int)[0]);
    assert(buffer[3] == be16(body.len() as int)[1]);
    assert(buffer.subrange(HEADER_BYTES as int, frame_len(buffer)) =~= body);
    assert(buffer.skip(record.wire().len() as int) =~= rest);
}

/// Round trip: what was encoded decodes to the same record, and the decoder
/// takes exactly the bytes that the encoder wrote.
pub proof fn lemma_round_trip(record: RecordView)
    requires
        record.encodable(),
        record.canonical(),
    ensures
        decode_spec(record.wire()) == Ok::<(RecordView, int), DecodeError>(
            (record, record.wire().len() as int),
        ),
{
    lemma_wire_is_frame(record, Seq::empty());
    assert(record.wire() + Seq::<u8>::empty() =~= record.wire());
    lemma_decode_body_inverts(record);
}

/// The type field and the body of a record decode to the record.
pub proof fn lemma_decode_body_inverts(record: RecordView)
    requires
        record.encodable(),
        record.canonical(),
    ensures
        decode_body(record.type_field(), record.body()) == record,
{
    broadcast use vstd::utf8::encode_utf8_valid_utf8, vstd::utf8::encode_utf8_decode_utf8;

    let field = record.type_field();
    assert(field % 0x8000 == record.code());
    assert((field >= 0x8000) == record.is_critical());
    match record {
        RecordView::NextProtocol { protocol_ids } => {
            lemma_ids_round_trip(protocol_ids);
        },
        RecordView::AeadAlgorithm { algorithm_ids, .. } => {
            lemma_ids_round_trip(algorithm_ids);
        },
        RecordView::Error { errorcode } => {
            lemma_be16_round_trip(errorcode as int);
        },
        RecordView::Warning { warningcode } => {
            lemma_be16_round_trip(warningcode as int);
        },
        RecordView::Port { port, .. } => {
            lemma_be16_round_trip(port as int);
        },
        _ => {},
    }
}

/// Bytes come back from their ids, where the bytes are even in number.
pub proof fn lemma_bytes_round_trip(body: Seq<u8>)
    requires
        body.len() % 2 == 0,
    ensures
        ids_to_bytes(bytes_to_ids(body)) == body,
{
    let ids = bytes_to_ids(body);
    assert forall|i: int| 0 <= i < body.len() implies ids_to_bytes(ids)[i] == body[i] by {
        let k = i / 2;
        assert(ids[k] == (body[2 * k] * 256 + body[2 * k + 1]) as u16);
        if i % 2 == 0 {
            assert(i == 2 * k);
        } else {
            assert(i == 2 * k + 1);
        }
    }
    assert(ids_to_bytes(ids) =~= body);
}

/// What was decoded encodes to the bytes it came from: no two frames decode
/// to the same record, and nothing of a frame is lost in decoding.
pub proof fn lemma_wire_inverts_decode(type_field: int, body: Seq<u8>)
    requires
        0 <= type_field < 0x10000,
    ensures
        decode_body(type_field, body).wire() == be16(type_field) + be16(body.len() as int) + body,
{
    broadcast use vstd::utf8::decode_utf8_encode_utf8;

    let record = decode_body(type_field, body);
    let code = type_field % 0x8000;
    assert(record.code() == code);
    assert(record.is_critical() == (type_field >= 0x8000));
    assert(record.type_field() == type_field);
    match record {
        RecordView::NextProtocol { .. } => {
            lemma_bytes_round_trip(body);
        },
        RecordView::AeadAlgorithm { .. } => {
            lemma_bytes_round_trip(body);
        },
        RecordView::Error { .. } => {
            assert(be16(from_be16(body[0], body[1])) =~= body);
        },
        RecordView::Warning { .. } => {
            assert(be16(from_be16(body[0], body[1])) =~= body);
        },
        RecordView::Port { .. } => {
            assert(be16(from_be16(body[0], body[1])) =~= body);
        },
        RecordView::EndOfMessage => {
            assert(body =~= Seq::<u8>::empty());
        },
        _ => {},
    }
    assert(record.body() == body);
}

/// Records that were encoded one behind the other are handed out again, in
/// order, and no byte is left.
pub proof fn lemma_drain_wire_all(records: Seq<RecordView>)
    requires
        forall|i: int| 0 <= i < records.len() ==> records[i].encodable() && records[i].canonical(),
    ensures
        drain(wire_all(records)) == (records, Seq::<u8>::empty()),
    decreases records.len(),
{
    if records.len() == 0 {
        assert(!has_frame(Seq::<u8>::empty()));
    } else {
        let tail = records.drop_first();
        lemma_drain_wire_all(tail);
        lemma_wire_is_frame(records[0], wire_all(tail));
        lemma_decode_body_inverts(records[0]);
        assert(seq![records[0]] + tail =~= records);
    }
}

/// Streaming invariance for one cut: draining a buffer, adding input to what
/// is left and draining again hands out the records that draining the whole
/// input at once does, and leaves the same bytes.
pub proof fn lemma_drain_concat(first: Seq<u8>, second: Seq<u8>)
    ensures
        drain(first + second) == feed(drain(first), second),
    decreases first.len(),
{
    if has_frame(first) {
        let n = frame_len(first);
        let whole = first + second;
        assert(whole[2] == first[2] && whole[3] == first[3]);
        assert(whole[0] == first[0] && whole[1] == first[1]);
        assert(frame_len(whole) == n);
        assert(has_frame(whole));
        assert(whole.subrange(HEADER_BYTES as int, n) =~= first.subrange(HEADER_BYTES as int, n));
        assert(first_record(whole) == first_record(first));
        assert(whole.skip(n) =~= first.skip(n) + second);
        lemma_drain_concat(first.skip(n), second);
        let inner = drain(first.skip(n));
        let tail = drain(inner.1 + second);
        assert(seq![first_record(first)] + (inner.0 + tail.0) =~= (seq![first_record(first)]
            + inner.0) + tail.0);
    } else {
        assert(Seq::<RecordView>::empty() + drain(first + second).0 =~= drain(first + second).0);
    }
}

/// Streaming invariance: however the input is cut into pieces, feeding the
/// pieces in order hands out the records, and holds back the bytes, that
/// feeding the joined input at once does.
pub proof fn lemma_streaming_invariance(chunks: Seq<Seq<u8>>)
    ensures
        feed_all(chunks) == drain(joined(chunks)),
    decreases chunks.len(),
{
    if chunks.len() == 0 {
        assert(!has_frame(Seq::<u8>::empty()));
    } else {
        let front = chunks.drop_last();
        lemma_streaming_invariance(front);
        lemma_drain_concat(joined(front), chunks.last());
    }
}

/// Two ways of cutting the same input hand out the same records.
pub proof fn lemma_cut_does_not_matter(one: Seq<Seq<u8>>, other: Seq<Seq<u8>>)
    requires
        joined(one) == joined(other),
    ensures
        feed_all(one) == feed_all(other),
{
    lemma_streaming_invariance(one);
    lemma_streaming_invariance(other);
}

/// A decoder that takes bytes as they arrive, in pieces of any size, and hands
/// out records as they become whole.
pub struct RecordDecoder {
    inner: NtsRecordDecoder,
}

impl View for RecordDecoder {
    type V = Seq<u8>;

    /// The bytes taken in and not yet handed out as records.
    closed spec fn view(&self) -> Seq<u8> {
        decoder_buffer(self.inner)
    }
}

impl RecordDecoder {
    /// A decoder that holds no bytes.
    pub fn new() -> (decoder: RecordDecoder)
        ensures
            decoder@ == Seq::<u8>::empty(),
    {
        RecordDecoder { inner: decoder_new() }
    }

    /// Takes in more bytes.
    pub fn extend(&mut self, bytes: &[u8])
        ensures
            final(self)@ == old(self)@ + bytes@,
    {
        decoder_extend(&mut self.inner, bytes);
    }

    /// Hands out the next record if it is whole, and drops its bytes. Without
    /// a whole record nothing is handed out and nothing is dropped.
    pub fn step(&mut self) -> (out: Result<Option<Record>, DecodeError>)
        ensures
            out matches Ok(step) && option_view(step) == next_record(old(self)@),
            final(self)@ == after_step(old(self)@),
    {
        decoder_step(&mut self.inner)
    }

    /// Hands out all records that are whole.
    pub fn drain(&mut self) -> (out: Result<Vec<Record>, DecodeError>)
        ensures
            out matches Ok(records) && views(records@) == drain(old(self)@).0,
            final(self)@ == drain(old(self)@).1,
    {
        let mut records: Vec<Record> = Vec::new();
        assert(views(records@) == Seq::<RecordView>::empty());
        loop
            invariant
                views(records@) + drain(self@).0 == drain(old(self)@).0,
                drain(self@).1 == drain(old(self)@).1,
            decreases self@.len(),
        {
            let ghost before = self@;
            let ghost had = views(records@);
            match self.step() {
                Ok(Some(record)) => {
                    records.push(record);
                    assert(views(records@) == had.push(record@));
                    assert(had.push(record@) + drain(self@).0 == had + drain(before).0);
                },
                Ok(None) => {
                    assert(drain(before).0 == Seq::<RecordView>::empty());
                    assert(views(records@) + Seq::<RecordView>::empty() == views(records@));
                    return Ok(records);
                },
                Err(e) => {
                    return Err(e);
                },
            }
        }
    }
}

} // verus!
