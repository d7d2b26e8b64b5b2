//! What a key establishment server answers, and when a sequence of records
//! is an answer at all.

use super::request::option_string_view;
use crate::nts::{cookie_views, NtsCookie};
use crate::record::{views, Record, RecordView};
use crate::util::result::{fail, TestError};
use crate::RawBytes;
use vstd::prelude::*;
use vstd::string::StringExecFns;

verus! {

/// The view of an id list that may be absent.
pub open spec fn option_ids_view(ids: Option<Vec<u16>>) -> Option<Seq<u16>> {
    match ids {
        Some(ids) => Some(ids@),
        None => None,
    }
}

/// All fields that a key establishment answer can hold.
#[derive(Debug, Clone, Eq, PartialEq)]
pub struct Response {
    pub next_protocol: Option<Vec<u16>>,
    pub errors: Vec<u16>,
    pub warnings: Vec<u16>,
    pub aead: Option<Vec<u16>>,
    pub cookies: Vec<NtsCookie>,
    pub server: Option<String>,
    pub port: Option<u16>,
}

/// The mathematical value of a [`Response`].
pub struct ResponseView {
    pub next_protocol: Option<Seq<u16>>,
    pub errors: Seq<u16>,
    pub warnings: Seq<u16>,
    pub aead: Option<Seq<u16>>,
    pub cookies: Seq<Seq<u8>>,
    pub server: Option<Seq<char>>,
    pub port: Option<u16>,
}

impl View for Response {
    type V = ResponseView;

    open spec fn view(&self) -> ResponseView {
        ResponseView {
            next_protocol: option_ids_view(self.next_protocol),
            errors: self.errors@,
            warnings: self.warnings@,
            aead: option_ids_view(self.aead),
            cookies: cookie_views(self.cookies@),
            server: option_string_view(self.server),
            port: self.port,
        }
    }
}

/// The ways in which a sequence of records fails to be an answer.
pub enum Violation {
    /// The last record is not `EndOfMessage`, or there is no record.
    NotTerminated,
    /// A second list of next protocols.
    SecondNextProtocol,
    /// A second list of AEAD algorithms.
    SecondAead,
    /// A second server name.
    SecondServer,
    /// A second port.
    SecondPort,
    /// A record that has no place in an answer: one of unknown type, or an
    /// `EndOfMessage` before the end.
    Unexpected(RecordView),
}

/// The text that `{:?}` gives for a record.
pub uninterp spec fn debug_text(record: RecordView) -> Seq<char>;

/// The text that shows the last record of a sequence, or its absence.
pub open spec fn last_text(records: Seq<RecordView>) -> Seq<char> {
    if records.len() == 0 {
        "None"@
    } else {
        "Some("@ + debug_text(records.last()) + ")"@
    }
}

impl Violation {
    /// The report of this violation in the given records.
    pub open spec fn message(self, records: Seq<RecordView>) -> Seq<char> {
        match self {
            Violation::NotTerminated => "Response did not end in EndOfMessage instead ended in: "@
                + last_text(records),
            Violation::SecondNextProtocol =>
                "Response included more then one NTS Next Protocol Negotiation record"@,
            Violation::SecondAead =>
                "Response included more then one AEAD Algorithm Negotiation record"@,
            Violation::SecondServer =>
                "Response included more then one NTPv4 Server Negotiation record"@,
            Violation::SecondPort =>
                "Response included more then one NTPv4 Port Negotiation record"@,
            Violation::Unexpected(record) => "Response included an unexpected field: "@
                + debug_text(record),
        }
    }
}

impl ResponseView {
    /// The answer that holds nothing.
    pub open spec fn empty() -> ResponseView {
        ResponseView {
            next_protocol: None,
            errors: Seq::empty(),
            warnings: Seq::empty(),
            aead: None,
            cookies: Seq::empty(),
            server: None,
            port: None,
        }
    }

    /// The answer after one more record. A field that may occur once is
    /// refused the second time, whatever it holds.
    pub open spec fn absorb(self, record: RecordView) -> Result<ResponseView, Violation> {
        match record {
            RecordView::NextProtocol { protocol_ids } => if self.next_protocol is Some {
                Err(Violation::SecondNextProtocol)
            } else {
                Ok(ResponseView { next_protocol: Some(protocol_ids), ..self })
            },
            RecordView::Error { errorcode } => Ok(
                ResponseView { errors: self.errors.push(errorcode), ..self },
            ),
            RecordView::Warning { warningcode } => Ok(
                ResponseView { warnings: self.warnings.push(warningcode), ..self },
            ),
            RecordView::AeadAlgorithm { algorithm_ids, .. } => if self.aead is Some {
                Err(Violation::SecondAead)
            } else {
                Ok(ResponseView { aead: Some(algorithm_ids), ..self })
            },
            RecordView::NewCookie { cookie_data } => Ok(
                ResponseView { cookies: self.cookies.push(cookie_data), ..self },
            ),
            RecordView::Server { name, .. } => if self.server is Some {
                Err(Violation::SecondServer)
            } else {
                Ok(ResponseView { server: Some(name), ..self })
            },
            RecordView::Port { port, .. } => if self.port is Some {
                Err(Violation::SecondPort)
            } else {
                Ok(ResponseView { port: Some(port), ..self })
            },
            RecordView::EndOfMessage => Err(Violation::Unexpected(record)),
            RecordView::Unknown { .. } => Err(Violation::Unexpected(record)),
        }
    }

    /// The answer after the given records, taken in order. The first record
    /// that is refused decides the outcome.
    pub open spec fn absorb_all(self, records: Seq<RecordView>) -> Result<ResponseView, Violation>
        decreases records.len(),
    {
        if records.len() == 0 {
            Ok(self)
        } else {
            match self.absorb(records[0]) {
                Ok(next) => next.absorb_all(records.drop_first()),
                Err(violation) => Err(violation),
            }
        }
    }
}

/// What a whole received sequence of records amounts to: it must end in
/// `EndOfMessage`, and what stands before makes up the answer.
pub open spec fn validate(records: Seq<RecordView>) -> Result<ResponseView, Violation> {
    if records.len() > 0 && records.last() == RecordView::EndOfMessage {
        ResponseView::empty().absorb_all(records.drop_last())
    } else {
        Err(Violation::NotTerminated)
    }
}

/// Which of the fields that may occur once a record fills: 1 for the next
/// protocols, 2 for the AEAD algorithms, 3 for the server, 4 for the port,
/// and 0 for a record that fills none of them.
pub open spec fn once_only(record: RecordView) -> int {
    match record {
        RecordView::NextProtocol { .. } => 1,
        RecordView::AeadAlgorithm { .. } => 2,
        RecordView::Server { .. } => 3,
        RecordView::Port { .. } => 4,
        _ => 0,
    }
}

/// The records that may stand in an answer before its end.
pub open spec fn allowed(record: RecordView) -> bool {
    !(record is EndOfMessage) && !(record is Unknown)
}

impl ResponseView {
    /// Whether the field of the given number is filled.
    pub open spec fn filled(self, field: int) -> bool {
        if field == 1 {
            self.next_protocol is Some
        } else if field == 2 {
            self.aead is Some
        } else if field == 3 {
            self.server is Some
        } else if field == 4 {
            self.port is Some
        } else {
            false
        }
    }
}

/// The sequences of records that make up an answer: the last record, and
/// only the last, is `EndOfMessage`; none is of unknown type; and none of
/// the fields that may occur once occurs twice.
pub open spec fn well_formed(records: Seq<RecordView>) -> bool {
    &&& records.len() > 0
    &&& records.last() == RecordView::EndOfMessage
    &&& forall|i: int| 0 <= i < records.len() - 1 ==> allowed(#[trigger] records[i])
    &&& forall|i: int, j: int|
        0 <= i < j < records.len() - 1 && once_only(#[trigger] records[i]) != 0 ==> once_only(
            records[i],
        ) != once_only(#[trigger] records[j])
}

/// The records that can be taken in one by one, starting from the given
/// answer: every record is allowed, none fills a field that is filled
/// already, and no two fill the same field.
pub open spec fn acceptable(start: ResponseView, records: Seq<RecordView>) -> bool {
    &&& forall|i: int| 0 <= i < records.len() ==> allowed(#[trigger] records[i])
    &&& forall|i: int|
        0 <= i < records.len() && once_only(#[trigger] records[i]) != 0 ==> !start.filled(
            once_only(records[i]),
        )
    &&& forall|i: int, j: int|
        0 <= i < j < records.len() && once_only(#[trigger] records[i]) != 0 ==> once_only(
            records[i],
        ) != once_only(#[trigger] records[j])
}

/// Records are acceptable exactly where the first can be taken in and the
/// rest is acceptable after it.
proof fn lemma_acceptable_unfolds(start: ResponseView, records: Seq<RecordView>)
    requires
        records.len() > 0,
    ensures
        acceptable(start, records) <==> (start.absorb(records[0]) matches Ok(next) && acceptable(
            next,
            records.drop_first(),
        )),
{
    let head = records[0];
    let tail = records.drop_first();
    assert forall|i: int| 0 <= i < tail.len() implies tail[i] == records[i + 1] by {}
    if let Ok(next) = start.absorb(head) {
        assert forall|field: int| next.filled(field) == (start.filled(field) || (field != 0
            && field == once_only(head))) by {}
        if acceptable(start, records) {
            assert forall|i: int| 0 <= i < tail.len() implies allowed(#[trigger] tail[i]) by {
                assert(allowed(records[i + 1]));
            }
            assert forall|i: int|
                0 <= i < tail.len() && once_only(#[trigger] tail[i]) != 0 implies !next.filled(
                once_only(tail[i]),
            ) by {
                assert(once_only(records[i + 1]) != 0);
                if once_only(head) != 0 {
                    assert(once_only(records[0]) != once_only(records[i + 1]));
                }
            }
            assert forall|i: int, j: int|
                0 <= i < j < tail.len() && once_only(#[trigger] tail[i]) != 0 implies once_only(
                tail[i],
            ) != once_only(#[trigger] tail[j]) by {
                assert(once_only(records[i + 1]) != 0);
                assert(once_only(records[i + 1]) != once_only(records[j + 1]));
            }
        }
        if acceptable(next, tail) {
            assert forall|i: int| 0 <= i < records.len() implies allowed(#[trigger] records[i]) by {
                if i > 0 {
                    assert(allowed(tail[i - 1]));
                }
            }
            assert forall|i: int|
                0 <= i < records.len() && once_only(#[trigger] records[i])
                    != 0 implies !start.filled(once_only(records[i])) by {
                if i > 0 {
                    assert(once_only(tail[i - 1]) != 0);
                }
            }
            assert forall|i: int, j: int|
                0 <= i < j < records.len() && once_only(#[trigger] records[i])
                    != 0 implies once_only(records[i]) != once_only(#[trigger] records[j]) by {
                if i > 0 {
                    assert(once_only(tail[i - 1]) != 0);
                    assert(once_only(tail[i - 1]) != once_only(tail[j - 1]));
                } else if once_only(tail[j - 1]) != 0 {
                    assert(!next.filled(once_only(tail[j - 1])));
                }
            }
        }
    } else {
        assert(!allowed(head) || (once_only(head) != 0 && start.filled(once_only(head))));
    }
}

/// Taking in records one by one succeeds exactly where the records are
/// acceptable.
pub proof fn lemma_absorb_all_accepts(start: ResponseView, records: Seq<RecordView>)
    ensures
        start.absorb_all(records) is Ok <==> acceptable(start, records),
    decreases records.len(),
{
    if records.len() > 0 {
        lemma_acceptable_unfolds(start, records);
        if let Ok(next) = start.absorb(records[0]) {
            lemma_absorb_all_accepts(next, records.drop_first());
        }
    }
}

/// A sequence of records is taken for an answer exactly where it is well
/// formed.
pub proof fn lemma_validate_accepts(records: Seq<RecordView>)
    ensures
        validate(records) is Ok <==> well_formed(records),
{
    if records.len() > 0 && records.last() == RecordView::EndOfMessage {
        let body = records.drop_last();
        lemma_absorb_all_accepts(ResponseView::empty(), body);
        assert forall|i: int| 0 <= i < body.len() implies body[i] == records[i] by {}
        if validate(records) is Ok {
            assert forall|i: int| 0 <= i < records.len() - 1 implies allowed(
                #[trigger] records[i],
            ) by {
                assert(allowed(body[i]));
            }
            assert forall|i: int, j: int|
                0 <= i < j < records.len() - 1 && once_only(#[trigger] records[i])
                    != 0 implies once_only(records[i]) != once_only(#[trigger] records[j]) by {
                assert(once_only(body[i]) != 0);
                assert(once_only(body[i]) != once_only(body[j]));
            }
        }
        if well_formed(records) {
            assert forall|i: int| 0 <= i < body.len() implies allowed(#[trigger] body[i]) by {
                assert(allowed(records[i]));
            }
            assert forall|i: int, j: int|
                0 <= i < j < body.len() && once_only(#[trigger] body[i]) != 0 implies once_only(
                body[i],
            ) != once_only(#[trigger] body[j]) by {
                assert(once_only(records[i]) != 0);
                assert(once_only(records[i]) != once_only(records[j]));
            }
        }
    }
}

/// The error codes among the records, in order.
pub open spec fn error_codes(records: Seq<RecordView>) -> Seq<u16>
    decreases records.len(),
{
    if records.len() == 0 {
        Seq::empty()
    } else {
        (match records[0] {
            RecordView::Error { errorcode } => seq![errorcode],
            _ => Seq::empty(),
        }) + error_codes(records.drop_first())
    }
}

/// The warning codes among the records, in order.
pub open spec fn warning_codes(records: Seq<RecordView>) -> Seq<u16>
    decreases records.len(),
{
    if records.len() == 0 {
        Seq::empty()
    } else {
        (match records[0] {
            RecordView::Warning { warningcode } => seq![warningcode],
            _ => Seq::empty(),
        }) + warning_codes(records.drop_first())
    }
}

/// The cookies among the records, in order.
pub open spec fn cookies_among(records: Seq<RecordView>) -> Seq<Seq<u8>>
    decreases records.len(),
{
    if records.len() == 0 {
        Seq::empty()
    } else {
        (match records[0] {
            RecordView::NewCookie { cookie_data } => seq![cookie_data],
            _ => Seq::empty(),
        }) + cookies_among(records.drop_first())
    }
}

/// The first record among the given ones that fills the field of the given
/// number, if there is one.
pub open spec fn first_filling(records: Seq<RecordView>, field: int) -> Option<RecordView>
    decreases records.len(),
{
    if records.len() == 0 {
        None
    } else if once_only(records[0]) == field {
        Some(records[0])
    } else {
        first_filling(records.drop_first(), field)
    }
}

/// What an answer holds, told from the records that made it up: its error
/// codes, warning codes and cookies are those of the records, in order, and
/// each of its other fields is what the one record that fills it holds.
pub open spec fn holds(response: ResponseView, records: Seq<RecordView>) -> bool {
    &&& response.errors == error_codes(records)
    &&& response.warnings == warning_codes(records)
    &&& response.cookies == cookies_among(records)
    &&& response.next_protocol == match first_filling(records, 1) {
        Some(RecordView::NextProtocol { protocol_ids }) => Some(protocol_ids),
        _ => None,
    }
    &&& response.aead == match first_filling(records, 2) {
        Some(RecordView::AeadAlgorithm { algorithm_ids, .. }) => Some(algorithm_ids),
        _ => None,
    }
    &&& response.server == match first_filling(records, 3) {
        Some(RecordView::Server { name, .. }) => Some(name),
        _ => None,
    }
    &&& response.port == match first_filling(records, 4) {
        Some(RecordView::Port { port, .. }) => Some(port),
        _ => None,
    }
}

/// Taking in records adds their codes and cookies to those that are there,
/// and fills each empty field from the first record that fills it.
proof fn lemma_absorb_all_collects(start: ResponseView, records: Seq<RecordView>)
    requires
        start.absorb_all(records) is Ok,
    ensures
        ({
            let end = start.absorb_all(records)->Ok_0;
            &&& end.errors == start.errors + error_codes(records)
            &&& end.warnings == start.warnings + warning_codes(records)
            &&& end.cookies == start.cookies + cookies_among(records)
            &&& forall|field: int|
                1 <= field <= 4 ==> (#[trigger] start.filled(field) || first_filling(records, field)
                    is Some) == end.filled(field)
            &&& !start.filled(1) ==> end.next_protocol == match first_filling(records, 1) {
                Some(RecordView::NextProtocol { protocol_ids }) => Some(protocol_ids),
                _ => None,
            }
            &&& !start.filled(2) ==> end.aead == match first_filling(records, 2) {
                Some(RecordView::AeadAlgorithm { algorithm_ids, .. }) => Some(algorithm_ids),
                _ => None,
            }
            &&& !start.filled(3) ==> end.server == match first_filling(records, 3) {
                Some(RecordView::Server { name, .. }) => Some(name),
                _ => None,
            }
            &&& !start.filled(4) ==> end.port == match first_filling(records, 4) {
                Some(RecordView::Port { port, .. }) => Some(port),
                _ => None,
            }
            &&& start.filled(1) ==> end.next_protocol == start.next_protocol
            &&& start.filled(2) ==> end.aead == start.aead
            &&& start.filled(3) ==> end.server == start.server
            &&& start.filled(4) ==> end.port == start.port
        }),
    decreases records.len(),
{
    if records.len() == 0 {
        assert(start.errors + error_codes(records) =~= start.errors);
        assert(start.warnings + warning_codes(records) =~= start.warnings);
        assert(start.cookies + cookies_among(records) =~= start.cookies);
    } else {
        let head = records[0];
        let tail = records.drop_first();
        let next = start.absorb(head)->Ok_0;
        let end = next.absorb_all(tail)->Ok_0;
        lemma_absorb_all_collects(next, tail);
        assert(end.errors =~= start.errors + error_codes(records));
        assert(end.warnings =~= start.warnings + warning_codes(records));
        assert(end.cookies =~= start.cookies + cookies_among(records));
        assert forall|field: int| 1 <= field <= 4 implies (#[trigger] start.filled(field)
            || first_filling(records, field) is Some) == end.filled(field) by {
            assert((next.filled(field) || first_filling(tail, field) is Some) == end.filled(field));
        }
    }
}

/// An answer holds what the records before the end hold, no more and no
/// less.
pub proof fn lemma_validate_collects(records: Seq<RecordView>)
    requires
        validate(records) is Ok,
    ensures
        holds(validate(records)->Ok_0, records.drop_last()),
{
    let start = ResponseView::empty();
    lemma_absorb_all_collects(start, records.drop_last());
    let body = records.drop_last();
    assert(start.errors + error_codes(body) =~= error_codes(body));
    assert(start.warnings + warning_codes(body) =~= warning_codes(body));
    assert(start.cookies + cookies_among(body) =~= cookies_among(body));
}

/// A sequence that does not end in `EndOfMessage` is rejected, whatever
/// else it holds.
pub proof fn lemma_rejects_unterminated(records: Seq<RecordView>)
    requires
        records.len() == 0 || records.last() != RecordView::EndOfMessage,
    ensures
        validate(records) == Err::<ResponseView, Violation>(Violation::NotTerminated),
{
}

/// A sequence with two lists of next protocols is rejected.
pub proof fn lemma_rejects_second_next_protocol(records: Seq<RecordView>, i: int, j: int)
    requires
        0 <= i < j < records.len(),
        records[i] is NextProtocol,
        records[j] is NextProtocol,
    ensures
        validate(records) is Err,
{
    lemma_validate_accepts(records);
    if well_formed(records) {
        assert(j < records.len() - 1);
        assert(once_only(records[i]) != once_only(records[j]));
    }
}

/// A sequence that holds a record of unknown type is rejected, however well
/// the record itself is built.
pub proof fn lemma_rejects_unknown(records: Seq<RecordView>, i: int)
    requires
        0 <= i < records.len(),
        records[i] is Unknown,
    ensures
        validate(records) is Err,
{
    lemma_validate_accepts(records);
    if well_formed(records) {
        assert(i < records.len() - 1);
        assert(allowed(records[i]));
    }
}

/// `format!` with `{:?}`: the text that shows a record in a report.
#[verifier::external_body]
fn debug_record(record: &Record) -> (text: String)
    ensures
        text@ == debug_text(record@),
{
    format!("{record:?}")
}

/// The text that shows the last record of a sequence, or its absence.
fn debug_last(records: &Vec<Record>) -> (text: String)
    ensures
        text@ == last_text(views(records@)),
{
    if records.len() == 0 {
        String::from_str("None")
    } else {
        String::from_str("Some(").concat(debug_record(&records[records.len() - 1]).as_str()).concat(
            ")",
        )
    }
}

impl Response {
    /// Assembles the answer from all records that were received, or reports
    /// the first thing that is wrong with them. The report keeps the records.
    pub fn try_from(records: Vec<Record>) -> (out: Result<Response, TestError>)
        ensures
            match validate(views(records@)) {
                Ok(response) => out matches Ok(r) && r@ == response,
                Err(violation) => out matches Err(e) && e@.is_protocol_violation(views(records@))
                    && e@.message() == violation.message(views(records@)),
            },
    {
        let n = records.len();
        let terminated = n > 0 && match &records[n - 1] {
            Record::EndOfMessage => true,
            _ => false,
        };
        if !terminated {
            let msg = String::from_str(
                "Response did not end in EndOfMessage instead ended in: ",
            ).concat(debug_last(&records).as_str());
            return fail(msg, crate::Response::KeInvalid(records));
        }
        let ghost body = views(records@).drop_last();
        let mut next_protocol: Option<Vec<u16>> = None;
        let mut errors: Vec<u16> = Vec::new();
        let mut warnings: Vec<u16> = Vec::new();
        let mut aead: Option<Vec<u16>> = None;
        let mut cookies: Vec<NtsCookie> = Vec::new();
        let mut server: Option<String> = None;
        let mut port: Option<u16> = None;
        let mut i: usize = 0;
        assert(body.skip(0) == body);
        assert(cookie_views(cookies@) == Seq::<Seq<u8>>::empty());
        while i < n - 1
            invariant
                n == records.len(),
                n > 0,
                i <= n - 1,
                body == views(records@).drop_last(),
                validate(views(records@)) == ResponseView::empty().absorb_all(body),
                (ResponseView {
                    next_protocol: option_ids_view(next_protocol),
                    errors: errors@,
                    warnings: warnings@,
                    aead: option_ids_view(aead),
                    cookies: cookie_views(cookies@),
                    server: option_string_view(server),
                    port,
                }).absorb_all(body.skip(i as int)) == ResponseView::empty().absorb_all(body),
            decreases n - 1 - i,
        {
            let ghost before = ResponseView {
                next_protocol: option_ids_view(next_protocol),
                errors: errors@,
                warnings: warnings@,
                aead: option_ids_view(aead),
                cookies: cookie_views(cookies@),
                server: option_string_view(server),
                port,
            };
            let ghost rest = body.skip(i as int);
            assert(rest[0] == records@[i as int]@);
            assert(rest.drop_first() == body.skip(i + 1));
            match &records[i] {
                Record::NextProtocol { protocol_ids } => {
                    if next_protocol.is_some() {
                        return fail(
                            String::from_str(
                                "Response included more then one NTS Next Protocol Negotiation record",
                            ),
                            crate::Response::KeInvalid(records),
                        );
                    }
                    next_protocol = Some(protocol_ids.clone());
                },
                Record::Error { errorcode } => {
                    errors.push(*errorcode);
                },
                Record::Warning { warningcode } => {
                    warnings.push(*warningcode);
                },
                Record::AeadAlgorithm { algorithm_ids, .. } => {
                    if aead.is_some() {
                        return fail(
                            String::from_str(
                                "Response included more then one AEAD Algorithm Negotiation record",
                            ),
                            crate::Response::KeInvalid(records),
                        );
                    }
                    aead = Some(algorithm_ids.clone());
                },
                Record::NewCookie { cookie_data } => {
                    let ghost old_cookies = cookies@;
                    cookies.push(NtsCookie(RawBytes(cookie_data.clone())));
                    assert(cookie_views(cookies@) == cookie_views(old_cookies).push(
                        cookie_data@,
                    ));
                },
                Record::Server { name, .. } => {
                    if server.is_some() {
                        return fail(
                            String::from_str(
                                "Response included more then one NTPv4 Server Negotiation record",
                            ),
                            crate::Response::KeInvalid(records),
                        );
                    }
                    server = Some(name.clone());
                },
                Record::Port { port: record_port, .. } => {
                    if port.is_some() {
                        return fail(
                            String::from_str(
                                "Response included more then one NTPv4 Port Negotiation record",
                            ),
                            crate::Response::KeInvalid(records),
                        );
                    }
                    port = Some(*record_port);
                },
                other => {
                    let msg = String::from_str("Response included an unexpected field: ").concat(
                        debug_record(other).as_str(),
                    );
                    return fail(msg, crate::Response::KeInvalid(records));
                },
            }
            i += 1;
        }
        assert(body.skip(i as int).len() == 0);
        Ok(Response { next_protocol, errors, warnings, aead, cookies, server, port })
    }
}

} // verus!
