use network_time_pester::cases::{KeCase, BAD_REQUEST, COOKIES_PER_ANSWER, RESERVED_ID};
use network_time_pester::nts::NtsCookie;
use network_time_pester::nts_ke::Response;
use network_time_pester::record::Record;
use network_time_pester::TestError;

fn answer(next_protocol: Option<Vec<u16>>, aead: Option<Vec<u16>>, cookies: usize) -> Response {
    Response {
        next_protocol,
        errors: vec![],
        warnings: vec![],
        aead,
        cookies: (0..cookies).map(|i| NtsCookie::new(vec![i as u8; 16])).collect(),
        server: None,
        port: None,
    }
}

fn failed(msg: &str, response: Response) -> Result<(), TestError> {
    Err(TestError::Fail(
        String::from(msg),
        Some(Box::new(network_time_pester::Response::KeResponse(response))),
    ))
}

#[test]
fn case_constants() {
    assert_eq!(RESERVED_ID, 0xffff);
    assert_eq!(BAD_REQUEST, 1);
    assert_eq!(COOKIES_PER_ANSWER, 8);
}

#[test]
fn cases_are_listed_in_order() {
    assert_eq!(
        KeCase::all(),
        vec![
            KeCase::Happy,
            KeCase::ErrorOnUnknownNextProtocol,
            KeCase::IgnoreUnknownExtraProtocols,
            KeCase::ErrorOnUnknownAead,
            KeCase::IgnoreUnknownExtraAead,
            KeCase::EmptyMessageResolvesInError,
        ]
    );
    let names: Vec<&str> = KeCase::all().into_iter().map(|c| c.name()).collect();
    assert_eq!(
        names,
        vec![
            "nts_ke::happy",
            "nts_ke::error_on_unknown_next_protocol",
            "nts_ke::ignore_unknown_extra_protocols",
            "nts_ke::error_on_unknown_aead",
            "nts_ke::ignore_unknown_extra_aead",
            "nts_ke::empty_message_resolves_in_error",
        ]
    );
}

#[test]
fn what_each_case_asks() {
    let end = Record::EndOfMessage;
    let protocols = |ids: Vec<u16>| Record::NextProtocol { protocol_ids: ids };
    let aead = |ids: Vec<u16>| Record::AeadAlgorithm { critical: false, algorithm_ids: ids };
    assert_eq!(KeCase::Happy.request(), vec![protocols(vec![0]), aead(vec![15]), end.clone()]);
    assert_eq!(
        KeCase::ErrorOnUnknownNextProtocol.request(),
        vec![protocols(vec![0xffff]), aead(vec![15]), end.clone()]
    );
    assert_eq!(
        KeCase::IgnoreUnknownExtraProtocols.request(),
        vec![protocols(vec![0xffff, 0]), aead(vec![15]), end.clone()]
    );
    assert_eq!(
        KeCase::ErrorOnUnknownAead.request(),
        vec![protocols(vec![0]), aead(vec![0xffff]), end.clone()]
    );
    assert_eq!(
        KeCase::IgnoreUnknownExtraAead.request(),
        vec![protocols(vec![0]), aead(vec![0xffff, 15]), end.clone()]
    );
    assert_eq!(KeCase::EmptyMessageResolvesInError.request(), vec![end]);
}

#[test]
fn happy_passes_a_compliant_answer() {
    assert_eq!(KeCase::Happy.judge(answer(Some(vec![0]), Some(vec![15]), 8)), Ok(()));
}

#[test]
fn happy_fails_on_the_first_thing_wrong() {
    let wrong = answer(Some(vec![0, 1]), Some(vec![17]), 3);
    assert_eq!(
        KeCase::Happy.judge(wrong.clone()),
        failed("Server did reply with different protocols then we asked for", wrong)
    );
    let wrong = answer(None, Some(vec![15]), 8);
    assert_eq!(
        KeCase::Happy.judge(wrong.clone()),
        failed("Server did reply with different protocols then we asked for", wrong)
    );
    let wrong = answer(Some(vec![0]), Some(vec![17]), 8);
    assert_eq!(
        KeCase::Happy.judge(wrong.clone()),
        failed("Server did reply with different AEAD then we asked for", wrong)
    );
    let wrong = Response { errors: vec![2], warnings: vec![1], ..answer(Some(vec![0]), Some(vec![15]), 8) };
    assert_eq!(
        KeCase::Happy.judge(wrong.clone()),
        failed("Server did reply with error code to normal request", wrong)
    );
    let wrong = Response { warnings: vec![1], ..answer(Some(vec![0]), Some(vec![15]), 8) };
    assert_eq!(
        KeCase::Happy.judge(wrong.clone()),
        failed("Server did reply with warning code to normal request", wrong)
    );
    for count in [0usize, 7, 9] {
        let wrong = answer(Some(vec![0]), Some(vec![15]), count);
        assert_eq!(
            KeCase::Happy.judge(wrong.clone()),
            failed("Server did not reply with 8 cookies", wrong)
        );
    }
}

#[test]
fn unknown_next_protocol_wants_an_empty_list() {
    let case = KeCase::ErrorOnUnknownNextProtocol;
    assert_eq!(case.judge(answer(Some(vec![]), None, 0)), Ok(()));
    for next_protocol in [None, Some(vec![0]), Some(vec![0xffff])] {
        let wrong = answer(next_protocol, Some(vec![15]), 8);
        assert_eq!(
            case.judge(wrong.clone()),
            failed("Server did not respond with empty next protocol", wrong)
        );
    }
}

#[test]
fn extra_protocol_is_passed_over() {
    let case = KeCase::IgnoreUnknownExtraProtocols;
    assert_eq!(case.judge(answer(Some(vec![0]), None, 0)), Ok(()));
    for next_protocol in [None, Some(vec![]), Some(vec![0xffff, 0]), Some(vec![1])] {
        let wrong = answer(next_protocol, Some(vec![15]), 8);
        assert_eq!(
            case.judge(wrong.clone()),
            failed("Server did not respond with expected next protocol", wrong)
        );
    }
}

#[test]
fn unknown_aead_wants_an_empty_list() {
    let case = KeCase::ErrorOnUnknownAead;
    assert_eq!(case.judge(answer(None, Some(vec![]), 0)), Ok(()));
    for aead in [None, Some(vec![15]), Some(vec![0xffff])] {
        let wrong = answer(Some(vec![0]), aead, 8);
        assert_eq!(case.judge(wrong.clone()), failed("Server did not respond with empty aead", wrong));
    }
}

#[test]
fn extra_aead_is_passed_over() {
    let case = KeCase::IgnoreUnknownExtraAead;
    assert_eq!(case.judge(answer(None, Some(vec![15]), 0)), Ok(()));
    for aead in [None, Some(vec![]), Some(vec![0xffff, 15]), Some(vec![17])] {
        let wrong = answer(Some(vec![0]), aead, 8);
        assert_eq!(
            case.judge(wrong.clone()),
            failed("Server did not respond with expected aead", wrong)
        );
    }
}

#[test]
fn empty_message_wants_a_bad_request_error() {
    let case = KeCase::EmptyMessageResolvesInError;
    assert_eq!(case.judge(Response { errors: vec![1], ..answer(None, None, 0) }), Ok(()));
    for errors in [vec![], vec![0], vec![2], vec![1, 1], vec![0, 1]] {
        let wrong = Response { errors, ..answer(None, None, 0) };
        assert_eq!(
            case.judge(wrong.clone()),
            failed("Server did not respond with error to empty message", wrong)
        );
    }
}
