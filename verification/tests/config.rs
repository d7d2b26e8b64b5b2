use network_time_pester::nts::NtsCookie;
use network_time_pester::udp::{pester_raw, udp_server_still_alive, PollAnswer, Received, UdpResponse};
use network_time_pester::{
    Fault, KeyPair, NtsServer, RawBytes, Response, Server, TestConfig, TestError, UdpTarget,
};
use std::time::Duration;

fn pair() -> KeyPair {
    KeyPair { c2s: [1; 32], s2c: [2; 32] }
}

fn nts_config(cookies: Vec<NtsCookie>) -> TestConfig {
    let target = UdpTarget::V4 { ip: 0x0a00_0001, port: 123 };
    TestConfig {
        server: Server::Nts(NtsServer::new(String::from("nts.example"), 4460, cookies, target, pair())),
        timeout: Duration::from_millis(100),
    }
}

fn ntp_config() -> TestConfig {
    TestConfig {
        server: Server::Ntp(UdpTarget::V6 { ip: 1, port: 123, flowinfo: 0, scope_id: 0 }),
        timeout: Duration::from_millis(100),
    }
}

#[test]
fn udp_target_of_either_server() {
    assert_eq!(ntp_config().udp(), UdpTarget::V6 { ip: 1, port: 123, flowinfo: 0, scope_id: 0 });
    assert_eq!(nts_config(vec![]).udp(), UdpTarget::V4 { ip: 0x0a00_0001, port: 123 });
}

#[test]
fn key_establishment_is_skipped_without_nts() {
    assert!(matches!(ntp_config().ke(), Err(TestError::Skipped)));
    let connection = nts_config(vec![]).ke().unwrap();
    assert_eq!(connection.ke_host(), "nts.example");
    assert_eq!(connection.ke_port(), 4460);
}

#[test]
fn cookies_are_skipped_without_nts() {
    assert_eq!(ntp_config().take_cookie(), Err(TestError::Skipped));
    let mut config = nts_config(vec![NtsCookie::new(vec![1]), NtsCookie::new(vec![2])]);
    assert_eq!(config.take_cookie(), Ok(Some((NtsCookie::new(vec![2]), pair()))));
    assert_eq!(config.take_cookie(), Ok(Some((NtsCookie::new(vec![1]), pair()))));
    assert_eq!(config.take_cookie(), Ok(None));
    assert_eq!(config.timeout, Duration::from_millis(100));
}

#[test]
fn refill_is_skipped_without_nts() {
    let target = UdpTarget::V4 { ip: 0x0a00_0001, port: 123 };
    let fresh = vec![NtsCookie::new(vec![8]), NtsCookie::new(vec![9])];
    assert_eq!(ntp_config().refill(fresh.clone(), target, pair()), Err(TestError::Skipped));
    let mut config = nts_config(vec![]);
    assert_eq!(config.take_cookie(), Ok(None));
    assert_eq!(
        config.refill(fresh, target, pair()),
        Ok((NtsCookie::new(vec![9]), pair()))
    );
    assert_eq!(config.take_cookie(), Ok(Some((NtsCookie::new(vec![8]), pair()))));
    assert_eq!(
        config.refill(vec![], UdpTarget::V4 { ip: 1, port: 1 }, pair()),
        Err(TestError::Error(
            Fault::Invariant,
            String::from("Server switched to which UDP host it points")
        ))
    );
}

#[test]
fn answer_is_what_the_datagram_filled() {
    let mut buffer = vec![0u8; 9000];
    buffer[..3].copy_from_slice(&[7, 8, 9]);
    assert_eq!(
        pester_raw(Received::Datagram { buffer: buffer.clone(), len: 3 }),
        Ok(Some(UdpResponse(vec![7, 8, 9])))
    );
    assert_eq!(
        pester_raw(Received::Datagram { buffer: buffer.clone(), len: 0 }),
        Ok(Some(UdpResponse(vec![])))
    );
    assert_eq!(
        pester_raw(Received::Datagram { buffer: vec![1, 2], len: 5 }),
        Ok(Some(UdpResponse(vec![1, 2])))
    );
}

#[test]
fn timeout_is_no_answer_and_no_error() {
    assert_eq!(pester_raw(Received::TimedOut), Ok(None));
}

#[test]
fn socket_error_is_an_error() {
    assert_eq!(
        pester_raw(Received::Failed { reason: String::from("connection refused") }),
        Err(TestError::Error(
            Fault::Other,
            String::from("Could not receive response: connection refused")
        ))
    );
}

#[test]
fn server_is_alive_if_it_answers_validly() {
    let valid = PollAnswer { packet: RawBytes(vec![0x24; 48]), valid: true };
    assert_eq!(udp_server_still_alive(Ok(Some(valid))), Ok(()));
}

#[test]
fn server_that_answers_wrongly_fails() {
    let invalid = PollAnswer { packet: RawBytes(vec![0x24; 48]), valid: false };
    assert_eq!(
        udp_server_still_alive(Ok(Some(invalid))),
        Err(TestError::Fail(
            String::from("After test: Poll was answered by invalid response"),
            Some(Box::new(Response::UdpResponse(RawBytes(vec![0x24; 48]))))
        ))
    );
}

#[test]
fn server_that_is_silent_fails() {
    assert_eq!(
        udp_server_still_alive(Ok(None)),
        Err(TestError::Fail(
            String::from("After test: Server did no longer reply to normal poll"),
            None
        ))
    );
    assert_eq!(
        udp_server_still_alive(Err(TestError::Error(Fault::Other, String::from("broken pipe")))),
        Err(TestError::Fail(
            String::from(
                "After test: Server did no longer reply to normal poll. Error: A different error occurred: broken pipe"
            ),
            None
        ))
    );
}
