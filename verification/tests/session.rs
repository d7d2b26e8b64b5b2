use network_time_pester::nts::NtsCookie;
use network_time_pester::{Fault, KeyPair, NtsServer, TestError, UdpTarget};

fn keys(seed: u8) -> KeyPair {
    KeyPair { c2s: [seed; 32], s2c: [seed.wrapping_add(1); 32] }
}

fn cookies(seed: u8, count: u8) -> Vec<NtsCookie> {
    (0..count).map(|i| NtsCookie::new(vec![seed, i])).collect()
}

fn target() -> UdpTarget {
    UdpTarget::V4 { ip: 0x7f00_0001, port: 123 }
}

fn server(seed: u8, count: u8) -> NtsServer {
    NtsServer::new(String::from("ke.example.com"), 4460, cookies(seed, count), target(), keys(seed))
}

#[test]
fn server_keeps_where_it_is() {
    let server = server(1, 8);
    assert_eq!(server.udp_host(), target());
    assert_eq!(server.ke_host(), "ke.example.com");
    assert_eq!(server.ke_port(), 4460);
}

#[test]
fn cookies_come_out_last_in_first_out_with_their_keys() {
    let mut server = server(1, 3);
    assert_eq!(server.take_cookie(), Some((NtsCookie::new(vec![1, 2]), keys(1))));
    assert_eq!(server.take_cookie(), Some((NtsCookie::new(vec![1, 1]), keys(1))));
    assert_eq!(server.take_cookie(), Some((NtsCookie::new(vec![1, 0]), keys(1))));
    assert_eq!(server.take_cookie(), None);
    assert_eq!(server.take_cookie(), None);
}

#[test]
fn more_takes_than_cookies_call_for_a_refill() {
    let mut server = server(1, 3);
    let mut refills = 0;
    let mut handed = Vec::new();
    for _ in 0..5 {
        let taken = match server.take_cookie() {
            Some(taken) => taken,
            None => {
                refills += 1;
                server.refill(cookies(2, 8), target(), keys(2)).unwrap()
            }
        };
        handed.push(taken);
    }
    assert_eq!(refills, 1);
    assert_eq!(
        handed,
        vec![
            (NtsCookie::new(vec![1, 2]), keys(1)),
            (NtsCookie::new(vec![1, 1]), keys(1)),
            (NtsCookie::new(vec![1, 0]), keys(1)),
            (NtsCookie::new(vec![2, 7]), keys(2)),
            (NtsCookie::new(vec![2, 6]), keys(2)),
        ]
    );
    for (i, (cookie, _)) in handed.iter().enumerate() {
        for (other, _) in &handed[i + 1..] {
            assert_ne!(cookie, other);
        }
    }
}

#[test]
fn keys_go_with_the_refill_that_brought_the_cookie() {
    let mut server = server(1, 1);
    let mut round = 1u8;
    for _ in 0..20 {
        let (cookie, pair) = match server.take_cookie() {
            Some(taken) => taken,
            None => {
                round += 1;
                server.refill(cookies(round, 3), target(), keys(round)).unwrap()
            }
        };
        assert_eq!(pair, keys(cookie.as_bytes()[0]));
    }
    assert_eq!(round, 8);
}

// Two callers find the pool empty one after the other, as they do under a
// lock: one negotiation serves both.
#[test]
fn one_refill_serves_two_takers() {
    let mut server = server(1, 0);
    let mut refills = 0;
    let mut handed = Vec::new();
    for _ in 0..2 {
        let taken = match server.take_cookie() {
            Some(taken) => taken,
            None => {
                refills += 1;
                server.refill(cookies(5, 8), target(), keys(5)).unwrap()
            }
        };
        handed.push(taken);
    }
    assert_eq!(refills, 1);
    assert_ne!(handed[0].0, handed[1].0);
    assert_eq!(handed[0].1, keys(5));
    assert_eq!(handed[1].1, keys(5));
}

#[test]
fn refill_to_another_target_is_refused_and_changes_nothing() {
    let mut server = server(1, 0);
    let elsewhere = UdpTarget::V4 { ip: 0x7f00_0002, port: 123 };
    assert_eq!(
        server.refill(cookies(9, 8), elsewhere, keys(9)),
        Err(TestError::Error(
            Fault::Invariant,
            String::from("Server switched to which UDP host it points")
        ))
    );
    assert_eq!(server.take_cookie(), None);
    assert_eq!(server.udp_host(), target());
    assert_eq!(
        server.refill(cookies(3, 2), target(), keys(3)),
        Ok((NtsCookie::new(vec![3, 1]), keys(3)))
    );
    assert_eq!(server.take_cookie(), Some((NtsCookie::new(vec![3, 0]), keys(3))));
}

#[test]
fn refill_tells_targets_apart_by_every_part() {
    let base = UdpTarget::V6 { ip: 1, port: 123, flowinfo: 0, scope_id: 0 };
    let others = [
        UdpTarget::V6 { ip: 2, port: 123, flowinfo: 0, scope_id: 0 },
        UdpTarget::V6 { ip: 1, port: 124, flowinfo: 0, scope_id: 0 },
        UdpTarget::V6 { ip: 1, port: 123, flowinfo: 1, scope_id: 0 },
        UdpTarget::V6 { ip: 1, port: 123, flowinfo: 0, scope_id: 1 },
        UdpTarget::V4 { ip: 1, port: 123 },
    ];
    for other in others {
        let mut server =
            NtsServer::new(String::from("ke.example.com"), 4460, vec![], base, keys(1));
        assert!(server.refill(cookies(2, 1), other, keys(2)).is_err());
        assert_eq!(server.take_cookie(), None);
        assert_eq!(
            server.refill(cookies(2, 1), base, keys(2)),
            Ok((NtsCookie::new(vec![2, 0]), keys(2)))
        );
    }
}

#[test]
fn refill_without_cookies_is_refused_and_changes_nothing() {
    let mut server = server(1, 1);
    assert_eq!(server.take_cookie(), Some((NtsCookie::new(vec![1, 0]), keys(1))));
    assert_eq!(
        server.refill(vec![], target(), keys(2)),
        Err(TestError::Error(Fault::Invariant, String::from("Negotiation delivered no cookie")))
    );
    assert_eq!(server.take_cookie(), None);
    assert_eq!(
        server.refill(cookies(3, 1), target(), keys(3)),
        Ok((NtsCookie::new(vec![3, 0]), keys(3)))
    );
    assert_eq!(server.take_cookie(), None);
}

#[test]
fn refill_of_a_pool_with_cookies_is_refused_and_changes_nothing() {
    let mut server = server(1, 2);
    assert_eq!(
        server.refill(cookies(2, 8), target(), keys(2)),
        Err(TestError::Error(
            Fault::Invariant,
            String::from("Refill of a pool that still holds cookies")
        ))
    );
    assert_eq!(server.take_cookie(), Some((NtsCookie::new(vec![1, 1]), keys(1))));
    assert_eq!(server.take_cookie(), Some((NtsCookie::new(vec![1, 0]), keys(1))));
    assert_eq!(server.take_cookie(), None);
}

#[test]
fn refill_looks_at_the_pool_first_then_the_target_then_the_cookies() {
    let elsewhere = UdpTarget::V4 { ip: 0x7f00_0002, port: 123 };
    let mut full = server(1, 1);
    assert_eq!(
        full.refill(vec![], elsewhere, keys(2)),
        Err(TestError::Error(
            Fault::Invariant,
            String::from("Refill of a pool that still holds cookies")
        ))
    );
    let mut empty = server(1, 0);
    assert_eq!(
        empty.refill(vec![], elsewhere, keys(2)),
        Err(TestError::Error(
            Fault::Invariant,
            String::from("Server switched to which UDP host it points")
        ))
    );
}

#[test]
fn first_resolved_address_is_taken() {
    let first = UdpTarget::V6 { ip: 1, port: 123, flowinfo: 0, scope_id: 0 };
    let second = UdpTarget::V4 { ip: 0x7f00_0001, port: 123 };
    assert_eq!(UdpTarget::first_of("localhost", &vec![first, second]), Ok(first));
    assert_eq!(UdpTarget::first_of("localhost", &vec![second]), Ok(second));
}

#[test]
fn name_without_address_is_a_connection_error() {
    assert_eq!(
        UdpTarget::first_of("nowhere.example", &vec![]),
        Err(TestError::Error(
            Fault::Connection,
            String::from("Host has no IP entries: nowhere.example")
        ))
    );
}

#[test]
fn local_address_follows_the_family_of_the_target() {
    assert_eq!(
        UdpTarget::V4 { ip: 0x0a00_0001, port: 123 }.local_any(),
        UdpTarget::V4 { ip: 0, port: 0 }
    );
    assert_eq!(
        UdpTarget::V6 { ip: 7, port: 123, flowinfo: 3, scope_id: 2 }.local_any(),
        UdpTarget::V6 { ip: 0, port: 0, flowinfo: 0, scope_id: 0 }
    );
}
