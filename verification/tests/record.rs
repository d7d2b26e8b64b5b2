use network_time_pester::record::{decode, encode, DecodeError, Record, RecordDecoder};

fn sample_records() -> Vec<Record> {
    vec![
        Record::EndOfMessage,
        Record::NextProtocol { protocol_ids: vec![] },
        Record::NextProtocol { protocol_ids: vec![0, 0x8001, 0xffff] },
        Record::Error { errorcode: 1 },
        Record::Warning { warningcode: 0x1234 },
        Record::AeadAlgorithm { critical: false, algorithm_ids: vec![15] },
        Record::AeadAlgorithm { critical: true, algorithm_ids: vec![15, 17] },
        Record::NewCookie { cookie_data: vec![] },
        Record::NewCookie { cookie_data: vec![0xde, 0xad, 0xbe, 0xef] },
        Record::Server { critical: false, name: String::from("time.example.com") },
        Record::Server { critical: true, name: String::new() },
        Record::Port { critical: false, port: 123 },
        Record::Port { critical: true, port: 4460 },
        Record::Unknown { record_type: 8, critical: false, data: vec![] },
        Record::Unknown { record_type: 0x4008, critical: true, data: vec![1, 2, 3] },
        Record::Unknown { record_type: 0x7fff, critical: false, data: vec![9] },
    ]
}

#[test]
fn end_of_message_is_four_bytes() {
    assert_eq!(encode(&Record::EndOfMessage), vec![0x80, 0x00, 0x00, 0x00]);
}

#[test]
fn encode_next_protocol() {
    let record = Record::NextProtocol { protocol_ids: vec![0, 0x8001] };
    assert_eq!(encode(&record), vec![0x80, 0x01, 0x00, 0x04, 0x00, 0x00, 0x80, 0x01]);
}

#[test]
fn encode_error_and_warning() {
    assert_eq!(encode(&Record::Error { errorcode: 1 }), vec![0x80, 0x02, 0x00, 0x02, 0x00, 0x01]);
    assert_eq!(
        encode(&Record::Warning { warningcode: 0x0102 }),
        vec![0x80, 0x03, 0x00, 0x02, 0x01, 0x02]
    );
}

#[test]
fn encode_aead_keeps_the_critical_flag() {
    let plain = Record::AeadAlgorithm { critical: false, algorithm_ids: vec![15] };
    let critical = Record::AeadAlgorithm { critical: true, algorithm_ids: vec![15] };
    assert_eq!(encode(&plain), vec![0x00, 0x04, 0x00, 0x02, 0x00, 0x0f]);
    assert_eq!(encode(&critical), vec![0x80, 0x04, 0x00, 0x02, 0x00, 0x0f]);
}

#[test]
fn encode_cookie_is_never_critical() {
    let record = Record::NewCookie { cookie_data: vec![0xaa, 0xbb, 0xcc] };
    assert_eq!(encode(&record), vec![0x00, 0x05, 0x00, 0x03, 0xaa, 0xbb, 0xcc]);
}

#[test]
fn encode_server_and_port() {
    let server = Record::Server { critical: true, name: String::from("ab") };
    assert_eq!(encode(&server), vec![0x80, 0x06, 0x00, 0x02, b'a', b'b']);
    let port = Record::Port { critical: false, port: 123 };
    assert_eq!(encode(&port), vec![0x00, 0x07, 0x00, 0x02, 0x00, 0x7b]);
}

#[test]
fn encode_unknown() {
    let record = Record::Unknown { record_type: 0x4008, critical: true, data: vec![7, 8] };
    assert_eq!(encode(&record), vec![0xc0, 0x08, 0x00, 0x02, 7, 8]);
}

#[test]
fn round_trip_of_every_kind() {
    for record in sample_records() {
        assert!(record.is_encodable());
        let bytes = encode(&record);
        assert_eq!(decode(&bytes), Ok((record, bytes.len())));
    }
}

#[test]
fn decode_reports_the_bytes_it_took() {
    let mut bytes = encode(&Record::Port { critical: false, port: 4460 });
    bytes.extend_from_slice(&[0x80, 0x00, 0x00]);
    assert_eq!(decode(&bytes), Ok((Record::Port { critical: false, port: 4460 }, 6)));
}

#[test]
fn decode_needs_a_whole_header() {
    assert_eq!(decode(&[]), Err(DecodeError::NeedMoreData));
    assert_eq!(decode(&[0x80]), Err(DecodeError::NeedMoreData));
    assert_eq!(decode(&[0x80, 0x00, 0x00]), Err(DecodeError::NeedMoreData));
}

#[test]
fn decode_needs_a_whole_body() {
    assert_eq!(decode(&[0x00, 0x05, 0x00, 0x03, 1, 2]), Err(DecodeError::NeedMoreData));
    assert_eq!(
        decode(&[0x00, 0x05, 0x00, 0x03, 1, 2, 3]),
        Ok((Record::NewCookie { cookie_data: vec![1, 2, 3] }, 7))
    );
}

#[test]
fn unknown_type_never_fails_and_keeps_its_body() {
    assert_eq!(
        decode(&[0x12, 0x34, 0x00, 0x02, 0xca, 0xfe]),
        Ok((Record::Unknown { record_type: 0x1234, critical: false, data: vec![0xca, 0xfe] }, 6))
    );
    assert_eq!(
        decode(&[0xff, 0xff, 0x00, 0x00]),
        Ok((Record::Unknown { record_type: 0x7fff, critical: true, data: vec![] }, 4))
    );
}

#[test]
fn known_type_in_a_wrong_shape_decodes_to_unknown() {
    // end of message without the critical bit
    assert_eq!(
        decode(&[0x00, 0x00, 0x00, 0x00]),
        Ok((Record::Unknown { record_type: 0, critical: false, data: vec![] }, 4))
    );
    // end of message with a body
    assert_eq!(
        decode(&[0x80, 0x00, 0x00, 0x01, 9]),
        Ok((Record::Unknown { record_type: 0, critical: true, data: vec![9] }, 5))
    );
    // next protocol list of odd length
    assert_eq!(
        decode(&[0x80, 0x01, 0x00, 0x01, 9]),
        Ok((Record::Unknown { record_type: 1, critical: true, data: vec![9] }, 5))
    );
    // error code of four bytes
    assert_eq!(
        decode(&[0x80, 0x02, 0x00, 0x04, 0, 1, 0, 2]),
        Ok((Record::Unknown { record_type: 2, critical: true, data: vec![0, 1, 0, 2] }, 8))
    );
    // a critical cookie
    assert_eq!(
        decode(&[0x80, 0x05, 0x00, 0x01, 9]),
        Ok((Record::Unknown { record_type: 5, critical: true, data: vec![9] }, 5))
    );
    // a server name that is no UTF-8
    assert_eq!(
        decode(&[0x00, 0x06, 0x00, 0x02, 0xff, 0xfe]),
        Ok((Record::Unknown { record_type: 6, critical: false, data: vec![0xff, 0xfe] }, 6))
    );
    // a port number of three bytes
    assert_eq!(
        decode(&[0x00, 0x07, 0x00, 0x03, 1, 2, 3]),
        Ok((Record::Unknown { record_type: 7, critical: false, data: vec![1, 2, 3] }, 7))
    );
}

#[test]
fn unknown_with_a_known_shape_comes_back_as_the_known_kind() {
    let disguised = Record::Unknown { record_type: 5, critical: false, data: vec![1, 2] };
    assert!(disguised.is_encodable());
    let bytes = encode(&disguised);
    assert_eq!(decode(&bytes), Ok((Record::NewCookie { cookie_data: vec![1, 2] }, 6)));
}

#[test]
fn server_name_may_be_any_utf8_on_the_way_in() {
    let name = "zeit.例え.de";
    let mut bytes = vec![0x00, 0x06, 0x00, name.len() as u8];
    bytes.extend_from_slice(name.as_bytes());
    assert_eq!(
        decode(&bytes),
        Ok((Record::Server { critical: false, name: String::from(name) }, 4 + name.len()))
    );
}

#[test]
fn what_the_encoder_refuses() {
    assert!(Record::NextProtocol { protocol_ids: vec![0; 32766] }.is_encodable());
    assert!(!Record::NextProtocol { protocol_ids: vec![0; 32767] }.is_encodable());
    assert!(Record::AeadAlgorithm { critical: false, algorithm_ids: vec![15; 32766] }.is_encodable());
    assert!(!Record::AeadAlgorithm { critical: false, algorithm_ids: vec![15; 32767] }.is_encodable());
    assert!(Record::NewCookie { cookie_data: vec![0; 65535] }.is_encodable());
    assert!(!Record::NewCookie { cookie_data: vec![0; 65536] }.is_encodable());
    assert!(Record::Server { critical: false, name: "a".repeat(65534) }.is_encodable());
    assert!(!Record::Server { critical: false, name: "a".repeat(65535) }.is_encodable());
    assert!(!Record::Server { critical: false, name: String::from("zürich") }.is_encodable());
    assert!(Record::Unknown { record_type: 0x7fff, critical: true, data: vec![0; 65535] }.is_encodable());
    assert!(!Record::Unknown { record_type: 0x8000, critical: true, data: vec![] }.is_encodable());
    assert!(!Record::Unknown { record_type: 9, critical: true, data: vec![0; 65536] }.is_encodable());
}

#[test]
fn longest_records_round_trip() {
    let ids = Record::NextProtocol { protocol_ids: (0..32766).map(|i| i as u16).collect() };
    let bytes = encode(&ids);
    assert_eq!(bytes.len(), 4 + 65532);
    assert_eq!(&bytes[..4], &[0x80, 0x01, 0xff, 0xfc]);
    assert_eq!(decode(&bytes), Ok((ids, 65536)));
    let cookie = Record::NewCookie { cookie_data: vec![0x5a; 65535] };
    let bytes = encode(&cookie);
    assert_eq!(&bytes[..4], &[0x00, 0x05, 0xff, 0xff]);
    assert_eq!(decode(&bytes), Ok((cookie, 65539)));
}

#[test]
fn decoder_starts_empty_and_waits() {
    let mut decoder = RecordDecoder::new();
    assert_eq!(decoder.step(), Ok(None));
    decoder.extend(&[0x80, 0x00, 0x00]);
    assert_eq!(decoder.step(), Ok(None));
    decoder.extend(&[0x00]);
    assert_eq!(decoder.step(), Ok(Some(Record::EndOfMessage)));
    assert_eq!(decoder.step(), Ok(None));
}

#[test]
fn decoder_keeps_what_is_behind_a_record() {
    let mut decoder = RecordDecoder::new();
    let mut bytes = encode(&Record::Error { errorcode: 2 });
    bytes.extend(encode(&Record::EndOfMessage));
    bytes.extend_from_slice(&[0x00, 0x05, 0x00]);
    decoder.extend(&bytes);
    assert_eq!(decoder.step(), Ok(Some(Record::Error { errorcode: 2 })));
    assert_eq!(decoder.step(), Ok(Some(Record::EndOfMessage)));
    assert_eq!(decoder.step(), Ok(None));
    decoder.extend(&[0x01, 0x77]);
    assert_eq!(decoder.step(), Ok(Some(Record::NewCookie { cookie_data: vec![0x77] })));
}

#[test]
fn drain_hands_out_all_whole_records() {
    let records = sample_records();
    let mut bytes = Vec::new();
    for record in &records {
        bytes.extend(encode(record));
    }
    let mut decoder = RecordDecoder::new();
    decoder.extend(&bytes);
    decoder.extend(&[0x80, 0x00]);
    assert_eq!(decoder.drain(), Ok(records));
    assert_eq!(decoder.drain(), Ok(vec![]));
    decoder.extend(&[0x00, 0x00]);
    assert_eq!(decoder.drain(), Ok(vec![Record::EndOfMessage]));
}

#[test]
fn one_byte_at_a_time_gives_the_same_records() {
    let records = sample_records();
    let mut bytes = Vec::new();
    for record in &records {
        bytes.extend(encode(record));
    }
    let mut decoder = RecordDecoder::new();
    let mut seen = Vec::new();
    for byte in &bytes {
        decoder.extend(&[*byte]);
        seen.extend(decoder.drain().unwrap());
    }
    assert_eq!(seen, records);
}

#[test]
fn every_cut_in_two_gives_the_same_records() {
    let records = sample_records();
    let mut bytes = Vec::new();
    for record in &records {
        bytes.extend(encode(record));
    }
    for cut in 0..=bytes.len() {
        let mut decoder = RecordDecoder::new();
        let mut seen = Vec::new();
        decoder.extend(&bytes[..cut]);
        seen.extend(decoder.drain().unwrap());
        decoder.extend(&bytes[cut..]);
        seen.extend(decoder.drain().unwrap());
        assert_eq!(seen, records);
    }
}

fn expected(type_field: u16, body: &[u8]) -> Record {
    let critical = type_field >= 0x8000;
    let code = type_field % 0x8000;
    let ids = |body: &[u8]| -> Vec<u16> {
        body.chunks(2).map(|pair| u16::from(pair[0]) * 256 + u16::from(pair[1])).collect()
    };
    match code {
        0 if body.is_empty() && critical => Record::EndOfMessage,
        1 if body.len() % 2 == 0 && critical => Record::NextProtocol { protocol_ids: ids(body) },
        2 if body.len() == 2 && critical => Record::Error { errorcode: ids(body)[0] },
        3 if body.len() == 2 && critical => Record::Warning { warningcode: ids(body)[0] },
        4 if body.len() % 2 == 0 => {
            Record::AeadAlgorithm { critical, algorithm_ids: ids(body) }
        }
        5 if !critical => Record::NewCookie { cookie_data: body.to_vec() },
        6 if std::str::from_utf8(body).is_ok() => {
            Record::Server { critical, name: String::from_utf8(body.to_vec()).unwrap() }
        }
        7 if body.len() == 2 => Record::Port { critical, port: ids(body)[0] },
        _ => Record::Unknown { record_type: code, critical, data: body.to_vec() },
    }
}

fn frame(type_field: u16, body: &[u8]) -> Vec<u8> {
    let mut bytes = vec![
        (type_field / 256) as u8,
        (type_field % 256) as u8,
        (body.len() / 256) as u8,
        (body.len() % 256) as u8,
    ];
    bytes.extend_from_slice(body);
    bytes
}

#[test]
fn every_type_field_decodes_as_the_format_says() {
    let bodies: [&[u8]; 8] = [
        &[],
        &[0x41],
        &[0x00, 0x7b],
        &[0xff, 0xfe],
        &[0xc3, 0xbc],
        &[1, 2, 3],
        &[0, 1, 0, 2],
        &[0xe4, 0xbe, 0x8b, 0x2e, 0x64, 0x65],
    ];
    for type_field in 0..=u16::MAX {
        for body in bodies {
            let bytes = frame(type_field, body);
            assert_eq!(decode(&bytes), Ok((expected(type_field, body), bytes.len())));
        }
    }
}

#[test]
fn what_was_decoded_encodes_to_the_bytes_it_came_from() {
    let bodies: [&[u8]; 6] =
        [&[], &[0x41], &[0x00, 0x7b], &[0xff, 0xfe], &[1, 2, 3], &[0, 1, 0, 2]];
    for type_field in (0..=u16::MAX).filter(|t| t % 0x8000 < 16 || t % 251 == 0) {
        for body in bodies {
            let bytes = frame(type_field, body);
            let (record, _) = decode(&bytes).unwrap();
            assert!(record.is_encodable());
            assert_eq!(encode(&record), bytes);
        }
    }
}

#[test]
fn body_lengths_up_to_the_limit_decode() {
    for len in [255usize, 256, 257, 1000, 65534, 65535] {
        let body = vec![0x61u8; len];
        for type_field in [0x0005u16, 0x0006, 0x8006, 0x0009, 0x8004] {
            let bytes = frame(type_field, &body);
            assert_eq!(decode(&bytes), Ok((expected(type_field, &body), 4 + len)));
            assert_eq!(decode(&bytes[..bytes.len() - 1]), Err(DecodeError::NeedMoreData));
        }
    }
}
