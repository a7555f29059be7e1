use player_checker::client::{Client, Step, DEFAULT_RETRY_CAP};
use player_checker::decode::decode_player_list;
use player_checker::wire::{encode_player_request, read_le_i32, read_le_u32, ProtocolError};

fn player_list_packet(records: &[(u8, &[u8], f32)]) -> Vec<u8> {
    let mut p = vec![0xff, 0xff, 0xff, 0xff, 0x44, records.len() as u8];
    for (index, name, duration) in records {
        p.push(*index);
        p.extend_from_slice(name);
        p.push(0);
        p.extend_from_slice(&[0, 0, 0, 0]); // score, ignored
        p.extend_from_slice(&duration.to_le_bytes());
    }
    p
}

fn challenge_packet(token: i32) -> Vec<u8> {
    let mut p = vec![0xff, 0xff, 0xff, 0xff, 0x41];
    p.extend_from_slice(&token.to_le_bytes());
    p
}

#[test]
fn encode_sentinel_challenge() {
    let bytes = encode_player_request(-1);
    assert_eq!(bytes, vec![0xff, 0xff, 0xff, 0xff, 0x55, 0xff, 0xff, 0xff, 0xff]);
}

#[test]
fn encode_little_endian_challenge() {
    let bytes = encode_player_request(305419896); // 0x12345678
    assert_eq!(bytes.len(), 9);
    assert_eq!(&bytes[..5], &[0xff, 0xff, 0xff, 0xff, 0x55]);
    assert_eq!(&bytes[5..], &[0x78, 0x56, 0x34, 0x12]);
}

#[test]
fn encode_zero_challenge() {
    let bytes = encode_player_request(0);
    assert_eq!(&bytes[5..], &[0x00, 0x00, 0x00, 0x00]);
}

#[test]
fn read_le_round_trips() {
    assert_eq!(read_le_u32(0x78, 0x56, 0x34, 0x12), 0x12345678);
    assert_eq!(read_le_i32(0xff, 0xff, 0xff, 0xff), -1);
    assert_eq!(read_le_i32(0x00, 0x00, 0x00, 0x80), i32::MIN);
}

#[test]
fn decode_two_records() {
    let packet = player_list_packet(&[(0, b"Alice", 600.0), (1, b"Bob", 30.5)]);
    let players = decode_player_list(&packet).unwrap();
    assert_eq!(players.len(), 2);
    assert_eq!(players[0].get_name(), b"Alice");
    assert_eq!(players[1].get_name(), b"Bob");
    assert_eq!(f32::from_bits(players[0].duration_bits()), 600.0);
    assert_eq!(f32::from_bits(players[1].duration_bits()), 30.5);
}

#[test]
fn decode_empty_roster() {
    let packet = player_list_packet(&[]);
    let players = decode_player_list(&packet).unwrap();
    assert_eq!(players.len(), 0);
}

#[test]
fn decode_truncated_before_duration() {
    let mut packet = vec![0xff, 0xff, 0xff, 0xff, 0x44, 1];
    packet.push(0); // index
    packet.extend_from_slice(b"Al\0");
    packet.extend_from_slice(&[0, 0, 0, 0]); // score
    packet.extend_from_slice(&[0x00, 0x00]); // only half a duration
    assert_eq!(decode_player_list(&packet), Err(ProtocolError::Truncated));
}

#[test]
fn decode_truncated_name() {
    let mut packet = vec![0xff, 0xff, 0xff, 0xff, 0x44, 1];
    packet.push(0); // index
    packet.extend_from_slice(b"NoTerminator");
    assert_eq!(decode_player_list(&packet), Err(ProtocolError::Truncated));
}

#[test]
fn decode_count_without_records() {
    let packet = vec![0xff, 0xff, 0xff, 0xff, 0x44, 3];
    assert_eq!(decode_player_list(&packet), Err(ProtocolError::Truncated));
}

#[test]
fn client_starts_with_sentinel() {
    let mut client = Client::new();
    assert_eq!(client.challenge, -1);
    assert_eq!(client.retry_cap, DEFAULT_RETRY_CAP);
    let first = client.begin_query();
    assert_eq!(first, encode_player_request(-1));
}

#[test]
fn challenge_updates_token_and_resends_once() {
    let mut client = Client::new();
    let _first = client.begin_query();
    let step = client.on_packet(true, &challenge_packet(305419896));
    assert_eq!(client.challenge, 305419896);
    match step {
        Step::Resend(bytes) => {
            assert_eq!(&bytes[..5], &[0xff, 0xff, 0xff, 0xff, 0x55]);
            assert_eq!(&bytes[5..], &[0x78, 0x56, 0x34, 0x12]);
        }
        _ => panic!("a challenge response must cause exactly one resend"),
    }
}

#[test]
fn challenge_overwrites_cached_token() {
    let mut client = Client::new();
    let _first = client.begin_query();
    let _ = client.on_packet(true, &challenge_packet(7));
    assert_eq!(client.challenge, 7);
    let step = client.on_packet(true, &challenge_packet(-42));
    assert_eq!(client.challenge, -42);
    assert!(matches!(step, Step::Resend(_)));
}

#[test]
fn foreign_sender_is_discarded() {
    let mut client = Client::new();
    let _first = client.begin_query();
    let step = client.on_packet(false, &challenge_packet(99));
    assert!(matches!(step, Step::Discard));
    assert_eq!(client.challenge, -1, "a stray packet must not touch the token");
    // The call goes on: a genuine player list still finishes it.
    let packet = player_list_packet(&[(0, b"Eve", 1.0)]);
    match client.on_packet(true, &packet) {
        Step::Done(players) => {
            assert_eq!(players.len(), 1);
            assert_eq!(players[0].get_name(), b"Eve");
        }
        _ => panic!("the query must survive a stray packet"),
    }
    assert_eq!(client.challenge, -1);
}

#[test]
fn unexpected_header_fails() {
    let mut client = Client::new();
    let _first = client.begin_query();
    let packet = vec![0xff, 0xff, 0xff, 0xff, 0x99, 0x00];
    match client.on_packet(true, &packet) {
        Step::Fail(e) => assert_eq!(e, ProtocolError::UnexpectedHeader),
        _ => panic!("header 0x99 must fail the query"),
    }
}

#[test]
fn short_packet_fails_truncated() {
    let mut client = Client::new();
    let _first = client.begin_query();
    match client.on_packet(true, &[0xff, 0xff, 0xff]) {
        Step::Fail(e) => assert_eq!(e, ProtocolError::Truncated),
        _ => panic!("a packet shorter than 5 bytes must fail"),
    }
}

#[test]
fn short_challenge_fails_truncated() {
    let mut client = Client::new();
    let _first = client.begin_query();
    match client.on_packet(true, &[0xff, 0xff, 0xff, 0xff, 0x41, 0x01]) {
        Step::Fail(e) => assert_eq!(e, ProtocolError::Truncated),
        _ => panic!("a 6-byte challenge response must fail"),
    }
}

#[test]
fn retry_cap_exhaustion_is_no_response() {
    let mut client = Client::with_retry_cap(1);
    let _first = client.begin_query();
    assert!(matches!(client.on_packet(false, &[0u8; 16]), Step::Discard));
    match client.on_packet(false, &[0u8; 16]) {
        Step::Fail(e) => assert_eq!(e, ProtocolError::NoResponse),
        _ => panic!("the second stray packet must exhaust the cap of 1"),
    }
}

#[test]
fn retry_cap_exhaustion_on_challenge_loop() {
    let mut client = Client::with_retry_cap(1);
    let _first = client.begin_query();
    assert!(matches!(client.on_packet(true, &challenge_packet(5)), Step::Resend(_)));
    match client.on_packet(true, &challenge_packet(6)) {
        Step::Fail(e) => assert_eq!(e, ProtocolError::NoResponse),
        _ => panic!("an endless challenge loop must exhaust the cap"),
    }
    assert_eq!(client.challenge, 6, "the token is still replaced atomically");
}

#[test]
fn non_utf8_name_is_kept_as_bytes() {
    let packet = player_list_packet(&[(0, &[0xc3, 0x28, 0xff], 5.0)]);
    let players = decode_player_list(&packet).unwrap();
    assert_eq!(players[0].get_name(), &[0xc3, 0x28, 0xff]);
}

#[test]
fn marker_bytes_are_not_validated() {
    // The first four bytes are ignored, whatever they hold.
    let mut packet = player_list_packet(&[(3, b"Zoe", 0.0)]);
    packet[0] = 0x01;
    packet[1] = 0x02;
    packet[2] = 0x03;
    packet[3] = 0x04;
    let mut client = Client::new();
    let _first = client.begin_query();
    match client.on_packet(true, &packet) {
        Step::Done(players) => assert_eq!(players[0].get_name(), b"Zoe"),
        _ => panic!("marker bytes must be ignored"),
    }
}
