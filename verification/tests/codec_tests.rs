use eventwork::codec::{decode_correlated, decode_packet, encode_correlated, encode_packet};
use eventwork::tcp::{NetworkSettings, TcpProvider};
use eventwork::NetworkPacket;

fn le8(n: u64) -> Vec<u8> {
    n.to_le_bytes().to_vec()
}

#[test]
fn packet_encoding_exact_bytes() {
    let data = vec![1u8, 2, 3];
    let encoded = encode_packet("abc", &data);
    let mut expected = le8(3);
    expected.extend_from_slice(b"abc");
    expected.extend_from_slice(&le8(3));
    expected.extend_from_slice(&[1, 2, 3]);
    assert_eq!(encoded, expected);
}

#[test]
fn packet_encoding_matches_bincode_of_tuple() {
    // The wire form of a packet is the same as bincode's encoding of its
    // (kind, data) fields under bincode's default configuration.
    let kind = "example:WorldUpdate".to_string();
    let data = vec![7u8, 0, 255, 42];
    let ours = encode_packet(&kind, &data);
    let theirs = bincode::serialize(&(kind, data)).unwrap();
    assert_eq!(ours, theirs);
}

#[test]
fn packet_round_trip() {
    let data = vec![9u8, 8, 7, 6];
    let encoded = encode_packet("example:UserInput", &data);
    let packet = decode_packet(&encoded).unwrap();
    assert_eq!(packet.kind, "example:UserInput");
    assert_eq!(packet.data, data);
}

#[test]
fn packet_round_trip_empty() {
    let encoded = encode_packet("", &Vec::new());
    let packet = decode_packet(&encoded).unwrap();
    assert_eq!(packet.kind, "");
    assert_eq!(packet.data, Vec::<u8>::new());
}

#[test]
fn decode_rejects_short_input() {
    assert!(decode_packet(&Vec::new()).is_none());
    assert!(decode_packet(&vec![0u8; 15]).is_none());
}

#[test]
fn decode_rejects_wrong_lengths() {
    // kind length that runs past the end of the input
    let mut b = le8(100);
    b.extend_from_slice(&[0u8; 16]);
    assert!(decode_packet(&b).is_none());
    // payload length that disagrees with what is left
    let mut b = le8(1);
    b.push(b'a');
    b.extend_from_slice(&le8(5));
    b.extend_from_slice(&[1, 2, 3]);
    assert!(decode_packet(&b).is_none());
    // trailing garbage after the declared payload
    let mut b = encode_packet("a", &vec![1u8]);
    b.push(0);
    assert!(decode_packet(&b).is_none());
}

#[test]
fn decode_rejects_invalid_utf8_kind() {
    // a kind tag of one byte 0xFF is not valid UTF-8, so the packet is
    // unroutable and decoding fails
    let mut b = le8(1);
    b.push(0xFF);
    b.extend_from_slice(&le8(0));
    assert!(decode_packet(&b).is_none());
}

#[test]
fn decode_accepts_bincode_of_tuple() {
    let theirs = bincode::serialize(&("status".to_string(), vec![1u8, 1, 2, 3, 5, 8])).unwrap();
    let packet = decode_packet(&theirs).unwrap();
    assert_eq!(packet.kind, "status");
    assert_eq!(packet.data, vec![1u8, 1, 2, 3, 5, 8]);
}

#[test]
fn correlated_encoding_exact_bytes() {
    let encoded = encode_correlated(513, &vec![0xABu8, 0xCD]);
    let mut expected = le8(513);
    expected.extend_from_slice(&[0xAB, 0xCD]);
    assert_eq!(encoded, expected);
}

#[test]
fn correlated_matches_bincode_of_pair() {
    // A correlated payload is laid out like bincode's encoding of the
    // original wrapper struct: the id as a fixed-width integer, then the
    // already-encoded user payload.
    let id: u64 = 98765;
    let body = vec![3u8, 1, 4];
    let ours = encode_correlated(id, &body);
    let mut theirs = bincode::serialize(&id).unwrap();
    theirs.extend_from_slice(&body);
    assert_eq!(ours, theirs);
}

#[test]
fn correlated_round_trip() {
    let encoded = encode_correlated(u64::MAX, &vec![5u8; 10]);
    let (id, payload) = decode_correlated(&encoded).unwrap();
    assert_eq!(id, u64::MAX);
    assert_eq!(payload, vec![5u8; 10]);
}

#[test]
fn correlated_rejects_short_input() {
    assert!(decode_correlated(&vec![1u8; 7]).is_none());
}

#[test]
fn frame_has_length_prefix() {
    let packet = NetworkPacket { kind: "k".to_string(), data: vec![1u8, 2] };
    let frame = TcpProvider::encode_frame(&packet);
    let body = encode_packet("k", &vec![1u8, 2]);
    let mut expected = le8(body.len() as u64);
    expected.extend_from_slice(&body);
    assert_eq!(frame, expected);
}

#[test]
fn parse_header_respects_max_packet_length() {
    let settings = NetworkSettings { max_packet_length: 100 };
    assert_eq!(TcpProvider::parse_header(&le8(100), &settings), Some(100));
    assert_eq!(TcpProvider::parse_header(&le8(0), &settings), Some(0));
    assert_eq!(TcpProvider::parse_header(&le8(101), &settings), None);
    assert_eq!(TcpProvider::parse_header(&le8(u64::MAX), &settings), None);
}

#[test]
fn default_settings_allow_ten_mebibytes() {
    let settings = NetworkSettings::default();
    assert_eq!(settings.max_packet_length, 10 * 1024 * 1024);
    assert_eq!(
        TcpProvider::parse_header(&le8(10 * 1024 * 1024), &settings),
        Some(10 * 1024 * 1024)
    );
    assert_eq!(TcpProvider::parse_header(&le8(10 * 1024 * 1024 + 1), &settings), None);
}

#[test]
fn frame_round_trip_through_header() {
    let packet = NetworkPacket { kind: "example:Chat".to_string(), data: vec![42u8; 20] };
    let frame = TcpProvider::encode_frame(&packet);
    let settings = NetworkSettings::default();
    // the receive loop reads 8 bytes, asks how many follow, reads them,
    // and decodes the packet
    let header = frame[..8].to_vec();
    let n = TcpProvider::parse_header(&header, &settings).unwrap();
    assert_eq!(n, frame.len() - 8);
    let body = frame[8..8 + n].to_vec();
    let decoded = decode_packet(&body).unwrap();
    assert_eq!(decoded.kind, packet.kind);
    assert_eq!(decoded.data, packet.data);
}
