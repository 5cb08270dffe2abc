use leech::error::ProtocolError;
use leech::handshake::{Handshake, HandshakeCodec};

fn info_hash_s1() -> Vec<u8> {
    vec![
        0x86, 0xD4, 0xC8, 0x00, 0x24, 0xA4, 0x69, 0xBE, 0x4C, 0x50, 0xBC, 0x5A, 0x10, 0x2C, 0xF7,
        0x17, 0x80, 0x31, 0x00, 0x74,
    ]
}

fn peer_id_s1() -> Vec<u8> {
    (1u8..=20).collect()
}

#[test]
fn handshake_encodes_to_the_68_byte_frame() {
    let handshake = Handshake::new(peer_id_s1(), info_hash_s1());
    let codec = HandshakeCodec;
    let mut buf = Vec::new();
    codec.encode(&handshake, &mut buf);

    let mut expected = vec![0x13u8];
    expected.extend_from_slice(b"BitTorrent protocol");
    expected.extend_from_slice(&[0u8; 8]);
    expected.extend_from_slice(&info_hash_s1());
    expected.extend_from_slice(&peer_id_s1());
    assert_eq!(expected.len(), 68);
    assert_eq!(buf, expected);
}

#[test]
fn handshake_decode_round_trips() {
    let handshake = Handshake::new(peer_id_s1(), info_hash_s1());
    let codec = HandshakeCodec;
    let mut buf = Vec::new();
    codec.encode(&handshake, &mut buf);
    buf.push(0xAB); // the next frame's first byte is left alone

    let expected = info_hash_s1();
    let (decoded, used) = codec.decode(&buf, &expected).unwrap().unwrap();
    assert_eq!(used, 68);
    assert_eq!(decoded.pstr, b"BitTorrent protocol".to_vec());
    assert_eq!(decoded.reserved, vec![0u8; 8]);
    assert_eq!(decoded.info_hash, info_hash_s1());
    assert_eq!(decoded.peer_id, peer_id_s1());
}

#[test]
fn handshake_rejects_wrong_pstrlen() {
    let codec = HandshakeCodec;
    let buf = vec![18u8, 0, 0, 0];
    assert_eq!(codec.decode(&buf, &info_hash_s1()), Err(ProtocolError::BadPstrLen(18)));
}

#[test]
fn handshake_rejects_wrong_info_hash() {
    let handshake = Handshake::new(peer_id_s1(), info_hash_s1());
    let codec = HandshakeCodec;
    let mut buf = Vec::new();
    codec.encode(&handshake, &mut buf);

    let mut other = info_hash_s1();
    other[19] = 0x75;
    assert_eq!(codec.decode(&buf, &other), Err(ProtocolError::InfoHashMismatch));
}

#[test]
fn handshake_waits_for_the_whole_frame() {
    let codec = HandshakeCodec;
    assert_eq!(codec.decode(&vec![], &info_hash_s1()), Ok(None));
    let mut buf = vec![19u8];
    buf.extend_from_slice(b"BitTorrent proto");
    assert_eq!(codec.decode(&buf, &info_hash_s1()), Ok(None));
}
