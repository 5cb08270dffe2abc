use leech::block::BlockInfo;
use leech::error::ProtocolError;
use leech::message::{Message, MessageId, PeerCodec};

fn encode(msg: &Message) -> Vec<u8> {
    let codec = PeerCodec;
    let mut buf = Vec::new();
    codec.encode(msg, &mut buf);
    buf
}

fn decode(bytes: &Vec<u8>) -> Result<Option<(Message, usize)>, ProtocolError> {
    let codec = PeerCodec;
    codec.decode(bytes)
}

#[test]
fn keep_alive_encodes_to_four_zero_bytes() {
    assert_eq!(encode(&Message::KeepAlive), vec![0u8, 0, 0, 0]);
}

#[test]
fn interested_encodes_with_length_prefix() {
    assert_eq!(encode(&Message::Interested), vec![0u8, 0, 0, 1, 2]);
}

#[test]
fn interested_with_trailing_payload_is_rejected() {
    // A frame that claims 5 payload bytes for an id without payload is a
    // strict length mismatch.
    let bytes = vec![0u8, 0, 0, 5, 2, 1, 2, 3, 4];
    assert_eq!(decode(&bytes), Err(ProtocolError::LengthMismatch));
}

#[test]
fn block_message_decodes_fields_and_data() {
    let n = 37usize;
    let data: Vec<u8> = (0..n as u8).collect();
    let mut bytes = vec![0u8, 0, 0, (9 + n) as u8, 7, 0, 0, 0, 42, 0, 0, 0x40, 0];
    bytes.extend_from_slice(&data);
    let (msg, used) = decode(&bytes).unwrap().unwrap();
    assert_eq!(used, bytes.len());
    match msg {
        Message::Block { piece_index, offset, block_data } => {
            assert_eq!(piece_index, 42);
            assert_eq!(offset, 16384);
            assert_eq!(block_data, data);
        },
        _ => panic!("expected a block message"),
    }
}

#[test]
fn every_variant_round_trips() {
    let msgs = vec![
        Message::KeepAlive,
        Message::Choke,
        Message::Unchoke,
        Message::Interested,
        Message::NotInterested,
        Message::Have { piece_index: 123456 },
        Message::Bitfield(vec![0xE0, 0x01]),
        Message::Request(BlockInfo { piece_index: 7, block_offset: 16384, block_length: 16384 }),
        Message::Block { piece_index: 7, offset: 32768, block_data: vec![9, 8, 7, 6] },
        Message::Cancel(BlockInfo { piece_index: 7, block_offset: 16384, block_length: 16384 }),
    ];
    for msg in &msgs {
        let bytes = encode(msg);
        // length prefix rule: the first four bytes give the rest's length
        let n = u32::from_be_bytes([bytes[0], bytes[1], bytes[2], bytes[3]]) as usize;
        assert_eq!(bytes.len(), 4 + n);
        let (decoded, used) = decode(&bytes).unwrap().unwrap();
        assert_eq!(&decoded, msg);
        assert_eq!(used, bytes.len());
    }
}

#[test]
fn decoder_waits_for_a_whole_frame() {
    // Less than the length prefix itself.
    assert_eq!(decode(&vec![0, 0]), Ok(None));
    // Prefix says 5 bytes follow but only one is there.
    assert_eq!(decode(&vec![0, 0, 0, 5, 4]), Ok(None));
    // The whole frame plus trailing bytes of the next one: only the frame
    // is consumed.
    let mut bytes = encode(&Message::Have { piece_index: 3 });
    let frame_len = bytes.len();
    bytes.push(0);
    bytes.push(0);
    let (msg, used) = decode(&bytes).unwrap().unwrap();
    assert_eq!(msg, Message::Have { piece_index: 3 });
    assert_eq!(used, frame_len);
}

#[test]
fn unknown_message_id_is_rejected() {
    let bytes = vec![0u8, 0, 0, 1, 9];
    assert_eq!(decode(&bytes), Err(ProtocolError::InvalidMessageId(9)));
}

#[test]
fn message_id_bytes_round_trip() {
    for i in 0u8..=8 {
        let id = MessageId::try_from(i).unwrap();
        assert_eq!(id.as_byte(), i);
    }
    assert_eq!(MessageId::try_from(9), Err(ProtocolError::InvalidMessageId(9)));
    assert_eq!(MessageId::try_from(255), Err(ProtocolError::InvalidMessageId(255)));
}
