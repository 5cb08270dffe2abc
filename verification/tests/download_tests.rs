use sha1::{Digest, Sha1};

use leech::download::{
    complete_piece, handle_message, PieceInProgress, PieceWork, MAX_BACKLOG, MAX_REQUEST_SIZE,
};
use leech::error::{ClientError, ProtocolError};
use leech::message::Message;
use leech::session::PeerSessionState;

fn sha1_vec(data: &[u8]) -> Vec<u8> {
    Sha1::digest(data).to_vec()
}

fn work_of(index: u32, data: &[u8]) -> PieceWork {
    PieceWork { index, hash: sha1_vec(data), length: data.len() as u32 }
}

#[test]
fn window_fills_up_to_the_backlog_cap() {
    let data = vec![7u8; 400_000];
    let work = work_of(0, &data);
    let mut progress = PieceInProgress::new(&work);
    let reqs = progress.fill_requests(&work, false);
    assert_eq!(reqs.len(), MAX_BACKLOG as usize);
    for (k, req) in reqs.iter().enumerate() {
        assert_eq!(req.piece_index, 0);
        assert_eq!(req.block_offset, k as u32 * MAX_REQUEST_SIZE);
        assert_eq!(req.block_length, MAX_REQUEST_SIZE);
    }
    assert_eq!(progress.backlog, MAX_BACKLOG);
    assert_eq!(progress.requested, 10 * MAX_REQUEST_SIZE);
}

#[test]
fn window_stops_at_the_piece_end() {
    let data = vec![7u8; 40_000];
    let work = work_of(3, &data);
    let mut progress = PieceInProgress::new(&work);
    let reqs = progress.fill_requests(&work, false);
    assert_eq!(reqs.len(), 3);
    assert_eq!(reqs[0].block_length, 16384);
    assert_eq!(reqs[1].block_length, 16384);
    assert_eq!(reqs[2].block_length, 40_000 - 2 * 16384);
    assert_eq!(progress.requested, 40_000);
    assert!(progress.backlog <= MAX_BACKLOG);
}

#[test]
fn window_sends_nothing_while_choked() {
    let data = vec![7u8; 40_000];
    let work = work_of(3, &data);
    let mut progress = PieceInProgress::new(&work);
    let reqs = progress.fill_requests(&work, true);
    assert!(reqs.is_empty());
    assert_eq!(progress.requested, 0);
    assert_eq!(progress.backlog, 0);
}

#[test]
fn blocks_are_copied_and_choke_resets_the_window() {
    let data: Vec<u8> = (0..40_000u32).map(|i| (i % 251) as u8).collect();
    let work = work_of(0, &data);
    let mut progress = PieceInProgress::new(&work);
    let mut session = PeerSessionState::new(8);

    handle_message(&mut progress, &mut session, &work, &Message::Unchoke).unwrap();
    assert!(!session.choked_by_remote);

    let reqs = progress.fill_requests(&work, session.choked_by_remote);
    assert_eq!(reqs.len(), 3);

    // first block arrives
    let block = Message::Block {
        piece_index: 0,
        offset: 0,
        block_data: data[0..16384].to_vec(),
    };
    handle_message(&mut progress, &mut session, &work, &block).unwrap();
    assert_eq!(progress.downloaded, 16384);
    assert_eq!(progress.backlog, 2);
    assert_eq!(&progress.buffer[0..16384], &data[0..16384]);

    // a block for another piece is discarded, not fatal
    let stray = Message::Block { piece_index: 9, offset: 0, block_data: vec![1, 2, 3] };
    handle_message(&mut progress, &mut session, &work, &stray).unwrap();
    assert_eq!(progress.downloaded, 16384);
    assert_eq!(progress.backlog, 2);

    // a choke abandons the outstanding window
    handle_message(&mut progress, &mut session, &work, &Message::Choke).unwrap();
    assert!(session.choked_by_remote);
    assert_eq!(progress.requested, progress.downloaded);
    assert_eq!(progress.backlog, 0);
}

#[test]
fn have_updates_the_remote_bitfield() {
    let data = vec![1u8; 100];
    let work = work_of(0, &data);
    let mut progress = PieceInProgress::new(&work);
    let mut session = PeerSessionState::new(8);
    assert!(!session.remote_bitfield.has_piece(5));
    handle_message(&mut progress, &mut session, &work, &Message::Have { piece_index: 5 })
        .unwrap();
    assert!(session.remote_bitfield.has_piece(5));
    let err =
        handle_message(&mut progress, &mut session, &work, &Message::Have { piece_index: 8 });
    assert_eq!(err, Err(ProtocolError::PieceIndexOutOfRange));
}

#[test]
fn second_bitfield_is_a_protocol_error() {
    let data = vec![1u8; 100];
    let work = work_of(0, &data);
    let mut progress = PieceInProgress::new(&work);
    let mut session = PeerSessionState::new(8);
    let err =
        handle_message(&mut progress, &mut session, &work, &Message::Bitfield(vec![0xFF]));
    assert_eq!(err, Err(ProtocolError::UnexpectedBitfield));
}

#[test]
fn leech_only_messages_are_recorded_but_ignored() {
    let data = vec![1u8; 100];
    let work = work_of(0, &data);
    let mut progress = PieceInProgress::new(&work);
    let mut session = PeerSessionState::new(8);
    for msg in [
        Message::KeepAlive,
        Message::Interested,
        Message::NotInterested,
        Message::Request(leech::block::BlockInfo {
            piece_index: 0,
            block_offset: 0,
            block_length: 10,
        }),
        Message::Cancel(leech::block::BlockInfo {
            piece_index: 0,
            block_offset: 0,
            block_length: 10,
        }),
    ] {
        handle_message(&mut progress, &mut session, &work, &msg).unwrap();
    }
    assert_eq!(progress.downloaded, 0);
    assert!(session.choked_by_remote);
}

#[test]
fn integrity_check_accepts_the_right_bytes_only() {
    let data = b"BitTorrent pieces are hashed one by one".to_vec();
    let work = work_of(2, &data);
    assert!(work.check_integrity(&data));
    let mut tampered = data.clone();
    tampered[0] ^= 1;
    assert!(!work.check_integrity(&tampered));
}

#[test]
fn complete_piece_succeeds_exactly_on_matching_digest() {
    let data = vec![0x5Au8; 12345];
    let work = work_of(4, &data);
    let res = complete_piece(&work, data.clone()).unwrap();
    assert_eq!(res.index, 4);
    assert_eq!(res.buf, data);

    let mut tampered = data.clone();
    tampered[12344] = 0;
    let err = complete_piece(&work, tampered);
    assert!(matches!(err, Err(ClientError::IntegrityMismatch)));
}

#[test]
fn sha1_of_known_value() {
    // SHA-1 of "abc", as every SHA-1 implementation must produce it.
    let expected = vec![
        0xa9u8, 0x99, 0x3e, 0x36, 0x47, 0x06, 0x81, 0x6a, 0xba, 0x3e, 0x25, 0x71, 0x78, 0x50,
        0xc2, 0x6c, 0x9c, 0xd0, 0xd8, 0x9d,
    ];
    let work = PieceWork { index: 0, hash: expected, length: 3 };
    assert!(work.check_integrity(&b"abc".to_vec()));
    assert!(!work.check_integrity(&b"abd".to_vec()));
}
