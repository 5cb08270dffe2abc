use sha1::{Digest, Sha1};

use leech::client::{build_work_queue, generate_peer_id, worker_step, Assembler, LeechClient, WorkerAction};
use leech::download::{complete_piece, handle_message, PieceInProgress};
use leech::error::ClientError;
use leech::message::Message;
use leech::peer::{parse_compact_peers, Peer};
use leech::session::{PeerSessionState, PreactiveStep};
use leech::torrent::TorrentFile;
use leech::tracker::{TrackerRequest, TrackerResponse};

fn sha1_vec(data: &[u8]) -> Vec<u8> {
    Sha1::digest(data).to_vec()
}

/// A torrent over `content` cut into `piece_length`-byte pieces.
fn torrent_for(content: &[u8], piece_length: usize) -> TorrentFile {
    let mut pieces = Vec::new();
    for chunk in content.chunks(piece_length) {
        pieces.extend_from_slice(&sha1_vec(chunk));
    }
    TorrentFile::from_parts(
        String::from("content.bin"),
        String::from("http://tracker.example/announce"),
        piece_length,
        pieces,
        content.len(),
        vec![0xAB; 20],
    )
    .unwrap()
}

#[test]
fn torrent_geometry_is_exact() {
    let content = vec![9u8; 75_536];
    let t = torrent_for(&content, 32_768);
    assert_eq!(t.piece_count, 3);
    assert_eq!(t.calculate_bounds_for_piece(0), (0, 32_768));
    assert_eq!(t.calculate_bounds_for_piece(1), (32_768, 65_536));
    assert_eq!(t.calculate_bounds_for_piece(2), (65_536, 75_536));
    assert_eq!(t.calculate_piece_size(0), 32_768);
    assert_eq!(t.calculate_piece_size(2), 10_000);
}

#[test]
fn torrent_rejects_bad_metainfo() {
    let e = TorrentFile::from_parts(
        String::new(),
        String::new(),
        0,
        vec![],
        0,
        vec![0u8; 20],
    );
    assert!(matches!(e, Err(ClientError::BadPieceLength)));
    let e = TorrentFile::from_parts(
        String::new(),
        String::new(),
        100,
        vec![1u8; 21],
        100,
        vec![0u8; 20],
    );
    assert!(matches!(e, Err(ClientError::MalformedPieces)));
    let e = TorrentFile::from_parts(
        String::new(),
        String::new(),
        100,
        vec![1u8; 20],
        100,
        vec![0u8; 19],
    );
    assert!(matches!(e, Err(ClientError::MalformedInfoHash)));
    // two pieces of hashes for one piece of content
    let e = TorrentFile::from_parts(
        String::new(),
        String::new(),
        100,
        vec![1u8; 40],
        100,
        vec![0u8; 20],
    );
    assert!(matches!(e, Err(ClientError::PieceCountMismatch)));
}

#[test]
fn work_queue_has_one_item_per_piece() {
    let content: Vec<u8> = (0..75_536u32).map(|i| (i % 253) as u8).collect();
    let t = torrent_for(&content, 32_768);
    let work = build_work_queue(&t);
    assert_eq!(work.len(), 3);
    assert_eq!(work[0].index, 0);
    assert_eq!(work[2].index, 2);
    assert_eq!(work[0].length, 32_768);
    assert_eq!(work[2].length, 10_000);
    assert_eq!(work[1].hash, sha1_vec(&content[32_768..65_536]));
}

#[test]
fn assembler_places_pieces_and_ignores_duplicates() {
    let content: Vec<u8> = (0..300u32).map(|i| i as u8).collect();
    let t = torrent_for(&content, 128);
    let mut a = Assembler::new(&t);
    assert!(!a.is_complete());

    // out of order: last piece first
    assert!(a.add_piece(2, &content[256..300].to_vec()));
    assert!(a.add_piece(0, &content[0..128].to_vec()));
    // duplicate: no change
    assert!(!a.add_piece(0, &content[0..128].to_vec()));
    assert!(!a.is_complete());
    assert!(a.add_piece(1, &content[128..256].to_vec()));
    assert!(a.is_complete());
    assert_eq!(a.buffer().clone(), content);
}

#[test]
fn peer_id_is_twenty_bytes() {
    assert_eq!(generate_peer_id().len(), 20);
}

#[test]
fn compact_peer_records_parse() {
    // 192.0.2.123:6881 as the compact format has it
    let blob = vec![192u8, 0, 2, 123, 0x1A, 0xE1, 10, 0, 0, 1, 0, 80];
    let peers = parse_compact_peers(&blob).unwrap();
    assert_eq!(peers.len(), 2);
    assert_eq!(peers[0], Peer { addr: vec![192, 0, 2, 123], port: 6881, piece_count: 0 });
    assert_eq!(peers[1], Peer { addr: vec![10, 0, 0, 1], port: 80, piece_count: 0 });

    let e = parse_compact_peers(&vec![1u8, 2, 3]);
    assert!(matches!(e, Err(ClientError::MalformedPeers)));
}

#[test]
fn client_adopts_tracker_peers() {
    let content = vec![1u8; 100];
    let t = torrent_for(&content, 100);
    let mut client = LeechClient::new(String::from("content.bin.torrent"), t, vec![7u8; 20]);
    assert_eq!(client.peers.len(), 0);
    let res = TrackerResponse { interval: 900, peers: vec![192, 0, 2, 123, 0x1A, 0xE1] };
    client.apply_tracker_response(&res).unwrap();
    assert_eq!(client.poll_interval, 900);
    assert_eq!(client.peers.len(), 1);
    assert_eq!(client.peers[0].port, 6881);
}

#[test]
fn tracker_url_renders_all_parameters() {
    let content = vec![1u8; 100];
    let mut t = torrent_for(&content, 100);
    t.info.info_hash = vec![
        0x86, 0xD4, 0xC8, 0x00, 0x24, 0xA4, 0x69, 0xBE, 0x4C, 0x50, 0xBC, 0x5A, 0x10, 0x2C,
        0xF7, 0x17, 0x80, 0x31, 0x00, 0x74,
    ];
    let peer_id = vec![0x00u8, 0x01, 0xFF, 0xAB, 0x10, 0, 0, 0, 0, 0, 0, 0, 0, 0, 0, 0, 0, 0, 0, 9];
    let req = TrackerRequest::new_from_torrent(&t, peer_id);
    let url = req.request_url();
    assert_eq!(
        url,
        String::from("http://tracker.example/announce?compact=1&downloaded=0&info_hash=\
             %86%D4%C8%00%24%A4%69%BE%4C%50%BC%5A%10%2C%F7%17%80%31%00%74\
             &left=100&peer_id=%00%01%FF%AB%10%00%00%00%00%00%00%00%00%00%00%00%00%00%00%09\
             &port=6881&uploaded=0")
    );
}

#[test]
fn preactive_phase_installs_the_bitfield() {
    let mut session = PeerSessionState::new(3);
    let step = session.on_preactive_message(&Message::KeepAlive).unwrap();
    assert_eq!(step, PreactiveStep::AwaitMore);
    // an early have applies
    let step = session.on_preactive_message(&Message::Have { piece_index: 1 }).unwrap();
    assert_eq!(step, PreactiveStep::AwaitMore);
    assert!(session.remote_bitfield.has_piece(1));
    // the bitfield replaces everything
    let step = session.on_preactive_message(&Message::Bitfield(vec![0xA0])).unwrap();
    assert_eq!(step, PreactiveStep::BitfieldInstalled);
    assert!(session.remote_bitfield.has_piece(0));
    assert!(!session.remote_bitfield.has_piece(1));
    assert!(session.remote_bitfield.has_piece(2));
    // any other message is delivered to the active phase
    let mut session = PeerSessionState::new(3);
    let step = session.on_preactive_message(&Message::Unchoke).unwrap();
    assert_eq!(step, PreactiveStep::Deliver);
}

/// End to end over mocked peers: three pieces of 32768, 32768 and 10000
/// bytes served block by block by two peers that both advertise all three
/// pieces; the coordinator assembles the 75536-byte content and every
/// piece's SHA-1 matches the metainfo.
#[test]
fn mocked_peers_download_the_whole_content() {
    let content: Vec<u8> = (0..75_536u32).map(|i| (i.wrapping_mul(31) % 251) as u8).collect();
    let t = torrent_for(&content, 32_768);
    let mut queue: Vec<_> = build_work_queue(&t).into_iter().collect();
    queue.reverse(); // pop from the front below
    let mut assembler = Assembler::new(&t);

    // two peers, each with its own session; both advertise all pieces
    let mut sessions = Vec::new();
    for _ in 0..2 {
        let mut session = PeerSessionState::new(t.piece_count);
        let step = session.on_preactive_message(&Message::Bitfield(vec![0xE0])).unwrap();
        assert_eq!(step, PreactiveStep::BitfieldInstalled);
        sessions.push(session);
    }

    let mut turn = 0usize;
    while let Some(work) = queue.pop() {
        let session = &mut sessions[turn % 2];
        turn += 1;
        assert!(session.remote_bitfield.has_piece(work.index as usize));

        let mut progress = PieceInProgress::new(&work);
        // the peer unchokes before serving
        handle_message(&mut progress, session, &work, &Message::Unchoke).unwrap();
        let base = work.index as usize * t.info.piece_length;
        while progress.downloaded < work.length {
            let requests = progress.fill_requests(&work, session.choked_by_remote);
            for req in requests {
                let lo = base + req.block_offset as usize;
                let hi = lo + req.block_length as usize;
                let reply = Message::Block {
                    piece_index: req.piece_index,
                    offset: req.block_offset,
                    block_data: content[lo..hi].to_vec(),
                };
                handle_message(&mut progress, session, &work, &reply).unwrap();
            }
        }
        let result = complete_piece(&work, progress.buffer).unwrap();
        assert!(assembler.add_piece(result.index, &result.buf));
    }

    assert!(assembler.is_complete());
    let file = assembler.buffer();
    assert_eq!(file.len(), 75_536);
    assert_eq!(file.clone(), content);
    for i in 0..t.piece_count {
        let (lo, hi) = t.calculate_bounds_for_piece(i);
        assert_eq!(sha1_vec(&file[lo..hi]), t.piece_hashes[i]);
    }
}

/// A piece that fails integrity goes back to the queue and is fetched
/// again; the download still completes.
#[test]
fn corrupt_piece_is_requeued_and_retried() {
    let content: Vec<u8> = (0..300u32).map(|i| (i % 199) as u8).collect();
    let t = torrent_for(&content, 128);
    let mut queue: Vec<_> = build_work_queue(&t).into_iter().collect();
    queue.reverse();
    let mut assembler = Assembler::new(&t);
    let mut corrupted_once = false;

    while let Some(work) = queue.pop() {
        let mut session = PeerSessionState::new(t.piece_count);
        let mut progress = PieceInProgress::new(&work);
        handle_message(&mut progress, &mut session, &work, &Message::Unchoke).unwrap();
        let corrupt = work.index == 1 && !corrupted_once;
        let base = work.index as usize * t.info.piece_length;
        while progress.downloaded < work.length {
            let requests = progress.fill_requests(&work, session.choked_by_remote);
            for req in requests {
                let lo = base + req.block_offset as usize;
                let hi = lo + req.block_length as usize;
                let mut data = content[lo..hi].to_vec();
                if corrupt {
                    data[0] ^= 0xFF;
                }
                let reply = Message::Block {
                    piece_index: req.piece_index,
                    offset: req.block_offset,
                    block_data: data,
                };
                handle_message(&mut progress, &mut session, &work, &reply).unwrap();
            }
        }
        match complete_piece(&work, progress.buffer) {
            Ok(result) => {
                assembler.add_piece(result.index, &result.buf);
            },
            Err(e) => {
                assert_eq!(e, ClientError::IntegrityMismatch);
                corrupted_once = true;
                queue.insert(0, work); // re-queue and move on
            },
        }
    }
    assert!(corrupted_once);
    assert!(assembler.is_complete());
    assert_eq!(assembler.buffer().clone(), content);
}

#[test]
fn worker_step_requeues_the_same_work() {
    let content = vec![3u8; 64];
    let t = torrent_for(&content, 64);
    let work = build_work_queue(&t).pop().unwrap();

    // no buffer: the peer lacked the piece or the session failed
    let again = match worker_step(work.clone(), None) {
        WorkerAction::Requeue(w) => w,
        WorkerAction::Deliver(_) => panic!("nothing to deliver"),
    };
    assert_eq!(again.index, work.index);
    assert_eq!(again.hash, work.hash);
    assert_eq!(again.length, work.length);

    // a corrupt buffer: re-queued for another try
    let again = match worker_step(work.clone(), Some(vec![0u8; 64])) {
        WorkerAction::Requeue(w) => w,
        WorkerAction::Deliver(_) => panic!("the digest cannot match"),
    };
    assert_eq!(again.hash, work.hash);

    // the right bytes: delivered
    match worker_step(work, Some(content.clone())) {
        WorkerAction::Deliver(res) => {
            assert_eq!(res.index, 0);
            assert_eq!(res.buf, content);
        },
        WorkerAction::Requeue(_) => panic!("a verified piece must be delivered"),
    }
}

#[test]
fn peer_address_renders_in_dotted_notation() {
    let peer = leech::peer::Peer::from_compact(&vec![192, 0, 2, 123, 0x1A, 0xE1]);
    assert_eq!(peer.addr_string(), String::from("192.0.2.123:6881"));
}
