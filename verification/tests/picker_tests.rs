use sha1::{Digest, Sha1};

use leech::bitfield::Bitfield;
use leech::piece::Piece;
use leech::piece_picker::PiecePicker;

#[test]
fn picker_counts_missing_pieces() {
    let own = Bitfield::from_bytes(vec![0b1010_0000u8], 4).unwrap();
    let picker = PiecePicker::new(own);
    assert_eq!(picker.missing_count, 2);
    assert_eq!(picker.free_count, 2);
}

#[test]
fn picker_prefers_the_lowest_available_piece() {
    let own = Bitfield::from_bytes(vec![0b1000_0000u8], 4).unwrap();
    let mut picker = PiecePicker::new(own);
    // nothing is available yet
    assert_eq!(picker.pick_piece(), None);

    // a peer offers pieces 2 and 3; we already own piece 0
    assert!(!picker.register_peer_piece(2));
    assert!(!picker.register_peer_piece(3));
    assert!(picker.register_peer_piece(0));

    assert_eq!(picker.pick_piece(), Some(2));
    // picked pieces are pending, not picked again
    assert_eq!(picker.pick_piece(), Some(3));
    assert_eq!(picker.pick_piece(), None);
    // piece 1 is not pending, so it alone stays free
    assert_eq!(picker.free_count, 1);

    picker.received_piece(2);
    assert_eq!(picker.missing_count, 2);
    picker.received_piece(3);
    assert_eq!(picker.missing_count, 1);
    // piece 1 is missing but no peer has offered it
    assert_eq!(picker.pick_piece(), None);
}

#[test]
fn received_unpicked_piece_reduces_free_count() {
    let own = Bitfield::from_bytes(vec![0u8], 2).unwrap();
    let mut picker = PiecePicker::new(own);
    assert_eq!(picker.free_count, 2);
    // piece 1 arrives without ever having been picked
    picker.received_piece(1);
    assert_eq!(picker.free_count, 1);
    assert_eq!(picker.missing_count, 1);
}

#[test]
fn assembled_piece_matches_its_hash() {
    let part_one = b"one half and ".to_vec();
    let part_two = b"the other half".to_vec();
    let mut whole = part_one.clone();
    whole.extend_from_slice(&part_two);
    let hash = Sha1::digest(&whole).to_vec();

    let piece = Piece {
        hash,
        len: whole.len() as u32,
        blocks: vec![(0, part_one.clone()), (part_one.len() as u32, part_two)],
    };
    assert!(piece.matches_hash());

    let piece = Piece { hash: vec![0u8; 20], len: piece.len, blocks: piece.blocks };
    assert!(!piece.matches_hash());
}
