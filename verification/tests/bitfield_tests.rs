use leech::bitfield::Bitfield;

#[test]
fn has_piece() {
    let bitfield = Bitfield::from_bytes(vec![84, 84], 16).unwrap(); // 01010100, 01010100
    let expected = [
        false, true, false, true, false, true, false, false, false, true, false, true, false,
        true, false, false,
    ];
    for i in 0..expected.len() {
        assert_eq!(bitfield.has_piece(i), expected[i]);
    }
}

#[test]
fn set_piece() {
    let mut bitfield = Bitfield::from_bytes(vec![84, 84], 16).unwrap();

    // nothing should happen
    bitfield.set_piece(3);
    assert_eq!(bitfield.as_bytes().clone(), vec![84, 84]);

    bitfield.set_piece(4);
    assert!(bitfield.has_piece(4));
}

#[test]
#[should_panic]
fn set_piece_index_out_of_bounds() {
    let mut bitfield = Bitfield::from_bytes(vec![84, 84], 16).unwrap();

    bitfield.set_piece(24);
}

#[test]
fn bitfield_round_trip() {
    // 13 bits: two bytes with the three trailing bits of the last byte zero.
    let raw = vec![0b1010_1010u8, 0b1100_1000u8];
    let bf = Bitfield::from_bytes(raw.clone(), 13).unwrap();
    assert_eq!(bf.as_bytes().clone(), raw);
    assert_eq!(bf.len(), 13);
}

#[test]
fn bitfield_wrong_length_rejected() {
    assert!(Bitfield::from_bytes(vec![0u8; 2], 17).is_none());
    assert!(Bitfield::from_bytes(vec![0u8; 3], 17).is_some());
    assert!(Bitfield::from_bytes(vec![], 0).is_some());
}

#[test]
fn empty_bitfield_has_nothing() {
    let bf = Bitfield::new_empty(9);
    for i in 0..9 {
        assert!(!bf.has_piece(i));
    }
    assert_eq!(bf.as_bytes().clone(), vec![0u8, 0u8]);
}

#[test]
fn count_zeros_counts_missing_pieces() {
    let bf = Bitfield::from_bytes(vec![84, 84], 16).unwrap(); // 6 bits set
    assert_eq!(bf.count_zeros(), 10);
    let mut bf = bf;
    bf.set_piece(0);
    assert_eq!(bf.count_zeros(), 9);
}
