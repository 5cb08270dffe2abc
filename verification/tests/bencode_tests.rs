use leech::torrent::split_piece_hashes;

#[test]
fn it_works() {
    println!("hello world");
}

#[test]
fn piece_hashes_split_into_twenty_byte_chunks() {
    let mut pieces = Vec::new();
    for b in 0..40u8 {
        pieces.push(b);
    }
    let hs = split_piece_hashes(&pieces).unwrap();
    assert_eq!(hs.len(), 2);
    assert_eq!(hs[0], (0..20u8).collect::<Vec<u8>>());
    assert_eq!(hs[1], (20..40u8).collect::<Vec<u8>>());

    pieces.push(0);
    assert!(split_piece_hashes(&pieces).is_err());
}
