//! The tracker announce request and response.
//!
//! The request is an HTTP GET URL built from the torrent: the info hash and
//! peer id are percent-encoded byte for byte as `%XX` with upper-case hex
//! digits, and the numeric parameters are rendered in decimal.  Issuing the
//! request happens outside the library.

use crate::torrent::TorrentFile;
use crate::types::PeerId;
use vstd::prelude::*;
use vstd::string::StringExecFns;

verus! {

/// The decimal digit character of `d`, for `d` between 0 and 9.
pub open spec fn spec_dec_digit(d: int) -> char {
    if d <= 0 {
        '0'
    } else if d == 1 {
        '1'
    } else if d == 2 {
        '2'
    } else if d == 3 {
        '3'
    } else if d == 4 {
        '4'
    } else if d == 5 {
        '5'
    } else if d == 6 {
        '6'
    } else if d == 7 {
        '7'
    } else if d == 8 {
        '8'
    } else {
        '9'
    }
}

/// The upper-case hexadecimal digit character of `d`, for `d` up to 15.
pub open spec fn spec_hex_digit(d: int) -> char {
    if d < 10 {
        spec_dec_digit(d)
    } else if d == 10 {
        'A'
    } else if d == 11 {
        'B'
    } else if d == 12 {
        'C'
    } else if d == 13 {
        'D'
    } else if d == 14 {
        'E'
    } else {
        'F'
    }
}

/// The decimal rendering of `n`, most significant digit first.
pub open spec fn spec_dec_chars(n: int) -> Seq<char>
    decreases n,
{
    if n < 10 {
        seq![spec_dec_digit(n)]
    } else {
        spec_dec_chars(n / 10) + seq![spec_dec_digit(n % 10)]
    }
}

/// Each byte rendered as `%XX` with upper-case hex digits, in order.
pub open spec fn spec_percent_encode(b: Seq<u8>) -> Seq<char>
    decreases b.len(),
{
    if b.len() == 0 {
        Seq::empty()
    } else {
        spec_percent_encode(b.drop_last()) + seq![
            '%',
            spec_hex_digit((b.last() / 16) as int),
            spec_hex_digit((b.last() % 16) as int),
        ]
    }
}

/// The one-character string of a decimal digit.
fn dec_digit_str(d: u64) -> (r: &'static str)
    requires
        d < 10,
    ensures
        r@ =~= seq![spec_dec_digit(d as int)],
{
    if d == 0 {
        proof {
            reveal_strlit("0");
        }
        "0"
    } else if d == 1 {
        proof {
            reveal_strlit("1");
        }
        "1"
    } else if d == 2 {
        proof {
            reveal_strlit("2");
        }
        "2"
    } else if d == 3 {
        proof {
            reveal_strlit("3");
        }
        "3"
    } else if d == 4 {
        proof {
            reveal_strlit("4");
        }
        "4"
    } else if d == 5 {
        proof {
            reveal_strlit("5");
        }
        "5"
    } else if d == 6 {
        proof {
            reveal_strlit("6");
        }
        "6"
    } else if d == 7 {
        proof {
            reveal_strlit("7");
        }
        "7"
    } else if d == 8 {
        proof {
            reveal_strlit("8");
        }
        "8"
    } else {
        proof {
            reveal_strlit("9");
        }
        "9"
    }
}

/// The one-character string of an upper-case hexadecimal digit.
fn hex_digit_str(d: u64) -> (r: &'static str)
    requires
        d < 16,
    ensures
        r@ =~= seq![spec_hex_digit(d as int)],
{
    if d < 10 {
        dec_digit_str(d)
    } else if d == 10 {
        proof {
            reveal_strlit("A");
        }
        "A"
    } else if d == 11 {
        proof {
            reveal_strlit("B");
        }
        "B"
    } else if d == 12 {
        proof {
            reveal_strlit("C");
        }
        "C"
    } else if d == 13 {
        proof {
            reveal_strlit("D");
        }
        "D"
    } else if d == 14 {
        proof {
            reveal_strlit("E");
        }
        "E"
    } else {
        proof {
            reveal_strlit("F");
        }
        "F"
    }
}

/// Renders `n` in decimal, most significant digit first.
pub fn dec_string(n: u64) -> (s: String)
    ensures
        s@ =~= spec_dec_chars(n as int),
    decreases n,
{
    if n < 10 {
        let mut s = String::new();
        s.append(dec_digit_str(n));
        s
    } else {
        let mut s = dec_string(n / 10);
        s.append(dec_digit_str(n % 10));
        s
    }
}

/// Percent-encodes raw bytes for a URL query, each byte as `%XX`.
pub fn percent_encode(bytes: &Vec<u8>) -> (s: String)
    ensures
        s@ =~= spec_percent_encode(bytes@),
{
    let mut s = String::new();
    let n = bytes.len();
    let mut i: usize = 0;
    while i < n
        invariant
            i <= n,
            n == bytes@.len(),
            s@ =~= spec_percent_encode(bytes@.take(i as int)),
        decreases n - i,
    {
        let b = bytes[i];
        s.append("%");
        s.append(hex_digit_str((b / 16) as u64));
        s.append(hex_digit_str((b % 16) as u64));
        proof {
            reveal_strlit("%");
            let taken = bytes@.take(i + 1);
            assert(taken.drop_last() =~= bytes@.take(i as int));
            assert(taken.last() == bytes@[i as int]);
        }
        i = i + 1;
    }
    proof {
        assert(bytes@.take(n as int) =~= bytes@);
    }
    s
}

/// One announce request, ready to be rendered as a GET URL.
#[derive(Debug)]
pub struct TrackerRequest {
    pub announce: String,
    /// The torrent's info hash, percent-encoded.
    pub info_hash: String,
    /// This client's peer id, percent-encoded.
    pub peer_id: String,
    pub port: i32,
    pub uploaded: u8,
    pub downloaded: u8,
    pub compact: u8,
    /// How many bytes are still missing.
    pub left: usize,
}

/// The announce URL with its query parameters in alphabetical order.
pub open spec fn spec_request_url(
    announce: Seq<char>,
    compact: int,
    downloaded: int,
    info_hash: Seq<char>,
    left: int,
    peer_id: Seq<char>,
    port: int,
    uploaded: int,
) -> Seq<char> {
    announce + "?compact="@ + spec_dec_chars(compact) + "&downloaded="@ + spec_dec_chars(downloaded)
        + "&info_hash="@ + info_hash + "&left="@ + spec_dec_chars(left) + "&peer_id="@ + peer_id
        + "&port="@ + spec_dec_chars(port) + "&uploaded="@ + spec_dec_chars(uploaded)
}

impl TrackerRequest {
    /// The announce request for a whole torrent that has not started yet:
    /// nothing uploaded or downloaded, everything left, compact peer lists,
    /// listening port 6881.
    pub fn new_from_torrent(torrent: &TorrentFile, peer_id: PeerId) -> (r: TrackerRequest)
        ensures
            r.announce@ == torrent.announce@,
            r.info_hash@ == spec_percent_encode(torrent.info.info_hash@),
            r.peer_id@ == spec_percent_encode(peer_id@),
            r.port == 6881,
            r.uploaded == 0,
            r.downloaded == 0,
            r.compact == 1,
            r.left == torrent.info.length,
    {
        TrackerRequest {
            announce: torrent.announce.clone(),
            info_hash: percent_encode(&torrent.info.info_hash),
            peer_id: percent_encode(&peer_id),
            port: 6881,
            uploaded: 0,
            downloaded: 0,
            compact: 1,
            left: torrent.info.length,
        }
    }

    /// Renders the GET URL of this request.
    pub fn request_url(&self) -> (r: String)
        requires
            self.port >= 0,
        ensures
            r@ =~= spec_request_url(
                self.announce@,
                self.compact as int,
                self.downloaded as int,
                self.info_hash@,
                self.left as int,
                self.peer_id@,
                self.port as int,
                self.uploaded as int,
            ),
    {
        let mut s = String::new();
        s.append(self.announce.as_str());
        s.append("?compact=");
        let compact = dec_string(self.compact as u64);
        s.append(compact.as_str());
        s.append("&downloaded=");
        let downloaded = dec_string(self.downloaded as u64);
        s.append(downloaded.as_str());
        s.append("&info_hash=");
        s.append(self.info_hash.as_str());
        s.append("&left=");
        let left = dec_string(self.left as u64);
        s.append(left.as_str());
        s.append("&peer_id=");
        s.append(self.peer_id.as_str());
        s.append("&port=");
        let port = dec_string(self.port as u64);
        s.append(port.as_str());
        s.append("&uploaded=");
        let uploaded = dec_string(self.uploaded as u64);
        s.append(uploaded.as_str());
        s
    }
}

/// What the tracker answers: how long to wait before the next announce, and
/// the compact peer list.
#[derive(Debug)]
pub struct TrackerResponse {
    /// Seconds to wait between announces.
    pub interval: u32,
    /// 6-byte compact peer records, concatenated.
    pub peers: Vec<u8>,
}

} // verus!
