//! Tagged-variant wire messages with their length-prefixed binary codec.
//!
//! A frame is a 4-byte big-endian length prefix giving the number of bytes
//! that follow, then (unless the length is zero, which is a keep-alive) one
//! id byte and an id-specific payload.  The decoder is strict: a frame whose
//! length does not fit its id's payload layout is a protocol error.

use crate::block::{spec_block_info_bytes, BlockInfo};
use crate::error::ProtocolError;
use crate::types::{
    copy_range, lemma_u32_be_of_to, push_bytes, push_u32_be, spec_u32_of_be, spec_u32_to_be,
    u32_from_be,
};
use vstd::prelude::*;

verus! {

/// The id byte of each non-keep-alive message.
#[derive(Clone, Copy, Debug, PartialEq, Eq, Structural)]
pub enum MessageId {
    /// Remote refuses to serve this peer.
    Choke,
    /// Remote is willing to serve.
    Unchoke,
    /// This peer wants something from the remote.
    Interested,
    /// This peer wants nothing.
    NotInterested,
    /// Remote completed (and verified) one piece.
    Have,
    /// Sent once, only as the first real message.
    Bitfield,
    /// Ask for a block.
    Request,
    /// A block payload.
    Block,
    /// Revoke a prior request.
    Cancel,
}

/// The wire value of a message id.
pub open spec fn message_id_value(id: MessageId) -> u8 {
    match id {
        MessageId::Choke => 0,
        MessageId::Unchoke => 1,
        MessageId::Interested => 2,
        MessageId::NotInterested => 3,
        MessageId::Have => 4,
        MessageId::Bitfield => 5,
        MessageId::Request => 6,
        MessageId::Block => 7,
        MessageId::Cancel => 8,
    }
}

impl MessageId {
    /// The wire value of this id.
    pub fn as_byte(&self) -> (r: u8)
        ensures
            r == message_id_value(*self),
    {
        match self {
            MessageId::Choke => 0,
            MessageId::Unchoke => 1,
            MessageId::Interested => 2,
            MessageId::NotInterested => 3,
            MessageId::Have => 4,
            MessageId::Bitfield => 5,
            MessageId::Request => 6,
            MessageId::Block => 7,
            MessageId::Cancel => 8,
        }
    }

    /// The id that a wire byte denotes; ids above 8 are a protocol error.
    pub fn try_from(i: u8) -> (r: Result<MessageId, ProtocolError>)
        ensures
            i <= 8 ==> (r matches Ok(id) && message_id_value(id) == i),
            i > 8 ==> r == Err::<MessageId, ProtocolError>(ProtocolError::InvalidMessageId(i)),
    {
        match i {
            0 => Ok(MessageId::Choke),
            1 => Ok(MessageId::Unchoke),
            2 => Ok(MessageId::Interested),
            3 => Ok(MessageId::NotInterested),
            4 => Ok(MessageId::Have),
            5 => Ok(MessageId::Bitfield),
            6 => Ok(MessageId::Request),
            7 => Ok(MessageId::Block),
            8 => Ok(MessageId::Cancel),
            _ => Err(ProtocolError::InvalidMessageId(i)),
        }
    }
}

/// A peer wire message.
#[derive(Debug, PartialEq, Eq)]
pub enum Message {
    /// A zero-length frame; carries nothing.
    KeepAlive,
    /// The raw bytes of the sender's piece bitfield.
    Bitfield(Vec<u8>),
    Choke,
    Unchoke,
    Interested,
    NotInterested,
    /// The sender completed piece `piece_index`.
    Have { piece_index: u32 },
    /// Ask for the block `0` describes.
    Request(BlockInfo),
    /// `block_data` is the requested block of piece `piece_index` at `offset`.
    Block { piece_index: u32, offset: u32, block_data: Vec<u8> },
    /// Revoke the prior request `0` describes.
    Cancel(BlockInfo),
}

/// The mathematical shape of a message: byte buffers become sequences.
pub ghost enum MessageV {
    KeepAlive,
    Bitfield(Seq<u8>),
    Choke,
    Unchoke,
    Interested,
    NotInterested,
    Have { piece_index: u32 },
    Request(BlockInfo),
    Block { piece_index: u32, offset: u32, block_data: Seq<u8> },
    Cancel(BlockInfo),
}

impl View for Message {
    type V = MessageV;

    open spec fn view(&self) -> MessageV {
        match self {
            Message::KeepAlive => MessageV::KeepAlive,
            Message::Bitfield(b) => MessageV::Bitfield(b@),
            Message::Choke => MessageV::Choke,
            Message::Unchoke => MessageV::Unchoke,
            Message::Interested => MessageV::Interested,
            Message::NotInterested => MessageV::NotInterested,
            Message::Have { piece_index } => MessageV::Have { piece_index: *piece_index },
            Message::Request(bi) => MessageV::Request(*bi),
            Message::Block { piece_index, offset, block_data } => MessageV::Block {
                piece_index: *piece_index,
                offset: *offset,
                block_data: block_data@,
            },
            Message::Cancel(bi) => MessageV::Cancel(*bi),
        }
    }
}

/// The payload a message is framed with: the id byte (absent for keep-alive)
/// followed by the id-specific fields.
pub open spec fn spec_payload(m: MessageV) -> Seq<u8> {
    match m {
        MessageV::KeepAlive => Seq::<u8>::empty(),
        MessageV::Choke => seq![0u8],
        MessageV::Unchoke => seq![1u8],
        MessageV::Interested => seq![2u8],
        MessageV::NotInterested => seq![3u8],
        MessageV::Have { piece_index } => seq![4u8] + spec_u32_to_be(piece_index),
        MessageV::Bitfield(b) => seq![5u8] + b,
        MessageV::Request(bi) => seq![6u8] + spec_block_info_bytes(bi),
        MessageV::Block { piece_index, offset, block_data } => seq![7u8] + spec_u32_to_be(
            piece_index,
        ) + spec_u32_to_be(offset) + block_data,
        MessageV::Cancel(bi) => seq![8u8] + spec_block_info_bytes(bi),
    }
}

/// A message whose payload length fits the frame's 4-byte length prefix.
pub open spec fn msg_wf(m: MessageV) -> bool {
    match m {
        MessageV::Bitfield(b) => b.len() + 1 <= u32::MAX,
        MessageV::Block { block_data, .. } => block_data.len() + 9 <= u32::MAX,
        _ => true,
    }
}

/// The full frame of a message: big-endian payload length, then the payload.
pub open spec fn spec_encode(m: MessageV) -> Seq<u8> {
    spec_u32_to_be(spec_payload(m).len() as u32) + spec_payload(m)
}

/// What decoding a buffer yields: not enough bytes yet, a protocol error, or
/// one message together with how many bytes of the buffer it occupied.
pub ghost enum DecodeOutcome {
    Incomplete,
    Fail(ProtocolError),
    Done(MessageV, int),
}

/// Decodes the payload of a non-keep-alive frame: `id` is the id byte, `p`
/// the bytes after it, and `used` the whole frame's length in the buffer.
pub open spec fn spec_decode_body(id: u8, p: Seq<u8>, used: int) -> DecodeOutcome {
    if id == 0 {
        if p.len() == 0 {
            DecodeOutcome::Done(MessageV::Choke, used)
        } else {
            DecodeOutcome::Fail(ProtocolError::LengthMismatch)
        }
    } else if id == 1 {
        if p.len() == 0 {
            DecodeOutcome::Done(MessageV::Unchoke, used)
        } else {
            DecodeOutcome::Fail(ProtocolError::LengthMismatch)
        }
    } else if id == 2 {
        if p.len() == 0 {
            DecodeOutcome::Done(MessageV::Interested, used)
        } else {
            DecodeOutcome::Fail(ProtocolError::LengthMismatch)
        }
    } else if id == 3 {
        if p.len() == 0 {
            DecodeOutcome::Done(MessageV::NotInterested, used)
        } else {
            DecodeOutcome::Fail(ProtocolError::LengthMismatch)
        }
    } else if id == 4 {
        if p.len() == 4 {
            DecodeOutcome::Done(
                MessageV::Have { piece_index: spec_u32_of_be(p[0], p[1], p[2], p[3]) },
                used,
            )
        } else {
            DecodeOutcome::Fail(ProtocolError::LengthMismatch)
        }
    } else if id == 5 {
        DecodeOutcome::Done(MessageV::Bitfield(p), used)
    } else if id == 6 {
        if p.len() == 12 {
            DecodeOutcome::Done(
                MessageV::Request(
                    BlockInfo {
                        piece_index: spec_u32_of_be(p[0], p[1], p[2], p[3]),
                        block_offset: spec_u32_of_be(p[4], p[5], p[6], p[7]),
                        block_length: spec_u32_of_be(p[8], p[9], p[10], p[11]),
                    },
                ),
                used,
            )
        } else {
            DecodeOutcome::Fail(ProtocolError::LengthMismatch)
        }
    } else if id == 7 {
        if p.len() >= 8 {
            DecodeOutcome::Done(
                MessageV::Block {
                    piece_index: spec_u32_of_be(p[0], p[1], p[2], p[3]),
                    offset: spec_u32_of_be(p[4], p[5], p[6], p[7]),
                    block_data: p.subrange(8, p.len() as int),
                },
                used,
            )
        } else {
            DecodeOutcome::Fail(ProtocolError::LengthMismatch)
        }
    } else if id == 8 {
        if p.len() == 12 {
            DecodeOutcome::Done(
                MessageV::Cancel(
                    BlockInfo {
                        piece_index: spec_u32_of_be(p[0], p[1], p[2], p[3]),
                        block_offset: spec_u32_of_be(p[4], p[5], p[6], p[7]),
                        block_length: spec_u32_of_be(p[8], p[9], p[10], p[11]),
                    },
                ),
                used,
            )
        } else {
            DecodeOutcome::Fail(ProtocolError::LengthMismatch)
        }
    } else {
        DecodeOutcome::Fail(ProtocolError::InvalidMessageId(id))
    }
}

/// Decodes the front of a buffer.  Yields nothing until the buffer holds the
/// whole frame (`4 + length` bytes), and consumes bytes only then.
pub open spec fn spec_decode(b: Seq<u8>) -> DecodeOutcome {
    if b.len() < 4 {
        DecodeOutcome::Incomplete
    } else {
        let n = spec_u32_of_be(b[0], b[1], b[2], b[3]) as int;
        if b.len() < 4 + n {
            DecodeOutcome::Incomplete
        } else if n == 0 {
            DecodeOutcome::Done(MessageV::KeepAlive, 4)
        } else {
            spec_decode_body(b[4], b.subrange(5, 4 + n), 4 + n)
        }
    }
}

/// The stateless peer wire codec.
pub struct PeerCodec;

impl PeerCodec {
    /// Appends the frame of `msg` to `buf`.
    pub fn encode(&self, msg: &Message, buf: &mut Vec<u8>)
        requires
            msg_wf(msg@),
        ensures
            final(buf)@ =~= old(buf)@ + spec_encode(msg@),
    {
        match msg {
            Message::KeepAlive => {
                push_u32_be(buf, 0);
            },
            Message::Choke => {
                push_u32_be(buf, 1);
                buf.push(0u8);
            },
            Message::Unchoke => {
                push_u32_be(buf, 1);
                buf.push(1u8);
            },
            Message::Interested => {
                push_u32_be(buf, 1);
                buf.push(2u8);
            },
            Message::NotInterested => {
                push_u32_be(buf, 1);
                buf.push(3u8);
            },
            Message::Have { piece_index } => {
                push_u32_be(buf, 5);
                buf.push(4u8);
                push_u32_be(buf, *piece_index);
            },
            Message::Bitfield(b) => {
                let msg_len = (b.len() as u32) + 1;
                push_u32_be(buf, msg_len);
                buf.push(5u8);
                push_bytes(buf, b);
            },
            Message::Request(bi) => {
                push_u32_be(buf, 13);
                buf.push(6u8);
                bi.encode(buf);
            },
            Message::Block { piece_index, offset, block_data } => {
                let msg_len = (block_data.len() as u32) + 9;
                push_u32_be(buf, msg_len);
                buf.push(7u8);
                push_u32_be(buf, *piece_index);
                push_u32_be(buf, *offset);
                push_bytes(buf, block_data);
            },
            Message::Cancel(bi) => {
                push_u32_be(buf, 13);
                buf.push(8u8);
                bi.encode(buf);
            },
        }
    }

    /// Decodes the message at the front of `buf`, if `buf` already holds a
    /// whole frame.  `Ok(None)` asks for more bytes; `Ok(Some((m, used)))`
    /// yields the message and how many bytes of `buf` it occupied; `Err`
    /// reports a protocol violation, exactly as `spec_decode` lays out.
    pub fn decode(&self, buf: &Vec<u8>) -> (r: Result<Option<(Message, usize)>, ProtocolError>)
        ensures
            spec_decode(buf@) is Incomplete ==> r == Ok::<Option<(Message, usize)>, ProtocolError>(
                None,
            ),
            spec_decode(buf@) matches DecodeOutcome::Fail(e) ==> r == Err::<
                Option<(Message, usize)>,
                ProtocolError,
            >(e),
            spec_decode(buf@) matches DecodeOutcome::Done(m, used) ==> (r matches Ok(
                Some((msg, u)),
            ) && msg@ == m && u == used),
    {
        if buf.len() < 4 {
            return Ok(None);
        }
        let n32 = u32_from_be(buf[0], buf[1], buf[2], buf[3]);
        if (n32 as u64) > (buf.len() as u64) - 4 {
            return Ok(None);
        }
        let n = n32 as usize;
        if n == 0 {
            return Ok(Some((Message::KeepAlive, 4)));
        }
        let used = 4 + n;
        let id = buf[4];
        let plen = n - 1;
        let ghost p = buf@.subrange(5, 4 + n as int);
        proof {
            assert(p.len() == plen);
        }
        if id == 0 || id == 1 || id == 2 || id == 3 {
            if plen != 0 {
                return Err(ProtocolError::LengthMismatch);
            }
            let m = if id == 0 {
                Message::Choke
            } else if id == 1 {
                Message::Unchoke
            } else if id == 2 {
                Message::Interested
            } else {
                Message::NotInterested
            };
            Ok(Some((m, used)))
        } else if id == 4 {
            if plen != 4 {
                return Err(ProtocolError::LengthMismatch);
            }
            let piece_index = u32_from_be(buf[5], buf[6], buf[7], buf[8]);
            proof {
                assert(p[0] == buf@[5] && p[1] == buf@[6] && p[2] == buf@[7] && p[3] == buf@[8]);
            }
            Ok(Some((Message::Have { piece_index }, used)))
        } else if id == 5 {
            let data = copy_range(buf, 5, used);
            Ok(Some((Message::Bitfield(data), used)))
        } else if id == 6 || id == 8 {
            if plen != 12 {
                return Err(ProtocolError::LengthMismatch);
            }
            let bi = BlockInfo {
                piece_index: u32_from_be(buf[5], buf[6], buf[7], buf[8]),
                block_offset: u32_from_be(buf[9], buf[10], buf[11], buf[12]),
                block_length: u32_from_be(buf[13], buf[14], buf[15], buf[16]),
            };
            proof {
                assert(forall|i: int| 0 <= i < 12 ==> p[i] == buf@[5 + i]);
            }
            if id == 6 {
                Ok(Some((Message::Request(bi), used)))
            } else {
                Ok(Some((Message::Cancel(bi), used)))
            }
        } else if id == 7 {
            if plen < 8 {
                return Err(ProtocolError::LengthMismatch);
            }
            let piece_index = u32_from_be(buf[5], buf[6], buf[7], buf[8]);
            let offset = u32_from_be(buf[9], buf[10], buf[11], buf[12]);
            let block_data = copy_range(buf, 13, used);
            proof {
                assert(forall|i: int| 0 <= i < 8 ==> p[i] == buf@[5 + i]);
                assert(block_data@ =~= p.subrange(8, p.len() as int));
            }
            Ok(Some((Message::Block { piece_index, offset, block_data }, used)))
        } else {
            Err(ProtocolError::InvalidMessageId(id))
        }
    }
}

/// Message codec round trip: the frame of any well-formed message, however
/// many bytes of further traffic follow it, decodes to exactly that message
/// and consumes exactly the frame.  The frame obeys the length-prefix rule:
/// its first four bytes are the big-endian byte count of what follows.
pub proof fn lemma_decode_encode(m: MessageV, rest: Seq<u8>)
    requires
        msg_wf(m),
    ensures
        spec_encode(m).len() == 4 + spec_payload(m).len(),
        spec_encode(m).subrange(0, 4) =~= spec_u32_to_be(spec_payload(m).len() as u32),
        spec_decode(spec_encode(m) + rest) == DecodeOutcome::Done(
            m,
            4 + spec_payload(m).len() as int,
        ),
{
    let p = spec_payload(m);
    let n = p.len() as int;
    let pre = spec_u32_to_be(n as u32);
    let full = spec_encode(m) + rest;
    assert(full.len() == 4 + n + rest.len());
    assert(forall|i: int| 0 <= i < 4 ==> full[i] == pre[i]);
    lemma_u32_be_of_to(n as u32);
    assert(spec_u32_of_be(full[0], full[1], full[2], full[3]) == n as u32);
    assert(forall|i: int| 0 <= i < n ==> full[4 + i] == p[i]);
    if n == 0 {
        assert(m is KeepAlive);
    } else {
        let id = full[4];
        assert(id == p[0]);
        let pay = full.subrange(5, 4 + n);
        assert(pay =~= p.subrange(1, n));
        match m {
            MessageV::KeepAlive => {},
            MessageV::Choke => {},
            MessageV::Unchoke => {},
            MessageV::Interested => {},
            MessageV::NotInterested => {},
            MessageV::Have { piece_index } => {
                let be = spec_u32_to_be(piece_index);
                assert(forall|i: int| 0 <= i < 4 ==> pay[i] == be[i]);
                lemma_u32_be_of_to(piece_index);
            },
            MessageV::Bitfield(b) => {
                assert(pay =~= b);
            },
            MessageV::Request(bi) => {
                lemma_block_info_fields(bi, pay);
            },
            MessageV::Cancel(bi) => {
                lemma_block_info_fields(bi, pay);
            },
            MessageV::Block { piece_index, offset, block_data } => {
                let be1 = spec_u32_to_be(piece_index);
                let be2 = spec_u32_to_be(offset);
                assert(forall|i: int| 0 <= i < 4 ==> pay[i] == be1[i]);
                assert(forall|i: int| 0 <= i < 4 ==> pay[4 + i] == be2[i]);
                lemma_u32_be_of_to(piece_index);
                lemma_u32_be_of_to(offset);
                assert(spec_u32_of_be(pay[4], pay[5], pay[6], pay[7]) == offset);
                assert(pay.subrange(8, pay.len() as int) =~= block_data);
            },
        }
    }
}

/// Reading the three fields of an encoded block descriptor back gives the
/// descriptor's fields.
proof fn lemma_block_info_fields(bi: BlockInfo, pay: Seq<u8>)
    requires
        pay =~= spec_block_info_bytes(bi),
    ensures
        pay.len() == 12,
        spec_u32_of_be(pay[0], pay[1], pay[2], pay[3]) == bi.piece_index,
        spec_u32_of_be(pay[4], pay[5], pay[6], pay[7]) == bi.block_offset,
        spec_u32_of_be(pay[8], pay[9], pay[10], pay[11]) == bi.block_length,
{
    let be1 = spec_u32_to_be(bi.piece_index);
    let be2 = spec_u32_to_be(bi.block_offset);
    let be3 = spec_u32_to_be(bi.block_length);
    assert(forall|i: int| 0 <= i < 4 ==> pay[i] == be1[i]);
    assert(forall|i: int| 0 <= i < 4 ==> pay[4 + i] == be2[i]);
    assert(forall|i: int| 0 <= i < 4 ==> pay[8 + i] == be3[i]);
    lemma_u32_be_of_to(bi.piece_index);
    lemma_u32_be_of_to(bi.block_offset);
    lemma_u32_be_of_to(bi.block_length);
}

} // verus!
