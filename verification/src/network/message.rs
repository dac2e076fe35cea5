//! Messages between nodes and their framing on the wire: four big-endian
//! length bytes, then the encoded message.

use vstd::prelude::*;
use crate::types::block::Block;
use crate::types::transaction::Transaction;

verus! {

/// A message between two nodes.
#[derive(Debug, Clone)]
pub enum NetworkMessage {
    /// Sent by the side that opens a connection.
    Handshake { version: u32, chain_hash: String, user_agent: String, start_height: u64 },
    /// The answer to a handshake.
    HandshakeAck { version: u32, chain_hash: String, start_height: u64 },
    /// A new transaction, relayed.
    Tx { tx: Transaction },
    /// A new block, relayed.
    Block { block: Block },
    /// A request for blocks from a height on.
    GetBlocks { from_height: u64, count: Option<u64> },
    /// The answer to a request for blocks.
    Blocks { blocks: Vec<Block> },
    Ping,
    Pong,
    GetPeerInfo,
    PeerInfo { height: u64, best_block_hash: String },
}

/// The name of a message kind, for logs.
pub open spec fn message_name(m: NetworkMessage) -> Seq<char> {
    match m {
        NetworkMessage::Handshake { .. } => "Handshake"@,
        NetworkMessage::HandshakeAck { .. } => "HandshakeAck"@,
        NetworkMessage::Tx { .. } => "Tx"@,
        NetworkMessage::Block { .. } => "Block"@,
        NetworkMessage::GetBlocks { .. } => "GetBlocks"@,
        NetworkMessage::Blocks { .. } => "Blocks"@,
        NetworkMessage::Ping => "Ping"@,
        NetworkMessage::Pong => "Pong"@,
        NetworkMessage::GetPeerInfo => "GetPeerInfo"@,
        NetworkMessage::PeerInfo { .. } => "PeerInfo"@,
    }
}

/// The position of a message's kind in the list of kinds.
pub open spec fn kind_index(m: NetworkMessage) -> int {
    match m {
        NetworkMessage::Handshake { .. } => 0,
        NetworkMessage::HandshakeAck { .. } => 1,
        NetworkMessage::Tx { .. } => 2,
        NetworkMessage::Block { .. } => 3,
        NetworkMessage::GetBlocks { .. } => 4,
        NetworkMessage::Blocks { .. } => 5,
        NetworkMessage::Ping => 6,
        NetworkMessage::Pong => 7,
        NetworkMessage::GetPeerInfo => 8,
        NetworkMessage::PeerInfo { .. } => 9,
    }
}

/// Two messages have the same name exactly when they are of the same kind,
/// whatever their fields.
pub proof fn lemma_name_identifies_kind(m1: NetworkMessage, m2: NetworkMessage)
    ensures
        (message_name(m1) == message_name(m2)) <==> (kind_index(m1) == kind_index(m2)),
{
    reveal_strlit("Handshake");
    reveal_strlit("HandshakeAck");
    reveal_strlit("Tx");
    reveal_strlit("Block");
    reveal_strlit("GetBlocks");
    reveal_strlit("Blocks");
    reveal_strlit("Ping");
    reveal_strlit("Pong");
    reveal_strlit("GetPeerInfo");
    reveal_strlit("PeerInfo");
    if kind_index(m1) != kind_index(m2) {
        let a = message_name(m1);
        let b = message_name(m2);
        if a.len() == b.len() {
            if a.len() == 9 {
                assert(a[0] != b[0]);
            } else {
                assert(a.len() == 4);
                assert(a[1] != b[1]);
            }
        }
    }
}

impl NetworkMessage {
    /// The name of this message's kind.
    pub fn name(&self) -> (n: &'static str)
        ensures
            n@ == message_name(*self),
    {
        match self {
            NetworkMessage::Handshake { .. } => "Handshake",
            NetworkMessage::HandshakeAck { .. } => "HandshakeAck",
            NetworkMessage::Tx { .. } => "Tx",
            NetworkMessage::Block { .. } => "Block",
            NetworkMessage::GetBlocks { .. } => "GetBlocks",
            NetworkMessage::Blocks { .. } => "Blocks",
            NetworkMessage::Ping => "Ping",
            NetworkMessage::Pong => "Pong",
            NetworkMessage::GetPeerInfo => "GetPeerInfo",
            NetworkMessage::PeerInfo { .. } => "PeerInfo",
        }
    }
}

/// The four big-endian bytes of `n`.
pub open spec fn be32(n: u32) -> Seq<u8> {
    seq![(n >> 24u32) as u8, (n >> 16u32) as u8, (n >> 8u32) as u8, n as u8]
}

/// The number that four bytes stand for, big-endian.
pub open spec fn read_be32(b0: u8, b1: u8, b2: u8, b3: u8) -> u32 {
    (b0 as u32) << 24u32 | (b1 as u32) << 16u32 | (b2 as u32) << 8u32 | (b3 as u32)
}

/// A framed payload: its length, cut to 32 bits, as four big-endian bytes,
/// then the payload.
pub open spec fn frame(payload: Seq<u8>) -> Seq<u8> {
    be32(payload.len() as u32) + payload
}

/// The length of the complete frame at the start of `buf`, or none while the
/// buffer holds less than its header and the payload that the header announces.
pub open spec fn frame_length(buf: Seq<u8>) -> Option<int> {
    if buf.len() < 4 {
        None
    } else {
        let n = read_be32(buf[0], buf[1], buf[2], buf[3]) as int;
        if buf.len() < 4 + n {
            None
        } else {
            Some(4 + n)
        }
    }
}

proof fn lemma_be32_roundtrip(n: u32)
    ensures
        read_be32(be32(n)[0], be32(n)[1], be32(n)[2], be32(n)[3]) == n,
{
    let b0 = (n >> 24u32) as u8;
    let b1 = (n >> 16u32) as u8;
    let b2 = (n >> 8u32) as u8;
    let b3 = n as u8;
    assert(((b0 as u32) << 24u32 | (b1 as u32) << 16u32 | (b2 as u32) << 8u32 | (b3 as u32)) == n)
        by (bit_vector)
        requires
            b0 == (n >> 24u32) as u8,
            b1 == (n >> 16u32) as u8,
            b2 == (n >> 8u32) as u8,
            b3 == n as u8,
    ;
}

/// A frame followed by anything decodes back to the payload, consuming
/// exactly the frame.
pub proof fn lemma_frame_roundtrip(payload: Seq<u8>, rest: Seq<u8>)
    requires
        payload.len() <= u32::MAX,
    ensures
        frame_length(frame(payload) + rest) == Some(4 + payload.len() as int),
        (frame(payload) + rest).subrange(4, 4 + payload.len() as int) == payload,
{
    let buf = frame(payload) + rest;
    lemma_be32_roundtrip(payload.len() as u32);
    assert(buf[0] == be32(payload.len() as u32)[0]);
    assert(buf[1] == be32(payload.len() as u32)[1]);
    assert(buf[2] == be32(payload.len() as u32)[2]);
    assert(buf[3] == be32(payload.len() as u32)[3]);
    assert(buf.subrange(4, 4 + payload.len() as int) =~= payload);
}

/// A frame that has not fully arrived decodes to nothing: the reader waits.
pub proof fn lemma_partial_frame_waits(payload: Seq<u8>, k: int)
    requires
        payload.len() <= u32::MAX,
        0 <= k < 4 + payload.len(),
    ensures
        frame_length(frame(payload).take(k)) is None,
{
    let buf = frame(payload).take(k);
    if k >= 4 {
        lemma_be32_roundtrip(payload.len() as u32);
        assert(buf[0] == be32(payload.len() as u32)[0]);
        assert(buf[1] == be32(payload.len() as u32)[1]);
        assert(buf[2] == be32(payload.len() as u32)[2]);
        assert(buf[3] == be32(payload.len() as u32)[3]);
    }
}

/// Frames an encoded message.
pub fn frame_message(payload: &[u8]) -> (framed: Vec<u8>)
    ensures
        framed@ == frame(payload@),
{
    let len = payload.len() as u32;
    let mut buf: Vec<u8> = Vec::new();
    buf.push((len >> 24u32) as u8);
    buf.push((len >> 16u32) as u8);
    buf.push((len >> 8u32) as u8);
    buf.push(len as u8);
    crate::crypto::bytes::push_bytes(&mut buf, payload);
    assert(buf@ =~= frame(payload@));
    buf
}

/// The length of the complete frame at the start of `buf`; none while more
/// bytes are needed.  The payload is `buf[4..n]`.
pub fn decode_frame(buf: &[u8]) -> (n: Option<usize>)
    ensures
        match n {
            Some(k) => frame_length(buf@) == Some(k as int),
            None => frame_length(buf@) is None,
        },
{
    if buf.len() < 4 {
        return None;
    }
    let msg_len: u32 = (buf[0] as u32) << 24u32 | (buf[1] as u32) << 16u32 | (buf[2] as u32) << 8u32
        | (buf[3] as u32);
    if (buf.len() as u64) < 4 + msg_len as u64 {
        return None;
    }
    Some(4 + msg_len as usize)
}

} // verus!
