//! What a node decides on each message from a peer.  The connection loop
//! sends the reply and relays the message that these decisions name.

use vstd::prelude::*;
use crate::network::fork_resolver::{handle_model, orphans_detached, ForkOutcome, ForkResolver, ResolverModel};
use crate::network::message::NetworkMessage;
use crate::network::peer_manager::{updated, PeerInfo, PeerManager};
use crate::storage::{chain_valid, Blockchain};
use crate::types::block::{Block, BlockView};

verus! {

/// The protocol version that this node speaks.
pub const PROTOCOL_VERSION: u32 = 1;

/// What this node calls itself in handshakes.
pub const USER_AGENT: &'static str = "BlockKick/0.4.0";

/// The number of blocks sent for a request that names no count.
pub const DEFAULT_BLOCK_BATCH: u64 = 100;

/// The state that the message handling of all connections shares.
pub struct NodeState {
    pub peer_manager: PeerManager,
    pub fork_resolver: ForkResolver,
    /// The hash that identifies this node's network.
    pub chain_hash: String,
}

/// What to do after a message: a reply to its sender, a message to relay to
/// every other peer, and whether the handshake counts as done once the reply
/// (if any) has been sent.
pub struct MessageOutcome {
    pub reply: Option<NetworkMessage>,
    pub relay: Option<NetworkMessage>,
    pub handshake_done: bool,
}

/// The blocks answering a request from `from` for at most `max` blocks: the
/// ones at heights `from`, `from + 1`, ... that the chain has.
pub open spec fn requested_blocks(chain: Seq<Block>, from: u64, max: u64) -> Seq<Block> {
    if from >= chain.len() {
        Seq::empty()
    } else if from + max <= chain.len() {
        chain.subrange(from as int, from + max)
    } else {
        chain.subrange(from as int, chain.len() as int)
    }
}

/// The views of a list of blocks.
pub open spec fn block_views(bs: Seq<Block>) -> Seq<BlockView> {
    bs.map_values(|b: Block| b@)
}

/// The information registered for a peer that connected to this node.
pub fn inbound_peer_info(addr: String) -> (info: PeerInfo)
    ensures
        info.addr == addr,
        info.version == 0,
        info.user_agent@.len() == 0,
        info.start_height == 0,
        !info.is_outbound,
{
    PeerInfo { addr, version: 0, user_agent: String::new(), start_height: 0, is_outbound: false }
}

/// The information registered for a peer that this node connected to, when
/// its chain has `start_height` blocks.
pub fn outbound_peer_info(addr: String, start_height: u64) -> (info: PeerInfo)
    ensures
        info.addr == addr,
        info.version == PROTOCOL_VERSION,
        info.user_agent@ == USER_AGENT@,
        info.start_height == start_height,
        info.is_outbound,
{
    PeerInfo {
        addr,
        version: PROTOCOL_VERSION,
        user_agent: USER_AGENT.to_owned(),
        start_height,
        is_outbound: true,
    }
}

impl NodeState {
    /// The peer registry is well formed and checks peers against this node's
    /// own chain hash.
    pub open spec fn wf(&self) -> bool {
        &&& self.peer_manager.wf()
        &&& self.peer_manager.genesis() == self.chain_hash@
    }

    /// The node state for the network named `chain_hash` over `blockchain`.
    pub fn new(chain_hash: String, blockchain: Blockchain) -> (st: NodeState)
        ensures
            st.wf(),
            st.peer_manager.wf(),
            st.peer_manager.entries().len() == 0,
            st.peer_manager.genesis() == chain_hash@,
            st.fork_resolver.model() == (ResolverModel {
                blocks: blockchain@,
                orphans: Seq::empty(),
            }),
            st.chain_hash == chain_hash,
    {
        let peer_manager = PeerManager::new(chain_hash.clone());
        let fork_resolver = ForkResolver::new(blockchain);
        NodeState { peer_manager, fork_resolver, chain_hash }
    }

    /// The number of blocks in the chain.
    pub fn height(&self) -> (h: u64)
        ensures
            h == self.fork_resolver.model().blocks.len(),
    {
        self.fork_resolver.blockchain().height()
    }

    /// The handshake that opens a connection from this node.
    pub fn handshake(&self) -> (m: NetworkMessage)
        ensures
            m matches NetworkMessage::Handshake { version, chain_hash, user_agent, start_height }
                && version == PROTOCOL_VERSION && chain_hash == self.chain_hash && user_agent@
                == USER_AGENT@ && start_height == self.fork_resolver.model().blocks.len(),
    {
        NetworkMessage::Handshake {
            version: PROTOCOL_VERSION,
            chain_hash: self.chain_hash.clone(),
            user_agent: USER_AGENT.to_owned(),
            start_height: self.height(),
        }
    }

    /// The blocks from height `from` on, at most `max` of them.
    fn collect_blocks(&self, from: u64, max: u64) -> (blocks: Vec<Block>)
        requires
            from + max <= u64::MAX,
        ensures
            blocks@.len() == requested_blocks(self.fork_resolver.model().blocks, from, max).len(),
            block_views(blocks@) == block_views(
                requested_blocks(self.fork_resolver.model().blocks, from, max),
            ),
    {
        let chain = self.fork_resolver.blockchain();
        let ghost all = chain@;
        let mut blocks: Vec<Block> = Vec::new();
        let end = from + max;
        let mut h = from;
        while h < end
            invariant
                all == chain@,
                all == self.fork_resolver.model().blocks,
                from <= h <= end,
                end == from + max,
                h > from ==> h <= all.len(),
                blocks@.len() == h - from,
                forall|k: int| 0 <= k < blocks@.len() ==> #[trigger] blocks@[k]@ == all[from + k]@,
            ensures
                from <= h <= end,
                h > from ==> h <= all.len(),
                h == end || h >= all.len(),
                blocks@.len() == h - from,
                forall|k: int| 0 <= k < blocks@.len() ==> #[trigger] blocks@[k]@ == all[from + k]@,
            decreases end - h,
        {
            match chain.get_block(h) {
                Some(b) => {
                    blocks.push(b.duplicate());
                },
                None => {
                    break;
                },
            }
            h = h + 1;
        }
        proof {
            let want = requested_blocks(all, from, max);
            assert(blocks@.len() == want.len());
            assert forall|k: int| 0 <= k < want.len() implies #[trigger] block_views(blocks@)[k]
                == block_views(want)[k] by {
                assert(want[k] == all[from + k]);
            }
            assert(block_views(blocks@) =~= block_views(want));
        }
        blocks
    }

    /// Decides what a message from the peer at `from` leads to.
    /// `handshake_done` tells whether this connection finished its handshake.
    /// A handshake or its answer that names another network is refused: the
    /// peer record stays as it was and no outcome is given, so the
    /// connection's handshake state does not change.
    pub fn process_message(&mut self, msg: NetworkMessage, from: &String, handshake_done: bool) -> (res:
        Result<MessageOutcome, String>)
        requires
            old(self).wf(),
            msg matches NetworkMessage::GetBlocks { from_height, count } ==> from_height + (match count {
                Some(c) => c,
                None => DEFAULT_BLOCK_BATCH,
            }) <= u64::MAX,
        ensures
            final(self).wf(),
            final(self).chain_hash == old(self).chain_hash,
            final(self).peer_manager.genesis() == old(self).peer_manager.genesis(),
            chain_valid(old(self).fork_resolver.model().blocks) ==> chain_valid(
                final(self).fork_resolver.model().blocks,
            ),
            orphans_detached(old(self).fork_resolver.model()) ==> orphans_detached(
                final(self).fork_resolver.model(),
            ),
            match msg {
                NetworkMessage::Handshake { version, chain_hash, user_agent, start_height } => {
                    if chain_hash@ != old(self).peer_manager.genesis() {
                        &&& res matches Err(e) && e@ == "Incompatible network"@
                        &&& final(self).peer_manager.entries() == old(self).peer_manager.entries()
                        &&& final(self).fork_resolver.model() == old(self).fork_resolver.model()
                    } else {
                        &&& res matches Ok(out) && out.relay is None && out.handshake_done
                            && out.reply == Some(
                            NetworkMessage::HandshakeAck {
                                version: PROTOCOL_VERSION,
                                chain_hash: old(self).chain_hash,
                                start_height: old(self).fork_resolver.model().blocks.len() as u64,
                            },
                        )
                        &&& final(self).peer_manager.entries() == updated(
                            old(self).peer_manager.entries(),
                            from@,
                            version,
                            user_agent,
                            start_height,
                        )
                        &&& final(self).fork_resolver.model() == old(self).fork_resolver.model()
                    }
                },
                NetworkMessage::HandshakeAck { version, chain_hash, start_height } => {
                    if chain_hash@ != old(self).peer_manager.genesis() {
                        &&& res matches Err(e) && e@ == "Incompatible network"@
                        &&& final(self).peer_manager.entries() == old(self).peer_manager.entries()
                        &&& final(self).fork_resolver.model() == old(self).fork_resolver.model()
                    } else {
                        &&& res matches Ok(out) && out.reply is None && out.relay is None
                            && out.handshake_done
                        &&& exists|ua: String|
                            ua@.len() == 0 && final(self).peer_manager.entries() == #[trigger] updated(
                                old(self).peer_manager.entries(),
                                from@,
                                version,
                                ua,
                                start_height,
                            )
                        &&& final(self).fork_resolver.model() == old(self).fork_resolver.model()
                    }
                },
                NetworkMessage::Tx { tx } => {
                    &&& res matches Ok(out) && out.reply is None && out.handshake_done
                        == handshake_done && (if handshake_done {
                        out.relay == Some(NetworkMessage::Tx { tx })
                    } else {
                        out.relay is None
                    })
                    &&& final(self).peer_manager.entries() == old(self).peer_manager.entries()
                    &&& final(self).fork_resolver.model() == old(self).fork_resolver.model()
                },
                NetworkMessage::Block { block } => {
                    &&& res matches Ok(out) && out.reply is None && out.handshake_done
                        == handshake_done
                    &&& final(self).peer_manager.entries() == old(self).peer_manager.entries()
                    &&& if handshake_done {
                        let (m, r) = handle_model(old(self).fork_resolver.model(), block);
                        &&& final(self).fork_resolver.model() == m
                        &&& if r is AcceptedMainChain || r is Reorganized {
                            res->Ok_0.relay matches Some(NetworkMessage::Block { block: b })
                                && b@ == block@
                        } else {
                            res->Ok_0.relay is None
                        }
                    } else {
                        &&& final(self).fork_resolver.model() == old(self).fork_resolver.model()
                        &&& res->Ok_0.relay is None
                    }
                },
                NetworkMessage::Ping => {
                    &&& res matches Ok(out) && out.reply == Some(NetworkMessage::Pong)
                        && out.relay is None && out.handshake_done == handshake_done
                    &&& final(self).peer_manager.entries() == old(self).peer_manager.entries()
                    &&& final(self).fork_resolver.model() == old(self).fork_resolver.model()
                },
                NetworkMessage::GetBlocks { from_height, count } => {
                    let want = requested_blocks(
                        old(self).fork_resolver.model().blocks,
                        from_height,
                        match count {
                            Some(c) => c,
                            None => DEFAULT_BLOCK_BATCH,
                        },
                    );
                    &&& res matches Ok(out) && out.relay is None && out.handshake_done
                        == handshake_done && (if want.len() == 0 {
                        out.reply is None
                    } else {
                        out.reply matches Some(NetworkMessage::Blocks { blocks }) && block_views(
                            blocks@,
                        ) == block_views(want)
                    })
                    &&& final(self).peer_manager.entries() == old(self).peer_manager.entries()
                    &&& final(self).fork_resolver.model() == old(self).fork_resolver.model()
                },
                _ => {
                    &&& res matches Ok(out) && out.reply is None && out.relay is None
                        && out.handshake_done == handshake_done
                    &&& final(self).peer_manager.entries() == old(self).peer_manager.entries()
                    &&& final(self).fork_resolver.model() == old(self).fork_resolver.model()
                },
            },
    {
        let quiet = MessageOutcome { reply: None, relay: None, handshake_done };
        match msg {
            NetworkMessage::Handshake { version, chain_hash, user_agent, start_height } => {
                if !self.peer_manager.check_chain(chain_hash.as_str()) {
                    return Err("Incompatible network".to_owned());
                }
                self.peer_manager.update_peer_info(from, version, user_agent, start_height);
                let ack = NetworkMessage::HandshakeAck {
                    version: PROTOCOL_VERSION,
                    chain_hash: self.chain_hash.clone(),
                    start_height: self.height(),
                };
                Ok(MessageOutcome { reply: Some(ack), relay: None, handshake_done: true })
            },
            NetworkMessage::HandshakeAck { version, chain_hash, start_height } => {
                if !self.peer_manager.check_chain(chain_hash.as_str()) {
                    return Err("Incompatible network".to_owned());
                }
                let ua = String::new();
                let ghost ua0 = ua;
                self.peer_manager.update_peer_info(from, version, ua, start_height);
                assert(self.peer_manager.entries() == updated(
                    old(self).peer_manager.entries(),
                    from@,
                    version,
                    ua0,
                    start_height,
                ));
                Ok(MessageOutcome { reply: None, relay: None, handshake_done: true })
            },
            NetworkMessage::Tx { tx } => {
                if !handshake_done {
                    return Ok(quiet);
                }
                Ok(
                    MessageOutcome {
                        reply: None,
                        relay: Some(NetworkMessage::Tx { tx }),
                        handshake_done,
                    },
                )
            },
            NetworkMessage::Block { block } => {
                if !handshake_done {
                    return Ok(quiet);
                }
                let copy = block.duplicate();
                let result = self.fork_resolver.handle_block(block);
                let accepted = match result {
                    crate::network::fork_resolver::ForkResult::AcceptedMainChain => true,
                    crate::network::fork_resolver::ForkResult::Reorganized { .. } => true,
                    _ => false,
                };
                if accepted {
                    Ok(
                        MessageOutcome {
                            reply: None,
                            relay: Some(NetworkMessage::Block { block: copy }),
                            handshake_done,
                        },
                    )
                } else {
                    Ok(quiet)
                }
            },
            NetworkMessage::Ping => {
                Ok(MessageOutcome { reply: Some(NetworkMessage::Pong), relay: None, handshake_done })
            },
            NetworkMessage::GetBlocks { from_height, count } => {
                let max = match count {
                    Some(c) => c,
                    None => DEFAULT_BLOCK_BATCH,
                };
                let blocks = self.collect_blocks(from_height, max);
                if blocks.len() == 0 {
                    Ok(quiet)
                } else {
                    Ok(
                        MessageOutcome {
                            reply: Some(NetworkMessage::Blocks { blocks }),
                            relay: None,
                            handshake_done,
                        },
                    )
                }
            },
            _ => Ok(quiet),
        }
    }
}

} // verus!
