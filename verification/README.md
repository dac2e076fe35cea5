# BlockKick

The verified core of a crowdfunding blockchain node, written in Verus.

`src/` is the library, every function of it proved against its contract:

- `types`: transactions and blocks; transaction identifiers and block hashes
  are the hex SHA-256 of canonical byte strings, and a block commits to its
  transactions through a Merkle root over their identifiers.
- `storage`: the chain itself, which only accepts a valid block that extends
  its tip; appending keeps a valid chain valid.
- `validator`: checks on single transactions, blocks and block links.
- `network::fork_resolver`: where a received block goes (main chain, fork,
  refusal, or the pool of blocks waiting for their parent), specified exactly
  by a recursive model that includes the adoption of waiting blocks.
- `network::peer_manager`: the registry of connected peers.
- `network::message`: the messages between nodes and their length-prefixed
  framing; a frame decodes back to its payload.
- `network::node`: what a node does on each message (reply, relay, state
  change).
- `config`: the command-line rules.
- `crypto`: SHA-256, hex text and Ed25519 signatures, through the `sha2`,
  `hex` and `ed25519-dalek` crates.
- `state::project`: crowdfunding projects.

`app/` is the node program: sockets, tasks and channels (tokio), and the JSON
form of the messages (serde).
