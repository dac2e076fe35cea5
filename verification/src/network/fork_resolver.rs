//! Fork resolution: where a received block goes, and the pool of blocks that
//! wait for their parent.

use vstd::prelude::*;
use vstd::string::StringExecFns;
use crate::consensus::BLOCK_REWARD;
use crate::storage::{chain_add, chain_valid, lemma_add_keeps_chain_valid, Blockchain};
use crate::types::block::{block_hash, merkle_root_of, tx_ids, Block};
use crate::types::transaction::{TransactionData, TransactionType};

verus! {

/// What became of a received block.
#[derive(Debug, Clone, PartialEq)]
pub enum ForkResult {
    AcceptedMainChain,
    AcceptedFork,
    Rejected(String),
    Reorganized { old_tip: String, new_tip: String, reverted: u64, applied: u64 },
}

/// The view of a [`ForkResult`].
pub enum ForkOutcome {
    AcceptedMainChain,
    AcceptedFork,
    Rejected(Seq<char>),
    Reorganized { old_tip: Seq<char>, new_tip: Seq<char>, reverted: u64, applied: u64 },
}

impl View for ForkResult {
    type V = ForkOutcome;

    open spec fn view(&self) -> ForkOutcome {
        match self {
            ForkResult::AcceptedMainChain => ForkOutcome::AcceptedMainChain,
            ForkResult::AcceptedFork => ForkOutcome::AcceptedFork,
            ForkResult::Rejected(m) => ForkOutcome::Rejected(m@),
            ForkResult::Reorganized { old_tip, new_tip, reverted, applied } => {
                ForkOutcome::Reorganized {
                    old_tip: old_tip@,
                    new_tip: new_tip@,
                    reverted: *reverted,
                    applied: *applied,
                }
            },
        }
    }
}

/// The state that fork resolution reads and changes: the chain, and the
/// blocks waiting for their parent in arrival order.
pub struct ResolverModel {
    pub blocks: Seq<Block>,
    pub orphans: Seq<Block>,
}

/// Decides where received blocks go and keeps the ones whose parent is unknown.
pub struct ForkResolver {
    blockchain: Blockchain,
    orphan_pool: Vec<Block>,
}

/// The hash that a block names as its parent.
pub open spec fn parent_of(b: Block) -> Seq<char> {
    b.header.prev_hash@
}

/// Whether some block of the chain has hash `h`.
pub open spec fn has_hash(blocks: Seq<Block>, h: Seq<char>) -> bool {
    exists|i: int| 0 <= i < blocks.len() && block_hash(#[trigger] blocks[i]) == h
}

/// The position of the first block of the chain with hash `h`.
#[verifier::opaque]
pub open spec fn first_hash_index(blocks: Seq<Block>, h: Seq<char>) -> int {
    choose|i: int|
        0 <= i < blocks.len() && block_hash(blocks[i]) == h && forall|j: int|
            0 <= j < i ==> block_hash(#[trigger] blocks[j]) != h
}

/// Every block of `a` stays at its place in `b`.
pub open spec fn extends(a: Seq<Block>, b: Seq<Block>) -> bool {
    a.len() <= b.len() && forall|i: int| 0 <= i < a.len() ==> #[trigger] b[i] == a[i]
}

/// The checks that a block must pass before anything else: a first
/// transaction that is a coinbase paying the block reward, and a Merkle root
/// that matches the transactions.
pub open spec fn basic_valid(b: Block) -> bool {
    &&& b.transactions@.len() > 0
    &&& b.transactions@[0].tx_type == TransactionType::Coinbase
    &&& b.transactions@[0].data matches TransactionData::Coinbase(c) && c.reward == BLOCK_REWARD
    &&& b.header.merkle_root@ == merkle_root_of(tx_ids(b.transactions@))
}

/// The waiting blocks that name `h` as their parent, in arrival order.
pub open spec fn waiting_on(os: Seq<Block>, h: Seq<char>) -> Seq<Block>
    decreases os.len(),
{
    if os.len() == 0 {
        Seq::empty()
    } else if parent_of(os.last()) == h {
        waiting_on(os.drop_last(), h).push(os.last())
    } else {
        waiting_on(os.drop_last(), h)
    }
}

/// The waiting blocks that do not name `h` as their parent, in arrival order.
pub open spec fn not_waiting_on(os: Seq<Block>, h: Seq<char>) -> Seq<Block>
    decreases os.len(),
{
    if os.len() == 0 {
        Seq::empty()
    } else if parent_of(os.last()) == h {
        not_waiting_on(os.drop_last(), h)
    } else {
        not_waiting_on(os.drop_last(), h).push(os.last())
    }
}

/// The text of the rejection of a block whose parent is unknown.
pub open spec fn orphan_message(parent: Seq<char>) -> Seq<char> {
    "Orphan (parent "@ + parent + " unknown)"@
}

/// What handling a received block does: the new state and the outcome.
pub open spec fn handle_model(m: ResolverModel, b: Block) -> (ResolverModel, ForkOutcome)
    decreases m.orphans.len() + 1, 2nat,
{
    if !basic_valid(b) {
        (m, ForkOutcome::Rejected("Basic validation failed"@))
    } else if has_hash(m.blocks, parent_of(b)) {
        try_add_model(m, b)
    } else {
        (
            ResolverModel { blocks: m.blocks, orphans: m.orphans.push(b) },
            ForkOutcome::Rejected(orphan_message(parent_of(b))),
        )
    }
}

/// A block whose parent is known: a new tip, a fork, or a refusal.
pub open spec fn try_add_model(m: ResolverModel, b: Block) -> (ResolverModel, ForkOutcome)
    decreases m.orphans.len() + 1, 1nat,
{
    if m.blocks.len() == 0 {
        (m, ForkOutcome::Rejected("Empty chain"@))
    } else if parent_of(b) == block_hash(m.blocks.last()) {
        match chain_add(m.blocks, b) {
            Ok(nb) => (
                process_model(ResolverModel { blocks: nb, orphans: m.orphans }, block_hash(b)),
                ForkOutcome::AcceptedMainChain,
            ),
            Err(e) => (m, ForkOutcome::Rejected("Add failed: "@ + e)),
        }
    } else if has_hash(m.blocks, parent_of(b)) {
        fork_model(m, b)
    } else {
        (m, ForkOutcome::Rejected("Parent not in chain"@))
    }
}

/// A block whose parent is in the chain but is not the tip.  It would
/// reorganize the chain if its branch were longer than the main chain; a
/// branch off a block of the chain never is, so it is recorded as a fork.
pub open spec fn fork_model(m: ResolverModel, b: Block) -> (ResolverModel, ForkOutcome) {
    let fork_height = if has_hash(m.blocks, parent_of(b)) {
        first_hash_index(m.blocks, parent_of(b)) + 1
    } else {
        0
    };
    if fork_height > m.blocks.len() {
        match chain_add(m.blocks, b) {
            Ok(nb) => (
                ResolverModel { blocks: nb, orphans: m.orphans },
                ForkOutcome::Reorganized {
                    old_tip: "old"@,
                    new_tip: block_hash(b),
                    reverted: 0,
                    applied: 1,
                },
            ),
            Err(e) => (m, ForkOutcome::Rejected("Reorg failed: "@ + e)),
        }
    } else {
        (m, ForkOutcome::AcceptedFork)
    }
}

/// A new tip with hash `h` arrived: the blocks waiting on it leave the pool
/// and are handled again, in arrival order.
pub open spec fn process_model(m: ResolverModel, h: Seq<char>) -> ResolverModel
    decreases m.orphans.len() + 1, 0nat,
{
    proof {
        lemma_waiting_split_len(m.orphans, h);
    }
    fold_model(
        ResolverModel { blocks: m.blocks, orphans: not_waiting_on(m.orphans, h) },
        waiting_on(m.orphans, h),
    )
}

/// Handles the blocks `bs` one after the other.  Every block handled here
/// names a block of the chain as its parent, and handling such a block never
/// grows the pool (`handle_block` states it), so the second branch is not
/// taken; it only bounds the recursion.
pub open spec fn fold_model(m: ResolverModel, bs: Seq<Block>) -> ResolverModel
    decreases m.orphans.len() + bs.len(), 3nat,
{
    if bs.len() == 0 {
        m
    } else {
        let m1 = handle_model(m, bs[0]).0;
        if m1.orphans.len() <= m.orphans.len() {
            fold_model(m1, bs.drop_first())
        } else {
            m1
        }
    }
}

/// No waiting block names a block of the chain as its parent.
pub open spec fn orphans_detached(m: ResolverModel) -> bool {
    forall|i: int| 0 <= i < m.orphans.len() ==> !has_hash(m.blocks, parent_of(#[trigger] m.orphans[i]))
}

/// The blocks waiting on `h` and the others together are the whole pool.
pub proof fn lemma_waiting_split_len(os: Seq<Block>, h: Seq<char>)
    ensures
        waiting_on(os, h).len() + not_waiting_on(os, h).len() == os.len(),
    decreases os.len(),
{
    if os.len() > 0 {
        lemma_waiting_split_len(os.drop_last(), h);
    }
}

proof fn lemma_waiting_parents(os: Seq<Block>, h: Seq<char>)
    ensures
        forall|k: int| 0 <= k < waiting_on(os, h).len() ==> parent_of(#[trigger] waiting_on(os, h)[k]) == h,
        forall|k: int|
            0 <= k < not_waiting_on(os, h).len() ==> exists|j: int|
                0 <= j < os.len() && #[trigger] not_waiting_on(os, h)[k] == os[j] && parent_of(os[j]) != h,
    decreases os.len(),
{
    if os.len() > 0 {
        lemma_waiting_parents(os.drop_last(), h);
        let w = waiting_on(os.drop_last(), h);
        let r = not_waiting_on(os.drop_last(), h);
        assert forall|k: int| 0 <= k < not_waiting_on(os, h).len() implies exists|j: int|
            0 <= j < os.len() && #[trigger] not_waiting_on(os, h)[k] == os[j] && parent_of(os[j]) != h by {
            if k < r.len() {
                let j = choose|j: int|
                    0 <= j < os.drop_last().len() && #[trigger] r[k] == os.drop_last()[j] && parent_of(
                        os.drop_last()[j],
                    ) != h;
                assert(os[j] == os.drop_last()[j]);
            } else {
                assert(not_waiting_on(os, h)[k] == os[os.len() - 1]);
            }
        }
    }
}

/// The first block with hash `h` is a block of the chain with that hash.
pub proof fn lemma_first_hash_index(blocks: Seq<Block>, h: Seq<char>)
    requires
        has_hash(blocks, h),
    ensures
        0 <= first_hash_index(blocks, h) < blocks.len(),
        block_hash(blocks[first_hash_index(blocks, h)]) == h,
{
    reveal(first_hash_index);
    let i = choose|i: int| 0 <= i < blocks.len() && block_hash(#[trigger] blocks[i]) == h;
    lemma_least_hash_index(blocks, h, i);
}

proof fn lemma_least_hash_index(blocks: Seq<Block>, h: Seq<char>, i: int)
    requires
        0 <= i < blocks.len(),
        block_hash(blocks[i]) == h,
    ensures
        exists|k: int|
            0 <= k < blocks.len() && block_hash(blocks[k]) == h && forall|j: int|
                0 <= j < k ==> block_hash(#[trigger] blocks[j]) != h,
    decreases i,
{
    if exists|j: int| 0 <= j < i && block_hash(#[trigger] blocks[j]) == h {
        let j = choose|j: int| 0 <= j < i && block_hash(#[trigger] blocks[j]) == h;
        lemma_least_hash_index(blocks, h, j);
    } else {
        assert(forall|j: int| 0 <= j < i ==> block_hash(#[trigger] blocks[j]) != h);
    }
}

proof fn lemma_has_hash_extends(a: Seq<Block>, b: Seq<Block>, h: Seq<char>)
    requires
        extends(a, b),
        has_hash(a, h),
    ensures
        has_hash(b, h),
{
    let i = choose|i: int| 0 <= i < a.len() && block_hash(#[trigger] a[i]) == h;
    assert(b[i] == a[i]);
}

/// A block whose parent is a block of the chain other than the tip is
/// recorded as a fork and changes nothing: it never reorganizes the chain.
pub proof fn lemma_fork_is_recorded_only(m: ResolverModel, b: Block)
    requires
        basic_valid(b),
        m.blocks.len() > 0,
        has_hash(m.blocks, parent_of(b)),
        parent_of(b) != block_hash(m.blocks.last()),
    ensures
        handle_model(m, b) == (m, ForkOutcome::AcceptedFork),
{
    lemma_first_hash_index(m.blocks, parent_of(b));
}

/// A block that passes the first checks, names the tip as its parent and is
/// accepted by the chain goes onto the main chain, right after the old tip.
pub proof fn lemma_tip_extension_accepted(m: ResolverModel, b: Block)
    requires
        basic_valid(b),
        m.blocks.len() > 0,
        parent_of(b) == block_hash(m.blocks.last()),
        chain_add(m.blocks, b) is Ok,
    ensures
        handle_model(m, b).1 == ForkOutcome::AcceptedMainChain,
{
    assert(block_hash(m.blocks[m.blocks.len() - 1]) == parent_of(b));
}

/// A rejected block leaves the chain as it was; only a block whose parent is
/// unknown is kept, at the end of the waiting pool.
pub proof fn lemma_rejected_keeps_chain(m: ResolverModel, b: Block)
    requires
        handle_model(m, b).1 is Rejected,
    ensures
        handle_model(m, b).0.blocks == m.blocks,
        handle_model(m, b).0.orphans == m.orphans || (handle_model(m, b).0.orphans == m.orphans.push(b)
            && !has_hash(m.blocks, parent_of(b))),
{
    if has_hash(m.blocks, parent_of(b)) && basic_valid(b) && m.blocks.len() > 0 && parent_of(b)
        != block_hash(m.blocks.last()) {
        lemma_first_hash_index(m.blocks, parent_of(b));
    }
}

/// From `m` to `m2` the chain only grew, and every block that waited in `m`
/// and still has no parent in the chain of `m2` still waits in `m2`.
pub open spec fn keeps_unrelated_orphans(m: ResolverModel, m2: ResolverModel) -> bool {
    &&& extends(m.blocks, m2.blocks)
    &&& forall|o: Block|
        #[trigger] m.orphans.contains(o) && !has_hash(m2.blocks, parent_of(o))
            ==> m2.orphans.contains(o)
}

proof fn lemma_keeps_trans(a: ResolverModel, b: ResolverModel, c: ResolverModel)
    requires
        keeps_unrelated_orphans(a, b),
        keeps_unrelated_orphans(b, c),
    ensures
        keeps_unrelated_orphans(a, c),
{
    assert(extends(a.blocks, c.blocks)) by {
        assert forall|i: int| 0 <= i < a.blocks.len() implies #[trigger] c.blocks[i] == a.blocks[i] by {
            assert(b.blocks[i] == a.blocks[i]);
        }
    }
    assert forall|o: Block| #[trigger] a.orphans.contains(o) && !has_hash(c.blocks, parent_of(o)) implies c.orphans.contains(o) by {
        if has_hash(b.blocks, parent_of(o)) {
            lemma_has_hash_extends(b.blocks, c.blocks, parent_of(o));
        }
        assert(b.orphans.contains(o));
    }
}

proof fn lemma_keeps_refl(a: ResolverModel)
    ensures
        keeps_unrelated_orphans(a, a),
{
}

proof fn lemma_not_waiting_contains(os: Seq<Block>, h: Seq<char>, o: Block)
    requires
        os.contains(o),
        parent_of(o) != h,
    ensures
        not_waiting_on(os, h).contains(o),
    decreases os.len(),
{
    let j = choose|j: int| 0 <= j < os.len() && os[j] == o;
    if j == os.len() - 1 {
        let r = not_waiting_on(os.drop_last(), h);
        assert(not_waiting_on(os, h) == r.push(o));
        assert(r.push(o)[r.len() as int] == o);
    } else {
        assert(os.drop_last()[j] == o);
        lemma_not_waiting_contains(os.drop_last(), h, o);
        let r = not_waiting_on(os.drop_last(), h);
        let k = choose|k: int| 0 <= k < r.len() && r[k] == o;
        if parent_of(os.last()) != h {
            assert(r.push(os.last())[k] == o);
        }
    }
}

proof fn lemma_handle_keeps(m: ResolverModel, b: Block)
    ensures
        keeps_unrelated_orphans(m, handle_model(m, b).0),
    decreases m.orphans.len() + 1, 2nat,
{
    if !basic_valid(b) {
    } else if has_hash(m.blocks, parent_of(b)) {
        lemma_try_keeps(m, b);
    } else {
        let m2 = handle_model(m, b).0;
        assert(m2.orphans == m.orphans.push(b));
        assert forall|o: Block| #[trigger] m.orphans.contains(o) && !has_hash(m2.blocks, parent_of(o)) implies m2.orphans.contains(o) by {
            let j = choose|j: int| 0 <= j < m.orphans.len() && m.orphans[j] == o;
            assert(m2.orphans[j] == o);
        }
    }
}

proof fn lemma_try_keeps(m: ResolverModel, b: Block)
    ensures
        keeps_unrelated_orphans(m, try_add_model(m, b).0),
    decreases m.orphans.len() + 1, 1nat,
{
    if m.blocks.len() == 0 {
    } else if parent_of(b) == block_hash(m.blocks.last()) {
        match chain_add(m.blocks, b) {
            Ok(nb) => {
                let m1 = ResolverModel { blocks: nb, orphans: m.orphans };
                assert(nb[m.blocks.len() as int] == b);
                assert(has_hash(nb, block_hash(b)));
                lemma_process_keeps(m1, block_hash(b));
                assert(keeps_unrelated_orphans(m, m1));
                lemma_keeps_trans(m, m1, process_model(m1, block_hash(b)));
            },
            Err(_) => {},
        }
    } else if has_hash(m.blocks, parent_of(b)) {
        lemma_first_hash_index(m.blocks, parent_of(b));
    } else {
    }
}

proof fn lemma_process_keeps(m: ResolverModel, h: Seq<char>)
    requires
        has_hash(m.blocks, h),
    ensures
        keeps_unrelated_orphans(m, process_model(m, h)),
    decreases m.orphans.len() + 1, 0nat,
{
    lemma_waiting_split_len(m.orphans, h);
    let start = ResolverModel { blocks: m.blocks, orphans: not_waiting_on(m.orphans, h) };
    lemma_fold_keeps(start, waiting_on(m.orphans, h));
    let fin = process_model(m, h);
    assert(fin == fold_model(start, waiting_on(m.orphans, h)));
    lemma_has_hash_extends(m.blocks, fin.blocks, h);
    assert forall|o: Block| #[trigger] m.orphans.contains(o) && !has_hash(fin.blocks, parent_of(o)) implies fin.orphans.contains(o) by {
        lemma_not_waiting_contains(m.orphans, h, o);
        assert(start.orphans.contains(o));
    }
}

proof fn lemma_fold_keeps(m: ResolverModel, bs: Seq<Block>)
    ensures
        keeps_unrelated_orphans(m, fold_model(m, bs)),
    decreases m.orphans.len() + bs.len(), 3nat,
{
    if bs.len() == 0 {
        lemma_keeps_refl(m);
    } else {
        let m1 = handle_model(m, bs[0]).0;
        lemma_handle_keeps(m, bs[0]);
        if m1.orphans.len() <= m.orphans.len() {
            lemma_fold_keeps(m1, bs.drop_first());
            lemma_keeps_trans(m, m1, fold_model(m1, bs.drop_first()));
        }
    }
}

/// Handling a block never loses a waiting block whose parent is still
/// missing: a block leaves the pool only when its parent has become a block
/// of the chain (and it was then handled again).  The chain only grows.
pub proof fn lemma_orphans_wait_for_their_parent(m: ResolverModel, b: Block)
    ensures
        extends(m.blocks, handle_model(m, b).0.blocks),
        forall|o: Block|
            #[trigger] m.orphans.contains(o) && !has_hash(handle_model(m, b).0.blocks, parent_of(o))
                ==> handle_model(m, b).0.orphans.contains(o),
{
    lemma_handle_keeps(m, b);
}

impl ForkResolver {
    /// The chain and the waiting blocks.
    pub closed spec fn model(&self) -> ResolverModel {
        ResolverModel { blocks: self.blockchain@, orphans: self.orphan_pool@ }
    }

    /// A resolver over `blockchain` with no waiting block.
    pub fn new(blockchain: Blockchain) -> (r: ForkResolver)
        ensures
            r.model().blocks == blockchain@,
            r.model().orphans == Seq::<Block>::empty(),
    {
        ForkResolver { blockchain, orphan_pool: Vec::new() }
    }

    /// The chain.
    pub fn blockchain(&self) -> (chain: &Blockchain)
        ensures
            chain@ == self.model().blocks,
    {
        &self.blockchain
    }

    /// The number of waiting blocks.
    pub fn orphan_count(&self) -> (n: usize)
        ensures
            n == self.model().orphans.len(),
    {
        self.orphan_pool.len()
    }

    /// Handles a received block; see [`handle_model`] for every outcome.
    pub fn handle_block(&mut self, block: Block) -> (res: ForkResult)
        ensures
            (final(self).model(), res@) == handle_model(old(self).model(), block),
            extends(old(self).model().blocks, final(self).model().blocks),
            final(self).model().orphans.len() <= old(self).model().orphans.len() + 1,
            has_hash(old(self).model().blocks, parent_of(block)) ==> final(self).model().orphans.len()
                <= old(self).model().orphans.len(),
            orphans_detached(old(self).model()) ==> orphans_detached(final(self).model()),
            chain_valid(old(self).model().blocks) ==> chain_valid(final(self).model().blocks),
            res@ is AcceptedMainChain ==> final(self).model().blocks.len() > old(self).model().blocks.len()
                && final(self).model().blocks[old(self).model().blocks.len() as int] == block,
        decreases old(self).model().orphans.len() + 1, 2nat,
    {
        let hash = block.calculate_hash();
        let parent_hash = block.header.prev_hash.clone();
        if !self.validate_basic(&block) {
            return ForkResult::Rejected("Basic validation failed".to_owned());
        }
        if Self::chain_has_parent(&self.blockchain, &parent_hash) {
            return self.try_add_block(block, &hash, &parent_hash);
        }
        self.handle_orphan(block, &parent_hash)
    }

    /// Whether some block of the chain has hash `parent_hash`.
    fn chain_has_parent(chain: &Blockchain, parent_hash: &String) -> (found: bool)
        ensures
            found == has_hash(chain@, parent_hash@),
    {
        Self::hash_position(chain, parent_hash).is_some()
    }

    /// The position of the first block of the chain with hash `h`.
    fn hash_position(chain: &Blockchain, h: &String) -> (pos: Option<usize>)
        ensures
            pos is Some == has_hash(chain@, h@),
            pos matches Some(p) ==> p == first_hash_index(chain@, h@) && p < chain@.len(),
    {
        let blocks = chain.get_blocks();
        let n = blocks.len();
        let mut i: usize = 0;
        while i < n
            invariant
                n == blocks@.len(),
                blocks@ == chain@,
                i <= n,
                forall|j: int| 0 <= j < i ==> block_hash(#[trigger] blocks@[j]) != h@,
            decreases n - i,
        {
            let bh = blocks[i].calculate_hash();
            if bh == *h {
                let ghost w = i as int;
                assert(0 <= w < chain@.len() && block_hash(chain@[w]) == h@ && forall|j: int|
                    0 <= j < w ==> block_hash(#[trigger] chain@[j]) != h@);
                let ghost c = first_hash_index(chain@, h@);
                assert(c == w) by {
                    reveal(first_hash_index);
                    if c < w {
                        assert(block_hash(blocks@[c]) != h@);
                    } else if c > w {
                        assert(block_hash(chain@[w]) != h@);
                    }
                }
                return Some(i);
            }
            i = i + 1;
        }
        None
    }

    /// A block whose parent is in the chain: appended when its parent is the
    /// tip, else treated as a fork.
    fn try_add_block(&mut self, block: Block, tip_hash: &String, parent_hash: &String) -> (res:
        ForkResult)
        requires
            tip_hash@ == block_hash(block),
            parent_hash@ == parent_of(block),
        ensures
            (final(self).model(), res@) == try_add_model(old(self).model(), block),
            extends(old(self).model().blocks, final(self).model().blocks),
            final(self).model().orphans.len() <= old(self).model().orphans.len(),
            orphans_detached(old(self).model()) ==> orphans_detached(final(self).model()),
            chain_valid(old(self).model().blocks) ==> chain_valid(final(self).model().blocks),
            res@ is AcceptedMainChain ==> final(self).model().blocks.len() > old(self).model().blocks.len()
                && final(self).model().blocks[old(self).model().blocks.len() as int] == block,
        decreases old(self).model().orphans.len() + 1, 1nat,
    {
        let current_tip = match self.blockchain.get_latest_block() {
            Some(b) => b.calculate_hash(),
            None => return ForkResult::Rejected("Empty chain".to_owned()),
        };
        if *parent_hash == current_tip {
            let ghost before = self.model();
            let ghost b0 = block;
            match self.blockchain.add_block(block) {
                Ok(_) => {
                    proof {
                        let nb = self.model().blocks;
                        assert(chain_add(before.blocks, b0) is Ok);
                        if chain_valid(before.blocks) {
                            lemma_add_keeps_chain_valid(before.blocks, b0);
                        }
                        assert(nb == before.blocks.push(b0));
                        assert(extends(before.blocks, nb));
                        assert(nb[before.blocks.len() as int] == b0);
                        if orphans_detached(before) {
                            assert forall|i: int| 0 <= i < self.orphan_pool@.len() implies (parent_of(
                                #[trigger] self.orphan_pool@[i],
                            ) == tip_hash@ || !has_hash(nb, parent_of(self.orphan_pool@[i]))) by {
                                if parent_of(self.orphan_pool@[i])
                                    != tip_hash@ && has_hash(nb, parent_of(self.orphan_pool@[i])) {
                                    let k = choose|k: int|
                                        0 <= k < nb.len() && block_hash(#[trigger] nb[k]) == parent_of(
                                            self.orphan_pool@[i],
                                        );
                                    if k < before.blocks.len() {
                                        assert(nb[k] == before.blocks[k]);
                                        assert(has_hash(before.blocks, parent_of(before.orphans[i])));
                                    } else {
                                        assert(nb[k] == b0);
                                    }
                                }
                            }
                        }
                    }
                    self.process_orphans(tip_hash, Ghost(orphans_detached(before)));
                    ForkResult::AcceptedMainChain
                },
                Err(e) => {
                    let mut msg = "Add failed: ".to_owned();
                    msg.append(e.as_str());
                    ForkResult::Rejected(msg)
                },
            }
        } else if Self::chain_has_parent(&self.blockchain, parent_hash) {
            self.handle_fork(block, tip_hash, parent_hash)
        } else {
            ForkResult::Rejected("Parent not in chain".to_owned())
        }
    }

    /// A block whose parent is in the chain but is not the tip.
    fn handle_fork(&mut self, block: Block, tip_hash: &String, parent_hash: &String) -> (res:
        ForkResult)
        requires
            tip_hash@ == block_hash(block),
            parent_hash@ == parent_of(block),
        ensures
            (final(self).model(), res@) == fork_model(old(self).model(), block),
            extends(old(self).model().blocks, final(self).model().blocks),
            final(self).model().orphans == old(self).model().orphans,
            chain_valid(old(self).model().blocks) ==> chain_valid(final(self).model().blocks),
    {
        let ghost m = self.model();
        let main_height = self.blockchain.height();
        let pos = Self::hash_position(&self.blockchain, parent_hash);
        let fork_height: u64 = match pos {
            Some(h) => h as u64 + 1,
            None => 0,
        };
        proof {
            if has_hash(m.blocks, parent_of(block)) {
                lemma_first_hash_index(m.blocks, parent_of(block));
            }
        }
        assert(fork_height == (if has_hash(m.blocks, parent_of(block)) {
            first_hash_index(m.blocks, parent_of(block)) + 1
        } else {
            0
        }));
        if fork_height > main_height {
            let ghost b0 = block;
            let r = self.reorganize(block, tip_hash, parent_hash);
            match r {
                Ok((rev, app)) => {
                    assert(chain_add(m.blocks, b0) is Ok);
                    proof {
                        if chain_valid(m.blocks) {
                            lemma_add_keeps_chain_valid(m.blocks, b0);
                        }
                    }
                    ForkResult::Reorganized {
                        old_tip: "old".to_owned(),
                        new_tip: tip_hash.clone(),
                        reverted: rev,
                        applied: app,
                    }
                },
                Err(e) => {
                    assert(chain_add(m.blocks, b0) is Err);
                    let mut msg = "Reorg failed: ".to_owned();
                    msg.append(e.as_str());
                    ForkResult::Rejected(msg)
                },
            }
        } else {
            ForkResult::AcceptedFork
        }
    }

    /// Switches to the branch ending in `new_tip` by appending it to the chain.
    fn reorganize(&mut self, new_tip: Block, new_tip_id: &String, parent_hash: &String) -> (res:
        Result<(u64, u64), String>)
        ensures
            match chain_add(old(self).model().blocks, new_tip) {
                Ok(nb) => res == Ok::<(u64, u64), String>((0u64, 1u64)) && final(self).model().blocks
                    == nb,
                Err(e) => res matches Err(m) && m@ == e && final(self).model().blocks == old(
                    self,
                ).model().blocks,
            },
            final(self).model().orphans == old(self).model().orphans,
    {
        match self.blockchain.add_block(new_tip) {
            Ok(_) => Ok((0, 1)),
            Err(e) => Err(e),
        }
    }

    /// Keeps a block whose parent is unknown until that parent arrives.
    fn handle_orphan(&mut self, block: Block, parent_hash: &String) -> (res: ForkResult)
        requires
            parent_hash@ == parent_of(block),
        ensures
            final(self).model().blocks == old(self).model().blocks,
            final(self).model().orphans == old(self).model().orphans.push(block),
            res@ == ForkOutcome::Rejected(orphan_message(parent_of(block))),
    {
        let mut msg = "Orphan (parent ".to_owned();
        msg.append(parent_hash.as_str());
        msg.append(" unknown)");
        self.orphan_pool.push(block);
        ForkResult::Rejected(msg)
    }

    /// The tip with hash `new_tip_hash` arrived: handles again, in arrival
    /// order, the blocks that waited on it.
    fn process_orphans(&mut self, new_tip_hash: &String, Ghost(detached): Ghost<bool>)
        requires
            has_hash(old(self).model().blocks, new_tip_hash@),
            detached ==> forall|i: int|
                0 <= i < old(self).model().orphans.len() ==> (parent_of(
                    #[trigger] old(self).model().orphans[i],
                ) == new_tip_hash@ || !has_hash(
                    old(self).model().blocks,
                    parent_of(old(self).model().orphans[i]),
                )),
        ensures
            final(self).model() == process_model(old(self).model(), new_tip_hash@),
            extends(old(self).model().blocks, final(self).model().blocks),
            final(self).model().orphans.len() <= old(self).model().orphans.len(),
            detached ==> orphans_detached(final(self).model()),
            chain_valid(old(self).model().blocks) ==> chain_valid(final(self).model().blocks),
        decreases old(self).model().orphans.len() + 1, 0nat,
    {
        let ghost m0 = self.model();
        let ghost h = new_tip_hash@;
        let mut pool: Vec<Block> = Vec::new();
        std::mem::swap(&mut pool, &mut self.orphan_pool);
        let ghost all = pool@;
        let mut waiting: Vec<Block> = Vec::new();
        let mut rest: Vec<Block> = Vec::new();
        let total = pool.len();
        let mut i: usize = 0;
        while i < total
            invariant
                h == new_tip_hash@,
                total == all.len(),
                i <= total,
                pool@ == all.skip(i as int),
                waiting@ == waiting_on(all.take(i as int), h),
                rest@ == not_waiting_on(all.take(i as int), h),
            decreases total - i,
        {
            let b = pool.remove(0);
            let ghost t1 = all.take(i + 1);
            assert(t1.drop_last() =~= all.take(i as int));
            assert(t1.last() == b);
            assert(waiting_on(t1, h) == if parent_of(b) == h {
                waiting_on(all.take(i as int), h).push(b)
            } else {
                waiting_on(all.take(i as int), h)
            });
            assert(not_waiting_on(t1, h) == if parent_of(b) == h {
                not_waiting_on(all.take(i as int), h)
            } else {
                not_waiting_on(all.take(i as int), h).push(b)
            });
            let ghost w0 = waiting@;
            let ghost r0 = rest@;
            if b.header.prev_hash == *new_tip_hash {
                assert(parent_of(b) == h);
                waiting.push(b);
                assert(waiting@ == w0.push(b));
                assert(waiting@ == waiting_on(t1, h));
                assert(rest@ == not_waiting_on(t1, h));
            } else {
                rest.push(b);
                assert(waiting@ == waiting_on(t1, h));
                assert(rest@ == not_waiting_on(t1, h));
            }
            i = i + 1;
            assert(t1 == all.take(i as int));
            assert(pool@ =~= all.skip(i as int));
        }
        assert(all.take(i as int) =~= all);
        proof {
            lemma_waiting_split_len(all, h);
            lemma_waiting_parents(all, h);
        }
        self.orphan_pool = rest;
        let ghost start = self.model();
        assert(process_model(m0, h) == fold_model(start, waiting@));
        assert(detached ==> orphans_detached(start)) by {
            if detached {
                assert forall|k: int| 0 <= k < start.orphans.len() implies !has_hash(
                    start.blocks,
                    parent_of(#[trigger] start.orphans[k]),
                ) by {
                    assert(start.orphans[k] == not_waiting_on(all, h)[k]);
                    let j = choose|j: int|
                        0 <= j < all.len() && #[trigger] not_waiting_on(all, h)[k] == all[j]
                            && parent_of(all[j]) != h;
                    assert(m0.orphans[j] == all[j]);
                }
            }
        }
        while waiting.len() > 0
            invariant
                h == new_tip_hash@,
                m0 == old(self).model(),
                has_hash(self.model().blocks, h),
                forall|k: int| 0 <= k < waiting@.len() ==> parent_of(#[trigger] waiting@[k]) == h,
                self.model().orphans.len() + waiting@.len() <= m0.orphans.len(),
                extends(m0.blocks, self.model().blocks),
                detached ==> orphans_detached(self.model()),
                chain_valid(m0.blocks) ==> chain_valid(self.model().blocks),
                process_model(m0, h) == fold_model(self.model(), waiting@),
            decreases waiting@.len(),
        {
            let ghost cur = self.model();
            let ghost ws = waiting@;
            let b = waiting.remove(0);
            assert(parent_of(ws[0]) == h);
            self.handle_block(b);
            proof {
                let nb = self.model().blocks;
                assert(extends(m0.blocks, nb));
                lemma_has_hash_extends(cur.blocks, nb, h);
                assert(waiting@ == ws.drop_first());
            }
        }
    }

    /// The checks a block must pass before anything else.
    fn validate_basic(&self, block: &Block) -> (ok: bool)
        ensures
            ok == basic_valid(*block),
    {
        if block.transactions.len() == 0 {
            return false;
        }
        if block.transactions[0].tx_type != TransactionType::Coinbase {
            return false;
        }
        match &block.transactions[0].data {
            TransactionData::Coinbase(data) => {
                if data.reward != BLOCK_REWARD {
                    return false;
                }
            },
            _ => {
                return false;
            },
        }
        let expected = Block::calculate_merkle_root(&block.transactions);
        block.header.merkle_root == expected
    }
}

} // verus!
