//! The registry of connected peers, keyed by their address text.

use vstd::prelude::*;

verus! {

/// What a node knows of a connected peer.
#[derive(Debug, Clone)]
pub struct PeerInfo {
    pub addr: String,
    pub version: u32,
    pub user_agent: String,
    pub start_height: u64,
    pub is_outbound: bool,
}

struct PeerEntry {
    addr: String,
    info: PeerInfo,
}

/// The connected peers, at most one entry per address, and the chain hash
/// that a compatible peer must announce.
pub struct PeerManager {
    peers: Vec<PeerEntry>,
    genesis_hash: String,
}

/// Whether some entry has address `a`.
pub open spec fn has_addr(es: Seq<(Seq<char>, PeerInfo)>, a: Seq<char>) -> bool {
    exists|i: int| 0 <= i < es.len() && (#[trigger] es[i]).0 == a
}

/// The position of the entry with address `a`.
pub open spec fn addr_index(es: Seq<(Seq<char>, PeerInfo)>, a: Seq<char>) -> int {
    choose|i: int| 0 <= i < es.len() && (#[trigger] es[i]).0 == a
}

/// No address has two entries.
pub open spec fn distinct_addrs(es: Seq<(Seq<char>, PeerInfo)>) -> bool {
    forall|i: int, j: int| 0 <= i < es.len() && 0 <= j < es.len() && i != j ==> (#[trigger] es[i]).0
        != (#[trigger] es[j]).0
}

/// Whether `a` is the address left out of a relay.
pub open spec fn is_excluded(exclude: Option<&String>, a: Seq<char>) -> bool {
    match exclude {
        Some(x) => x@ == a,
        None => false,
    }
}

/// What is known of the peer at `a`.
pub open spec fn lookup(es: Seq<(Seq<char>, PeerInfo)>, a: Seq<char>) -> Option<PeerInfo> {
    if has_addr(es, a) {
        Some(es[addr_index(es, a)].1)
    } else {
        None
    }
}

/// The registry after registering `info` at `a`: it replaces the entry of
/// `a`, or is appended.
pub open spec fn registered(es: Seq<(Seq<char>, PeerInfo)>, a: Seq<char>, info: PeerInfo) -> Seq<
    (Seq<char>, PeerInfo),
> {
    if has_addr(es, a) {
        es.update(addr_index(es, a), (a, info))
    } else {
        es.push((a, info))
    }
}

/// The registry after removing the entry of `a`, if any.
pub open spec fn removed(es: Seq<(Seq<char>, PeerInfo)>, a: Seq<char>) -> Seq<(Seq<char>, PeerInfo)> {
    if has_addr(es, a) {
        es.remove(addr_index(es, a))
    } else {
        es
    }
}

/// The registry after the peer at `a` announced `version`, `user_agent` and
/// `start_height`; unchanged when `a` is not registered.
pub open spec fn updated(
    es: Seq<(Seq<char>, PeerInfo)>,
    a: Seq<char>,
    version: u32,
    user_agent: String,
    start_height: u64,
) -> Seq<(Seq<char>, PeerInfo)> {
    if has_addr(es, a) {
        es.update(
            addr_index(es, a),
            (a, PeerInfo { version, user_agent, start_height, ..es[addr_index(es, a)].1 }),
        )
    } else {
        es
    }
}

/// After a registration, the peer is found with what was registered, and no
/// address has two entries.
pub proof fn lemma_register_then_lookup(es: Seq<(Seq<char>, PeerInfo)>, a: Seq<char>, info: PeerInfo)
    requires
        distinct_addrs(es),
    ensures
        lookup(registered(es, a, info), a) == Some(info),
        distinct_addrs(registered(es, a, info)),
        registered(es, a, info).len() == es.len() + (if has_addr(es, a) { 0int } else { 1int }),
{
    let r = registered(es, a, info);
    if has_addr(es, a) {
        let k = addr_index(es, a);
        assert(r[k].0 == a);
        assert(has_addr(r, a));
        let c = addr_index(r, a);
        assert(c == k);
    } else {
        let k = es.len() as int;
        assert(r[k].0 == a);
        assert(has_addr(r, a));
        let c = addr_index(r, a);
        if c != k {
            assert(r[c] == es[c]);
        }
    }
}

/// After a removal, the peer is gone and no address has two entries.
pub proof fn lemma_remove_then_absent(es: Seq<(Seq<char>, PeerInfo)>, a: Seq<char>)
    requires
        distinct_addrs(es),
    ensures
        lookup(removed(es, a), a) is None,
        distinct_addrs(removed(es, a)),
{
    let r = removed(es, a);
    if has_addr(es, a) {
        let k = addr_index(es, a);
        assert(es[k].0 == a);
        assert forall|i: int| 0 <= i < r.len() implies (#[trigger] r[i]).0 != a by {
            if i < k {
                assert(r[i] == es[i]);
            } else {
                assert(r[i] == es[i + 1]);
            }
        }
        assert forall|i: int, j: int| 0 <= i < r.len() && 0 <= j < r.len() && i != j implies (
        #[trigger] r[i]).0 != (#[trigger] r[j]).0 by {
            let ii = if i < k { i } else { i + 1 };
            let jj = if j < k { j } else { j + 1 };
            assert(r[i] == es[ii]);
            assert(r[j] == es[jj]);
        }
    }
}

/// Removing one peer leaves what is known of every other peer.
pub proof fn lemma_remove_keeps_others(es: Seq<(Seq<char>, PeerInfo)>, a: Seq<char>, b: Seq<char>)
    requires
        distinct_addrs(es),
        b != a,
    ensures
        lookup(removed(es, a), b) == lookup(es, b),
{
    let r = removed(es, a);
    if has_addr(es, a) {
        let k = addr_index(es, a);
        assert(es[k].0 == a);
        lemma_remove_then_absent(es, a);
        if has_addr(es, b) {
            let m = addr_index(es, b);
            assert(es[m].0 == b);
            let mm = if m < k { m } else { m - 1 };
            assert(r[mm] == es[m]);
            assert(has_addr(r, b));
            let c = addr_index(r, b);
            assert(r[c].0 == b);
            assert(c == mm);
        } else {
            if has_addr(r, b) {
                let c = addr_index(r, b);
                let cc = if c < k { c } else { c + 1 };
                assert(r[c] == es[cc]);
            }
        }
    }
}

impl PeerManager {
    /// The entries, as address text and what is known of the peer.
    pub closed spec fn entries(&self) -> Seq<(Seq<char>, PeerInfo)> {
        self.peers@.map_values(|e: PeerEntry| (e.addr@, e.info))
    }

    /// The chain hash that compatible peers announce.
    pub closed spec fn genesis(&self) -> Seq<char> {
        self.genesis_hash@
    }

    /// No address has two entries.
    pub open spec fn wf(&self) -> bool {
        distinct_addrs(self.entries())
    }

    /// An empty registry for the network whose chain hash is `genesis_hash`.
    pub fn new(genesis_hash: String) -> (pm: PeerManager)
        ensures
            pm.wf(),
            pm.entries() == Seq::<(Seq<char>, PeerInfo)>::empty(),
            pm.genesis() == genesis_hash@,
    {
        let pm = PeerManager { peers: Vec::new(), genesis_hash };
        assert(pm.entries() =~= Seq::<(Seq<char>, PeerInfo)>::empty());
        pm
    }

    fn position(&self, addr: &String) -> (pos: Option<usize>)
        requires
            self.wf(),
        ensures
            pos is Some == has_addr(self.entries(), addr@),
            pos matches Some(p) ==> p == addr_index(self.entries(), addr@) && p < self.entries().len(),
    {
        let n = self.peers.len();
        let mut i: usize = 0;
        while i < n
            invariant
                n == self.peers@.len(),
                self.wf(),
                i <= n,
                forall|j: int| 0 <= j < i ==> (#[trigger] self.entries()[j]).0 != addr@,
            decreases n - i,
        {
            if self.peers[i].addr == *addr {
                let ghost es = self.entries();
                assert(es[i as int].0 == addr@);
                assert(has_addr(es, addr@));
                let ghost c = addr_index(es, addr@);
                assert(es[c].0 == addr@);
                assert(c == i);
                return Some(i);
            }
            i = i + 1;
        }
        proof {
            let es = self.entries();
            if has_addr(es, addr@) {
                let c = addr_index(es, addr@);
                assert(es[c].0 == addr@);
            }
        }
        None
    }

    /// Registers a peer at `addr`, replacing what was known of it.
    pub fn register(&mut self, addr: String, info: PeerInfo)
        requires
            old(self).wf(),
        ensures
            final(self).wf(),
            final(self).entries() == registered(old(self).entries(), addr@, info),
            final(self).genesis() == old(self).genesis(),
    {
        proof {
            lemma_register_then_lookup(self.entries(), addr@, info);
        }
        let ghost es = self.entries();
        match self.position(&addr) {
            Some(i) => {
                self.peers.set(i, PeerEntry { addr, info });
            },
            None => {
                self.peers.push(PeerEntry { addr, info });
            },
        }
        assert(self.entries() =~= registered(es, addr@, info));
    }

    /// Forgets the peer at `addr`, giving back what was known of it.
    pub fn remove(&mut self, addr: &String) -> (info: Option<PeerInfo>)
        requires
            old(self).wf(),
        ensures
            final(self).wf(),
            info == lookup(old(self).entries(), addr@),
            final(self).entries() == removed(old(self).entries(), addr@),
            final(self).genesis() == old(self).genesis(),
    {
        let ghost es = self.entries();
        proof {
            lemma_remove_then_absent(es, addr@);
        }
        match self.position(addr) {
            Some(i) => {
                let e = self.peers.remove(i);
                assert(self.entries() =~= removed(es, addr@));
                Some(e.info)
            },
            None => None,
        }
    }

    /// The addresses to relay a message to: every peer but `exclude`, each once.
    pub fn broadcast(&self, exclude: Option<&String>) -> (targets: Vec<String>)
        requires
            self.wf(),
        ensures
            forall|a: Seq<char>|
                (exists|i: int| 0 <= i < targets@.len() && (#[trigger] targets@[i])@ == a) <==> (
                has_addr(self.entries(), a) && !is_excluded(exclude, a)),
            forall|i: int, j: int|
                0 <= i < targets@.len() && 0 <= j < targets@.len() && i != j ==> (
                #[trigger] targets@[i])@ != (#[trigger] targets@[j])@,
    {
        let ghost es = self.entries();
        let n = self.peers.len();
        let mut targets: Vec<String> = Vec::new();
        let ghost mut picked: Seq<int> = Seq::empty();
        let mut i: usize = 0;
        while i < n
            invariant
                n == self.peers@.len(),
                es == self.entries(),
                self.wf(),
                i <= n,
                picked.len() == targets@.len(),
                forall|k: int| 0 <= k < picked.len() ==> 0 <= #[trigger] picked[k] < i && targets@[k]@ == es[picked[k]].0,
                forall|k: int, l: int| 0 <= k < l < picked.len() ==> #[trigger] picked[k] < #[trigger] picked[l],
                forall|j: int|
                    0 <= j < i && !is_excluded(exclude, (#[trigger] es[j]).0) ==> exists|k: int|
                        0 <= k < picked.len() && picked[k] == j,
                forall|k: int| 0 <= k < picked.len() ==> !is_excluded(exclude, es[#[trigger] picked[k]].0),
            decreases n - i,
        {
            let skip = match exclude {
                Some(x) => self.peers[i].addr == *x,
                None => false,
            };
            let ghost old_picked = picked;
            if !skip {
                targets.push(self.peers[i].addr.clone());
                proof {
                    picked = picked.push(i as int);
                }
            }
            assert(skip ==> picked == old_picked);
            assert(!skip ==> picked == old_picked.push(i as int));
            proof {
                assert forall|j: int|
                    0 <= j < i + 1 && !is_excluded(exclude, (#[trigger] es[j]).0) implies exists|k: int|
                        0 <= k < picked.len() && picked[k] == j by {
                    if j < i {
                        let k = choose|k: int| 0 <= k < old_picked.len() && old_picked[k] == j;
                        if !skip {
                            assert(old_picked.push(i as int)[k] == old_picked[k]);
                        }
                        assert(picked[k] == j);
                    } else {
                        assert(picked[picked.len() - 1] == j);
                    }
                }
            }
            i = i + 1;
        }
        assert forall|a: Seq<char>|
            (exists|i: int| 0 <= i < targets@.len() && (#[trigger] targets@[i])@ == a) <==> (has_addr(es, a)
                && !is_excluded(exclude, a)) by {
            if exists|i: int| 0 <= i < targets@.len() && (#[trigger] targets@[i])@ == a {
                let i = choose|i: int| 0 <= i < targets@.len() && (#[trigger] targets@[i])@ == a;
                assert(es[picked[i]].0 == a);
            }
            if has_addr(es, a) && !is_excluded(exclude, a) {
                let j = addr_index(es, a);
                assert(es[j].0 == a);
                let k = choose|k: int| 0 <= k < picked.len() && picked[k] == j;
                assert(targets@[k]@ == a);
            }
        }
        assert forall|i: int, j: int|
            0 <= i < targets@.len() && 0 <= j < targets@.len() && i != j implies (
            #[trigger] targets@[i])@ != (#[trigger] targets@[j])@ by {
            assert(picked[i] != picked[j]) by {
                if i < j {
                    assert(picked[i] < picked[j]);
                } else {
                    assert(picked[j] < picked[i]);
                }
            }
            assert(es[picked[i]].0 != es[picked[j]].0);
        }
        targets
    }

    /// Whether a peer is registered at `addr`: a message to it can be handed on.
    pub fn has_peer(&self, addr: &String) -> (found: bool)
        requires
            self.wf(),
        ensures
            found == has_addr(self.entries(), addr@),
    {
        self.position(addr).is_some()
    }

    /// Whether `chain_hash` is the one of this network.
    pub fn check_chain(&self, chain_hash: &str) -> (ok: bool)
        ensures
            ok == (chain_hash@ == self.genesis()),
    {
        let given = chain_hash.to_owned();
        given == self.genesis_hash
    }

    /// Records what a peer announced of itself, if it is registered.
    pub fn update_peer_info(&mut self, addr: &String, version: u32, user_agent: String, start_height: u64)
        requires
            old(self).wf(),
        ensures
            final(self).wf(),
            final(self).genesis() == old(self).genesis(),
            final(self).entries() == updated(
                old(self).entries(),
                addr@,
                version,
                user_agent,
                start_height,
            ),
    {
        let ghost es = self.entries();
        match self.position(addr) {
            Some(i) => {
                let old_entry = &self.peers[i];
                let info = PeerInfo {
                    addr: old_entry.info.addr.clone(),
                    version,
                    user_agent,
                    start_height,
                    is_outbound: old_entry.info.is_outbound,
                };
                let key = old_entry.addr.clone();
                self.peers.set(i, PeerEntry { addr: key, info });
                assert(self.entries() =~= es.update(
                    i as int,
                    (addr@, PeerInfo { version, user_agent, start_height, ..es[i as int].1 }),
                ));
                assert forall|p: int, q: int|
                    0 <= p < self.entries().len() && 0 <= q < self.entries().len() && p != q implies (
                    #[trigger] self.entries()[p]).0 != (#[trigger] self.entries()[q]).0 by {
                    assert(self.entries()[p].0 == es[p].0);
                    assert(self.entries()[q].0 == es[q].0);
                }
            },
            None => {},
        }
    }

    /// The height that the peer at `addr` announced, if it is registered.
    pub fn get_peer_height(&self, addr: &String) -> (h: Option<u64>)
        requires
            self.wf(),
        ensures
            h == (match lookup(self.entries(), addr@) {
                Some(info) => Some(info.start_height),
                None => None,
            }),
    {
        match self.position(addr) {
            Some(i) => Some(self.peers[i].info.start_height),
            None => None,
        }
    }

    /// The number of registered peers.
    pub fn count(&self) -> (n: usize)
        ensures
            n == self.entries().len(),
    {
        self.peers.len()
    }
}

} // verus!
