//! The orchestration state machine: a strictly ordered, non-repeating
//! phase sequence — spawn every node in ascending id order, connect every
//! declared peer pair, start production on the sealer prefix, then hand
//! over to the terminal phase (load test or idle). The controller decides;
//! the process spawning and console I/O around it happen outside the
//! library and feed their observations back in.

use vstd::prelude::*;
use crate::codec;
use crate::errors::Error;
use crate::node::{IdentifierState, NodeRecord, SessionState};
use crate::sampler;

verus! {

/// Where the run stands. Phases only ever advance.
#[derive(Clone, Copy, Debug, PartialEq, Eq, Structural)]
pub enum Phase {
    /// Nodes are being spawned and discovered, in ascending id order.
    Spawn,
    /// All nodes are up; peer links are established next.
    Connect,
    /// Peer links are up; the sealer prefix begins producing next.
    Produce,
    /// Setup is complete: run the load test or hold the cluster open.
    Terminal,
}

/// How the peer graph is declared: an explicit adjacency matrix taken
/// verbatim, or a randomized draw of `peer_count` peers per node.
pub enum Topology {
    Explicit(Vec<Vec<usize>>),
    Random(usize),
}

/// One "connect to peer" command of the connect phase: `node`'s session
/// receives the `identifier` that `peer` reported at discovery.
#[derive(Debug, PartialEq, Eq)]
pub struct ConnectCmd {
    pub node: usize,
    pub peer: usize,
    pub identifier: Vec<u8>,
}

/// The commands issued, in this order, to each producing node.
#[derive(Clone, Copy, Debug, PartialEq, Eq, Structural)]
pub enum ProducerRequest {
    StartProducing,
    ListProducers,
    ShowAccount,
    ListPeers,
}

/// One command of the start-production phase.
#[derive(Clone, Copy, Debug, PartialEq, Eq, Structural)]
pub struct ProducerCmd {
    pub node: usize,
    pub request: ProducerRequest,
}

/// The number of declared (node, peer) pairs among the first `i` nodes;
/// also the position where node `i`'s own pairs begin in the connect plan.
pub open spec fn pair_count(nodes: Seq<NodeRecord>, i: int) -> int
    decreases i,
{
    if i <= 0 {
        0
    } else {
        pair_count(nodes, i - 1) + nodes[i - 1].peers@.len()
    }
}

proof fn lemma_pair_count_nonneg(nodes: Seq<NodeRecord>, i: int)
    ensures
        pair_count(nodes, i) >= 0,
    decreases i,
{
    if i > 0 {
        lemma_pair_count_nonneg(nodes, i - 1);
    }
}

proof fn lemma_pair_count_mono(nodes: Seq<NodeRecord>, a: int, b: int)
    requires
        a <= b,
    ensures
        pair_count(nodes, a) <= pair_count(nodes, b),
    decreases b - a,
{
    if a < b {
        lemma_pair_count_mono(nodes, a, b - 1);
    }
}

/// The fixed order of the four per-sealer commands within the plan.
pub open spec fn request_in_round(k: int) -> ProducerRequest {
    if k == 0 {
        ProducerRequest::StartProducing
    } else if k == 1 {
        ProducerRequest::ListProducers
    } else if k == 2 {
        ProducerRequest::ShowAccount
    } else {
        ProducerRequest::ListPeers
    }
}

/// The one owner of the node collection and of the phase sequence.
pub struct Controller {
    pub nodes: Vec<NodeRecord>,
    pub sealer_count: usize,
    pub phase: Phase,
    /// How many nodes have completed spawn and discovery so far.
    pub spawned: usize,
}

impl Controller {
    pub open spec fn wf(&self) -> bool {
        &&& self.sealer_count <= self.nodes@.len()
        &&& self.spawned <= self.nodes@.len()
        &&& (self.phase == Phase::Spawn ==> self.spawned < self.nodes@.len())
        &&& (self.phase != Phase::Spawn ==> self.spawned == self.nodes@.len())
        &&& forall|i: int| 0 <= i < self.nodes@.len() ==> (#[trigger] self.nodes@[i]).id == i
        &&& forall|i: int| 0 <= i < self.nodes@.len() ==>
                ((#[trigger] self.nodes@[i]).session == SessionState::Attached <==> i < self.spawned)
        &&& forall|i: int| 0 <= i < self.nodes@.len() ==>
                ((#[trigger] self.nodes@[i]).identifier.is_present() <==> i < self.spawned)
    }

    /// Builds the node collection from the externally assigned account
    /// addresses and the declared topology. An explicit matrix is taken
    /// verbatim (peer indices are only validated at first use, in the
    /// connect phase); a randomized topology draws distinct peers for
    /// every node. Fails with an invalid-argument error when the sealer
    /// count exceeds the node count, the matrix does not cover every
    /// node, or more peers are requested than other nodes exist.
    pub fn new(addresses: Vec<Vec<u8>>, sealer_count: usize, topology: Topology) -> (r: Result<Controller, Error>)
        ensures
            match r {
                Ok(c) => {
                    &&& c.wf()
                    &&& sealer_count <= addresses@.len()
                    &&& c.nodes@.len() == addresses@.len()
                    &&& c.sealer_count == sealer_count
                    &&& c.spawned == 0
                    &&& (c.phase == Phase::Spawn <==> addresses@.len() > 0)
                    &&& (c.phase == Phase::Spawn || c.phase == Phase::Connect)
                    &&& forall|i: int| 0 <= i < c.nodes@.len() ==> {
                            let node = #[trigger] c.nodes@[i];
                            &&& node.id == i
                            &&& node.address@ == addresses@[i]@
                            &&& node.session == SessionState::Absent
                            &&& !node.identifier.is_present()
                        }
                    &&& match topology {
                            Topology::Explicit(m) => m@.len() == addresses@.len()
                                && forall|i: int| 0 <= i < c.nodes@.len() ==>
                                    (#[trigger] c.nodes@[i]).peers@ == m@[i]@,
                            Topology::Random(k) => (addresses@.len() > 0 ==> k < addresses@.len())
                                && forall|i: int| 0 <= i < c.nodes@.len() ==> {
                                    let node = #[trigger] c.nodes@[i];
                                    &&& node.peers@.len() == k as int
                                    &&& node.peers_wf(addresses@.len() as nat)
                                    &&& forall|p: int, q: int| 0 <= p < q < node.peers@.len()
                                            ==> node.peers@[p] != node.peers@[q]
                                },
                        }
                },
                Err(e) => {
                    &&& e == Error::InvalidArgument
                    &&& (sealer_count > addresses@.len() || match topology {
                            Topology::Explicit(m) => m@.len() != addresses@.len(),
                            Topology::Random(k) => addresses@.len() > 0 && k >= addresses@.len(),
                        })
                },
            },
    {
        let n = addresses.len();
        let ghost addrs0 = addresses@;
        if sealer_count > n {
            return Err(Error::InvalidArgument);
        }
        let mut addresses = addresses;
        let mut nodes: Vec<NodeRecord> = Vec::new();
        match topology {
            Topology::Explicit(matrix) => {
                if matrix.len() != n {
                    return Err(Error::InvalidArgument);
                }
                let ghost matrix0 = matrix@;
                let mut matrix = matrix;
                let mut i: usize = 0;
                while i < n
                    invariant
                        i <= n,
                        addrs0.len() == n as int,
                        matrix0.len() == n as int,
                        addresses@ == addrs0.skip(i as int),
                        matrix@ == matrix0.skip(i as int),
                        nodes@.len() == i as int,
                        forall|j: int| 0 <= j < i ==> {
                            let node = #[trigger] nodes@[j];
                            &&& node.id == j
                            &&& node.address@ == addrs0[j]@
                            &&& node.peers@ == matrix0[j]@
                            &&& node.session == SessionState::Absent
                            &&& !node.identifier.is_present()
                        },
                    decreases n - i,
                {
                    let addr = addresses.remove(0);
                    let row = matrix.remove(0);
                    nodes.push(NodeRecord {
                        id: i,
                        address: addr,
                        peers: row,
                        session: SessionState::Absent,
                        identifier: IdentifierState::Absent,
                    });
                    proof {
                        assert(addresses@ =~= addrs0.skip(i + 1));
                        assert(matrix@ =~= matrix0.skip(i + 1));
                    }
                    i += 1;
                }
            },
            Topology::Random(peer_count) => {
                if n > 0 && peer_count >= n {
                    return Err(Error::InvalidArgument);
                }
                let mut i: usize = 0;
                while i < n
                    invariant
                        i <= n,
                        n > 0 ==> peer_count < n,
                        addrs0.len() == n as int,
                        addresses@ == addrs0.skip(i as int),
                        nodes@.len() == i as int,
                        forall|j: int| 0 <= j < i ==> {
                            let node = #[trigger] nodes@[j];
                            &&& node.id == j
                            &&& node.address@ == addrs0[j]@
                            &&& node.peers@.len() == peer_count as int
                            &&& node.peers_wf(n as nat)
                            &&& (forall|p: int, q: int| 0 <= p < q < node.peers@.len()
                                    ==> node.peers@[p] != node.peers@[q])
                            &&& node.session == SessionState::Absent
                            &&& !node.identifier.is_present()
                        },
                    decreases n - i,
                {
                    let addr = addresses.remove(0);
                    let peers = match sampler::sample(peer_count, n, i) {
                        Ok(v) => v,
                        Err(e) => {
                            return Err(e);
                        },
                    };
                    nodes.push(NodeRecord {
                        id: i,
                        address: addr,
                        peers,
                        session: SessionState::Absent,
                        identifier: IdentifierState::Absent,
                    });
                    proof {
                        assert(addresses@ =~= addrs0.skip(i + 1));
                    }
                    i += 1;
                }
            },
        }
        Ok(Controller {
            nodes,
            sealer_count,
            phase: if n == 0 { Phase::Connect } else { Phase::Spawn },
            spawned: 0,
        })
    }

    /// Records one node's completed spawn: the console session attaches,
    /// the reported account must match the configured address up to ASCII
    /// case, and the discovered connection identifier is stored. Nodes
    /// complete in ascending id order; any step out of order, and any
    /// mismatch, leaves the controller unchanged and is fatal to the run.
    pub fn record_spawn(&mut self, i: usize, reported_account: &Vec<u8>, identifier: Vec<u8>) -> (r: Result<(), Error>)
        requires
            old(self).wf(),
        ensures
            final(self).wf(),
            (r is Ok) <==> (old(self).phase == Phase::Spawn && i == old(self).spawned
                && codec::eq_ignore_case(reported_account@, old(self).nodes@[i as int].address@)),
            match r {
                Ok(()) => {
                    &&& final(self).nodes@.len() == old(self).nodes@.len()
                    &&& final(self).nodes@[i as int].session == SessionState::Attached
                    &&& final(self).nodes@[i as int].identifier == IdentifierState::Present(identifier)
                    &&& final(self).nodes@[i as int].id == old(self).nodes@[i as int].id
                    &&& final(self).nodes@[i as int].address == old(self).nodes@[i as int].address
                    &&& final(self).nodes@[i as int].peers == old(self).nodes@[i as int].peers
                    &&& forall|j: int| 0 <= j < old(self).nodes@.len() && j != i
                            ==> final(self).nodes@[j] == old(self).nodes@[j]
                    &&& final(self).spawned == old(self).spawned + 1
                    &&& final(self).sealer_count == old(self).sealer_count
                    &&& final(self).phase == (if old(self).spawned + 1 == old(self).nodes@.len() {
                            Phase::Connect
                        } else {
                            Phase::Spawn
                        })
                },
                Err(e) => {
                    &&& *final(self) == *old(self)
                    &&& (e == Error::PhaseOrder || e == Error::AccountMismatch)
                    &&& (e == Error::PhaseOrder
                            <==> !(old(self).phase == Phase::Spawn && i == old(self).spawned))
                },
            },
    {
        if self.phase != Phase::Spawn || i != self.spawned {
            return Err(Error::PhaseOrder);
        }
        let len = self.nodes.len();
        let matches_account = codec::ascii_eq_ignore_case(reported_account, &self.nodes[i].address);
        if !matches_account {
            return Err(Error::AccountMismatch);
        }
        let node = &mut self.nodes[i];
        // Both lifecycle transitions are provably still absent for the
        // node now in turn, so neither double-initialization error can
        // come back through this path.
        match node.attach_session() {
            Ok(()) => {},
            Err(e) => {
                return Err(e);
            },
        }
        match node.store_identifier(identifier) {
            Ok(()) => {},
            Err(e) => {
                return Err(e);
            },
        }
        self.spawned = i + 1;
        if self.spawned == len {
            self.phase = Phase::Connect;
        }
        Ok(())
    }

    /// The connect phase's full command sequence: for every node, for
    /// every declared peer, in declared order, exactly one command
    /// carrying that peer's discovered identifier — and no others. The
    /// command for pair `p` of node `i` stands at position
    /// `pair_count(nodes, i) + p`. Fails without issuing anything when a
    /// declared peer index is out of range (the configuration error
    /// surfaces here, at first use).
    pub fn connect_plan(&mut self) -> (r: Result<Vec<ConnectCmd>, Error>)
        requires
            old(self).wf(),
        ensures
            final(self).wf(),
            (r is Ok) <==> (old(self).phase == Phase::Connect
                && forall|i: int, p: int|
                    0 <= i < old(self).nodes@.len() && 0 <= p < old(self).nodes@[i].peers@.len()
                    ==> (#[trigger] old(self).nodes@[i].peers@[p]) < old(self).nodes@.len()),
            match r {
                Ok(v) => {
                    &&& v@.len() == pair_count(old(self).nodes@, old(self).nodes@.len() as int)
                    &&& forall|i: int, p: int|
                            0 <= i < old(self).nodes@.len() && 0 <= p < old(self).nodes@[i].peers@.len()
                            ==> {
                                let pid = #[trigger] old(self).nodes@[i].peers@[p];
                                let c = v@[pair_count(old(self).nodes@, i) + p];
                                &&& c.node == i
                                &&& c.peer == pid
                                &&& c.identifier@ == old(self).nodes@[pid as int].identifier.value()
                            }
                    &&& *final(self) == (Controller { phase: Phase::Produce, ..*old(self) })
                },
                Err(e) => {
                    &&& *final(self) == *old(self)
                    &&& (e == Error::PhaseOrder || e == Error::PeerOutOfRange)
                    &&& (e == Error::PhaseOrder <==> old(self).phase != Phase::Connect)
                },
            },
    {
        if self.phase != Phase::Connect {
            return Err(Error::PhaseOrder);
        }
        let n = self.nodes.len();
        let mut v: Vec<ConnectCmd> = Vec::new();
        let mut i: usize = 0;
        while i < n
            invariant
                self.wf(),
                *self == *old(self),
                self.phase == Phase::Connect,
                n as int == self.nodes@.len(),
                i <= n,
                v@.len() == pair_count(self.nodes@, i as int),
                forall|i2: int, p2: int|
                    0 <= i2 < i && 0 <= p2 < self.nodes@[i2].peers@.len() ==> {
                        let pid = #[trigger] self.nodes@[i2].peers@[p2];
                        let c = v@[pair_count(self.nodes@, i2) + p2];
                        &&& pid < n
                        &&& c.node == i2
                        &&& c.peer == pid
                        &&& c.identifier@ == self.nodes@[pid as int].identifier.value()
                    },
            decreases n - i,
        {
            let row_len = self.nodes[i].peers.len();
            let mut p: usize = 0;
            while p < row_len
                invariant
                    self.wf(),
                    *self == *old(self),
                    self.phase == Phase::Connect,
                    n as int == self.nodes@.len(),
                    i < n,
                    row_len as int == self.nodes@[i as int].peers@.len(),
                    p <= row_len,
                    v@.len() == pair_count(self.nodes@, i as int) + p,
                    forall|i2: int, p2: int|
                        0 <= i2 < i && 0 <= p2 < self.nodes@[i2].peers@.len() ==> {
                            let pid = #[trigger] self.nodes@[i2].peers@[p2];
                            let c = v@[pair_count(self.nodes@, i2) + p2];
                            &&& pid < n
                            &&& c.node == i2
                            &&& c.peer == pid
                            &&& c.identifier@ == self.nodes@[pid as int].identifier.value()
                        },
                    forall|p2: int| 0 <= p2 < p ==> {
                        let pid = #[trigger] self.nodes@[i as int].peers@[p2];
                        let c = v@[pair_count(self.nodes@, i as int) + p2];
                        &&& pid < n
                        &&& c.node == i as int
                        &&& c.peer == pid
                        &&& c.identifier@ == self.nodes@[pid as int].identifier.value()
                    },
                decreases row_len - p,
            {
                let pid = self.nodes[i].peers[p];
                if pid >= n {
                    return Err(Error::PeerOutOfRange);
                }
                let ident = match &self.nodes[pid].identifier {
                    IdentifierState::Present(b) => codec::copy_bytes(b),
                    IdentifierState::Absent => {
                        // Impossible once every node has completed spawn;
                        // kept as the fatal invariant check it represents.
                        return Err(Error::MissingIdentifier);
                    },
                };
                v.push(ConnectCmd { node: i, peer: pid, identifier: ident });
                proof {
                    lemma_pair_count_nonneg(self.nodes@, i as int);
                    assert forall|i2: int, p2: int|
                        #![trigger self.nodes@[i2].peers@[p2]]
                        0 <= i2 < i && 0 <= p2 < self.nodes@[i2].peers@.len()
                        implies 0 <= pair_count(self.nodes@, i2) + p2
                            < pair_count(self.nodes@, i as int) by {
                        lemma_pair_count_nonneg(self.nodes@, i2);
                        assert(pair_count(self.nodes@, i2 + 1)
                            == pair_count(self.nodes@, i2) + self.nodes@[i2].peers@.len());
                        lemma_pair_count_mono(self.nodes@, i2 + 1, i as int);
                    }
                }
                p += 1;
            }
            proof {
                assert(pair_count(self.nodes@, i + 1)
                    == pair_count(self.nodes@, i as int) + self.nodes@[i as int].peers@.len());
            }
            i += 1;
        }
        self.phase = Phase::Produce;
        Ok(v)
    }

    /// The start-production phase's command sequence: for each sealer
    /// (the first `sealer_count` node ids, in order) the four commands of
    /// `request_in_round`, so command `q` goes to node `q / 4`. The three
    /// trailing commands per sealer are diagnostics; their responses are
    /// not validated.
    pub fn production_plan(&mut self) -> (r: Result<Vec<ProducerCmd>, Error>)
        requires
            old(self).wf(),
        ensures
            final(self).wf(),
            (r is Ok) <==> old(self).phase == Phase::Produce,
            match r {
                Ok(v) => {
                    &&& v@.len() == 4 * old(self).sealer_count as int
                    &&& forall|q: int| 0 <= q < v@.len() ==> {
                            let c = #[trigger] v@[q];
                            &&& c.node as int == q / 4
                            &&& c.request == request_in_round(q % 4)
                        }
                    &&& *final(self) == (Controller { phase: Phase::Terminal, ..*old(self) })
                },
                Err(e) => {
                    &&& e == Error::PhaseOrder
                    &&& *final(self) == *old(self)
                },
            },
    {
        if self.phase != Phase::Produce {
            return Err(Error::PhaseOrder);
        }
        let mut v: Vec<ProducerCmd> = Vec::new();
        let mut s: usize = 0;
        while s < self.sealer_count
            invariant
                s <= self.sealer_count,
                v@.len() == 4 * s as int,
                forall|q: int| 0 <= q < v@.len() ==> {
                    let c = #[trigger] v@[q];
                    &&& c.node as int == q / 4
                    &&& c.request == request_in_round(q % 4)
                },
            decreases self.sealer_count - s,
        {
            v.push(ProducerCmd { node: s, request: ProducerRequest::StartProducing });
            v.push(ProducerCmd { node: s, request: ProducerRequest::ListProducers });
            v.push(ProducerCmd { node: s, request: ProducerRequest::ShowAccount });
            v.push(ProducerCmd { node: s, request: ProducerRequest::ListPeers });
            s += 1;
        }
        self.phase = Phase::Terminal;
        Ok(v)
    }
}

/// The per-node IPC endpoint name, following the `geth<id>.ipc` pattern.
pub fn ipc_path(id: usize) -> (r: Vec<u8>)
    ensures
        r@ == seq![103u8, 101u8, 116u8, 104u8] + codec::dec_rep(id as nat)
            + seq![46u8, 105u8, 112u8, 99u8],
{
    let mut v: Vec<u8> = Vec::new();
    v.push(103);
    v.push(101);
    v.push(116);
    v.push(104);
    codec::push_decimal(&mut v, id as u64);
    v.push(46);
    v.push(105);
    v.push(112);
    v.push(99);
    proof {
        assert(v@ =~= seq![103u8, 101u8, 116u8, 104u8] + codec::dec_rep(id as nat)
            + seq![46u8, 105u8, 112u8, 99u8]);
    }
    v
}

/// The TCP port a node listens on: a fixed base plus the node id.
pub fn port_for(id: usize) -> (r: usize)
    requires
        id + 4000 <= usize::MAX,
    ensures
        r == id + 4000,
{
    4000 + id
}

} // verus!
