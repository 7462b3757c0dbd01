//! The load-test planner: a bounded, deadline-limited round-robin
//! transaction sequence. Each round submits one transaction from every
//! node `j` to node `(j + 1) mod N`, all carrying the same nonce — an
//! intentional stress pattern, preserved as such, not an oversight. The
//! deadline is consulted only between rounds, never per submission, so a
//! slow worker can stretch a round past the nominal budget; the sequence
//! still stops at the next round boundary.

use vstd::prelude::*;
use crate::codec;

verus! {

/// One transaction submission: from node `from`'s account to node `to`'s,
/// with an explicit nonce, the fixed large transfer amount, and a random
/// hexadecimal payload.
#[derive(Debug, PartialEq, Eq)]
pub struct TxCmd {
    pub from: usize,
    pub to: usize,
    pub nonce: usize,
    pub payload: Vec<u8>,
}

/// The round-robin sender's state between round boundaries. Nonce values
/// run over `[start_nonce, start_nonce + rounds_target)`, one per round,
/// shared by every node within the round.
pub struct RoundRobinSender {
    pub node_count: usize,
    pub rounds_target: usize,
    pub start_nonce: usize,
    pub payload_len: usize,
    /// Rounds completed so far.
    pub rounds_done: usize,
}

impl RoundRobinSender {
    pub open spec fn wf(&self) -> bool {
        &&& self.rounds_done <= self.rounds_target
        &&& self.start_nonce + self.rounds_target <= usize::MAX
    }

    pub fn new(node_count: usize, rounds_target: usize, start_nonce: usize, payload_len: usize) -> (r: Self)
        requires
            start_nonce + rounds_target <= usize::MAX,
        ensures
            r.wf(),
            r == (RoundRobinSender {
                node_count,
                rounds_target,
                start_nonce,
                payload_len,
                rounds_done: 0,
            }),
    {
        RoundRobinSender { node_count, rounds_target, start_nonce, payload_len, rounds_done: 0 }
    }

    /// One round boundary. With the deadline already passed, or the
    /// target reached, nothing is sent and nothing changes; otherwise the
    /// round's `node_count` submissions come back — from each node `j` to
    /// its successor, every one carrying this round's nonce — and exactly
    /// one round is added to the tally, so the total ever planned is
    /// `rounds_done * node_count` transactions.
    pub fn next_round(&mut self, deadline_passed: bool) -> (r: Option<Vec<TxCmd>>)
        requires
            old(self).wf(),
        ensures
            final(self).wf(),
            (r is Some) <==> (!deadline_passed && old(self).rounds_done < old(self).rounds_target),
            match r {
                None => *final(self) == *old(self),
                Some(txs) => {
                    &&& *final(self) == (RoundRobinSender {
                            rounds_done: (old(self).rounds_done + 1) as usize,
                            ..*old(self)
                        })
                    &&& txs@.len() == old(self).node_count as int
                    &&& forall|j: int| 0 <= j < txs@.len() ==> {
                            let t = #[trigger] txs@[j];
                            &&& t.from == j
                            &&& t.to as int == (j + 1) % (old(self).node_count as int)
                            &&& t.nonce == old(self).start_nonce + old(self).rounds_done
                            &&& t.payload@.len() == 2 * old(self).payload_len as int
                        }
                },
            },
    {
        if deadline_passed || self.rounds_done >= self.rounds_target {
            return None;
        }
        let nonce = self.start_nonce + self.rounds_done;
        let mut txs: Vec<TxCmd> = Vec::new();
        let mut j: usize = 0;
        while j < self.node_count
            invariant
                *self == *old(self),
                self.wf(),
                j <= self.node_count,
                nonce == self.start_nonce + self.rounds_done,
                txs@.len() == j as int,
                forall|j2: int| 0 <= j2 < j ==> {
                    let t = #[trigger] txs@[j2];
                    &&& t.from == j2
                    &&& t.to as int == (j2 + 1) % (self.node_count as int)
                    &&& t.nonce == nonce
                    &&& t.payload@.len() == 2 * self.payload_len as int
                },
            decreases self.node_count - j,
        {
            let payload = codec::random_hex_payload(self.payload_len);
            let to = (j + 1) % self.node_count;
            txs.push(TxCmd { from: j, to, nonce, payload });
            j += 1;
        }
        self.rounds_done = self.rounds_done + 1;
        Some(txs)
    }
}

/// The sum of the per-node throughput deltas.
pub open spec fn sum(s: Seq<i128>) -> int
    decreases s.len(),
{
    if s.len() == 0 {
        0
    } else {
        sum(s.drop_last()) + s.last()
    }
}

/// Per-node throughput: each node's transaction-counter delta across the
/// test window.
pub fn throughput_deltas(before: &Vec<u64>, after: &Vec<u64>) -> (r: Vec<i128>)
    requires
        before@.len() == after@.len(),
    ensures
        r@.len() == before@.len(),
        forall|i: int| 0 <= i < r@.len() ==> #[trigger] r@[i] == after@[i] - before@[i],
{
    let mut r: Vec<i128> = Vec::new();
    let mut i: usize = 0;
    while i < before.len()
        invariant
            before@.len() == after@.len(),
            i <= before@.len(),
            r@.len() == i as int,
            forall|j: int| 0 <= j < i ==> #[trigger] r@[j] == after@[j] - before@[j],
        decreases before@.len() - i,
    {
        let d: i128 = after[i] as i128 - before[i] as i128;
        r.push(d);
        i += 1;
    }
    r
}

proof fn lemma_sum_bound(s: Seq<i128>)
    requires
        forall|i: int| 0 <= i < s.len() ==> -(u64::MAX as int) <= #[trigger] s[i] <= u64::MAX as int,
    ensures
        -(s.len() * (u64::MAX as int)) <= sum(s) <= s.len() * (u64::MAX as int),
    decreases s.len(),
{
    if s.len() > 0 {
        lemma_sum_bound(s.drop_last());
    }
}

/// The aggregate throughput delta over all nodes. Deltas of counters
/// always fit the input bound; the length bound keeps the sum within
/// range on any machine.
pub fn total_delta(deltas: &Vec<i128>) -> (r: i128)
    requires
        deltas@.len() <= 0x1_0000_0000,
        forall|i: int| 0 <= i < deltas@.len()
            ==> -(u64::MAX as int) <= #[trigger] deltas@[i] <= u64::MAX as int,
    ensures
        r as int == sum(deltas@),
{
    let mut acc: i128 = 0;
    let mut i: usize = 0;
    while i < deltas.len()
        invariant
            deltas@.len() <= 0x1_0000_0000,
            forall|j: int| 0 <= j < deltas@.len()
                ==> -(u64::MAX as int) <= #[trigger] deltas@[j] <= u64::MAX as int,
            i <= deltas@.len(),
            acc as int == sum(deltas@.take(i as int)),
            -((i as int) * (u64::MAX as int)) <= acc as int <= (i as int) * (u64::MAX as int),
        decreases deltas@.len() - i,
    {
        proof {
            assert(deltas@.take(i + 1).drop_last() =~= deltas@.take(i as int));
            assert(deltas@.take(i + 1).last() == deltas@[i as int]);
        }
        acc = acc + deltas[i];
        i += 1;
    }
    proof {
        assert(deltas@.take(deltas@.len() as int) =~= deltas@);
    }
    acc
}

} // verus!
