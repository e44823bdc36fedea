//! Re-hydrating the counters from stored rows at startup: every stored
//! packet row of a chain is replayed against the metric families, as if
//! it had just been reconciled.

use vstd::prelude::*;

use crate::collect::{counters_of, mbump, CounterState};
use crate::metrics::{chain_labels, frontrun_labels, packet_labels, Metrics};
use crate::store::{Store, StoreV, PacketRowV};
use crate::text::str_eq;

verus! {

/// The replay's running state: the counters and the transactions already
/// counted.
#[verifier::ext_equal]
pub struct PopState {
    pub counters: CounterState,
    pub seen: Set<int>,
}

/// The transaction identifiers held in a seen-list.
pub open spec fn seen_set(v: Seq<u64>) -> Set<int> {
    Set::new(|x: int| exists|j: int| 0 <= j < v.len() && v[j] as int == x)
}

/// What replaying the stored rows does: each row whose transaction
/// belongs to the chain counts one packet, its transaction once, and the
/// effected or uneffected-plus-frontrun counters that reconciliation
/// would have emitted.
pub open spec fn populate_fold(
    s: StoreV,
    chain: Seq<char>,
    rows: Seq<PacketRowV>,
    st: PopState,
) -> PopState
    decreases rows.len(),
{
    if rows.len() == 0 {
        st
    } else {
        let p = rows[0];
        let st1 = if 1 <= p.tx_id <= s.txs.len() && s.txs[p.tx_id - 1].chain == chain {
            let tx = s.txs[p.tx_id - 1];
            let c1 = CounterState {
                packets: mbump(st.counters.packets, chain_labels(chain)),
                ..st.counters
            };
            let c2 = if st.seen.contains(p.tx_id) {
                c1
            } else {
                CounterState { txs: mbump(c1.txs, chain_labels(chain)), ..c1 }
            };
            let seen2 = if st.seen.contains(p.tx_id) {
                st.seen
            } else {
                st.seen.insert(p.tx_id)
            };
            let base = packet_labels(
                chain,
                p.src_channel,
                p.src_port,
                p.dst_channel,
                p.dst_port,
                p.signer,
                tx.memo,
            );
            let c3 = if p.effected {
                CounterState { effected: mbump(c2.effected, base), ..c2 }
            } else {
                match p.effected_tx {
                    Some(eid) => if 1 <= eid <= s.txs.len() {
                        let etx = s.txs[eid - 1];
                        let frontrunned_by = match p.effected_signer {
                            Some(x) => x,
                            None => ("")@,
                        };
                        CounterState {
                            uneffected: mbump(c2.uneffected, base),
                            frontruns: mbump(
                                c2.frontruns,
                                frontrun_labels(
                                    chain,
                                    p.src_channel,
                                    p.src_port,
                                    p.dst_channel,
                                    p.dst_port,
                                    p.signer,
                                    frontrunned_by,
                                    tx.memo,
                                    etx.memo,
                                ),
                            ),
                            ..c2
                        }
                    } else {
                        c2
                    },
                    None => c2,
                }
            };
            PopState { counters: c3, seen: seen2 }
        } else {
            st
        };
        populate_fold(s, chain, rows.drop_first(), st1)
    }
}

/// Whether a seen-list holds an identifier.
fn seen_contains(v: &Vec<u64>, x: u64) -> (r: bool)
    ensures
        r == seen_set(v@).contains(x as int),
{
    let n = v.len();
    let mut i: usize = 0;
    while i < n
        invariant
            n == v.len(),
            0 <= i <= n,
            forall|j: int| 0 <= j < i ==> v@[j] != x,
        decreases n - i,
    {
        if v[i] == x {
            proof {
                assert(v@[i as int] as int == x as int);
            }
            return true;
        }
        i += 1;
    }
    proof {
        assert(!seen_set(v@).contains(x as int)) by {
            if seen_set(v@).contains(x as int) {
                let j = choose|j: int| 0 <= j < v@.len() && v@[j] as int == x as int;
                assert(v@[j] != x);
            }
        }
    }
    false
}

proof fn lemma_seen_push(v: Seq<u64>, x: u64)
    ensures
        seen_set(v.push(x)) =~= seen_set(v).insert(x as int),
{
    assert forall|y: int| seen_set(v.push(x)).contains(y) implies seen_set(v).insert(
        x as int,
    ).contains(y) by {
        let j = choose|j: int| 0 <= j < v.push(x).len() && v.push(x)[j] as int == y;
        if j < v.len() {
            assert(v[j] as int == y);
        }
    }
    assert forall|y: int| seen_set(v).insert(x as int).contains(y) implies seen_set(
        v.push(x),
    ).contains(y) by {
        if y == x as int {
            assert(v.push(x)[v.len() as int] as int == y);
        } else {
            let j = choose|j: int| 0 <= j < v.len() && v[j] as int == y;
            assert(v.push(x)[j] as int == y);
        }
    }
}

/// Replays every stored packet row of a chain against the counters, in
/// insertion order.
#[verifier::rlimit(80)]
pub fn run(chain: &str, store: &Store, metrics: &mut Metrics)
    requires
        store@.wf(),
        old(metrics).wf(),
    ensures
        final(metrics).wf(),
        ({
            let st1 = populate_fold(
                store@,
                chain@,
                store@.packets,
                PopState { counters: counters_of(*old(metrics)), seen: Set::empty() },
            );
            counters_of(*final(metrics)) == st1.counters
        }),
        final(metrics).stuck == old(metrics).stuck,
        final(metrics).chains == old(metrics).chains,
        final(metrics).reconnects == old(metrics).reconnects,
        final(metrics).timeouts == old(metrics).timeouts,
        final(metrics).errors == old(metrics).errors,
{
    let ghost all = store@.packets;
    let ghost st0 = PopState { counters: counters_of(*old(metrics)), seen: Set::<int>::empty() };
    proof {
        assert(all.skip(0) =~= all);
        assert(seen_set(Seq::<u64>::empty()) =~= Set::<int>::empty());
    }
    let rows = store.packet_rows();
    let mut seen: Vec<u64> = Vec::new();
    let n = rows.len();
    let mut i: usize = 0;
    while i < n
        invariant
            n == rows.len(),
            0 <= i <= n,
            store@.wf(),
            metrics.wf(),
            all == store@.packets,
            rows@.len() == all.len(),
            forall|k: int| 0 <= k < all.len() ==> (#[trigger] rows@[k])@ == all[k],
            st0 == (PopState { counters: counters_of(*old(metrics)), seen: Set::<int>::empty() }),
            populate_fold(store@, chain@, all, st0) == populate_fold(
                store@,
                chain@,
                all.skip(i as int),
                PopState { counters: counters_of(*metrics), seen: seen_set(seen@) },
            ),
            metrics.stuck == old(metrics).stuck,
            metrics.chains == old(metrics).chains,
            metrics.reconnects == old(metrics).reconnects,
            metrics.timeouts == old(metrics).timeouts,
            metrics.errors == old(metrics).errors,
        decreases n - i,
    {
        let ghost rest = all.skip(i as int);
        let ghost pre = PopState { counters: counters_of(*metrics), seen: seen_set(seen@) };
        proof {
            assert(rest[0] == all[i as int]);
            assert(rest.drop_first() =~= all.skip(i as int + 1));
        }
        let p = &rows[i];
        proof {
            assert(p@ == all[i as int]);
        }
        match store.lookup_tx(p.tx_id) {
            Some(tx) => {
                if str_eq(tx.chain.as_str(), chain) {
                    metrics.chainpulse_packets(chain);
                    if !seen_contains(&seen, p.tx_id) {
                        metrics.chainpulse_txs(chain);
                        let ghost seen_pre = seen@;
                        seen.push(p.tx_id);
                        proof {
                            lemma_seen_push(seen_pre, p.tx_id);
                        }
                    }
                    if p.effected {
                        metrics.ibc_effected_packets(
                            chain,
                            p.src_channel.as_str(),
                            p.src_port.as_str(),
                            p.dst_channel.as_str(),
                            p.dst_port.as_str(),
                            p.signer.as_str(),
                            tx.memo.as_str(),
                        );
                    } else {
                        match p.effected_tx {
                            Some(eid) => {
                                match store.lookup_tx(eid) {
                                    Some(etx) => {
                                        let frontrunned_by: &str = match &p.effected_signer {
                                            Some(s) => s.as_str(),
                                            None => "",
                                        };
                                        metrics.ibc_uneffected_packets(
                                            chain,
                                            p.src_channel.as_str(),
                                            p.src_port.as_str(),
                                            p.dst_channel.as_str(),
                                            p.dst_port.as_str(),
                                            p.signer.as_str(),
                                            tx.memo.as_str(),
                                        );
                                        metrics.ibc_frontrun_counter(
                                            chain,
                                            p.src_channel.as_str(),
                                            p.src_port.as_str(),
                                            p.dst_channel.as_str(),
                                            p.dst_port.as_str(),
                                            p.signer.as_str(),
                                            frontrunned_by,
                                            tx.memo.as_str(),
                                            etx.memo.as_str(),
                                        );
                                    },
                                    None => {},
                                }
                            },
                            None => {},
                        }
                    }
                }
            },
            None => {},
        }
        i += 1;
    }
    proof {
        assert(all.skip(n as int) =~= Seq::<PacketRowV>::empty());
    }
}

} // verus!
