//! The per-chain collector: the subscription lifetime's state machine and
//! the per-block ingestion and reconciliation pipeline.
//!
//! The surrounding runtime performs the connecting, subscribing and
//! waiting; the decisions — when to rotate the connection, what a stream
//! event does to the counters, and everything a block's transactions do to
//! the store — are made here.

use vstd::prelude::*;

use crate::digest::{tx_hash, tx_hash_of};
use crate::metrics::{
    bumped, chain_labels, counter_arity, counter_entries, cval, frontrun_labels, label_key,
    packet_labels, unchanged_but_timeouts, Metrics,
};
use crate::msg::{decode_spec, decode_tx, tx_decode_of, Msg, MsgV, TxEnvelope};
use crate::store::{
    lemma_find_packet_some, packet_key, record_ok, upsert_ok, Store, StoreError, StoreV, TxRow,
    TxRowV,
};

verus! {

/// Seconds the collector waits for the next block before rotating.
pub const NEWBLOCK_TIMEOUT_SECS: u64 = 60;

/// Blocks processed on one connection before a deliberate rotation.
pub const DISCONNECT_AFTER_BLOCKS: usize = 100;

/// Seconds between the end of one connection and the next attempt.
pub const RECONNECT_DELAY_SECS: u64 = 5;

/// Why a healthy collector leaves its subscription loop.
#[derive(Copy, Clone, Debug, PartialEq, Eq, Structural)]
pub enum Outcome {
    /// No block arrived within the timeout (in seconds).
    Timeout(u64),
    /// The rotation threshold was reached after this many blocks.
    BlockElapsed(usize),
}

/// What the stream hands the collector next.
#[derive(Copy, Clone, Debug, PartialEq, Eq, Structural)]
pub enum StreamEvent {
    /// The wait for the next event timed out.
    TimedOut,
    /// A `NewBlock` event arrived.
    NewBlock,
    /// A frame arrived but was not a usable event; it is skipped.
    SkippedFrame,
}

/// What the runtime must do after an event.
#[derive(Copy, Clone, Debug, PartialEq, Eq, Structural)]
pub enum StreamDecision {
    /// Keep waiting on the same subscription.
    Continue,
    /// Dispatch a block handler, then keep waiting.
    HandleBlock,
    /// Dispatch a block handler, then rotate the connection.
    HandleBlockAndRotate(Outcome),
    /// Rotate the connection.
    Rotate(Outcome),
}

/// One connection's streaming state: how many blocks it has processed.
pub struct Collector {
    pub count: usize,
}

impl Collector {
    /// A freshly subscribed connection.
    pub fn new() -> (c: Collector)
        ensures
            c.count == 0,
    {
        Collector { count: 0 }
    }

    /// Advances the streaming state by one event: a timeout is counted and
    /// rotates; a skipped frame changes nothing; a block is counted,
    /// handled, and rotates once the threshold is reached.
    pub fn on_stream_event(&mut self, metrics: &mut Metrics, chain_id: &str, ev: StreamEvent) -> (d:
        StreamDecision)
        requires
            old(self).count < DISCONNECT_AFTER_BLOCKS,
            old(metrics).wf(),
        ensures
            final(metrics).wf(),
            match ev {
                StreamEvent::TimedOut => {
                    &&& d == StreamDecision::Rotate(Outcome::Timeout(NEWBLOCK_TIMEOUT_SECS))
                    &&& final(self).count == old(self).count
                    &&& bumped(
                        old(metrics).timeouts,
                        final(metrics).timeouts,
                        chain_labels(chain_id@),
                    )
                    &&& unchanged_but_timeouts(*old(metrics), *final(metrics))
                },
                StreamEvent::SkippedFrame => {
                    &&& d == StreamDecision::Continue
                    &&& final(self).count == old(self).count
                    &&& *final(metrics) == *old(metrics)
                },
                StreamEvent::NewBlock => {
                    &&& final(self).count == old(self).count + 1
                    &&& *final(metrics) == *old(metrics)
                    &&& (final(self).count >= DISCONNECT_AFTER_BLOCKS ==> d
                        == StreamDecision::HandleBlockAndRotate(
                        Outcome::BlockElapsed(final(self).count),
                    ))
                    &&& (final(self).count < DISCONNECT_AFTER_BLOCKS ==> d
                        == StreamDecision::HandleBlock)
                },
            },
    {
        match ev {
            StreamEvent::TimedOut => {
                metrics.chainpulse_timeouts(chain_id);
                StreamDecision::Rotate(Outcome::Timeout(NEWBLOCK_TIMEOUT_SECS))
            },
            StreamEvent::SkippedFrame => StreamDecision::Continue,
            StreamEvent::NewBlock => {
                self.count = self.count + 1;
                if self.count >= DISCONNECT_AFTER_BLOCKS {
                    StreamDecision::HandleBlockAndRotate(Outcome::BlockElapsed(self.count))
                } else {
                    StreamDecision::HandleBlock
                }
            },
        }
    }
}

/// Closes one connection's lifetime: a failed one is counted as an error,
/// every end is counted as a reconnect, and the runtime must sleep the
/// returned number of seconds before connecting again.
pub fn on_collect_end(metrics: &mut Metrics, chain_id: &str, failed: bool) -> (delay: u64)
    requires
        old(metrics).wf(),
    ensures
        final(metrics).wf(),
        delay == RECONNECT_DELAY_SECS,
        ({
            let l = chain_labels(chain_id@);
            &&& counter_entries(final(metrics).reconnects) == counter_entries(
                old(metrics).reconnects,
            ).insert(label_key(l), cval(old(metrics).reconnects, l) + 1)
            &&& counter_arity(final(metrics).reconnects) == counter_arity(old(metrics).reconnects)
            &&& (failed ==> counter_entries(final(metrics).errors) == counter_entries(
                old(metrics).errors,
            ).insert(label_key(l), cval(old(metrics).errors, l) + 1) && counter_arity(
                final(metrics).errors,
            ) == counter_arity(old(metrics).errors))
            &&& (!failed ==> final(metrics).errors == old(metrics).errors)
        }),
        final(metrics).effected == old(metrics).effected,
        final(metrics).uneffected == old(metrics).uneffected,
        final(metrics).frontruns == old(metrics).frontruns,
        final(metrics).stuck == old(metrics).stuck,
        final(metrics).chains == old(metrics).chains,
        final(metrics).txs == old(metrics).txs,
        final(metrics).packets == old(metrics).packets,
        final(metrics).timeouts == old(metrics).timeouts,
{
    if failed {
        metrics.chainpulse_errors(chain_id);
    }
    metrics.chainpulse_reconnects(chain_id);
    RECONNECT_DELAY_SECS
}

/// Why one block's processing stopped early. Work done before the failure
/// stands; the collector counts the error and goes on.
#[derive(Copy, Clone, Debug, PartialEq, Eq, Structural)]
pub enum BlockError {
    /// A raw transaction did not decode as a transaction envelope.
    TxDecode,
    /// A transaction envelope carried no body.
    MissingBody,
    /// The store could not record a row.
    Store,
}

/// The per-packet counter families, as maps from member keys — label
/// values written back-to-back — to values.
#[verifier::ext_equal]
pub struct CounterState {
    pub txs: Map<Seq<char>, nat>,
    pub packets: Map<Seq<char>, nat>,
    pub effected: Map<Seq<char>, nat>,
    pub uneffected: Map<Seq<char>, nat>,
    pub frontruns: Map<Seq<char>, nat>,
}

/// A counter family's value at a label tuple; an absent member reads as
/// zero.
pub open spec fn mval(m: Map<Seq<char>, nat>, l: Seq<Seq<char>>) -> nat {
    if m.contains_key(label_key(l)) {
        m[label_key(l)]
    } else {
        0
    }
}

/// One increment of a counter family at the member a label tuple selects.
pub open spec fn mbump(m: Map<Seq<char>, nat>, l: Seq<Seq<char>>) -> Map<Seq<char>, nat> {
    m.insert(label_key(l), mval(m, l) + 1)
}

/// The counter families a block handler touches, read off the metrics.
pub open spec fn counters_of(m: Metrics) -> CounterState {
    CounterState {
        txs: counter_entries(m.txs),
        packets: counter_entries(m.packets),
        effected: counter_entries(m.effected),
        uneffected: counter_entries(m.uneffected),
        frontruns: counter_entries(m.frontruns),
    }
}

/// The store and counters as one block handler sees and changes them.
#[verifier::ext_equal]
pub struct BlockState {
    pub store: StoreV,
    pub counters: CounterState,
}

/// A message's signer, or the empty string where the variant has none.
pub open spec fn signer_or_empty(m: MsgV) -> Seq<char> {
    match m.signer() {
        Some(s) => s,
        None => ("")@,
    }
}

/// What reconciling one relevant message does: a submission already
/// recorded — a replay of this very packet and transaction — changes
/// nothing; a new one counts the packet, is classified against the
/// store's first writer for its identity, emits the per-packet counters,
/// and is recorded.
pub open spec fn msg_effect(
    s: BlockState,
    chain: Seq<char>,
    t: TxRowV,
    url: Seq<char>,
    m: MsgV,
    now: int,
) -> (BlockState, Option<BlockError>) {
    match m.packet() {
        None => (s, None),
        Some(p) => if crate::store::has_submission(s.store.packets, packet_key(p, url), t.id) {
            (s, None)
        } else {
            let c1 = CounterState { packets: mbump(s.counters.packets, chain_labels(chain)), ..s.counters };
            let k = packet_key(p, url);
            let signer = signer_or_empty(m);
            let base = packet_labels(
                chain,
                p.source_channel,
                p.source_port,
                p.destination_channel,
                p.destination_port,
                signer,
                t.memo,
            );
            let c2 = match s.store.spec_find_packet(k) {
                Some(prior) => {
                    let effected_tx = s.store.txs[prior.tx_id - 1];
                    CounterState {
                        uneffected: mbump(c1.uneffected, base),
                        frontruns: mbump(
                            c1.frontruns,
                            frontrun_labels(
                                chain,
                                p.source_channel,
                                p.source_port,
                                p.destination_channel,
                                p.destination_port,
                                signer,
                                prior.signer,
                                t.memo,
                                effected_tx.memo,
                            ),
                        ),
                        ..c1
                    }
                },
                None => CounterState { effected: mbump(c1.effected, base), ..c1 },
            };
            if record_ok(s.store, k, t.id) {
                (
                    BlockState {
                        store: s.store.spec_record_packet(t.id, k, signer, now),
                        counters: c2,
                    },
                    None,
                )
            } else {
                (BlockState { store: s.store, counters: c2 }, Some(BlockError::Store))
            }
        },
    }
}

/// What processing a transaction body's messages does: each message is
/// classified; a relevant IBC message is reconciled; an unrecognized URL
/// or a message that does not decode is skipped.
pub open spec fn msgs_effect(
    s: BlockState,
    chain: Seq<char>,
    t: TxRowV,
    msgs: Seq<crate::msg::AnyMsgV>,
    now: int,
) -> (BlockState, Option<BlockError>)
    decreases msgs.len(),
{
    if msgs.len() == 0 {
        (s, None)
    } else {
        let step = match decode_spec(msgs[0].type_url, msgs[0].value) {
            Ok(m) => if m.is_ibc() && m.is_relevant() {
                msg_effect(s, chain, t, msgs[0].type_url, m, now)
            } else {
                (s, None)
            },
            Err(_) => (s, None),
        };
        if step.1 is Some {
            step
        } else {
            msgs_effect(step.0, chain, t, msgs.drop_first(), now)
        }
    }
}

/// What processing one raw transaction does: count it, decode it, hash
/// its raw bytes, persist the observation, then reconcile its messages.
/// A transaction that does not decode, or has no body, stops this block.
pub open spec fn tx_effect(
    s: BlockState,
    chain: Seq<char>,
    height: int,
    bytes: Seq<u8>,
    now: int,
) -> (BlockState, Option<BlockError>) {
    let s1 = BlockState {
        store: s.store,
        counters: CounterState { txs: mbump(s.counters.txs, chain_labels(chain)), ..s.counters },
    };
    match tx_decode_of(bytes) {
        None => (s1, Some(BlockError::TxDecode)),
        Some(env) => {
            let hash = tx_hash_of(bytes);
            let memo = match env.body {
                Some(b) => b.memo,
                None => ("")@,
            };
            if !upsert_ok(s1.store, chain, hash) {
                (s1, Some(BlockError::Store))
            } else {
                let (store2, trow) = s1.store.spec_upsert_tx(chain, height, hash, memo, now);
                let s2 = BlockState { store: store2, counters: s1.counters };
                match env.body {
                    None => (s2, Some(BlockError::MissingBody)),
                    Some(b) => msgs_effect(s2, chain, trow, b.messages, now),
                }
            }
        },
    }
}

/// What handling one block does: its transactions in block order, stopping
/// at the first failing transaction with the work before it kept.
pub open spec fn block_effect(
    s: BlockState,
    chain: Seq<char>,
    height: int,
    txs: Seq<Seq<u8>>,
    now: int,
) -> (BlockState, Option<BlockError>)
    decreases txs.len(),
{
    if txs.len() == 0 {
        (s, None)
    } else {
        let step = tx_effect(s, chain, height, txs[0], now);
        if step.1 is Some {
            step
        } else {
            block_effect(step.0, chain, height, txs.drop_first(), now)
        }
    }
}

/// Counter mass balance, per reconciliation: a submission whose
/// `(identity, tx_id)` pair is already recorded changes nothing; a new
/// one, for which an identifier is left, stores exactly one row and
/// increments exactly one of the effected and uneffected families —
/// effected exactly when the identity had no prior row — and the frontrun
/// family exactly when the submission is uneffected. So the effected and
/// uneffected increments together equal the stored rows, and the frontrun
/// increments equal the uneffected subset.
pub proof fn lemma_reconciliation_balance(
    s: BlockState,
    chain: Seq<char>,
    t: TxRowV,
    url: Seq<char>,
    m: MsgV,
    now: int,
)
    requires
        s.store.wf(),
        m.packet() is Some,
        s.store.packets.len() < u64::MAX,
    ensures
        ({
            let (s1, e) = msg_effect(s, chain, t, url, m, now);
            let p = m.packet()->0;
            let k = packet_key(p, url);
            let base = packet_labels(
                chain,
                p.source_channel,
                p.source_port,
                p.destination_channel,
                p.destination_port,
                signer_or_empty(m),
                t.memo,
            );
            &&& e is None
            &&& (crate::store::has_submission(s.store.packets, k, t.id) ==> s1 == s)
            &&& (!crate::store::has_submission(s.store.packets, k, t.id) ==> {
                &&& s1.store.packets.len() == s.store.packets.len() + 1
                &&& (s1.store.packets.last().effected <==> s.store.spec_find_packet(k) is None)
                &&& (s.store.spec_find_packet(k) is None ==> s1.counters.effected == mbump(
                    s.counters.effected,
                    base,
                ) && s1.counters.uneffected == s.counters.uneffected && s1.counters.frontruns
                    == s.counters.frontruns)
                &&& (s.store.spec_find_packet(k) is Some ==> s1.counters.effected
                    == s.counters.effected && s1.counters.uneffected == mbump(
                    s.counters.uneffected,
                    base,
                ) && (exists|fl: Seq<Seq<char>>|
                    s1.counters.frontruns == mbump(s.counters.frontruns, fl)))
            })
        }),
{
}

/// Frontrun attribution, per reconciliation: a new submission for an
/// identity that already has a row — whether the first writer landed in
/// the same block or an earlier one — is stored uneffected, pointing at
/// the earliest (effected) row's transaction and signer, with the
/// uneffected counter bumped under the late signer and its memo, and the
/// frontrun counter bumped naming the effected signer and the effected
/// transaction's memo. Every earlier row stands unchanged, and the
/// effected counters do not move.
pub proof fn lemma_frontrun_attribution(
    s: BlockState,
    chain: Seq<char>,
    t: TxRowV,
    url: Seq<char>,
    m: MsgV,
    now: int,
)
    requires
        s.store.wf(),
        m.packet() is Some,
        s.store.packets.len() < u64::MAX,
        !crate::store::has_submission(s.store.packets, packet_key(m.packet()->0, url), t.id),
        s.store.spec_find_packet(packet_key(m.packet()->0, url)) is Some,
    ensures
        ({
            let (s1, e) = msg_effect(s, chain, t, url, m, now);
            let p = m.packet()->0;
            let k = packet_key(p, url);
            let prior = s.store.spec_find_packet(k)->0;
            let effected_tx = s.store.txs[prior.tx_id - 1];
            let signer = signer_or_empty(m);
            let base = packet_labels(
                chain,
                p.source_channel,
                p.source_port,
                p.destination_channel,
                p.destination_port,
                signer,
                t.memo,
            );
            &&& e is None
            &&& prior.effected
            &&& s1.store.txs == s.store.txs
            &&& s1.store.packets.len() == s.store.packets.len() + 1
            &&& (forall|i: int|
                0 <= i < s.store.packets.len() ==> s1.store.packets[i] == s.store.packets[i])
            &&& ({
                let row = s1.store.packets.last();
                &&& !row.effected
                &&& crate::store::key_of(row) == k
                &&& row.tx_id == t.id
                &&& row.signer == signer
                &&& row.effected_signer == Some(prior.signer)
                &&& row.effected_tx == Some(prior.tx_id)
            })
            &&& s1.counters.effected == s.counters.effected
            &&& s1.counters.uneffected == mbump(s.counters.uneffected, base)
            &&& s1.counters.frontruns == mbump(
                s.counters.frontruns,
                frontrun_labels(
                    chain,
                    p.source_channel,
                    p.source_port,
                    p.destination_channel,
                    p.destination_port,
                    signer,
                    prior.signer,
                    t.memo,
                    effected_tx.memo,
                ),
            )
        }),
{
    let p = m.packet()->0;
    let k = packet_key(p, url);
    crate::store::lemma_find_packet_some(s.store, k);
    let row = s.store.spec_record_packet(t.id, k, signer_or_empty(m), now).packets.last();
    assert(crate::store::key_of(row) =~= k);
}

/// Replay idempotence, per reconciliation: a submission whose identity
/// already has a row adds no effected row and leaves the effected
/// counters unchanged, whatever else it does.
pub proof fn lemma_replay_no_new_effected(
    s: BlockState,
    chain: Seq<char>,
    t: TxRowV,
    url: Seq<char>,
    m: MsgV,
    now: int,
)
    requires
        s.store.wf(),
        m.packet() matches Some(p) ==> s.store.spec_find_packet(packet_key(p, url)) is Some,
    ensures
        ({
            let (s1, e) = msg_effect(s, chain, t, url, m, now);
            &&& s1.counters.effected == s.counters.effected
            &&& s1.store.txs == s.store.txs
            &&& s.store.packets.len() <= s1.store.packets.len()
            &&& forall|i: int|
                0 <= i < s.store.packets.len() ==> s1.store.packets[i] == s.store.packets[i]
            &&& forall|i: int|
                s.store.packets.len() <= i < s1.store.packets.len() ==> !(
                #[trigger] s1.store.packets[i]).effected
        }),
{
}

/// Whether an envelope's submission — if it decodes to a relevant IBC
/// message carrying a packet — is already recorded for the transaction.
pub open spec fn msg_present(t_store: StoreV, am: crate::msg::AnyMsgV, tx_id: int) -> bool {
    match decode_spec(am.type_url, am.value) {
        Ok(m) => (m.is_ibc() && m.is_relevant() && m.packet() is Some) ==> crate::store::has_submission(
            t_store.packets,
            packet_key(m.packet()->0, am.type_url),
            tx_id,
        ),
        Err(e) => true,
    }
}

/// Whether every submission of a message list is already recorded.
pub open spec fn msgs_present(t_store: StoreV, msgs: Seq<crate::msg::AnyMsgV>, tx_id: int) -> bool {
    forall|j: int| 0 <= j < msgs.len() ==> msg_present(t_store, #[trigger] msgs[j], tx_id)
}

/// Whether a raw transaction's work is fully materialized in a store:
/// it decodes with a body, its `(chain, hash)` row exists, and each of
/// its relevant submissions is recorded under that row.
pub open spec fn tx_materialized(t_store: StoreV, chain: Seq<char>, bytes: Seq<u8>) -> bool {
    match tx_decode_of(bytes) {
        Some(env) => match env.body {
            Some(b) => crate::store::first_tx_ix(t_store.txs, chain, tx_hash_of(bytes)) matches Some(
                f,
            ) && msgs_present(t_store, b.messages, t_store.txs[f].id),
            None => false,
        },
        None => false,
    }
}

/// One reconciliation only appends to the store, never fails the
/// transactions, and — where it went through — leaves its submission
/// recorded.
proof fn lemma_msg_effect_props(
    s: BlockState,
    chain: Seq<char>,
    t: TxRowV,
    url: Seq<char>,
    m: MsgV,
    now: int,
)
    requires
        s.store.wf(),
        1 <= t.id <= s.store.txs.len(),
    ensures
        ({
            let (s1, e) = msg_effect(s, chain, t, url, m, now);
            &&& s1.store.wf()
            &&& s1.store.txs == s.store.txs
            &&& crate::store::store_leq(s.store, s1.store)
            &&& (e is None && m.packet() is Some ==> crate::store::has_submission(
                s1.store.packets,
                packet_key(m.packet()->0, url),
                t.id,
            ))
        }),
{
    match m.packet() {
        None => {},
        Some(p) => {
            let k = packet_key(p, url);
            if record_ok(s.store, k, t.id) {
                crate::store::lemma_record_props(s.store, k, t.id, signer_or_empty(m), now);
            }
        },
    }
}

/// Processing a message list only appends to the store; where it went
/// through, every submission of the list is recorded.
proof fn lemma_msgs_effect_props(
    s: BlockState,
    chain: Seq<char>,
    t: TxRowV,
    msgs: Seq<crate::msg::AnyMsgV>,
    now: int,
)
    requires
        s.store.wf(),
        1 <= t.id <= s.store.txs.len(),
    ensures
        ({
            let (s1, e) = msgs_effect(s, chain, t, msgs, now);
            &&& s1.store.wf()
            &&& s1.store.txs == s.store.txs
            &&& crate::store::store_leq(s.store, s1.store)
            &&& (e is None ==> msgs_present(s1.store, msgs, t.id))
        }),
    decreases msgs.len(),
{
    if msgs.len() == 0 {
    } else {
        let (s1, e) = msgs_effect(s, chain, t, msgs, now);
        let step = match decode_spec(msgs[0].type_url, msgs[0].value) {
            Ok(m) => if m.is_ibc() && m.is_relevant() {
                msg_effect(s, chain, t, msgs[0].type_url, m, now)
            } else {
                (s, None)
            },
            Err(_) => (s, None),
        };
        match decode_spec(msgs[0].type_url, msgs[0].value) {
            Ok(m) => {
                if m.is_ibc() && m.is_relevant() {
                    lemma_msg_effect_props(s, chain, t, msgs[0].type_url, m, now);
                }
            },
            Err(_) => {},
        }
        if step.1 is Some {
        } else {
            lemma_msgs_effect_props(step.0, chain, t, msgs.drop_first(), now);
            let (s2, e2) = msgs_effect(step.0, chain, t, msgs.drop_first(), now);
            if e2 is None {
                assert forall|j: int| 0 <= j < msgs.len() implies msg_present(
                    s2.store,
                    #[trigger] msgs[j],
                    t.id,
                ) by {
                    if j == 0 {
                        match decode_spec(msgs[0].type_url, msgs[0].value) {
                            Ok(m) => {
                                if m.is_ibc() && m.is_relevant() && m.packet() is Some {
                                    crate::store::lemma_has_submission_mono(
                                        step.0.store.packets,
                                        s2.store.packets,
                                        packet_key(m.packet()->0, msgs[0].type_url),
                                        t.id,
                                    );
                                }
                            },
                            Err(_) => {},
                        }
                    } else {
                        assert(msgs.drop_first()[j - 1] == msgs[j]);
                        assert(msg_present(s2.store, msgs.drop_first()[j - 1], t.id));
                    }
                }
            }
        }
    }
}

/// Replaying a message list whose submissions are all recorded changes
/// nothing at all, and cannot fail.
proof fn lemma_msgs_replay(
    t_store: StoreV,
    c: CounterState,
    chain: Seq<char>,
    t: TxRowV,
    msgs: Seq<crate::msg::AnyMsgV>,
    now: int,
)
    requires
        t_store.wf(),
        1 <= t.id <= t_store.txs.len(),
        msgs_present(t_store, msgs, t.id),
    ensures
        msgs_effect(BlockState { store: t_store, counters: c }, chain, t, msgs, now) == (
            BlockState { store: t_store, counters: c },
            None::<BlockError>,
        ),
    decreases msgs.len(),
{
    if msgs.len() == 0 {
    } else {
        let s = BlockState { store: t_store, counters: c };
        let step = match decode_spec(msgs[0].type_url, msgs[0].value) {
            Ok(m) => if m.is_ibc() && m.is_relevant() {
                msg_effect(s, chain, t, msgs[0].type_url, m, now)
            } else {
                (s, None)
            },
            Err(_) => (s, None),
        };
        match decode_spec(msgs[0].type_url, msgs[0].value) {
            Ok(m) => {
                if m.is_ibc() && m.is_relevant() {
                    match m.packet() {
                        None => {},
                        Some(p) => {
                            let k = packet_key(p, msgs[0].type_url);
                            assert(msg_present(t_store, msgs[0], t.id));
                            assert(crate::store::has_submission(t_store.packets, k, t.id));
                        },
                    }
                }
            },
            Err(_) => {},
        }
        assert(step == (BlockState { store: t_store, counters: c }, None::<BlockError>));
        assert forall|j: int| 0 <= j < msgs.drop_first().len() implies msg_present(
            t_store,
            #[trigger] msgs.drop_first()[j],
            t.id,
        ) by {
            assert(msgs.drop_first()[j] == msgs[j + 1]);
            assert(msg_present(t_store, msgs[j + 1], t.id));
        }
        lemma_msgs_replay(t_store, c, chain, t, msgs.drop_first(), now);
    }
}

/// Processing one raw transaction only appends to the store; where it
/// went through, its work is materialized.
#[verifier::rlimit(100)]
proof fn lemma_tx_effect_props(s: BlockState, chain: Seq<char>, height: int, bytes: Seq<u8>, now: int)
    requires
        s.store.wf(),
    ensures
        ({
            let (s1, e) = tx_effect(s, chain, height, bytes, now);
            &&& s1.store.wf()
            &&& crate::store::store_leq(s.store, s1.store)
            &&& (e is None ==> tx_materialized(s1.store, chain, bytes))
        }),
{
    let s1 = BlockState {
        store: s.store,
        counters: CounterState { txs: mbump(s.counters.txs, chain_labels(chain)), ..s.counters },
    };
    match tx_decode_of(bytes) {
        None => {},
        Some(env) => {
            let hash = tx_hash_of(bytes);
            let memo = match env.body {
                Some(b) => b.memo,
                None => ("")@,
            };
            if upsert_ok(s1.store, chain, hash) {
                crate::store::lemma_upsert_props(s1.store, chain, height, hash, memo, now);
                let (store2, trow) = s1.store.spec_upsert_tx(chain, height, hash, memo, now);
                let s2 = BlockState { store: store2, counters: s1.counters };
                match env.body {
                    None => {},
                    Some(b) => {
                        lemma_msgs_effect_props(s2, chain, trow, b.messages, now);
                        let (s3, e3) = msgs_effect(s2, chain, trow, b.messages, now);
                        assert(tx_effect(s, chain, height, bytes, now) == (s3, e3));
                        assert(crate::store::store_leq(s.store, s3.store));
                        if e3 is None {
                            let f = crate::store::first_tx_ix(store2.txs, chain, hash)->0;
                            assert(s3.store.txs == store2.txs);
                            assert(s3.store.txs[f] == trow);
                            assert(msgs_present(s3.store, b.messages, trow.id));
                            assert(tx_materialized(s3.store, chain, bytes));
                        }
                    },
                }
            }
        },
    }
}

/// Handling a block only appends to the store; where it went through,
/// every transaction's work is materialized.
proof fn lemma_block_effect_props(
    s: BlockState,
    chain: Seq<char>,
    height: int,
    txs: Seq<Seq<u8>>,
    now: int,
)
    requires
        s.store.wf(),
    ensures
        ({
            let (s1, e) = block_effect(s, chain, height, txs, now);
            &&& s1.store.wf()
            &&& crate::store::store_leq(s.store, s1.store)
            &&& (e is None ==> forall|j: int|
                0 <= j < txs.len() ==> tx_materialized(s1.store, chain, #[trigger] txs[j]))
        }),
    decreases txs.len(),
{
    if txs.len() == 0 {
    } else {
        lemma_tx_effect_props(s, chain, height, txs[0], now);
        let step = tx_effect(s, chain, height, txs[0], now);
        if step.1 is Some {
        } else {
            lemma_block_effect_props(step.0, chain, height, txs.drop_first(), now);
            let (s1, e) = block_effect(step.0, chain, height, txs.drop_first(), now);
            if e is None {
                assert forall|j: int| 0 <= j < txs.len() implies tx_materialized(
                    s1.store,
                    chain,
                    #[trigger] txs[j],
                ) by {
                    if j == 0 {
                        lemma_tx_materialized_mono(step.0.store, s1.store, chain, txs[0]);
                    } else {
                        assert(txs.drop_first()[j - 1] == txs[j]);
                        assert(tx_materialized(s1.store, chain, txs.drop_first()[j - 1]));
                    }
                }
            }
        }
    }
}

/// Materialized work survives any extension of the store.
proof fn lemma_tx_materialized_mono(a: StoreV, b: StoreV, chain: Seq<char>, bytes: Seq<u8>)
    requires
        crate::store::store_leq(a, b),
        tx_materialized(a, chain, bytes),
    ensures
        tx_materialized(b, chain, bytes),
{
    let env = tx_decode_of(bytes)->0;
    let body = env.body->0;
    let hash = tx_hash_of(bytes);
    crate::store::lemma_first_tx_ix_stable(a.txs, b.txs, chain, hash);
    let f = crate::store::first_tx_ix(a.txs, chain, hash)->0;
    assert(b.txs[f] == a.txs[f]);
    assert forall|j: int| 0 <= j < body.messages.len() implies msg_present(
        b,
        #[trigger] body.messages[j],
        a.txs[f].id,
    ) by {
        match decode_spec(body.messages[j].type_url, body.messages[j].value) {
            Ok(m) => {
                if m.is_ibc() && m.is_relevant() && m.packet() is Some {
                    crate::store::lemma_has_submission_mono(
                        a.packets,
                        b.packets,
                        packet_key(m.packet()->0, body.messages[j].type_url),
                        a.txs[f].id,
                    );
                }
            },
            Err(_) => {},
        }
    }
}

/// Replaying one raw transaction whose work is materialized counts the
/// transaction's arrival and nothing else: the store and every other
/// counter family stay as they were, and nothing fails, whatever the
/// retry's height and timestamp.
proof fn lemma_tx_replay(
    t_store: StoreV,
    c: CounterState,
    chain: Seq<char>,
    height: int,
    bytes: Seq<u8>,
    now: int,
)
    requires
        t_store.wf(),
        tx_materialized(t_store, chain, bytes),
    ensures
        tx_effect(BlockState { store: t_store, counters: c }, chain, height, bytes, now) == (
            BlockState {
                store: t_store,
                counters: CounterState { txs: mbump(c.txs, chain_labels(chain)), ..c },
            },
            None::<BlockError>,
        ),
{
    let env = tx_decode_of(bytes)->0;
    let body = env.body->0;
    let hash = tx_hash_of(bytes);
    let f = crate::store::first_tx_ix(t_store.txs, chain, hash)->0;
    let memo = body.memo;
    assert(tx_decode_of(bytes) is Some);
    assert(env.body is Some);
    assert(crate::store::first_tx_ix(t_store.txs, chain, hash) == Some(f));
    assert(upsert_ok(t_store, chain, hash));
    crate::store::lemma_first_tx_ix_stable(t_store.txs, t_store.txs, chain, hash);
    let (store2, trow) = t_store.spec_upsert_tx(chain, height, hash, memo, now);
    assert(store2 == t_store);
    assert(trow == t_store.txs[f]);
    assert(1 <= trow.id <= t_store.txs.len());
    let mid = CounterState { txs: mbump(c.txs, chain_labels(chain)), ..c };
    lemma_msgs_replay(t_store, mid, chain, trow, body.messages, now);
}

/// Replay idempotence, per block: replaying a block that already went
/// through in full — against the store it produced — adds no row at all
/// and leaves every reconciliation counter family unchanged, whatever
/// the counters and timestamp of the second pass. Only the transaction
/// arrivals are counted again.
pub proof fn lemma_block_replay(
    s: BlockState,
    chain: Seq<char>,
    height: int,
    txs: Seq<Seq<u8>>,
    now1: int,
    c: CounterState,
    now2: int,
)
    requires
        s.store.wf(),
        block_effect(s, chain, height, txs, now1).1 is None,
    ensures
        ({
            let s1 = block_effect(s, chain, height, txs, now1).0;
            let (s2, e2) = block_effect(
                BlockState { store: s1.store, counters: c },
                chain,
                height,
                txs,
                now2,
            );
            &&& s2.store == s1.store
            &&& e2 is None
            &&& s2.counters.effected == c.effected
            &&& s2.counters.uneffected == c.uneffected
            &&& s2.counters.frontruns == c.frontruns
            &&& s2.counters.packets == c.packets
        }),
{
    lemma_block_effect_props(s, chain, height, txs, now1);
    let s1 = block_effect(s, chain, height, txs, now1).0;
    lemma_block_replay_all(s1.store, c, chain, height, txs, now2);
}

/// Replaying any list of transactions whose work is materialized changes
/// neither the store nor any reconciliation counter family.
proof fn lemma_block_replay_all(
    t_store: StoreV,
    c: CounterState,
    chain: Seq<char>,
    height: int,
    txs: Seq<Seq<u8>>,
    now: int,
)
    requires
        t_store.wf(),
        forall|j: int| 0 <= j < txs.len() ==> tx_materialized(t_store, chain, #[trigger] txs[j]),
    ensures
        ({
            let (s2, e2) = block_effect(BlockState { store: t_store, counters: c }, chain, height, txs, now);
            &&& s2.store == t_store
            &&& e2 is None
            &&& s2.counters.effected == c.effected
            &&& s2.counters.uneffected == c.uneffected
            &&& s2.counters.frontruns == c.frontruns
            &&& s2.counters.packets == c.packets
        }),
    decreases txs.len(),
{
    if txs.len() == 0 {
    } else {
        lemma_tx_replay(t_store, c, chain, height, txs[0], now);
        let step = tx_effect(BlockState { store: t_store, counters: c }, chain, height, txs[0], now);
        assert forall|j: int| 0 <= j < txs.drop_first().len() implies tx_materialized(
            t_store,
            chain,
            #[trigger] txs.drop_first()[j],
        ) by {
            assert(txs.drop_first()[j] == txs[j + 1]);
        }
        lemma_block_replay_all(t_store, step.0.counters, chain, height, txs.drop_first(), now);
    }
}

/// The views of a block's raw transactions.
pub open spec fn raw_txs_view(txs: Seq<Vec<u8>>) -> Seq<Seq<u8>> {
    Seq::new(txs.len(), |i: int| txs[i]@)
}

/// The metric families a block handler leaves alone.
pub open spec fn block_untouched(pre: Metrics, post: Metrics) -> bool {
    &&& post.stuck == pre.stuck
    &&& post.chains == pre.chains
    &&& post.reconnects == pre.reconnects
    &&& post.timeouts == pre.timeouts
    &&& post.errors == pre.errors
}

/// Persists one decoded transaction: the observation is keyed on the
/// uppercase hex SHA-256 of the raw bytes, with the body's memo.
pub fn insert_tx(
    store: &mut Store,
    chain_id: &str,
    height: u64,
    bytes: &Vec<u8>,
    env: &TxEnvelope,
    now: u64,
) -> (r: Result<TxRow, StoreError>)
    requires
        old(store)@.wf(),
    ensures
        final(store)@.wf(),
        ({
            let hash = tx_hash_of(bytes@);
            let memo = match env@.body {
                Some(b) => b.memo,
                None => ("")@,
            };
            &&& upsert_ok(old(store)@, chain_id@, hash) ==> (r matches Ok(row) && (
            final(store)@,
            row@,
            ) == old(store)@.spec_upsert_tx(chain_id@, height as int, hash, memo, now as int) && 1
                <= row@.id <= final(store)@.txs.len())
            &&& !upsert_ok(old(store)@, chain_id@, hash) ==> r is Err && final(store)@ == old(
                store,
            )@
        }),
{
    let hash = tx_hash(bytes);
    let memo: &str = match &env.body {
        Some(b) => b.memo.as_str(),
        None => "",
    };
    store.upsert_tx(chain_id, height, hash.as_str(), memo, now)
}

/// Reconciles one classified message against the store: a submission
/// already recorded is left alone; otherwise look the packet identity up,
/// count the submission as effected or as an uneffected frontrun, then
/// record it.
pub fn process_msg(
    store: &mut Store,
    metrics: &mut Metrics,
    chain_id: &str,
    tx_row: &TxRow,
    type_url: &str,
    msg: &Msg,
    now: u64,
) -> (r: Result<(), StoreError>)
    requires
        old(store)@.wf(),
        old(metrics).wf(),
        1 <= tx_row@.id <= old(store)@.txs.len(),
    ensures
        final(store)@.wf(),
        final(metrics).wf(),
        block_untouched(*old(metrics), *final(metrics)),
        ({
            let (s1, e) = msg_effect(
                BlockState { store: old(store)@, counters: counters_of(*old(metrics)) },
                chain_id@,
                tx_row@,
                type_url@,
                msg@,
                now as int,
            );
            &&& final(store)@ == s1.store
            &&& counters_of(*final(metrics)) == s1.counters
            &&& (match r {
                Ok(u) => e is None,
                Err(err) => e == Some(BlockError::Store),
            })
        }),
{
    let packet = match msg.packet() {
        Some(p) => p,
        None => {
            return Ok(());
        },
    };
    if store.has_submission_for(packet, type_url, tx_row.id) {
        // A replayed submission: already recorded, nothing to count.
        return Ok(());
    }
    metrics.chainpulse_packets(chain_id);
    let signer: &str = match msg.signer() {
        Some(s) => s,
        None => "",
    };
    let prior = store.find_packet(packet, type_url);
    match &prior {
        Some(existing) => {
            proof {
                lemma_find_packet_some(store@, packet_key(packet@, type_url@));
            }
            let effected_tx = store.lookup_tx(existing.tx_id).unwrap();
            metrics.ibc_uneffected_packets(
                chain_id,
                packet.source_channel.as_str(),
                packet.source_port.as_str(),
                packet.destination_channel.as_str(),
                packet.destination_port.as_str(),
                signer,
                tx_row.memo.as_str(),
            );
            metrics.ibc_frontrun_counter(
                chain_id,
                packet.source_channel.as_str(),
                packet.source_port.as_str(),
                packet.destination_channel.as_str(),
                packet.destination_port.as_str(),
                signer,
                existing.signer.as_str(),
                tx_row.memo.as_str(),
                effected_tx.memo.as_str(),
            );
        },
        None => {
            metrics.ibc_effected_packets(
                chain_id,
                packet.source_channel.as_str(),
                packet.source_port.as_str(),
                packet.destination_channel.as_str(),
                packet.destination_port.as_str(),
                signer,
                tx_row.memo.as_str(),
            );
        },
    }
    store.record_packet(tx_row.id, packet, type_url, signer, &prior, now)
}

/// Processes one raw transaction: count it, decode it, persist it, then
/// classify and reconcile each message of its body in order.
#[verifier::rlimit(60)]
pub fn process_tx(
    store: &mut Store,
    metrics: &mut Metrics,
    chain_id: &str,
    height: u64,
    bytes: &Vec<u8>,
    now: u64,
) -> (r: Result<(), BlockError>)
    requires
        old(store)@.wf(),
        old(metrics).wf(),
    ensures
        final(store)@.wf(),
        final(metrics).wf(),
        block_untouched(*old(metrics), *final(metrics)),
        ({
            let (s1, e) = tx_effect(
                BlockState { store: old(store)@, counters: counters_of(*old(metrics)) },
                chain_id@,
                height as int,
                bytes@,
                now as int,
            );
            &&& final(store)@ == s1.store
            &&& counters_of(*final(metrics)) == s1.counters
            &&& (match r {
                Ok(u) => e is None,
                Err(err) => e == Some(err),
            })
        }),
{
    let ghost entry = BlockState { store: old(store)@, counters: counters_of(*old(metrics)) };
    metrics.chainpulse_txs(chain_id);
    let env = match decode_tx(bytes.as_slice()) {
        Some(e) => e,
        None => {
            return Err(BlockError::TxDecode);
        },
    };
    let ghost envv = env@;
    let tx_row = match insert_tx(store, chain_id, height, bytes, &env, now) {
        Ok(t) => t,
        Err(_) => {
            return Err(BlockError::Store);
        },
    };
    let body = match env.body {
        Some(b) => b,
        None => {
            return Err(BlockError::MissingBody);
        },
    };
    let ghost trowv = tx_row@;
    let ghost msgs_v = body@.messages;
    let ghost mid = BlockState { store: store@, counters: counters_of(*metrics) };
    proof {
        assert(msgs_v.skip(0) =~= msgs_v);
        assert(envv.body == Some(body@));
        assert(tx_effect(entry, chain_id@, height as int, bytes@, now as int) == msgs_effect(
            mid,
            chain_id@,
            trowv,
            msgs_v,
            now as int,
        ));
    }
    let n = body.messages.len();
    let mut i: usize = 0;
    while i < n
        invariant
            n == body.messages.len(),
            0 <= i <= n,
            store@.wf(),
            metrics.wf(),
            msgs_v == body@.messages,
            trowv == tx_row@,
            1 <= trowv.id <= store@.txs.len(),
            block_untouched(*old(metrics), *metrics),
            tx_effect(
                BlockState { store: old(store)@, counters: counters_of(*old(metrics)) },
                chain_id@,
                height as int,
                bytes@,
                now as int,
            ) == msgs_effect(mid, chain_id@, trowv, msgs_v, now as int),
            msgs_effect(mid, chain_id@, trowv, msgs_v, now as int) == msgs_effect(
                BlockState { store: store@, counters: counters_of(*metrics) },
                chain_id@,
                trowv,
                msgs_v.skip(i as int),
                now as int,
            ),
        decreases n - i,
    {
        let ghost pre_state = BlockState { store: store@, counters: counters_of(*metrics) };
        let ghost rest = msgs_v.skip(i as int);
        proof {
            assert(rest.len() > 0);
            assert(rest[0] == msgs_v[i as int]);
            assert(rest.drop_first() =~= msgs_v.skip(i as int + 1));
            assert(body@.messages[i as int] == body.messages@[i as int]@);
        }
        let am = body.messages[i].clone();
        let url = am.type_url.clone();
        proof {
            assert(am@ == msgs_v[i as int]);
        }
        match Msg::decode(am) {
            Ok(m) => {
                if m.is_ibc() && m.is_relevant() {
                    proof {
                        assert(decode_spec(rest[0].type_url, rest[0].value) == Ok::<
                            MsgV,
                            crate::msg::MsgError,
                        >(m@));
                    }
                    let ghost step = msg_effect(
                        pre_state,
                        chain_id@,
                        trowv,
                        msgs_v[i as int].type_url,
                        m@,
                        now as int,
                    );
                    match process_msg(store, metrics, chain_id, &tx_row, url.as_str(), &m, now) {
                        Ok(u) => {
                            proof {
                                assert(step == (
                                    BlockState {
                                        store: store@,
                                        counters: counters_of(*metrics),
                                    },
                                    None::<BlockError>,
                                ));
                                assert(msgs_effect(pre_state, chain_id@, trowv, rest, now as int)
                                    == msgs_effect(
                                    step.0,
                                    chain_id@,
                                    trowv,
                                    rest.drop_first(),
                                    now as int,
                                ));
                                assert(step.0.store.txs == pre_state.store.txs);
                            }
                        },
                        Err(_) => {
                            proof {
                                assert(step == (
                                    BlockState {
                                        store: store@,
                                        counters: counters_of(*metrics),
                                    },
                                    Some(BlockError::Store),
                                ));
                                assert(msgs_effect(pre_state, chain_id@, trowv, rest, now as int)
                                    == step);
                                assert(msgs_effect(mid, chain_id@, trowv, msgs_v, now as int)
                                    == step);
                            }
                            return Err(BlockError::Store);
                        },
                    }
                } else {
                    proof {
                        assert(msgs_effect(pre_state, chain_id@, trowv, rest, now as int)
                            == msgs_effect(
                            pre_state,
                            chain_id@,
                            trowv,
                            rest.drop_first(),
                            now as int,
                        ));
                    }
                }
            },
            Err(_) => {
                proof {
                    assert(decode_spec(rest[0].type_url, rest[0].value) is Err);
                    assert(msgs_effect(pre_state, chain_id@, trowv, rest, now as int)
                        == msgs_effect(
                        pre_state,
                        chain_id@,
                        trowv,
                        rest.drop_first(),
                        now as int,
                    ));
                }
            },
        }
        i += 1;
    }
    proof {
        assert(msgs_v.skip(n as int) =~= Seq::<crate::msg::AnyMsgV>::empty());
        assert(msgs_effect(mid, chain_id@, trowv, msgs_v, now as int) == (
            BlockState { store: store@, counters: counters_of(*metrics) },
            None::<BlockError>,
        ));
    }
    Ok(())
}

/// Handles one block: its transactions in block order. An error on one
/// transaction stops the block; everything persisted before it stands.
pub fn on_new_block(
    store: &mut Store,
    metrics: &mut Metrics,
    chain_id: &str,
    height: u64,
    txs: &Vec<Vec<u8>>,
    now: u64,
) -> (r: Result<(), BlockError>)
    requires
        old(store)@.wf(),
        old(metrics).wf(),
    ensures
        final(store)@.wf(),
        final(metrics).wf(),
        block_untouched(*old(metrics), *final(metrics)),
        ({
            let (s1, e) = block_effect(
                BlockState { store: old(store)@, counters: counters_of(*old(metrics)) },
                chain_id@,
                height as int,
                raw_txs_view(txs@),
                now as int,
            );
            &&& final(store)@ == s1.store
            &&& counters_of(*final(metrics)) == s1.counters
            &&& (match r {
                Ok(u) => e is None,
                Err(err) => e == Some(err),
            })
        }),
{
    let ghost txs_v = raw_txs_view(txs@);
    let ghost start = BlockState { store: store@, counters: counters_of(*metrics) };
    proof {
        assert(txs_v.skip(0) =~= txs_v);
    }
    let n = txs.len();
    let mut i: usize = 0;
    while i < n
        invariant
            n == txs.len(),
            0 <= i <= n,
            store@.wf(),
            metrics.wf(),
            txs_v == raw_txs_view(txs@),
            block_untouched(*old(metrics), *metrics),
            start == (BlockState { store: old(store)@, counters: counters_of(*old(metrics)) }),
            block_effect(start, chain_id@, height as int, txs_v, now as int) == block_effect(
                BlockState { store: store@, counters: counters_of(*metrics) },
                chain_id@,
                height as int,
                txs_v.skip(i as int),
                now as int,
            ),
        decreases n - i,
    {
        let ghost pre_state = BlockState { store: store@, counters: counters_of(*metrics) };
        let ghost rest = txs_v.skip(i as int);
        proof {
            assert(rest.len() > 0);
            assert(rest[0] == txs_v[i as int]);
            assert(rest.drop_first() =~= txs_v.skip(i as int + 1));
            assert(txs_v[i as int] == txs@[i as int]@);
        }
        let ghost step = tx_effect(pre_state, chain_id@, height as int, txs_v[i as int], now as int);
        match process_tx(store, metrics, chain_id, height, &txs[i], now) {
            Ok(u) => {
                proof {
                    assert(step == (
                        BlockState { store: store@, counters: counters_of(*metrics) },
                        None::<BlockError>,
                    ));
                    assert(block_effect(pre_state, chain_id@, height as int, rest, now as int)
                        == block_effect(
                        step.0,
                        chain_id@,
                        height as int,
                        rest.drop_first(),
                        now as int,
                    ));
                }
            },
            Err(e) => {
                proof {
                    assert(step == (
                        BlockState { store: store@, counters: counters_of(*metrics) },
                        Some(e),
                    ));
                    assert(block_effect(pre_state, chain_id@, height as int, rest, now as int)
                        == step);
                    assert(block_effect(start, chain_id@, height as int, txs_v, now as int)
                        == step);
                }
                return Err(e);
            },
        }
        i += 1;
    }
    proof {
        assert(txs_v.skip(n as int) =~= Seq::<Seq<u8>>::empty());
        assert(block_effect(start, chain_id@, height as int, txs_v, now as int) == (
            BlockState { store: store@, counters: counters_of(*metrics) },
            None::<BlockError>,
        ));
    }
    Ok(())
}

} // verus!
