//! The packet store: an append-only table of transaction observations and
//! one of packet-submission observations, with first-writer-wins semantics
//! on the packet identity.
//!
//! Row identifiers are assigned monotonically, starting at 1. The store
//! maintains:
//! - `(chain, hash)` unique over transaction rows;
//! - `(identity, tx_id)` unique over packet rows, where the identity is
//!   the six-tuple `(src_channel, src_port, dst_channel, dst_port,
//!   sequence, msg_type_url)`;
//! - per identity, the earliest-inserted row — and only it — has
//!   `effected = true`, and every later row for the identity points back
//!   at that row's transaction and signer.

use vstd::prelude::*;

use crate::msg::{Packet, PacketV};
use crate::text::str_eq;

verus! {

/// A per-chain transaction observation.
#[derive(Debug)]
pub struct TxRow {
    /// Monotonic identifier assigned by the store, starting at 1.
    pub id: u64,
    pub chain: String,
    pub height: u64,
    /// Uppercase hex SHA-256 of the transaction's raw bytes.
    pub hash: String,
    pub memo: String,
    pub created_at: u64,
}

/// Mathematical image of a [`TxRow`].
#[verifier::ext_equal]
pub struct TxRowV {
    pub id: int,
    pub chain: Seq<char>,
    pub height: int,
    pub hash: Seq<char>,
    pub memo: Seq<char>,
    pub created_at: int,
}

impl View for TxRow {
    type V = TxRowV;

    open spec fn view(&self) -> TxRowV {
        TxRowV {
            id: self.id as int,
            chain: self.chain@,
            height: self.height as int,
            hash: self.hash@,
            memo: self.memo@,
            created_at: self.created_at as int,
        }
    }
}

/// A per-submission observation of one IBC packet-bearing message.
#[derive(Debug)]
pub struct PacketRow {
    /// Monotonic identifier assigned by the store, starting at 1.
    pub id: u64,
    /// The transaction row carrying this submission.
    pub tx_id: u64,
    pub sequence: u64,
    pub src_channel: String,
    pub src_port: String,
    pub dst_channel: String,
    pub dst_port: String,
    pub msg_type_url: String,
    pub signer: String,
    /// True iff this row was the first observation for its identity.
    pub effected: bool,
    /// For an uneffected row, the signer of the effected observation.
    pub effected_signer: Option<String>,
    /// For an uneffected row, the `tx_id` of the effected observation.
    pub effected_tx: Option<u64>,
    pub created_at: u64,
}

/// Mathematical image of a [`PacketRow`].
#[verifier::ext_equal]
pub struct PacketRowV {
    pub id: int,
    pub tx_id: int,
    pub sequence: int,
    pub src_channel: Seq<char>,
    pub src_port: Seq<char>,
    pub dst_channel: Seq<char>,
    pub dst_port: Seq<char>,
    pub msg_type_url: Seq<char>,
    pub signer: Seq<char>,
    pub effected: bool,
    pub effected_signer: Option<Seq<char>>,
    pub effected_tx: Option<int>,
    pub created_at: int,
}

pub open spec fn opt_string_view(s: Option<String>) -> Option<Seq<char>> {
    match s {
        Some(x) => Some(x@),
        None => None,
    }
}

pub open spec fn opt_row_view(r: Option<PacketRow>) -> Option<PacketRowV> {
    match r {
        Some(row) => Some(row@),
        None => None,
    }
}

pub open spec fn opt_u64_view(x: Option<u64>) -> Option<int> {
    match x {
        Some(v) => Some(v as int),
        None => None,
    }
}

impl View for PacketRow {
    type V = PacketRowV;

    open spec fn view(&self) -> PacketRowV {
        PacketRowV {
            id: self.id as int,
            tx_id: self.tx_id as int,
            sequence: self.sequence as int,
            src_channel: self.src_channel@,
            src_port: self.src_port@,
            dst_channel: self.dst_channel@,
            dst_port: self.dst_port@,
            msg_type_url: self.msg_type_url@,
            signer: self.signer@,
            effected: self.effected,
            effected_signer: opt_string_view(self.effected_signer),
            effected_tx: opt_u64_view(self.effected_tx),
            created_at: self.created_at as int,
        }
    }
}

/// The dedup key: two submissions sharing this six-tuple refer to the same
/// underlying IBC packet action on the chain.
#[verifier::ext_equal]
pub struct PacketKeyV {
    pub src_channel: Seq<char>,
    pub src_port: Seq<char>,
    pub dst_channel: Seq<char>,
    pub dst_port: Seq<char>,
    pub sequence: int,
    pub msg_type_url: Seq<char>,
}

/// The identity under which a packet row was inserted.
pub open spec fn key_of(p: PacketRowV) -> PacketKeyV {
    PacketKeyV {
        src_channel: p.src_channel,
        src_port: p.src_port,
        dst_channel: p.dst_channel,
        dst_port: p.dst_port,
        sequence: p.sequence,
        msg_type_url: p.msg_type_url,
    }
}

/// The identity of a packet submitted under a given message type URL.
pub open spec fn packet_key(p: PacketV, msg_type_url: Seq<char>) -> PacketKeyV {
    PacketKeyV {
        src_channel: p.source_channel,
        src_port: p.source_port,
        dst_channel: p.destination_channel,
        dst_port: p.destination_port,
        sequence: p.sequence,
        msg_type_url: msg_type_url,
    }
}

/// Mathematical image of the whole store.
#[verifier::ext_equal]
pub struct StoreV {
    pub txs: Seq<TxRowV>,
    pub packets: Seq<PacketRowV>,
}

pub open spec fn tx_matches(t: TxRowV, chain: Seq<char>, hash: Seq<char>) -> bool {
    t.chain == chain && t.hash == hash
}

/// Index of the first transaction row matching `(chain, hash)` at or after
/// position `i`.
pub open spec fn first_tx_ix_from(
    txs: Seq<TxRowV>,
    chain: Seq<char>,
    hash: Seq<char>,
    i: int,
) -> Option<int>
    decreases txs.len() - i,
{
    if i < 0 || i >= txs.len() {
        None
    } else if tx_matches(txs[i], chain, hash) {
        Some(i)
    } else {
        first_tx_ix_from(txs, chain, hash, i + 1)
    }
}

pub open spec fn first_tx_ix(txs: Seq<TxRowV>, chain: Seq<char>, hash: Seq<char>) -> Option<int> {
    first_tx_ix_from(txs, chain, hash, 0)
}

/// Index of the first packet row with identity `k` at or after position `i`.
pub open spec fn first_packet_ix_from(packets: Seq<PacketRowV>, k: PacketKeyV, i: int) -> Option<
    int,
>
    decreases packets.len() - i,
{
    if i < 0 || i >= packets.len() {
        None
    } else if key_of(packets[i]) == k {
        Some(i)
    } else {
        first_packet_ix_from(packets, k, i + 1)
    }
}

pub open spec fn first_packet_ix(packets: Seq<PacketRowV>, k: PacketKeyV) -> Option<int> {
    first_packet_ix_from(packets, k, 0)
}

/// Whether some packet row carries both identity `k` and transaction `tx_id`:
/// the pair on which inserts are deduplicated.
pub open spec fn has_submission(packets: Seq<PacketRowV>, k: PacketKeyV, tx_id: int) -> bool {
    exists|i: int| 0 <= i < packets.len() && key_of(packets[i]) == k && packets[i].tx_id == tx_id
}

/// A store operation that cannot complete.
#[derive(Copy, Clone, Debug, PartialEq, Eq, Structural)]
pub enum StoreError {
    /// The identifier space is exhausted; no further row can be assigned.
    Full,
}

/// When `upsert_tx` succeeds: always, unless a fresh row is needed and no
/// identifier is left for it.
pub open spec fn upsert_ok(s: StoreV, chain: Seq<char>, hash: Seq<char>) -> bool {
    first_tx_ix(s.txs, chain, hash) is Some || s.txs.len() < u64::MAX
}

/// When `record_packet` succeeds: always, unless a fresh row is needed and
/// no identifier is left for it.
pub open spec fn record_ok(s: StoreV, k: PacketKeyV, tx_id: int) -> bool {
    has_submission(s.packets, k, tx_id) || s.packets.len() < u64::MAX
}

impl StoreV {
    /// Well-formedness: the invariants the store maintains across all
    /// operations.
    pub open spec fn wf(self) -> bool {
        &&& forall|i: int| 0 <= i < self.txs.len() ==> (#[trigger] self.txs[i]).id == i + 1
        &&& forall|i: int, j: int|
            0 <= i < j < self.txs.len() ==> !tx_matches(
                #[trigger] self.txs[i],
                (#[trigger] self.txs[j]).chain,
                self.txs[j].hash,
            )
        &&& forall|i: int| 0 <= i < self.packets.len() ==> (#[trigger] self.packets[i]).id == i + 1
        &&& forall|i: int|
            0 <= i < self.packets.len() ==> 1 <= (#[trigger] self.packets[i]).tx_id
                <= self.txs.len()
        &&& forall|i: int, j: int|
            0 <= i < j < self.packets.len() ==> !(key_of(#[trigger] self.packets[i]) == key_of(
                #[trigger] self.packets[j],
            ) && self.packets[i].tx_id == self.packets[j].tx_id)
        &&& forall|i: int|
            0 <= i < self.packets.len() ==> ((#[trigger] self.packets[i]).effected <==> (forall|
                j: int,
            |
                0 <= j < i ==> key_of(#[trigger] self.packets[j]) != key_of(self.packets[i])))
        &&& forall|i: int|
            0 <= i < self.packets.len() && !(#[trigger] self.packets[i]).effected ==> (exists|
                j: int,
            |
                0 <= j < i && key_of(#[trigger] self.packets[j]) == key_of(self.packets[i])
                    && self.packets[j].effected && self.packets[i].effected_tx == Some(
                    self.packets[j].tx_id,
                ) && self.packets[i].effected_signer == Some(self.packets[j].signer))
        &&& forall|i: int|
            0 <= i < self.packets.len() && (#[trigger] self.packets[i]).effected ==> self.packets[i].effected_tx
                is None && self.packets[i].effected_signer is None
    }

    /// What `upsert_tx` does: reuse the existing row for `(chain, hash)`,
    /// or append a fresh one with the next identifier.
    pub open spec fn spec_upsert_tx(
        self,
        chain: Seq<char>,
        height: int,
        hash: Seq<char>,
        memo: Seq<char>,
        now: int,
    ) -> (StoreV, TxRowV) {
        match first_tx_ix(self.txs, chain, hash) {
            Some(i) => (self, self.txs[i]),
            None => {
                let row = TxRowV {
                    id: self.txs.len() as int + 1,
                    chain: chain,
                    height: height,
                    hash: hash,
                    memo: memo,
                    created_at: now,
                };
                (StoreV { txs: self.txs.push(row), packets: self.packets }, row)
            },
        }
    }

    /// What `find_packet` returns: the earliest row with the identity.
    pub open spec fn spec_find_packet(self, k: PacketKeyV) -> Option<PacketRowV> {
        match first_packet_ix(self.packets, k) {
            Some(i) => Some(self.packets[i]),
            None => None,
        }
    }

    /// What `record_packet` does: insert-or-ignore on `(identity, tx_id)`,
    /// with `effected` true exactly when the identity is new, and an
    /// uneffected row pointing back at the effected one.
    pub open spec fn spec_record_packet(
        self,
        tx_id: int,
        k: PacketKeyV,
        signer: Seq<char>,
        now: int,
    ) -> StoreV {
        if has_submission(self.packets, k, tx_id) {
            self
        } else {
            let prior = self.spec_find_packet(k);
            let row = PacketRowV {
                id: self.packets.len() as int + 1,
                tx_id: tx_id,
                sequence: k.sequence,
                src_channel: k.src_channel,
                src_port: k.src_port,
                dst_channel: k.dst_channel,
                dst_port: k.dst_port,
                msg_type_url: k.msg_type_url,
                signer: signer,
                effected: prior is None,
                effected_signer: match prior {
                    Some(p) => Some(p.signer),
                    None => None,
                },
                effected_tx: match prior {
                    Some(p) => Some(p.tx_id),
                    None => None,
                },
                created_at: now,
            };
            StoreV { txs: self.txs, packets: self.packets.push(row) }
        }
    }
}

impl Clone for TxRow {
    /// A clone carries the same fields.
    fn clone(&self) -> (r: TxRow)
        ensures
            r@ == self@,
    {
        TxRow {
            id: self.id,
            chain: self.chain.clone(),
            height: self.height,
            hash: self.hash.clone(),
            memo: self.memo.clone(),
            created_at: self.created_at,
        }
    }
}

impl Clone for PacketRow {
    /// A clone carries the same fields.
    fn clone(&self) -> (r: PacketRow)
        ensures
            r@ == self@,
    {
        PacketRow {
            id: self.id,
            tx_id: self.tx_id,
            sequence: self.sequence,
            src_channel: self.src_channel.clone(),
            src_port: self.src_port.clone(),
            dst_channel: self.dst_channel.clone(),
            dst_port: self.dst_port.clone(),
            msg_type_url: self.msg_type_url.clone(),
            signer: self.signer.clone(),
            effected: self.effected,
            effected_signer: match &self.effected_signer {
                Some(s) => Some(s.clone()),
                None => None,
            },
            effected_tx: self.effected_tx,
            created_at: self.created_at,
        }
    }
}

/// The packet store. Rows are only ever appended; identifiers are stable.
#[derive(Debug)]
pub struct Store {
    txs: Vec<TxRow>,
    packets: Vec<PacketRow>,
}

impl View for Store {
    type V = StoreV;

    closed spec fn view(&self) -> StoreV {
        StoreV {
            txs: Seq::new(self.txs@.len(), |i: int| self.txs@[i]@),
            packets: Seq::new(self.packets@.len(), |i: int| self.packets@[i]@),
        }
    }
}

impl Store {
    /// A fresh, empty store.
    pub fn new() -> (s: Store)
        ensures
            s@.wf(),
            s@.txs.len() == 0,
            s@.packets.len() == 0,
    {
        Store { txs: Vec::new(), packets: Vec::new() }
    }

    /// The transaction rows, in insertion order.
    pub fn tx_rows(&self) -> (r: &Vec<TxRow>)
        ensures
            r@.len() == self@.txs.len(),
            forall|i: int| 0 <= i < r@.len() ==> (#[trigger] r@[i])@ == self@.txs[i],
    {
        &self.txs
    }

    /// The packet rows, in insertion order.
    pub fn packet_rows(&self) -> (r: &Vec<PacketRow>)
        ensures
            r@.len() == self@.packets.len(),
            forall|i: int| 0 <= i < r@.len() ==> (#[trigger] r@[i])@ == self@.packets[i],
    {
        &self.packets
    }

    /// Inserts a transaction observation if `(chain, hash)` is new,
    /// otherwise reuses the existing row; the returned row's `id` is
    /// stable across calls.
    pub fn upsert_tx(
        &mut self,
        chain: &str,
        height: u64,
        hash: &str,
        memo: &str,
        now: u64,
    ) -> (r: Result<TxRow, StoreError>)
        requires
            old(self)@.wf(),
        ensures
            final(self)@.wf(),
            upsert_ok(old(self)@, chain@, hash@) ==> (r matches Ok(row) && (final(self)@, row@)
                == old(self)@.spec_upsert_tx(chain@, height as int, hash@, memo@, now as int) && 1
                <= row@.id <= final(self)@.txs.len()),
            !upsert_ok(old(self)@, chain@, hash@) ==> r is Err && final(self)@ == old(self)@,
    {
        let n = self.txs.len();
        let mut i: usize = 0;
        while i < n
            invariant
                self@ == old(self)@,
                old(self)@.wf(),
                n == self.txs.len(),
                0 <= i <= n,
                forall|j: int| 0 <= j < i ==> !tx_matches(self@.txs[j], chain@, hash@),
            decreases n - i,
        {
            proof {
                assert(self@.txs[i as int] == self.txs@[i as int]@);
            }
            if str_eq(self.txs[i].chain.as_str(), chain) && str_eq(
                self.txs[i].hash.as_str(),
                hash,
            ) {
                proof {
                    assert(tx_matches(self@.txs[i as int], chain@, hash@));
                    lemma_first_tx_ix_found(self@.txs, chain@, hash@, i as int);
                }
                return Ok(self.txs[i].clone());
            }
            proof {
                assert(!tx_matches(self@.txs[i as int], chain@, hash@));
            }
            i += 1;
        }
        proof {
            lemma_first_tx_ix_none(self@.txs, chain@, hash@);
        }
        if self.txs.len() as u64 >= u64::MAX {
            return Err(StoreError::Full);
        }
        let row = TxRow {
            id: (self.txs.len() as u64) + 1,
            chain: chain.to_owned(),
            height: height,
            hash: hash.to_owned(),
            memo: memo.to_owned(),
            created_at: now,
        };
        let ghost pre = self@;
        self.txs.push(row.clone());
        proof {
            assert(self@.txs =~= pre.txs.push(row@));
            assert(self@.packets =~= pre.packets);
            let (s2, r2) = pre.spec_upsert_tx(chain@, height as int, hash@, memo@, now as int);
            assert(row@ =~= r2);
            assert(self@ =~= s2);
            // Well-formedness of the grown table: the fresh row cannot
            // collide with any earlier `(chain, hash)`.
            assert forall|a: int, b: int| 0 <= a < b < self@.txs.len() implies !tx_matches(
                self@.txs[a],
                self@.txs[b].chain,
                self@.txs[b].hash,
            ) by {
                if b < pre.txs.len() {
                    assert(self@.txs[a] == pre.txs[a] && self@.txs[b] == pre.txs[b]);
                } else {
                    assert(self@.txs[b] == row@);
                    assert(!tx_matches(pre.txs[a], chain@, hash@));
                }
            }
        }
        Ok(row)
    }

    /// Looks a packet identity up: the earliest row with the six-tuple, if
    /// any.
    pub fn find_packet(&self, packet: &Packet, msg_type_url: &str) -> (r: Option<PacketRow>)
        ensures
            ({
                let found = self@.spec_find_packet(packet_key(packet@, msg_type_url@));
                match r {
                    Some(row) => found == Some(row@),
                    None => found is None,
                }
            }),
    {
        let ghost k = packet_key(packet@, msg_type_url@);
        let n = self.packets.len();
        let mut i: usize = 0;
        while i < n
            invariant
                k == packet_key(packet@, msg_type_url@),
                n == self.packets.len(),
                0 <= i <= n,
                forall|j: int| 0 <= j < i ==> key_of(self@.packets[j]) != k,
            decreases n - i,
        {
            proof {
                assert(self@.packets[i as int] == self.packets@[i as int]@);
            }
            if row_has_key(&self.packets[i], packet, msg_type_url) {
                proof {
                    assert(key_of(self@.packets[i as int]) == k);
                    lemma_first_packet_ix_found(self@.packets, k, i as int);
                }
                return Some(self.packets[i].clone());
            }
            proof {
                assert(key_of(self@.packets[i as int]) != k);
            }
            i += 1;
        }
        proof {
            lemma_first_packet_ix_none(self@.packets, k);
        }
        None
    }

    /// Records a packet submission: insert-or-ignore on `(identity, tx_id)`.
    /// The row is effected exactly when no earlier row carries the identity;
    /// an uneffected row copies the effected row's signer and transaction.
    /// `prior` must be the result of looking the identity up first, as the
    /// reconciliation algorithm does.
    pub fn record_packet(
        &mut self,
        tx_id: u64,
        packet: &Packet,
        msg_type_url: &str,
        signer: &str,
        prior: &Option<PacketRow>,
        now: u64,
    ) -> (r: Result<(), StoreError>)
        requires
            old(self)@.wf(),
            1 <= tx_id <= old(self)@.txs.len(),
            opt_row_view(*prior) == old(self)@.spec_find_packet(
                packet_key(packet@, msg_type_url@),
            ),
        ensures
            final(self)@.wf(),
            record_ok(old(self)@, packet_key(packet@, msg_type_url@), tx_id as int) ==> (r is Ok
                && final(self)@ == old(self)@.spec_record_packet(
                tx_id as int,
                packet_key(packet@, msg_type_url@),
                signer@,
                now as int,
            )),
            !record_ok(old(self)@, packet_key(packet@, msg_type_url@), tx_id as int) ==> r is Err
                && final(self)@ == old(self)@,
    {
        let ghost k = packet_key(packet@, msg_type_url@);
        let n = self.packets.len();
        let mut i: usize = 0;
        while i < n
            invariant
                k == packet_key(packet@, msg_type_url@),
                self@ == old(self)@,
                old(self)@.wf(),
                n == self.packets.len(),
                0 <= i <= n,
                forall|j: int|
                    0 <= j < i ==> !(key_of(self@.packets[j]) == k && self@.packets[j].tx_id
                        == tx_id as int),
            decreases n - i,
        {
            proof {
                assert(self@.packets[i as int] == self.packets@[i as int]@);
            }
            if self.packets[i].tx_id == tx_id && row_has_key(&self.packets[i], packet, msg_type_url)
            {
                proof {
                    assert(key_of(self@.packets[i as int]) == k && self@.packets[i as int].tx_id
                        == tx_id as int);
                    assert(has_submission(self@.packets, k, tx_id as int));
                }
                return Ok(());
            }
            proof {
                assert(!(key_of(self@.packets[i as int]) == k && self@.packets[i as int].tx_id
                    == tx_id as int));
            }
            i += 1;
        }
        proof {
            assert(!has_submission(self@.packets, k, tx_id as int));
        }
        if self.packets.len() as u64 >= u64::MAX {
            return Err(StoreError::Full);
        }
        let row = PacketRow {
            id: (self.packets.len() as u64) + 1,
            tx_id: tx_id,
            sequence: packet.sequence,
            src_channel: packet.source_channel.clone(),
            src_port: packet.source_port.clone(),
            dst_channel: packet.destination_channel.clone(),
            dst_port: packet.destination_port.clone(),
            msg_type_url: msg_type_url.to_owned(),
            signer: signer.to_owned(),
            effected: prior.is_none(),
            effected_signer: match prior {
                Some(p) => Some(p.signer.clone()),
                None => None,
            },
            effected_tx: match prior {
                Some(p) => Some(p.tx_id),
                None => None,
            },
            created_at: now,
        };
        let ghost pre = self@;
        let ghost rowv = row@;
        self.packets.push(row);
        proof {
            assert(self@.txs =~= pre.txs);
            assert(self@.packets =~= pre.packets.push(rowv));
            lemma_first_packet_ix_props(pre.packets, k, 0);
            let spec_row = pre.spec_record_packet(tx_id as int, k, signer@, now as int).packets[
                pre.packets.len() as int
            ];
            assert(rowv =~= spec_row);
            assert(self@ =~= pre.spec_record_packet(tx_id as int, k, signer@, now as int));
            lemma_record_preserves_wf(pre, k, tx_id as int, signer@, now as int);
        }
        Ok(())
    }

    /// Whether the submission pair — identity and carrying transaction —
    /// is already recorded.
    pub fn has_submission_for(&self, packet: &Packet, msg_type_url: &str, tx_id: u64) -> (r: bool)
        ensures
            r == has_submission(self@.packets, packet_key(packet@, msg_type_url@), tx_id as int),
    {
        let ghost k = packet_key(packet@, msg_type_url@);
        let n = self.packets.len();
        let mut i: usize = 0;
        while i < n
            invariant
                k == packet_key(packet@, msg_type_url@),
                n == self.packets.len(),
                0 <= i <= n,
                forall|j: int|
                    0 <= j < i ==> !(key_of(self@.packets[j]) == k && self@.packets[j].tx_id
                        == tx_id as int),
            decreases n - i,
        {
            proof {
                assert(self@.packets[i as int] == self.packets@[i as int]@);
            }
            if self.packets[i].tx_id == tx_id && row_has_key(&self.packets[i], packet, msg_type_url)
            {
                proof {
                    assert(key_of(self@.packets[i as int]) == k && self@.packets[i as int].tx_id
                        == tx_id as int);
                    assert(has_submission(self@.packets, k, tx_id as int));
                }
                return true;
            }
            proof {
                assert(!(key_of(self@.packets[i as int]) == k && self@.packets[i as int].tx_id
                    == tx_id as int));
            }
            i += 1;
        }
        false
    }

    /// Looks a transaction row up by its identifier.
    pub fn lookup_tx(&self, tx_id: u64) -> (r: Option<TxRow>)
        requires
            self@.wf(),
        ensures
            1 <= tx_id <= self@.txs.len() ==> (r matches Some(row) && row@ == self@.txs[
                tx_id - 1
            ]),
            !(1 <= tx_id <= self@.txs.len()) ==> r is None,
    {
        if tx_id >= 1 && tx_id <= self.txs.len() as u64 {
            Some(self.txs[(tx_id - 1) as usize].clone())
        } else {
            None
        }
    }
}

/// Field-by-field identity comparison of a stored row against a packet and
/// its message type URL.
fn row_has_key(row: &PacketRow, packet: &Packet, msg_type_url: &str) -> (r: bool)
    ensures
        r == (key_of(row@) == packet_key(packet@, msg_type_url@)),
{
    let r = row.sequence == packet.sequence && str_eq(row.src_channel.as_str(), packet.source_channel.as_str())
        && str_eq(row.src_port.as_str(), packet.source_port.as_str()) && str_eq(
        row.dst_channel.as_str(),
        packet.destination_channel.as_str(),
    ) && str_eq(row.dst_port.as_str(), packet.destination_port.as_str()) && str_eq(
        row.msg_type_url.as_str(),
        msg_type_url,
    );
    proof {
        if r {
            assert(key_of(row@) =~= packet_key(packet@, msg_type_url@));
        }
    }
    r
}

proof fn lemma_first_tx_ix_found(txs: Seq<TxRowV>, chain: Seq<char>, hash: Seq<char>, i: int)
    requires
        0 <= i < txs.len(),
        tx_matches(txs[i], chain, hash),
        forall|j: int| 0 <= j < i ==> !tx_matches(txs[j], chain, hash),
    ensures
        first_tx_ix(txs, chain, hash) == Some(i),
{
    lemma_first_tx_ix_from_found(txs, chain, hash, 0, i);
}

proof fn lemma_first_tx_ix_from_found(
    txs: Seq<TxRowV>,
    chain: Seq<char>,
    hash: Seq<char>,
    lo: int,
    i: int,
)
    requires
        0 <= lo <= i < txs.len(),
        tx_matches(txs[i], chain, hash),
        forall|j: int| lo <= j < i ==> !tx_matches(txs[j], chain, hash),
    ensures
        first_tx_ix_from(txs, chain, hash, lo) == Some(i),
    decreases i - lo,
{
    if lo < i {
        lemma_first_tx_ix_from_found(txs, chain, hash, lo + 1, i);
    }
}

proof fn lemma_first_tx_ix_none(txs: Seq<TxRowV>, chain: Seq<char>, hash: Seq<char>)
    requires
        forall|j: int| 0 <= j < txs.len() ==> !tx_matches(txs[j], chain, hash),
    ensures
        first_tx_ix(txs, chain, hash) is None,
{
    lemma_first_tx_ix_from_none(txs, chain, hash, 0);
}

proof fn lemma_first_tx_ix_from_none(
    txs: Seq<TxRowV>,
    chain: Seq<char>,
    hash: Seq<char>,
    lo: int,
)
    requires
        forall|j: int| lo <= j < txs.len() ==> !tx_matches(txs[j], chain, hash),
    ensures
        first_tx_ix_from(txs, chain, hash, lo) is None,
    decreases txs.len() - lo,
{
    if 0 <= lo < txs.len() {
        lemma_first_tx_ix_from_none(txs, chain, hash, lo + 1);
    }
}

/// The store only ever grows: `b` extends `a` row for row.
pub open spec fn store_leq(a: StoreV, b: StoreV) -> bool {
    &&& a.txs.len() <= b.txs.len()
    &&& forall|i: int| 0 <= i < a.txs.len() ==> b.txs[i] == a.txs[i]
    &&& a.packets.len() <= b.packets.len()
    &&& forall|i: int| 0 <= i < a.packets.len() ==> b.packets[i] == a.packets[i]
}

/// What an upsert leaves behind: a well-formed extension whose earliest
/// `(chain, hash)` row is the returned one, with the packets untouched.
pub proof fn lemma_upsert_props(
    s: StoreV,
    chain: Seq<char>,
    height: int,
    hash: Seq<char>,
    memo: Seq<char>,
    now: int,
)
    requires
        s.wf(),
    ensures
        ({
            let (s1, r) = s.spec_upsert_tx(chain, height, hash, memo, now);
            &&& s1.wf()
            &&& store_leq(s, s1)
            &&& s1.packets == s.packets
            &&& tx_matches(r, chain, hash)
            &&& (first_tx_ix(s1.txs, chain, hash) matches Some(f) && s1.txs[f] == r)
            &&& 1 <= r.id <= s1.txs.len()
        }),
{
    lemma_first_tx_ix_props(s.txs, chain, hash, 0);
    let (s1, r) = s.spec_upsert_tx(chain, height, hash, memo, now);
    match first_tx_ix(s.txs, chain, hash) {
        Some(i) => {
            assert(s1 == s && r == s.txs[i]);
        },
        None => {
            let m = s.txs.len() as int;
            assert(s1.txs == s.txs.push(r));
            assert(tx_matches(s1.txs[m], chain, hash));
            assert(forall|j: int| 0 <= j < m ==> !tx_matches(#[trigger] s1.txs[j], chain, hash));
            lemma_first_tx_ix_from_found(s1.txs, chain, hash, 0, m);
            assert forall|a: int, b: int| 0 <= a < b < s1.txs.len() implies !tx_matches(
                s1.txs[a],
                s1.txs[b].chain,
                s1.txs[b].hash,
            ) by {
                if b < m {
                    assert(s1.txs[a] == s.txs[a] && s1.txs[b] == s.txs[b]);
                } else {
                    assert(s1.txs[b] == r);
                    assert(!tx_matches(s.txs[a], chain, hash));
                }
            }
        },
    }
}

/// What a record leaves behind: a well-formed extension with the same
/// transactions, in which the submission pair is present.
pub proof fn lemma_record_props(s: StoreV, k: PacketKeyV, tx_id: int, signer: Seq<char>, now: int)
    requires
        s.wf(),
        1 <= tx_id <= s.txs.len(),
    ensures
        ({
            let s1 = s.spec_record_packet(tx_id, k, signer, now);
            &&& s1.wf()
            &&& store_leq(s, s1)
            &&& s1.txs == s.txs
            &&& has_submission(s1.packets, k, tx_id)
        }),
{
    let s1 = s.spec_record_packet(tx_id, k, signer, now);
    if has_submission(s.packets, k, tx_id) {
        assert(s1 == s);
    } else {
        lemma_record_preserves_wf(s, k, tx_id, signer, now);
        let m = s.packets.len() as int;
        assert(key_of(s1.packets[m]) =~= k);
        assert(s1.packets[m].tx_id == tx_id);
    }
}

/// An earliest match survives any extension of the table.
pub proof fn lemma_first_tx_ix_stable(
    a: Seq<TxRowV>,
    b: Seq<TxRowV>,
    chain: Seq<char>,
    hash: Seq<char>,
)
    requires
        a.len() <= b.len(),
        forall|i: int| 0 <= i < a.len() ==> b[i] == a[i],
        first_tx_ix(a, chain, hash) is Some,
    ensures
        first_tx_ix(b, chain, hash) == first_tx_ix(a, chain, hash),
        0 <= first_tx_ix(a, chain, hash)->0 < a.len(),
        tx_matches(a[first_tx_ix(a, chain, hash)->0], chain, hash),
{
    lemma_first_tx_ix_props(a, chain, hash, 0);
    let f = first_tx_ix(a, chain, hash)->0;
    assert(tx_matches(b[f], chain, hash));
    assert(forall|j: int| 0 <= j < f ==> !tx_matches(#[trigger] b[j], chain, hash));
    lemma_first_tx_ix_from_found(b, chain, hash, 0, f);
}

/// A present identity is found.
pub proof fn lemma_key_present_finds(packets: Seq<PacketRowV>, k: PacketKeyV)
    requires
        exists|i: int| 0 <= i < packets.len() && key_of(#[trigger] packets[i]) == k,
    ensures
        first_packet_ix(packets, k) is Some,
{
    lemma_first_packet_ix_props(packets, k, 0);
    let w = choose|i: int| 0 <= i < packets.len() && key_of(#[trigger] packets[i]) == k;
    if first_packet_ix(packets, k) is None {
        assert(key_of(packets[w]) != k);
    }
}

/// A present submission pair survives any extension of the table.
pub proof fn lemma_has_submission_mono(
    a: Seq<PacketRowV>,
    b: Seq<PacketRowV>,
    k: PacketKeyV,
    tx_id: int,
)
    requires
        a.len() <= b.len(),
        forall|i: int| 0 <= i < a.len() ==> b[i] == a[i],
        has_submission(a, k, tx_id),
    ensures
        has_submission(b, k, tx_id),
{
    let w = choose|i: int| 0 <= i < a.len() && key_of(#[trigger] a[i]) == k && a[i].tx_id == tx_id;
    assert(key_of(b[w]) == k && b[w].tx_id == tx_id);
}

/// Transaction uniqueness: no two rows of a well-formed store share
/// `(chain, hash)`.
pub proof fn lemma_tx_identity_unique(s: StoreV)
    requires
        s.wf(),
    ensures
        forall|i: int, j: int|
            0 <= i < j < s.txs.len() ==> !((#[trigger] s.txs[i]).chain == (
            #[trigger] s.txs[j]).chain && s.txs[i].hash == s.txs[j].hash),
{
    assert forall|i: int, j: int| 0 <= i < j < s.txs.len() implies !((#[trigger] s.txs[i]).chain
        == (#[trigger] s.txs[j]).chain && s.txs[i].hash == s.txs[j].hash) by {
        assert(!tx_matches(s.txs[i], s.txs[j].chain, s.txs[j].hash));
    }
}

/// Submission uniqueness: no two rows of a well-formed store share both
/// the packet identity and the carrying transaction. The identity alone
/// is not unique over all rows — an uneffected duplicate shares it with
/// the effected row — but it is unique among the effected rows, which
/// [`lemma_first_writer_effected`] states.
pub proof fn lemma_submission_unique(s: StoreV)
    requires
        s.wf(),
    ensures
        forall|i: int, j: int|
            0 <= i < j < s.packets.len() ==> !(key_of(#[trigger] s.packets[i]) == key_of(
                #[trigger] s.packets[j],
            ) && s.packets[i].tx_id == s.packets[j].tx_id),
{
}

/// First-writer-wins: for any identity with at least one row, the
/// earliest-inserted row — and only it — has `effected = true`.
pub proof fn lemma_first_writer_effected(s: StoreV, k: PacketKeyV)
    requires
        s.wf(),
        exists|i: int| 0 <= i < s.packets.len() && key_of(#[trigger] s.packets[i]) == k,
    ensures
        first_packet_ix(s.packets, k) matches Some(f) && s.packets[f].effected,
        forall|j: int|
            0 <= j < s.packets.len() && key_of(#[trigger] s.packets[j]) == k && s.packets[j].effected
                ==> first_packet_ix(s.packets, k) == Some(j),
{
    lemma_first_packet_ix_props(s.packets, k, 0);
    let w = choose|i: int| 0 <= i < s.packets.len() && key_of(#[trigger] s.packets[i]) == k;
    match first_packet_ix(s.packets, k) {
        Some(f) => {
            assert(forall|j: int| 0 <= j < f ==> key_of(#[trigger] s.packets[j]) != k);
            assert(s.packets[f].effected);
            assert forall|j: int|
                0 <= j < s.packets.len() && key_of(#[trigger] s.packets[j]) == k
                    && s.packets[j].effected implies first_packet_ix(s.packets, k) == Some(j) by {
                if j != f {
                    assert(f < j);
                    assert(key_of(s.packets[f]) == key_of(s.packets[j]));
                    assert(!s.packets[j].effected);
                }
            }
        },
        None => {
            assert(key_of(s.packets[w]) != k);
        },
    }
}

/// An uneffected row points at the effected row of its identity: its
/// `effected_tx` and `effected_signer` are those of the earlier effected
/// row.
pub proof fn lemma_uneffected_points_at_effected(s: StoreV)
    requires
        s.wf(),
    ensures
        forall|i: int|
            0 <= i < s.packets.len() && !(#[trigger] s.packets[i]).effected ==> (exists|j: int|
                0 <= j < i && key_of(#[trigger] s.packets[j]) == key_of(s.packets[i])
                    && s.packets[j].effected && s.packets[i].effected_tx == Some(
                    s.packets[j].tx_id,
                ) && s.packets[i].effected_signer == Some(s.packets[j].signer)),
{
}

/// Identifier stability: a second upsert of the same `(chain, hash)`
/// returns the same identifier and leaves the store unchanged, whatever
/// the height, memo and timestamp of the retry.
pub proof fn lemma_upsert_id_stable(
    s: StoreV,
    chain: Seq<char>,
    hash: Seq<char>,
    height1: int,
    memo1: Seq<char>,
    now1: int,
    height2: int,
    memo2: Seq<char>,
    now2: int,
)
    requires
        s.wf(),
        upsert_ok(s, chain, hash),
    ensures
        ({
            let (s1, r1) = s.spec_upsert_tx(chain, height1, hash, memo1, now1);
            let (s2, r2) = s1.spec_upsert_tx(chain, height2, hash, memo2, now2);
            r2.id == r1.id && s2 == s1
        }),
{
    lemma_first_tx_ix_props(s.txs, chain, hash, 0);
    let (s1, r1) = s.spec_upsert_tx(chain, height1, hash, memo1, now1);
    match first_tx_ix(s.txs, chain, hash) {
        Some(i) => {
            assert(s1 == s && r1 == s.txs[i]);
        },
        None => {
            let m = s.txs.len() as int;
            assert(s1.txs == s.txs.push(r1));
            assert(tx_matches(s1.txs[m], chain, hash));
            assert(forall|j: int| 0 <= j < m ==> !tx_matches(#[trigger] s1.txs[j], chain, hash));
            lemma_first_tx_ix_from_found(s1.txs, chain, hash, 0, m);
        },
    }
}

/// What `first_tx_ix_from` finds: the earliest match, or a proof that
/// there is none.
proof fn lemma_first_tx_ix_props(txs: Seq<TxRowV>, chain: Seq<char>, hash: Seq<char>, lo: int)
    requires
        0 <= lo <= txs.len(),
    ensures
        match first_tx_ix_from(txs, chain, hash, lo) {
            Some(f) => lo <= f < txs.len() && tx_matches(txs[f], chain, hash) && (forall|j: int|
                lo <= j < f ==> !tx_matches(#[trigger] txs[j], chain, hash)),
            None => forall|j: int| lo <= j < txs.len() ==> !tx_matches(#[trigger] txs[j], chain, hash),
        },
    decreases txs.len() - lo,
{
    if lo < txs.len() && !tx_matches(txs[lo], chain, hash) {
        lemma_first_tx_ix_props(txs, chain, hash, lo + 1);
    }
}

/// A found prior submission is the effected row of its identity: it is
/// the earliest row with the identity, it carries the identity, and its
/// transaction reference is valid.
pub proof fn lemma_find_packet_some(s: StoreV, k: PacketKeyV)
    requires
        s.wf(),
        s.spec_find_packet(k) is Some,
    ensures
        key_of(s.spec_find_packet(k)->0) == k,
        s.spec_find_packet(k)->0.effected,
        1 <= s.spec_find_packet(k)->0.tx_id <= s.txs.len(),
{
    lemma_first_packet_ix_props(s.packets, k, 0);
    let f = first_packet_ix(s.packets, k)->0;
    assert(forall|j: int| 0 <= j < f ==> key_of(#[trigger] s.packets[j]) != k);
    assert(s.packets[f].effected);
}

/// What `first_packet_ix_from` finds: the earliest match, or a proof that
/// there is none.
pub proof fn lemma_first_packet_ix_props(packets: Seq<PacketRowV>, k: PacketKeyV, lo: int)
    requires
        0 <= lo <= packets.len(),
    ensures
        match first_packet_ix_from(packets, k, lo) {
            Some(f) => lo <= f < packets.len() && key_of(packets[f]) == k && (forall|j: int|
                lo <= j < f ==> key_of(#[trigger] packets[j]) != k),
            None => forall|j: int| lo <= j < packets.len() ==> key_of(#[trigger] packets[j]) != k,
        },
    decreases packets.len() - lo,
{
    if lo < packets.len() && !(key_of(packets[lo]) == k) {
        lemma_first_packet_ix_props(packets, k, lo + 1);
    }
}

/// Appending a row that keeps every invariant: the store stays well-formed.
proof fn lemma_record_preserves_wf(pre: StoreV, k: PacketKeyV, tx_id: int, signer: Seq<char>, now: int)
    requires
        pre.wf(),
        !has_submission(pre.packets, k, tx_id),
        1 <= tx_id <= pre.txs.len(),
    ensures
        pre.spec_record_packet(tx_id, k, signer, now).wf(),
{
    let post = pre.spec_record_packet(tx_id, k, signer, now);
    let m = pre.packets.len() as int;
    let row = post.packets[m];
    assert(key_of(row) =~= k);
    lemma_first_packet_ix_props(pre.packets, k, 0);
    assert(forall|i: int| 0 <= i < m ==> post.packets[i] == pre.packets[i]);

    // Pair uniqueness against the new row.
    assert forall|i: int| 0 <= i < m implies !(key_of(#[trigger] post.packets[i]) == k
        && post.packets[i].tx_id == tx_id) by {
        if key_of(post.packets[i]) == k && post.packets[i].tx_id == tx_id {
            assert(has_submission(pre.packets, k, tx_id));
        }
    }

    // The new row's effected flag matches first-writer-wins.
    match first_packet_ix(pre.packets, k) {
        Some(f) => {
            assert(!row.effected);
            assert(pre.packets[f].effected) by {
                assert(forall|j: int| 0 <= j < f ==> key_of(#[trigger] pre.packets[j]) != k);
            }
            assert(exists|j: int|
                0 <= j < m && key_of(#[trigger] post.packets[j]) == key_of(row)
                    && post.packets[j].effected && row.effected_tx == Some(post.packets[j].tx_id)
                    && row.effected_signer == Some(post.packets[j].signer)) by {
                assert(key_of(post.packets[f]) == key_of(row) && post.packets[f].effected
                    && row.effected_tx == Some(post.packets[f].tx_id) && row.effected_signer
                    == Some(post.packets[f].signer));
            }
        },
        None => {
            assert(row.effected);
            assert(forall|j: int| 0 <= j < m ==> key_of(#[trigger] pre.packets[j]) != k);
        },
    }

    // Prefix rows keep their effected characterization and back-pointers.
    assert forall|i: int| 0 <= i < m implies ((#[trigger] post.packets[i]).effected <==> (forall|
        j: int,
    | 0 <= j < i ==> key_of(#[trigger] post.packets[j]) != key_of(post.packets[i]))) by {
        assert(post.packets[i] == pre.packets[i]);
        assert(forall|j: int| 0 <= j < i ==> post.packets[j] == pre.packets[j]);
    }
    assert forall|i: int| 0 <= i < m && !(#[trigger] post.packets[i]).effected implies (exists|
        j: int,
    |
        0 <= j < i && key_of(#[trigger] post.packets[j]) == key_of(post.packets[i])
            && post.packets[j].effected && post.packets[i].effected_tx == Some(
            post.packets[j].tx_id,
        ) && post.packets[i].effected_signer == Some(post.packets[j].signer)) by {
        assert(pre.packets[i] == post.packets[i]);
        let j = choose|j: int|
            0 <= j < i && key_of(#[trigger] pre.packets[j]) == key_of(pre.packets[i])
                && pre.packets[j].effected && pre.packets[i].effected_tx == Some(
                pre.packets[j].tx_id,
            ) && pre.packets[i].effected_signer == Some(pre.packets[j].signer);
        assert(post.packets[j] == pre.packets[j]);
    }
}

proof fn lemma_first_packet_ix_found(packets: Seq<PacketRowV>, k: PacketKeyV, i: int)
    requires
        0 <= i < packets.len(),
        key_of(packets[i]) == k,
        forall|j: int| 0 <= j < i ==> key_of(packets[j]) != k,
    ensures
        first_packet_ix(packets, k) == Some(i),
{
    lemma_first_packet_ix_from_found(packets, k, 0, i);
}

proof fn lemma_first_packet_ix_from_found(
    packets: Seq<PacketRowV>,
    k: PacketKeyV,
    lo: int,
    i: int,
)
    requires
        0 <= lo <= i < packets.len(),
        key_of(packets[i]) == k,
        forall|j: int| lo <= j < i ==> key_of(packets[j]) != k,
    ensures
        first_packet_ix_from(packets, k, lo) == Some(i),
    decreases i - lo,
{
    if lo < i {
        lemma_first_packet_ix_from_found(packets, k, lo + 1, i);
    }
}

proof fn lemma_first_packet_ix_none(packets: Seq<PacketRowV>, k: PacketKeyV)
    requires
        forall|j: int| 0 <= j < packets.len() ==> key_of(packets[j]) != k,
    ensures
        first_packet_ix(packets, k) is None,
{
    lemma_first_packet_ix_from_none(packets, k, 0);
}

proof fn lemma_first_packet_ix_from_none(packets: Seq<PacketRowV>, k: PacketKeyV, lo: int)
    requires
        forall|j: int| lo <= j < packets.len() ==> key_of(packets[j]) != k,
    ensures
        first_packet_ix_from(packets, k, lo) is None,
    decreases packets.len() - lo,
{
    if 0 <= lo < packets.len() {
        lemma_first_packet_ix_from_none(packets, k, lo + 1);
    }
}

} // verus!
