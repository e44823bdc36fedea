use chainpulse::collect::{on_new_block, BlockError};
use chainpulse::metrics::Metrics;
use chainpulse::msg::{AnyMsg, Msg};
use chainpulse::store::Store;
use ibc_proto::cosmos::tx::v1beta1::{Tx, TxBody};
use ibc_proto::google::protobuf::Any;

fn encode<M: prost::Message>(m: &M) -> Vec<u8> {
    prost::Message::encode_to_vec(m)
}

const RECV_URL: &str = "/ibc.core.channel.v1.MsgRecvPacket";
const ACK_URL: &str = "/ibc.core.channel.v1.MsgAcknowledgement";

fn packet(seq: u64) -> ibc_proto::ibc::core::channel::v1::Packet {
    ibc_proto::ibc::core::channel::v1::Packet {
        sequence: seq,
        source_port: "transfer".to_string(),
        source_channel: "channel-0".to_string(),
        destination_port: "transfer".to_string(),
        destination_channel: "channel-141".to_string(),
        ..Default::default()
    }
}

fn recv_msg(seq: u64, signer: &str) -> Any {
    let msg = ibc_proto::ibc::core::channel::v1::MsgRecvPacket {
        packet: Some(packet(seq)),
        signer: signer.to_string(),
        ..Default::default()
    };
    Any { type_url: RECV_URL.to_string(), value: encode(&msg) }
}

fn ack_msg(seq: u64, signer: &str) -> Any {
    let msg = ibc_proto::ibc::core::channel::v1::MsgAcknowledgement {
        packet: Some(packet(seq)),
        signer: signer.to_string(),
        ..Default::default()
    };
    Any { type_url: ACK_URL.to_string(), value: encode(&msg) }
}

fn tx_bytes(memo: &str, msgs: Vec<Any>) -> Vec<u8> {
    let body = TxBody { messages: msgs, memo: memo.to_string(), ..Default::default() };
    let tx = Tx { body: Some(body), ..Default::default() };
    encode(&tx)
}

fn fresh() -> (Store, Metrics) {
    let (metrics, _registry) = Metrics::new().unwrap();
    (Store::new(), metrics)
}

#[test]
fn single_relayer_success() {
    let (mut store, mut metrics) = fresh();
    let t1 = tx_bytes("alice", vec![recv_msg(42, "A")]);
    on_new_block(&mut store, &mut metrics, "osmosis-1", 100, &vec![t1], 1).unwrap();

    assert_eq!(store.tx_rows().len(), 1);
    let rows = store.packet_rows();
    assert_eq!(rows.len(), 1);
    assert!(rows[0].effected);
    assert_eq!(rows[0].effected_tx, None);
    assert_eq!(rows[0].effected_signer, None);
    assert_eq!(rows[0].sequence, 42);
    assert_eq!(rows[0].msg_type_url, RECV_URL);
    assert_eq!(
        metrics.read_effected(
            "osmosis-1",
            "channel-0",
            "transfer",
            "channel-141",
            "transfer",
            "A",
            "alice"
        ),
        1
    );
    assert_eq!(metrics.read_txs("osmosis-1"), 1);
    assert_eq!(metrics.read_packets("osmosis-1"), 1);
}

#[test]
fn same_block_frontrun() {
    let (mut store, mut metrics) = fresh();
    let t2 = tx_bytes("alice", vec![recv_msg(43, "A")]);
    let t3 = tx_bytes("bob", vec![recv_msg(43, "B")]);
    on_new_block(&mut store, &mut metrics, "osmosis-1", 101, &vec![t2, t3], 2).unwrap();

    assert_eq!(
        metrics.read_effected(
            "osmosis-1",
            "channel-0",
            "transfer",
            "channel-141",
            "transfer",
            "A",
            "alice"
        ),
        1
    );
    assert_eq!(
        metrics.read_uneffected(
            "osmosis-1",
            "channel-0",
            "transfer",
            "channel-141",
            "transfer",
            "B",
            "bob"
        ),
        1
    );
    assert_eq!(
        metrics.read_frontruns(
            "osmosis-1",
            "channel-0",
            "transfer",
            "channel-141",
            "transfer",
            "B",
            "A",
            "bob",
            "alice"
        ),
        1
    );
    let rows = store.packet_rows();
    assert_eq!(rows.len(), 2);
    assert!(rows[0].effected);
    assert!(!rows[1].effected);
    assert_eq!(rows[1].effected_signer.as_deref(), Some("A"));
    assert_eq!(rows[1].effected_tx, Some(rows[0].tx_id));
}

#[test]
fn cross_block_frontrun() {
    let (mut store, mut metrics) = fresh();
    let ta = tx_bytes("alice", vec![recv_msg(77, "A")]);
    on_new_block(&mut store, &mut metrics, "osmosis-1", 200, &vec![ta], 3).unwrap();
    let effected_tx_id = store.packet_rows()[0].tx_id;

    let tc = tx_bytes("carol", vec![recv_msg(77, "C")]);
    on_new_block(&mut store, &mut metrics, "osmosis-1", 201, &vec![tc], 4).unwrap();

    let rows = store.packet_rows();
    assert_eq!(rows.len(), 2);
    assert!(!rows[1].effected);
    assert_eq!(rows[1].effected_tx, Some(effected_tx_id));
    assert_eq!(rows[1].effected_signer.as_deref(), Some("A"));
    assert_eq!(
        metrics.read_frontruns(
            "osmosis-1",
            "channel-0",
            "transfer",
            "channel-141",
            "transfer",
            "C",
            "A",
            "carol",
            "alice"
        ),
        1
    );
}

#[test]
fn replay_after_crash() {
    let (mut store, mut metrics) = fresh();
    let t2 = tx_bytes("alice", vec![recv_msg(43, "A")]);
    let t3 = tx_bytes("bob", vec![recv_msg(43, "B")]);
    let block = vec![t2, t3];
    on_new_block(&mut store, &mut metrics, "osmosis-1", 101, &block, 5).unwrap();
    let txs_before = store.tx_rows().len();
    let packets_before = store.packet_rows().len();
    let effected_before = metrics.read_effected(
        "osmosis-1",
        "channel-0",
        "transfer",
        "channel-141",
        "transfer",
        "A",
        "alice",
    );
    let uneffected_before = metrics.read_uneffected(
        "osmosis-1",
        "channel-0",
        "transfer",
        "channel-141",
        "transfer",
        "B",
        "bob",
    );
    let frontruns_before = metrics.read_frontruns(
        "osmosis-1",
        "channel-0",
        "transfer",
        "channel-141",
        "transfer",
        "B",
        "A",
        "bob",
        "alice",
    );
    let packet_count_before = metrics.read_packets("osmosis-1");

    on_new_block(&mut store, &mut metrics, "osmosis-1", 101, &block, 6).unwrap();

    assert_eq!(store.tx_rows().len(), txs_before);
    assert_eq!(store.packet_rows().len(), packets_before);
    assert_eq!(
        metrics.read_effected(
            "osmosis-1",
            "channel-0",
            "transfer",
            "channel-141",
            "transfer",
            "A",
            "alice"
        ),
        effected_before
    );
    assert_eq!(
        metrics.read_uneffected(
            "osmosis-1",
            "channel-0",
            "transfer",
            "channel-141",
            "transfer",
            "B",
            "bob"
        ),
        uneffected_before
    );
    assert_eq!(
        metrics.read_frontruns(
            "osmosis-1",
            "channel-0",
            "transfer",
            "channel-141",
            "transfer",
            "B",
            "A",
            "bob",
            "alice"
        ),
        frontruns_before
    );
    assert_eq!(metrics.read_packets("osmosis-1"), packet_count_before);
}

#[test]
fn ack_and_recv_at_same_sequence() {
    let (mut store, mut metrics) = fresh();
    let t = tx_bytes("alice", vec![recv_msg(9, "A"), ack_msg(9, "A")]);
    on_new_block(&mut store, &mut metrics, "osmosis-1", 300, &vec![t], 7).unwrap();

    let rows = store.packet_rows();
    assert_eq!(rows.len(), 2);
    assert!(rows[0].effected);
    assert!(rows[1].effected);
    assert_eq!(rows[0].msg_type_url, RECV_URL);
    assert_eq!(rows[1].msg_type_url, ACK_URL);
}

#[test]
fn empty_block_inserts_nothing() {
    let (mut store, mut metrics) = fresh();
    on_new_block(&mut store, &mut metrics, "osmosis-1", 1, &vec![], 8).unwrap();
    assert_eq!(store.tx_rows().len(), 0);
    assert_eq!(store.packet_rows().len(), 0);
    assert_eq!(metrics.read_txs("osmosis-1"), 0);
}

#[test]
fn tx_without_messages_inserts_tx_row_only() {
    let (mut store, mut metrics) = fresh();
    let t = tx_bytes("quiet", vec![]);
    on_new_block(&mut store, &mut metrics, "osmosis-1", 2, &vec![t], 9).unwrap();
    assert_eq!(store.tx_rows().len(), 1);
    assert_eq!(store.tx_rows()[0].memo, "quiet");
    assert_eq!(store.packet_rows().len(), 0);
    assert_eq!(metrics.read_txs("osmosis-1"), 1);
}

#[test]
fn unknown_type_url_is_ignored() {
    let (mut store, mut metrics) = fresh();
    let other = Any { type_url: "/cosmos.bank.v1beta1.MsgSend".to_string(), value: vec![1, 2] };
    let t = tx_bytes("bank", vec![other]);
    on_new_block(&mut store, &mut metrics, "osmosis-1", 3, &vec![t], 10).unwrap();
    assert_eq!(store.packet_rows().len(), 0);
}

#[test]
fn undecodable_known_url_is_skipped_silently() {
    let (mut store, mut metrics) = fresh();
    let broken = Any { type_url: RECV_URL.to_string(), value: vec![0xff, 0xff, 0xff, 0xff] };
    let t = tx_bytes("broken", vec![broken]);
    // A message that fails to decode is skipped without failing the block.
    on_new_block(&mut store, &mut metrics, "osmosis-1", 4, &vec![t], 11).unwrap();
    assert_eq!(store.packet_rows().len(), 0);
}

#[test]
fn missing_body_is_a_block_error_after_the_tx_row() {
    let (mut store, mut metrics) = fresh();
    let tx = Tx::default();
    let bytes = encode(&tx);
    let r = on_new_block(&mut store, &mut metrics, "osmosis-1", 5, &vec![bytes], 12);
    assert_eq!(r, Err(BlockError::MissingBody));
    // The transaction row was persisted before the failure; its hash is
    // the uppercase hex SHA-256 of the (empty) raw bytes.
    assert_eq!(store.tx_rows().len(), 1);
    assert_eq!(
        store.tx_rows()[0].hash,
        "E3B0C44298FC1C149AFBF4C8996FB92427AE41E4649B934CA495991B7852B855"
    );
}

#[test]
fn timeout_message_without_packet_is_skipped() {
    let (mut store, mut metrics) = fresh();
    let msg = ibc_proto::ibc::core::channel::v1::MsgTimeout {
        packet: None,
        signer: "A".to_string(),
        ..Default::default()
    };
    let any = Any {
        type_url: "/ibc.core.channel.v1.MsgTimeout".to_string(),
        value: encode(&msg),
    };
    let t = tx_bytes("late", vec![any]);
    on_new_block(&mut store, &mut metrics, "osmosis-1", 6, &vec![t], 13).unwrap();
    assert_eq!(store.packet_rows().len(), 0);
    // A relevant message without a packet is skipped before any counter.
    assert_eq!(metrics.read_packets("osmosis-1"), 0);
}

#[test]
fn decode_classifies_by_exact_url() {
    let any = recv_msg(5, "signer-a");
    let decoded = Msg::decode(AnyMsg { type_url: any.type_url, value: any.value }).unwrap();
    assert!(decoded.is_ibc());
    assert!(decoded.is_relevant());
    let p = decoded.packet().unwrap();
    assert_eq!(p.sequence, 5);
    assert_eq!(p.source_channel, "channel-0");
    assert_eq!(p.destination_channel, "channel-141");
    assert_eq!(decoded.signer(), Some("signer-a"));
    assert_eq!(decoded.display_string(), "RecvPacket: channel-0 -> channel-141");
}

#[test]
fn decode_other_is_ibc_only_with_ibc_prefix() {
    let other = Msg::decode(AnyMsg {
        type_url: "/ibc.core.client.v1.MsgSubmitMisbehaviour".to_string(),
        value: vec![],
    })
    .unwrap();
    assert!(other.is_ibc());
    assert!(!other.is_relevant());
    assert_eq!(other.signer(), None);
    let outside = Msg::decode(AnyMsg {
        type_url: "/cosmos.bank.v1beta1.MsgSend".to_string(),
        value: vec![],
    })
    .unwrap();
    assert!(!outside.is_ibc());
}

#[test]
fn decode_malformed_known_url_is_an_error() {
    let r = Msg::decode(AnyMsg {
        type_url: RECV_URL.to_string(),
        value: vec![0xff, 0xff, 0xff, 0xff],
    });
    assert!(r.is_err());
}

#[test]
fn decode_client_messages() {
    let create = ibc_proto::ibc::core::client::v1::MsgCreateClient {
        signer: "maker".to_string(),
        ..Default::default()
    };
    let m = Msg::decode(AnyMsg {
        type_url: "/ibc.core.client.v1.MsgCreateClient".to_string(),
        value: encode(&create),
    })
    .unwrap();
    assert!(m.is_ibc());
    assert!(!m.is_relevant());
    assert_eq!(m.signer(), Some("maker"));
    assert_eq!(m.display_string(), "CreateClient");

    let update = ibc_proto::ibc::core::client::v1::MsgUpdateClient {
        client_id: "07-tendermint-0".to_string(),
        signer: "updater".to_string(),
        ..Default::default()
    };
    let m = Msg::decode(AnyMsg {
        type_url: "/ibc.core.client.v1.MsgUpdateClient".to_string(),
        value: encode(&update),
    })
    .unwrap();
    assert_eq!(m.signer(), Some("updater"));
    assert_eq!(m.display_string(), "UpdateClient: 07-tendermint-0");
}

#[test]
fn decode_handshake_messages() {
    let init = ibc_proto::ibc::core::channel::v1::MsgChannelOpenInit {
        port_id: "transfer".to_string(),
        signer: "opener".to_string(),
        ..Default::default()
    };
    let m = Msg::decode(AnyMsg {
        type_url: "/ibc.core.channel.v1.MsgChannelOpenInit".to_string(),
        value: encode(&init),
    })
    .unwrap();
    assert_eq!(m.signer(), Some("opener"));
    assert_eq!(m.display_string(), "ChanOpenInit: transfer");

    #[allow(deprecated)]
    let try_open = ibc_proto::ibc::core::channel::v1::MsgChannelOpenTry {
        port_id: "transfer".to_string(),
        signer: "trier".to_string(),
        ..Default::default()
    };
    let m = Msg::decode(AnyMsg {
        type_url: "/ibc.core.channel.v1.MsgChannelOpenTry".to_string(),
        value: encode(&try_open),
    })
    .unwrap();
    assert_eq!(m.display_string(), "ChanOpenTry: transfer");

    let ack = ibc_proto::ibc::core::channel::v1::MsgChannelOpenAck {
        port_id: "transfer".to_string(),
        channel_id: "channel-3".to_string(),
        signer: "acker".to_string(),
        ..Default::default()
    };
    let m = Msg::decode(AnyMsg {
        type_url: "/ibc.core.channel.v1.MsgChannelOpenAck".to_string(),
        value: encode(&ack),
    })
    .unwrap();
    assert_eq!(m.display_string(), "ChanOpenAck: channel-3/transfer");

    let confirm = ibc_proto::ibc::core::channel::v1::MsgChannelOpenConfirm {
        port_id: "transfer".to_string(),
        channel_id: "channel-4".to_string(),
        signer: "confirmer".to_string(),
        ..Default::default()
    };
    let m = Msg::decode(AnyMsg {
        type_url: "/ibc.core.channel.v1.MsgChannelOpenConfirm".to_string(),
        value: encode(&confirm),
    })
    .unwrap();
    assert_eq!(m.display_string(), "ChanOpenConfirm: channel-4/transfer");
}

#[test]
fn decode_transfer_message() {
    let transfer = ibc_proto::ibc::apps::transfer::v1::MsgTransfer {
        source_port: "transfer".to_string(),
        source_channel: "channel-0".to_string(),
        sender: "sender".to_string(),
        ..Default::default()
    };
    let m = Msg::decode(AnyMsg {
        type_url: "/ibc.applications.transfer.v1.MsgTransfer".to_string(),
        value: encode(&transfer),
    })
    .unwrap();
    assert!(m.is_ibc());
    assert!(!m.is_relevant());
    assert_eq!(m.signer(), None);
    assert_eq!(m.display_string(), "Transfer: channel-0/transfer");
}

#[test]
fn upsert_tx_reuses_the_row() {
    let mut store = Store::new();
    let a = store.upsert_tx("osmosis-1", 10, "AABB", "m1", 1).unwrap();
    let b = store.upsert_tx("osmosis-1", 10, "AABB", "m2", 2).unwrap();
    let c = store.upsert_tx("osmosis-1", 10, "CCDD", "m3", 3).unwrap();
    assert_eq!(a.id, b.id);
    assert_eq!(b.memo, "m1");
    assert_ne!(a.id, c.id);
    assert_eq!(store.tx_rows().len(), 2);
}
