use chainpulse::collect::{
    on_collect_end, Collector, Outcome, StreamDecision, StreamEvent, DISCONNECT_AFTER_BLOCKS,
    NEWBLOCK_TIMEOUT_SECS, RECONNECT_DELAY_SECS,
};
use chainpulse::config::{
    comet_version, comet_version_label, comet_version_parse, populate_on_start, stuck_packets,
    CometVersion,
};
use chainpulse::metrics::{get_metrics, Metrics};
use chainpulse::msg::{AnyMsg, Msg};
use chainpulse::store::Store;

#[test]
fn liveness_rotation() {
    let (mut metrics, _registry) = Metrics::new().unwrap();
    let mut collector = Collector::new();

    let d = collector.on_stream_event(&mut metrics, "osmosis-1", StreamEvent::TimedOut);
    assert_eq!(d, StreamDecision::Rotate(Outcome::Timeout(NEWBLOCK_TIMEOUT_SECS)));
    assert_eq!(metrics.read_timeouts("osmosis-1"), 1);

    let delay = on_collect_end(&mut metrics, "osmosis-1", false);
    assert_eq!(delay, RECONNECT_DELAY_SECS);
    assert_eq!(metrics.read_reconnects("osmosis-1"), 1);
    assert_eq!(metrics.read_errors("osmosis-1"), 0);
}

#[test]
fn failed_connection_counts_an_error() {
    let (mut metrics, _registry) = Metrics::new().unwrap();
    let delay = on_collect_end(&mut metrics, "osmosis-1", true);
    assert_eq!(delay, 5);
    assert_eq!(metrics.read_reconnects("osmosis-1"), 1);
    assert_eq!(metrics.read_errors("osmosis-1"), 1);
}

#[test]
fn rotation_after_block_threshold() {
    let (mut metrics, _registry) = Metrics::new().unwrap();
    let mut collector = Collector::new();
    for n in 1..DISCONNECT_AFTER_BLOCKS {
        let d = collector.on_stream_event(&mut metrics, "osmosis-1", StreamEvent::NewBlock);
        assert_eq!(d, StreamDecision::HandleBlock);
        assert_eq!(collector.count, n);
    }
    let d = collector.on_stream_event(&mut metrics, "osmosis-1", StreamEvent::NewBlock);
    assert_eq!(
        d,
        StreamDecision::HandleBlockAndRotate(Outcome::BlockElapsed(DISCONNECT_AFTER_BLOCKS))
    );
}

#[test]
fn skipped_frames_do_not_count() {
    let (mut metrics, _registry) = Metrics::new().unwrap();
    let mut collector = Collector::new();
    let d = collector.on_stream_event(&mut metrics, "osmosis-1", StreamEvent::SkippedFrame);
    assert_eq!(d, StreamDecision::Continue);
    assert_eq!(collector.count, 0);
}

#[test]
fn comet_version_defaults_and_labels() {
    assert_eq!(comet_version(), CometVersion::V0_34);
    assert!(stuck_packets());
    assert!(!populate_on_start());
    assert_eq!(comet_version_label(CometVersion::V0_34), "0.34");
    assert_eq!(comet_version_label(CometVersion::V0_37), "0.37");
    assert_eq!(comet_version_parse("0.34"), Some(CometVersion::V0_34));
    assert_eq!(comet_version_parse("0.37"), Some(CometVersion::V0_37));
    assert_eq!(comet_version_parse("0.38"), None);
}

#[test]
fn metrics_endpoint_text_lists_families() {
    let (mut metrics, registry) = Metrics::new().unwrap();
    metrics.chainpulse_txs("osmosis-1");
    let text = get_metrics(&registry);
    assert!(text.contains("chainpulse_txs"));
    assert!(text.contains("osmosis-1"));
}

#[test]
fn chains_gauge_counts_collectors() {
    let (mut metrics, _registry) = Metrics::new().unwrap();
    assert_eq!(metrics.read_chains(), 0);
    metrics.chainpulse_chains();
    metrics.chainpulse_chains();
    assert_eq!(metrics.read_chains(), 2);
}

#[test]
fn display_strings_follow_the_variant() {
    let other = Msg::decode(AnyMsg {
        type_url: "/cosmos.bank.v1beta1.MsgSend".to_string(),
        value: vec![],
    })
    .unwrap();
    assert_eq!(other.display_string(), "Unhandled msg: /cosmos.bank.v1beta1.MsgSend");
}

#[test]
fn find_packet_returns_the_earliest_row() {
    let mut store = Store::new();
    let t = store.upsert_tx("osmosis-1", 1, "AA", "m", 1).unwrap();
    let packet = chainpulse::msg::Packet {
        sequence: 4,
        source_port: "transfer".to_string(),
        source_channel: "channel-0".to_string(),
        destination_port: "transfer".to_string(),
        destination_channel: "channel-1".to_string(),
    };
    let url = "/ibc.core.channel.v1.MsgRecvPacket";
    assert!(store.find_packet(&packet, url).is_none());
    let prior = store.find_packet(&packet, url);
    store.record_packet(t.id, &packet, url, "A", &prior, 2).unwrap();
    let found = store.find_packet(&packet, url).unwrap();
    assert!(found.effected);
    assert_eq!(found.signer, "A");

    // A second transaction records an uneffected duplicate; the lookup
    // still returns the effected row.
    let t2 = store.upsert_tx("osmosis-1", 2, "BB", "m", 3).unwrap();
    let prior2 = store.find_packet(&packet, url);
    store.record_packet(t2.id, &packet, url, "B", &prior2, 4).unwrap();
    let found2 = store.find_packet(&packet, url).unwrap();
    assert!(found2.effected);
    assert_eq!(found2.signer, "A");
    assert_eq!(store.packet_rows().len(), 2);

    assert_eq!(store.lookup_tx(t.id).unwrap().hash, "AA");
    assert!(store.lookup_tx(99).is_none());
}

#[test]
fn populate_replays_stored_rows() {
    let (mut metrics, _registry) = Metrics::new().unwrap();
    let mut store = Store::new();
    let t1 = store.upsert_tx("osmosis-1", 1, "AA", "alice", 1).unwrap();
    let t2 = store.upsert_tx("osmosis-1", 2, "BB", "bob", 2).unwrap();
    let packet = chainpulse::msg::Packet {
        sequence: 7,
        source_port: "transfer".to_string(),
        source_channel: "channel-0".to_string(),
        destination_port: "transfer".to_string(),
        destination_channel: "channel-1".to_string(),
    };
    let url = "/ibc.core.channel.v1.MsgRecvPacket";
    let prior = store.find_packet(&packet, url);
    store.record_packet(t1.id, &packet, url, "A", &prior, 3).unwrap();
    let prior2 = store.find_packet(&packet, url);
    store.record_packet(t2.id, &packet, url, "B", &prior2, 4).unwrap();

    chainpulse::populate::run("osmosis-1", &store, &mut metrics);

    assert_eq!(metrics.read_packets("osmosis-1"), 2);
    assert_eq!(metrics.read_txs("osmosis-1"), 2);
    assert_eq!(
        metrics.read_effected(
            "osmosis-1",
            "channel-0",
            "transfer",
            "channel-1",
            "transfer",
            "A",
            "alice"
        ),
        1
    );
    assert_eq!(
        metrics.read_uneffected(
            "osmosis-1",
            "channel-0",
            "transfer",
            "channel-1",
            "transfer",
            "B",
            "bob"
        ),
        1
    );
    assert_eq!(
        metrics.read_frontruns(
            "osmosis-1",
            "channel-0",
            "transfer",
            "channel-1",
            "transfer",
            "B",
            "A",
            "bob",
            "alice"
        ),
        1
    );

    // Rows of other chains are left out.
    chainpulse::populate::run("juno-1", &store, &mut metrics);
    assert_eq!(metrics.read_packets("juno-1"), 0);
}
