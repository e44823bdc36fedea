use chainpulse::status::{
    parse_desc, record_stuck, stuck_channels, ChannelStatus, DescError, IbcStatus, Status,
};

fn status_with_queue(size_queue: i64) -> Status {
    Status {
        name: String::from("transfer"),
        token_name: String::from("uatom"),
        last_tx: String::from("yesterday"),
        counter: 1,
        size_queue,
        is_trigger: false,
    }
}

#[test]
fn test_parse_desc1() {
    let desc = "iov-mainnet-ibc [channel-2] --> osmosis-1";
    let (src_chain, src_channel, dst_chain) = parse_desc(desc).unwrap();
    assert_eq!(src_chain, "iov-mainnet-ibc");
    assert_eq!(src_channel, "channel-2");
    assert_eq!(dst_chain, "osmosis-1");
}

#[test]
fn test_parse_desc2() {
    let desc = "osmosis-1 [channel-169] --> neta (juno-1)";
    let (src_chain, src_channel, dst_chain) = parse_desc(desc).unwrap();
    assert_eq!(src_chain, "osmosis-1");
    assert_eq!(src_channel, "channel-169");
    assert_eq!(dst_chain, "juno-1");
}

#[test]
fn test_parse_desc3() {
    let desc = "foobar (osmosis-1) [channel-169] --> juno-1";
    let (src_chain, src_channel, dst_chain) = parse_desc(desc).unwrap();
    assert_eq!(src_chain, "osmosis-1");
    assert_eq!(src_channel, "channel-169");
    assert_eq!(dst_chain, "juno-1");
}

#[test]
fn test_parse_desc4() {
    let desc = "foobar (osmosis-1) [channel-169] --> neta (juno-1)";
    let (src_chain, src_channel, dst_chain) = parse_desc(desc).unwrap();
    assert_eq!(src_chain, "osmosis-1");
    assert_eq!(src_channel, "channel-169");
    assert_eq!(dst_chain, "juno-1");
}

#[test]
fn test_parse_desc_missing_arrow() {
    assert_eq!(parse_desc("osmosis-1 [channel-0]"), Err(DescError::MissingArrow));
}

#[test]
fn test_parse_desc_missing_source_chain() {
    assert_eq!(parse_desc("  --> juno-1"), Err(DescError::MissingSourceChain));
}

#[test]
fn test_parse_desc_missing_source_channel() {
    assert_eq!(parse_desc("osmosis-1 --> juno-1"), Err(DescError::MissingSourceChannel));
}

#[test]
fn test_parse_desc_missing_destination_chain() {
    assert_eq!(
        parse_desc("osmosis-1 [channel-0] -->  "),
        Err(DescError::MissingDestinationChain)
    );
}

#[test]
fn test_from_desc_builds_channel() {
    let c = ChannelStatus::from_desc(
        "osmosis-1 [channel-141] --> cosmoshub-4",
        status_with_queue(7),
    )
    .unwrap();
    assert_eq!(c.src_chain, "osmosis-1");
    assert_eq!(c.dst_chain, "cosmoshub-4");
    assert_eq!(c.src_channel, "channel-141");
    assert_eq!(c.status.size_queue, 7);
}

#[test]
fn test_by_chain_filters_both_endpoints() {
    let a = ChannelStatus::from_desc("osmosis-1 [channel-0] --> juno-1", status_with_queue(1))
        .unwrap();
    let b = ChannelStatus::from_desc("cosmoshub-4 [channel-141] --> osmosis-1", status_with_queue(2))
        .unwrap();
    let c = ChannelStatus::from_desc("akash-1 [channel-9] --> juno-1", status_with_queue(3))
        .unwrap();
    let report = IbcStatus(vec![a, b, c]);
    let picked = report.by_chain("osmosis-1");
    assert_eq!(picked.len(), 2);
    assert_eq!(picked[0].src_chain, "osmosis-1");
    assert_eq!(picked[1].dst_chain, "osmosis-1");
    assert_eq!(report.channels().len(), 3);
}

#[test]
fn test_stuck_channels_sorted_descending() {
    let a = ChannelStatus::from_desc("osmosis-1 [channel-0] --> juno-1", status_with_queue(2))
        .unwrap();
    let b = ChannelStatus::from_desc("cosmoshub-4 [channel-141] --> osmosis-1", status_with_queue(9))
        .unwrap();
    let empty = ChannelStatus::from_desc("osmosis-1 [channel-5] --> akash-1", status_with_queue(0))
        .unwrap();
    let report = IbcStatus(vec![a, b, empty]);
    let chains = vec![String::from("osmosis-1")];
    let stuck = stuck_channels(&report, &chains);
    assert_eq!(stuck.len(), 2);
    assert_eq!(stuck[0].status.size_queue, 9);
    assert_eq!(stuck[1].status.size_queue, 2);
}

#[test]
fn test_stuck_channel_seen_once_per_watched_chain() {
    let a = ChannelStatus::from_desc("osmosis-1 [channel-0] --> juno-1", status_with_queue(4))
        .unwrap();
    let report = IbcStatus(vec![a]);
    let chains = vec![String::from("osmosis-1"), String::from("juno-1")];
    let stuck = stuck_channels(&report, &chains);
    assert_eq!(stuck.len(), 2);
}

#[test]
fn test_record_stuck_sets_gauge() {
    let (mut metrics, _registry) = chainpulse::metrics::Metrics::new().unwrap();
    let a = ChannelStatus::from_desc("osmosis-1 [channel-0] --> juno-1", status_with_queue(11))
        .unwrap();
    record_stuck(&mut metrics, &vec![a]);
    assert_eq!(metrics.read_stuck("osmosis-1", "juno-1", "channel-0"), 11);
}
