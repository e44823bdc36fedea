//! The metrics registry: Prometheus counter and gauge families, with a
//! mathematical model of each family as a map from member keys to the
//! member's current value.
//!
//! The Prometheus types are held behind opaque handles. A family keys its
//! members by hashing the label values' characters written back-to-back
//! with no separator, and looks members up by that hash alone; the model
//! therefore keys a family's entries by that concatenation — two label
//! tuples whose concatenations agree share one member. Each family also
//! carries the label names it was created with; a lookup with a different
//! number of values fails.

use prometheus::Encoder;
use vstd::prelude::*;

verus! {

/// A registered family of monotonic integer counters, one member per
/// distinct concatenation of label values. Backed by prometheus's
/// `IntCounterVec`.
#[verifier::external_body]
pub struct CounterVec {
    v: prometheus::IntCounterVec,
}

/// A registered family of integer gauges, one member per distinct
/// concatenation of label values. Backed by prometheus's `IntGaugeVec`.
#[verifier::external_body]
pub struct GaugeVec {
    v: prometheus::IntGaugeVec,
}

/// The collector registry behind the `/metrics` endpoint. Backed by
/// prometheus's `Registry`.
#[verifier::external_body]
pub struct MetricsRegistry {
    r: prometheus::Registry,
}

/// The member key a tuple of label values selects: the values written
/// back-to-back, exactly the characters the family hashes.
pub open spec fn label_key(l: Seq<Seq<char>>) -> Seq<char>
    decreases l.len(),
{
    if l.len() == 0 {
        Seq::empty()
    } else {
        l.first() + label_key(l.drop_first())
    }
}

/// The initialized members of a counter family, keyed by member key.
pub uninterp spec fn counter_entries(c: CounterVec) -> Map<Seq<char>, nat>;

/// The variable label names a counter family was created with.
pub uninterp spec fn counter_label_names(c: CounterVec) -> Seq<Seq<char>>;

/// The initialized members of a gauge family, keyed by member key.
pub uninterp spec fn gauge_entries(g: GaugeVec) -> Map<Seq<char>, int>;

/// The variable label names a gauge family was created with.
pub uninterp spec fn gauge_label_names(g: GaugeVec) -> Seq<Seq<char>>;

/// The names of the families registered in a registry.
pub uninterp spec fn registry_families(r: MetricsRegistry) -> Set<Seq<char>>;

/// The number of variable labels a counter family was created with.
pub open spec fn counter_arity(c: CounterVec) -> nat {
    counter_label_names(c).len()
}

/// The number of variable labels a gauge family was created with.
pub open spec fn gauge_arity(g: GaugeVec) -> nat {
    gauge_label_names(g).len()
}

/// A counter family's value at a label tuple; an uninitialized member
/// reads as zero.
pub open spec fn cval(c: CounterVec, l: Seq<Seq<char>>) -> nat {
    if counter_entries(c).contains_key(label_key(l)) {
        counter_entries(c)[label_key(l)]
    } else {
        0
    }
}

/// A gauge family's value at a label tuple; an uninitialized member reads
/// as zero.
pub open spec fn gval(g: GaugeVec, l: Seq<Seq<char>>) -> int {
    if gauge_entries(g).contains_key(label_key(l)) {
        gauge_entries(g)[label_key(l)]
    } else {
        0
    }
}

/// The view of a tuple of label values.
pub open spec fn labels_view(s: Seq<&str>) -> Seq<Seq<char>> {
    Seq::new(s.len(), |i: int| s[i]@)
}

/// A character a label name may start with: ASCII letters and `_`.
pub open spec fn is_label_start(c: char) -> bool {
    ('a' <= c && c <= 'z') || ('A' <= c && c <= 'Z') || c == '_'
}

/// A character a metric name may start with: label characters and `:`.
pub open spec fn is_name_start(c: char) -> bool {
    is_label_start(c) || c == ':'
}

/// An ASCII digit.
pub open spec fn is_digit(c: char) -> bool {
    '0' <= c && c <= '9'
}

/// A label name the registry accepts: non-empty, starting with a letter
/// or `_`, continuing with letters, `_` and digits.
pub open spec fn valid_label_name(s: Seq<char>) -> bool {
    &&& s.len() > 0
    &&& is_label_start(s[0])
    &&& forall|i: int| 1 <= i < s.len() ==> is_label_start(#[trigger] s[i]) || is_digit(s[i])
}

/// A metric name the registry accepts: as a label name, with `:` also
/// allowed.
pub open spec fn valid_metric_name(s: Seq<char>) -> bool {
    &&& s.len() > 0
    &&& is_name_start(s[0])
    &&& forall|i: int| 1 <= i < s.len() ==> is_name_start(#[trigger] s[i]) || is_digit(s[i])
}

/// A family description the registry accepts: a valid metric name, a
/// non-empty help string, and distinct valid label names.
pub open spec fn valid_family(name: Seq<char>, help: Seq<char>, labels: Seq<Seq<char>>) -> bool {
    &&& valid_metric_name(name)
    &&& help.len() > 0
    &&& forall|j: int| 0 <= j < labels.len() ==> valid_label_name(#[trigger] labels[j])
    &&& forall|j: int, k: int| 0 <= j < k < labels.len() ==> labels[j] != labels[k]
}

/// Relies on prometheus's `Registry::new`: a fresh registry with no
/// family registered.
#[verifier::external_body]
fn new_registry() -> (r: MetricsRegistry)
    ensures
        registry_families(r) == Set::<Seq<char>>::empty(),
{
    MetricsRegistry { r: prometheus::Registry::new() }
}

/// Relies on prometheus's `IntCounterVec::new` and `Registry::register`:
/// a family with an accepted description whose name is not yet registered
/// is created fresh — no member initialized, the given variable labels —
/// and added to the registry; on refusal the registry is unchanged.
/// Registered names are compared through the registry's descriptor
/// hashing.
#[verifier::external_body]
fn new_counter_vec(reg: &mut MetricsRegistry, name: &str, help: &str, labels: &Vec<&str>) -> (r: Option<CounterVec>)
    ensures
        match r {
            Some(c) => counter_label_names(c) == labels_view(labels@) && counter_entries(c)
                == Map::<Seq<char>, nat>::empty() && registry_families(*final(reg))
                == registry_families(*old(reg)).insert(name@),
            None => *final(reg) == *old(reg) && !(valid_family(
                name@,
                help@,
                labels_view(labels@),
            ) && !registry_families(*old(reg)).contains(name@)),
        },
{
    let opts = prometheus::Opts::new(name, help);
    match prometheus::IntCounterVec::new(opts, labels.as_slice()) {
        Ok(v) => match reg.r.register(Box::new(v.clone())) {
            Ok(()) => Some(CounterVec { v }),
            Err(_) => None,
        },
        Err(_) => None,
    }
}

/// Relies on prometheus's `IntGaugeVec::new` and `Registry::register`:
/// as for the counter families.
#[verifier::external_body]
fn new_gauge_vec(reg: &mut MetricsRegistry, name: &str, help: &str, labels: &Vec<&str>) -> (r: Option<GaugeVec>)
    ensures
        match r {
            Some(g) => gauge_label_names(g) == labels_view(labels@) && gauge_entries(g) == Map::<
                Seq<char>,
                int,
            >::empty() && registry_families(*final(reg)) == registry_families(*old(reg)).insert(
                name@,
            ),
            None => *final(reg) == *old(reg) && !(valid_family(
                name@,
                help@,
                labels_view(labels@),
            ) && !registry_families(*old(reg)).contains(name@)),
        },
{
    let opts = prometheus::Opts::new(name, help);
    match prometheus::IntGaugeVec::new(opts, labels.as_slice()) {
        Ok(v) => match reg.r.register(Box::new(v.clone())) {
            Ok(()) => Some(GaugeVec { v }),
            Err(_) => None,
        },
        Err(_) => None,
    }
}

/// Relies on prometheus's `MetricVec::with_label_values` and
/// `GenericCounter::inc`: the member keyed by the labels' concatenation —
/// created at zero if absent — grows by one, and nothing else changes.
#[verifier::external_body]
fn counter_inc(c: &mut CounterVec, labels: &Vec<&str>)
    requires
        labels@.len() == counter_arity(*old(c)),
    ensures
        counter_label_names(*final(c)) == counter_label_names(*old(c)),
        counter_entries(*final(c)) == counter_entries(*old(c)).insert(
            label_key(labels_view(labels@)),
            cval(*old(c), labels_view(labels@)) + 1,
        ),
{
    c.v.with_label_values(labels.as_slice()).inc();
}

/// Relies on prometheus's `MetricVec::get_metric_with_label_values` and
/// `GenericCounter::get`: the current value of the member keyed by the
/// labels' concatenation.
#[verifier::external_body]
fn counter_get(c: &CounterVec, labels: &Vec<&str>) -> (r: u64)
    requires
        labels@.len() == counter_arity(*c),
    ensures
        cval(*c, labels_view(labels@)) <= u64::MAX ==> r == cval(*c, labels_view(labels@)),
{
    match c.v.get_metric_with_label_values(labels.as_slice()) {
        Ok(m) => m.get(),
        Err(_) => 0,
    }
}

/// Relies on prometheus's `MetricVec::with_label_values` and
/// `GenericGauge::inc`: the member keyed by the labels' concatenation
/// grows by one.
#[verifier::external_body]
fn gauge_inc(g: &mut GaugeVec, labels: &Vec<&str>)
    requires
        labels@.len() == gauge_arity(*old(g)),
        gval(*old(g), labels_view(labels@)) < i64::MAX,
    ensures
        gauge_label_names(*final(g)) == gauge_label_names(*old(g)),
        gauge_entries(*final(g)) == gauge_entries(*old(g)).insert(
            label_key(labels_view(labels@)),
            gval(*old(g), labels_view(labels@)) + 1,
        ),
{
    g.v.with_label_values(labels.as_slice()).inc();
}

/// Relies on prometheus's `MetricVec::with_label_values` and
/// `GenericGauge::set`: the member keyed by the labels' concatenation is
/// set.
#[verifier::external_body]
fn gauge_set(g: &mut GaugeVec, labels: &Vec<&str>, value: i64)
    requires
        labels@.len() == gauge_arity(*old(g)),
    ensures
        gauge_label_names(*final(g)) == gauge_label_names(*old(g)),
        gauge_entries(*final(g)) == gauge_entries(*old(g)).insert(
            label_key(labels_view(labels@)),
            value as int,
        ),
{
    g.v.with_label_values(labels.as_slice()).set(value);
}

/// Relies on prometheus's `MetricVec::get_metric_with_label_values` and
/// `GenericGauge::get`: the current value of the member keyed by the
/// labels' concatenation.
#[verifier::external_body]
fn gauge_get(g: &GaugeVec, labels: &Vec<&str>) -> (r: i64)
    requires
        labels@.len() == gauge_arity(*g),
    ensures
        i64::MIN <= gval(*g, labels_view(labels@)) <= i64::MAX ==> r == gval(
            *g,
            labels_view(labels@),
        ),
{
    match g.v.get_metric_with_label_values(labels.as_slice()) {
        Ok(m) => m.get(),
        Err(_) => 0,
    }
}

/// Relies on prometheus's `Registry::gather` and `TextEncoder`: the
/// registry's families in the Prometheus text exposition format. Nothing
/// is promised of the text: `gather` prunes families without initialized
/// members, and the members' values are not reachable from the registry
/// handle in the model.
#[verifier::external_body]
pub fn get_metrics(reg: &MetricsRegistry) -> String {
    let encoder = prometheus::TextEncoder::new();
    let mut buffer: Vec<u8> = Vec::new();
    match encoder.encode(&reg.r.gather(), &mut buffer) {
        Ok(()) => match String::from_utf8(buffer) {
            Ok(s) => s,
            Err(_) => String::new(),
        },
        Err(_) => String::new(),
    }
}

/// One increment: the member the tuple `l` selects grows by one and
/// nothing else in the family changes.
pub open spec fn bumped(pre: CounterVec, post: CounterVec, l: Seq<Seq<char>>) -> bool {
    counter_label_names(post) == counter_label_names(pre) && counter_entries(post)
        == counter_entries(pre).insert(label_key(l), cval(pre, l) + 1)
}

/// One gauge increment.
pub open spec fn gauge_bumped(pre: GaugeVec, post: GaugeVec, l: Seq<Seq<char>>) -> bool {
    gauge_label_names(post) == gauge_label_names(pre) && gauge_entries(post) == gauge_entries(
        pre,
    ).insert(label_key(l), gval(pre, l) + 1)
}

/// One gauge write.
pub open spec fn gauge_set_to(pre: GaugeVec, post: GaugeVec, l: Seq<Seq<char>>, v: int) -> bool {
    gauge_label_names(post) == gauge_label_names(pre) && gauge_entries(post) == gauge_entries(
        pre,
    ).insert(label_key(l), v)
}

/// The process-wide metric families of the observer.
pub struct Metrics {
    /// `ibc_effected_packets{chain_id, src_channel, src_port, dst_channel, dst_port, signer, memo}`
    pub effected: CounterVec,
    /// `ibc_uneffected_packets{chain_id, src_channel, src_port, dst_channel, dst_port, signer, memo}`
    pub uneffected: CounterVec,
    /// `ibc_frontrun_counter{chain_id, src_channel, src_port, dst_channel, dst_port, signer, frontrunned_by, memo, effected_memo}`
    pub frontruns: CounterVec,
    /// `ibc_stuck_packets{src_chain, dst_chain, src_channel}`
    pub stuck: GaugeVec,
    /// `chainpulse_chains` (no labels)
    pub chains: GaugeVec,
    /// `chainpulse_txs{chain_id}`
    pub txs: CounterVec,
    /// `chainpulse_packets{chain_id}`
    pub packets: CounterVec,
    /// `chainpulse_reconnects{chain_id}`
    pub reconnects: CounterVec,
    /// `chainpulse_timeouts{chain_id}`
    pub timeouts: CounterVec,
    /// `chainpulse_errors{chain_id}`
    pub errors: CounterVec,
}

pub open spec fn unchanged_but_effected(pre: Metrics, post: Metrics) -> bool {
    &&& post.uneffected == pre.uneffected
    &&& post.frontruns == pre.frontruns
    &&& post.stuck == pre.stuck
    &&& post.chains == pre.chains
    &&& post.txs == pre.txs
    &&& post.packets == pre.packets
    &&& post.reconnects == pre.reconnects
    &&& post.timeouts == pre.timeouts
    &&& post.errors == pre.errors
}

pub open spec fn unchanged_but_uneffected(pre: Metrics, post: Metrics) -> bool {
    &&& post.effected == pre.effected
    &&& post.frontruns == pre.frontruns
    &&& post.stuck == pre.stuck
    &&& post.chains == pre.chains
    &&& post.txs == pre.txs
    &&& post.packets == pre.packets
    &&& post.reconnects == pre.reconnects
    &&& post.timeouts == pre.timeouts
    &&& post.errors == pre.errors
}

pub open spec fn unchanged_but_frontruns(pre: Metrics, post: Metrics) -> bool {
    &&& post.effected == pre.effected
    &&& post.uneffected == pre.uneffected
    &&& post.stuck == pre.stuck
    &&& post.chains == pre.chains
    &&& post.txs == pre.txs
    &&& post.packets == pre.packets
    &&& post.reconnects == pre.reconnects
    &&& post.timeouts == pre.timeouts
    &&& post.errors == pre.errors
}

pub open spec fn unchanged_but_stuck(pre: Metrics, post: Metrics) -> bool {
    &&& post.effected == pre.effected
    &&& post.uneffected == pre.uneffected
    &&& post.frontruns == pre.frontruns
    &&& post.chains == pre.chains
    &&& post.txs == pre.txs
    &&& post.packets == pre.packets
    &&& post.reconnects == pre.reconnects
    &&& post.timeouts == pre.timeouts
    &&& post.errors == pre.errors
}

pub open spec fn unchanged_but_chains(pre: Metrics, post: Metrics) -> bool {
    &&& post.effected == pre.effected
    &&& post.uneffected == pre.uneffected
    &&& post.frontruns == pre.frontruns
    &&& post.stuck == pre.stuck
    &&& post.txs == pre.txs
    &&& post.packets == pre.packets
    &&& post.reconnects == pre.reconnects
    &&& post.timeouts == pre.timeouts
    &&& post.errors == pre.errors
}

pub open spec fn unchanged_but_txs(pre: Metrics, post: Metrics) -> bool {
    &&& post.effected == pre.effected
    &&& post.uneffected == pre.uneffected
    &&& post.frontruns == pre.frontruns
    &&& post.stuck == pre.stuck
    &&& post.chains == pre.chains
    &&& post.packets == pre.packets
    &&& post.reconnects == pre.reconnects
    &&& post.timeouts == pre.timeouts
    &&& post.errors == pre.errors
}

pub open spec fn unchanged_but_packets(pre: Metrics, post: Metrics) -> bool {
    &&& post.effected == pre.effected
    &&& post.uneffected == pre.uneffected
    &&& post.frontruns == pre.frontruns
    &&& post.stuck == pre.stuck
    &&& post.chains == pre.chains
    &&& post.txs == pre.txs
    &&& post.reconnects == pre.reconnects
    &&& post.timeouts == pre.timeouts
    &&& post.errors == pre.errors
}

pub open spec fn unchanged_but_reconnects(pre: Metrics, post: Metrics) -> bool {
    &&& post.effected == pre.effected
    &&& post.uneffected == pre.uneffected
    &&& post.frontruns == pre.frontruns
    &&& post.stuck == pre.stuck
    &&& post.chains == pre.chains
    &&& post.txs == pre.txs
    &&& post.packets == pre.packets
    &&& post.timeouts == pre.timeouts
    &&& post.errors == pre.errors
}

pub open spec fn unchanged_but_timeouts(pre: Metrics, post: Metrics) -> bool {
    &&& post.effected == pre.effected
    &&& post.uneffected == pre.uneffected
    &&& post.frontruns == pre.frontruns
    &&& post.stuck == pre.stuck
    &&& post.chains == pre.chains
    &&& post.txs == pre.txs
    &&& post.packets == pre.packets
    &&& post.reconnects == pre.reconnects
    &&& post.errors == pre.errors
}

pub open spec fn unchanged_but_errors(pre: Metrics, post: Metrics) -> bool {
    &&& post.effected == pre.effected
    &&& post.uneffected == pre.uneffected
    &&& post.frontruns == pre.frontruns
    &&& post.stuck == pre.stuck
    &&& post.chains == pre.chains
    &&& post.txs == pre.txs
    &&& post.packets == pre.packets
    &&& post.reconnects == pre.reconnects
    &&& post.timeouts == pre.timeouts
}

/// The label tuple of the per-packet counter families.
pub open spec fn packet_labels(
    chain_id: Seq<char>,
    src_channel: Seq<char>,
    src_port: Seq<char>,
    dst_channel: Seq<char>,
    dst_port: Seq<char>,
    signer: Seq<char>,
    memo: Seq<char>,
) -> Seq<Seq<char>> {
    seq![chain_id, src_channel, src_port, dst_channel, dst_port, signer, memo]
}

/// The label tuple of the per-chain counter families.
pub open spec fn chain_labels(chain_id: Seq<char>) -> Seq<Seq<char>> {
    seq![chain_id]
}

/// The label tuple of the stuck-packets gauge family.
pub open spec fn stuck_labels(
    src_chain: Seq<char>,
    dst_chain: Seq<char>,
    src_channel: Seq<char>,
) -> Seq<Seq<char>> {
    seq![src_chain, dst_chain, src_channel]
}

/// The label tuple of the frontrun counter family.
pub open spec fn frontrun_labels(
    chain_id: Seq<char>,
    src_channel: Seq<char>,
    src_port: Seq<char>,
    dst_channel: Seq<char>,
    dst_port: Seq<char>,
    signer: Seq<char>,
    frontrunned_by: Seq<char>,
    memo: Seq<char>,
    effected_memo: Seq<char>,
) -> Seq<Seq<char>> {
    seq![
        chain_id,
        src_channel,
        src_port,
        dst_channel,
        dst_port,
        signer,
        frontrunned_by,
        memo,
        effected_memo,
    ]
}


/// The names of the observer's ten metric families.
pub open spec fn family_names() -> Set<Seq<char>> {
    set![
        ("ibc_effected_packets")@,
        ("ibc_uneffected_packets")@,
        ("ibc_frontrun_counter")@,
        ("ibc_stuck_packets")@,
        ("chainpulse_chains")@,
        ("chainpulse_txs")@,
        ("chainpulse_packets")@,
        ("chainpulse_reconnects")@,
        ("chainpulse_timeouts")@,
        ("chainpulse_errors")@,
    ]
}

/// The label names of the per-packet counter families.
pub open spec fn packet_label_names() -> Seq<Seq<char>> {
    seq![
        ("chain_id")@,
        ("src_channel")@,
        ("src_port")@,
        ("dst_channel")@,
        ("dst_port")@,
        ("signer")@,
        ("memo")@,
    ]
}

/// The label names of the frontrun counter family.
pub open spec fn frontrun_label_names() -> Seq<Seq<char>> {
    seq![
        ("chain_id")@,
        ("src_channel")@,
        ("src_port")@,
        ("dst_channel")@,
        ("dst_port")@,
        ("signer")@,
        ("frontrunned_by")@,
        ("memo")@,
        ("effected_memo")@,
    ]
}

/// The label names of the stuck-packets gauge family.
pub open spec fn stuck_label_names() -> Seq<Seq<char>> {
    seq![("src_chain")@, ("dst_chain")@, ("src_channel")@]
}

/// The label names of the per-chain counter families.
pub open spec fn chain_label_names() -> Seq<Seq<char>> {
    seq![("chain_id")@]
}

/// The ten family descriptions are ones the registry accepts, under ten
/// distinct names.
#[verifier::rlimit(100)]
proof fn lemma_observer_families()
    ensures
        valid_family(("ibc_effected_packets")@, ("The number of IBC packets that have been relayed and were effected")@, packet_label_names()),
        valid_family(("ibc_uneffected_packets")@, ("The number of IBC packets that were relayed but not effected")@, packet_label_names()),
        valid_family(("ibc_frontrun_counter")@, ("The number of times a signer gets frontrun by the original signer")@, frontrun_label_names()),
        valid_family(("ibc_stuck_packets")@, ("The number of packets stuck on an IBC channel")@, stuck_label_names()),
        valid_family(("chainpulse_chains")@, ("The number of chains being monitored")@, Seq::<Seq<char>>::empty()),
        valid_family(("chainpulse_txs")@, ("The number of txs processed")@, chain_label_names()),
        valid_family(("chainpulse_packets")@, ("The number of packets processed")@, chain_label_names()),
        valid_family(("chainpulse_reconnects")@, ("The number of times we had to reconnect to the WebSocket")@, chain_label_names()),
        valid_family(("chainpulse_timeouts")@, ("The number of times the WebSocket connection timed out")@, chain_label_names()),
        valid_family(("chainpulse_errors")@, ("The number of times an error was encountered")@, chain_label_names()),
        ("ibc_effected_packets")@ != ("ibc_uneffected_packets")@,
        ("ibc_effected_packets")@ != ("ibc_frontrun_counter")@,
        ("ibc_effected_packets")@ != ("ibc_stuck_packets")@,
        ("ibc_effected_packets")@ != ("chainpulse_chains")@,
        ("ibc_effected_packets")@ != ("chainpulse_txs")@,
        ("ibc_effected_packets")@ != ("chainpulse_packets")@,
        ("ibc_effected_packets")@ != ("chainpulse_reconnects")@,
        ("ibc_effected_packets")@ != ("chainpulse_timeouts")@,
        ("ibc_effected_packets")@ != ("chainpulse_errors")@,
        ("ibc_uneffected_packets")@ != ("ibc_frontrun_counter")@,
        ("ibc_uneffected_packets")@ != ("ibc_stuck_packets")@,
        ("ibc_uneffected_packets")@ != ("chainpulse_chains")@,
        ("ibc_uneffected_packets")@ != ("chainpulse_txs")@,
        ("ibc_uneffected_packets")@ != ("chainpulse_packets")@,
        ("ibc_uneffected_packets")@ != ("chainpulse_reconnects")@,
        ("ibc_uneffected_packets")@ != ("chainpulse_timeouts")@,
        ("ibc_uneffected_packets")@ != ("chainpulse_errors")@,
        ("ibc_frontrun_counter")@ != ("ibc_stuck_packets")@,
        ("ibc_frontrun_counter")@ != ("chainpulse_chains")@,
        ("ibc_frontrun_counter")@ != ("chainpulse_txs")@,
        ("ibc_frontrun_counter")@ != ("chainpulse_packets")@,
        ("ibc_frontrun_counter")@ != ("chainpulse_reconnects")@,
        ("ibc_frontrun_counter")@ != ("chainpulse_timeouts")@,
        ("ibc_frontrun_counter")@ != ("chainpulse_errors")@,
        ("ibc_stuck_packets")@ != ("chainpulse_chains")@,
        ("ibc_stuck_packets")@ != ("chainpulse_txs")@,
        ("ibc_stuck_packets")@ != ("chainpulse_packets")@,
        ("ibc_stuck_packets")@ != ("chainpulse_reconnects")@,
        ("ibc_stuck_packets")@ != ("chainpulse_timeouts")@,
        ("ibc_stuck_packets")@ != ("chainpulse_errors")@,
        ("chainpulse_chains")@ != ("chainpulse_txs")@,
        ("chainpulse_chains")@ != ("chainpulse_packets")@,
        ("chainpulse_chains")@ != ("chainpulse_reconnects")@,
        ("chainpulse_chains")@ != ("chainpulse_timeouts")@,
        ("chainpulse_chains")@ != ("chainpulse_errors")@,
        ("chainpulse_txs")@ != ("chainpulse_packets")@,
        ("chainpulse_txs")@ != ("chainpulse_reconnects")@,
        ("chainpulse_txs")@ != ("chainpulse_timeouts")@,
        ("chainpulse_txs")@ != ("chainpulse_errors")@,
        ("chainpulse_packets")@ != ("chainpulse_reconnects")@,
        ("chainpulse_packets")@ != ("chainpulse_timeouts")@,
        ("chainpulse_packets")@ != ("chainpulse_errors")@,
        ("chainpulse_reconnects")@ != ("chainpulse_timeouts")@,
        ("chainpulse_reconnects")@ != ("chainpulse_errors")@,
        ("chainpulse_timeouts")@ != ("chainpulse_errors")@,
{
    reveal_strlit("ibc_effected_packets");
    reveal_strlit("The number of IBC packets that have been relayed and were effected");
    reveal_strlit("ibc_uneffected_packets");
    reveal_strlit("The number of IBC packets that were relayed but not effected");
    reveal_strlit("ibc_frontrun_counter");
    reveal_strlit("The number of times a signer gets frontrun by the original signer");
    reveal_strlit("ibc_stuck_packets");
    reveal_strlit("The number of packets stuck on an IBC channel");
    reveal_strlit("chainpulse_chains");
    reveal_strlit("The number of chains being monitored");
    reveal_strlit("chainpulse_txs");
    reveal_strlit("The number of txs processed");
    reveal_strlit("chainpulse_packets");
    reveal_strlit("The number of packets processed");
    reveal_strlit("chainpulse_reconnects");
    reveal_strlit("The number of times we had to reconnect to the WebSocket");
    reveal_strlit("chainpulse_timeouts");
    reveal_strlit("The number of times the WebSocket connection timed out");
    reveal_strlit("chainpulse_errors");
    reveal_strlit("The number of times an error was encountered");
    reveal_strlit("chain_id");
    reveal_strlit("src_channel");
    reveal_strlit("src_port");
    reveal_strlit("dst_channel");
    reveal_strlit("dst_port");
    reveal_strlit("signer");
    reveal_strlit("memo");
    reveal_strlit("frontrunned_by");
    reveal_strlit("effected_memo");
    reveal_strlit("src_chain");
    reveal_strlit("dst_chain");

    // The equal-length family names differ at an early position.
    assert(("ibc_effected_packets")@[4] == 'e' && ("ibc_frontrun_counter")@[4] == 'f');
    assert(("ibc_stuck_packets")@[0] == 'i' && ("chainpulse_chains")@[0] == 'c'
        && ("chainpulse_errors")@[0] == 'c');
    assert(("chainpulse_chains")@[11] == 'c' && ("chainpulse_errors")@[11] == 'e');
    assert(("ibc_effected_packets")@ != ("ibc_frontrun_counter")@);
    assert(("ibc_stuck_packets")@ != ("chainpulse_chains")@);
    assert(("ibc_stuck_packets")@ != ("chainpulse_errors")@);
    assert(("chainpulse_chains")@ != ("chainpulse_errors")@);

    // So do the equal-length label names that share a tuple.
    assert(("chain_id")@[0] == 'c' && ("src_channel")@[0] == 's' && ("src_port")@[0] == 's'
        && ("dst_channel")@[0] == 'd' && ("dst_port")@[0] == 'd' && ("src_chain")@[0] == 's'
        && ("dst_chain")@[0] == 'd');
    assert(("chain_id")@ != ("src_port")@ && ("chain_id")@ != ("dst_port")@ && ("src_port")@
        != ("dst_port")@);
    assert(("src_channel")@ != ("dst_channel")@);
    assert(("src_chain")@ != ("dst_chain")@);

    assert(valid_label_name(("chain_id")@));
    assert(valid_label_name(("src_channel")@));
    assert(valid_label_name(("src_port")@));
    assert(valid_label_name(("dst_channel")@));
    assert(valid_label_name(("dst_port")@));
    assert(valid_label_name(("signer")@));
    assert(valid_label_name(("memo")@));
    assert(valid_label_name(("frontrunned_by")@));
    assert(valid_label_name(("effected_memo")@));
    assert(valid_label_name(("src_chain")@));
    assert(valid_label_name(("dst_chain")@));

    assert(forall|j: int, k: int|
        0 <= j < k < packet_label_names().len() ==> packet_label_names()[j]
            != packet_label_names()[k]);
    assert(forall|j: int, k: int|
        0 <= j < k < frontrun_label_names().len() ==> frontrun_label_names()[j]
            != frontrun_label_names()[k]);
    assert(forall|j: int, k: int|
        0 <= j < k < stuck_label_names().len() ==> stuck_label_names()[j]
            != stuck_label_names()[k]);
}

impl Metrics {
    /// The arity of every family matches its label set.
    pub open spec fn wf(self) -> bool {
        &&& counter_arity(self.effected) == 7
        &&& counter_arity(self.uneffected) == 7
        &&& counter_arity(self.frontruns) == 9
        &&& gauge_arity(self.stuck) == 3
        &&& gauge_arity(self.chains) == 0
        &&& counter_arity(self.txs) == 1
        &&& counter_arity(self.packets) == 1
        &&& counter_arity(self.reconnects) == 1
        &&& counter_arity(self.timeouts) == 1
        &&& counter_arity(self.errors) == 1
    }

    /// Every counter family reads zero everywhere.
    pub open spec fn fresh(self) -> bool {
        &&& counter_entries(self.effected) == Map::<Seq<char>, nat>::empty()
        &&& counter_entries(self.uneffected) == Map::<Seq<char>, nat>::empty()
        &&& counter_entries(self.frontruns) == Map::<Seq<char>, nat>::empty()
        &&& gauge_entries(self.stuck) == Map::<Seq<char>, int>::empty()
        &&& gauge_entries(self.chains) == Map::<Seq<char>, int>::empty()
        &&& counter_entries(self.txs) == Map::<Seq<char>, nat>::empty()
        &&& counter_entries(self.packets) == Map::<Seq<char>, nat>::empty()
        &&& counter_entries(self.reconnects) == Map::<Seq<char>, nat>::empty()
        &&& counter_entries(self.timeouts) == Map::<Seq<char>, nat>::empty()
        &&& counter_entries(self.errors) == Map::<Seq<char>, nat>::empty()
    }

    /// Creates and registers the observer's ten metric families on a
    /// fresh registry: every family is accepted — the names are valid and
    /// distinct — so construction cannot fail.
    pub fn new() -> (r: Option<(Metrics, MetricsRegistry)>)
        ensures
            r is Some,
            r matches Some(p) ==> ({
                &&& p.0.wf()
                &&& p.0.fresh()
                &&& registry_families(p.1) == family_names()
                &&& counter_label_names(p.0.effected) == packet_label_names()
                &&& counter_label_names(p.0.uneffected) == packet_label_names()
                &&& counter_label_names(p.0.frontruns) == frontrun_label_names()
                &&& gauge_label_names(p.0.stuck) == stuck_label_names()
                &&& gauge_label_names(p.0.chains) == Seq::<Seq<char>>::empty()
                &&& counter_label_names(p.0.txs) == chain_label_names()
                &&& counter_label_names(p.0.packets) == chain_label_names()
                &&& counter_label_names(p.0.reconnects) == chain_label_names()
                &&& counter_label_names(p.0.timeouts) == chain_label_names()
                &&& counter_label_names(p.0.errors) == chain_label_names()
            }),
    {
        let mut reg = new_registry();
        proof {
            lemma_observer_families();
        }

        let mut l7: Vec<&str> = Vec::new();
        l7.push("chain_id");
        l7.push("src_channel");
        l7.push("src_port");
        l7.push("dst_channel");
        l7.push("dst_port");
        l7.push("signer");
        l7.push("memo");

        let mut l9: Vec<&str> = Vec::new();
        l9.push("chain_id");
        l9.push("src_channel");
        l9.push("src_port");
        l9.push("dst_channel");
        l9.push("dst_port");
        l9.push("signer");
        l9.push("frontrunned_by");
        l9.push("memo");
        l9.push("effected_memo");

        let mut l3: Vec<&str> = Vec::new();
        l3.push("src_chain");
        l3.push("dst_chain");
        l3.push("src_channel");

        let l0: Vec<&str> = Vec::new();

        let mut l1: Vec<&str> = Vec::new();
        l1.push("chain_id");

        proof {
            assert(labels_view(l7@) =~= packet_label_names());
            assert(labels_view(l9@) =~= frontrun_label_names());
            assert(labels_view(l3@) =~= stuck_label_names());
            assert(labels_view(l0@) =~= Seq::<Seq<char>>::empty());
            assert(labels_view(l1@) =~= chain_label_names());
        }

        let ghost fams_effected = registry_families(reg);
        proof {
            assert(fams_effected == Set::<Seq<char>>::empty());
        }
        let effected = match new_counter_vec(
            &mut reg,
            "ibc_effected_packets",
            "The number of IBC packets that have been relayed and were effected",
            &l7,
        ) {
            Some(v) => v,
            None => {
                proof {
                    assert(false);
                }
                vstd::pervasive::unreached()
            },
        };
        let ghost fams_uneffected = registry_families(reg);
        proof {
            assert(fams_uneffected == Set::<Seq<char>>::empty().insert(("ibc_effected_packets")@));
        }
        let uneffected = match new_counter_vec(
            &mut reg,
            "ibc_uneffected_packets",
            "The number of IBC packets that were relayed but not effected",
            &l7,
        ) {
            Some(v) => v,
            None => {
                proof {
                    assert(false);
                }
                vstd::pervasive::unreached()
            },
        };
        let ghost fams_frontruns = registry_families(reg);
        proof {
            assert(fams_frontruns == Set::<Seq<char>>::empty().insert(("ibc_effected_packets")@).insert(("ibc_uneffected_packets")@));
        }
        let frontruns = match new_counter_vec(
            &mut reg,
            "ibc_frontrun_counter",
            "The number of times a signer gets frontrun by the original signer",
            &l9,
        ) {
            Some(v) => v,
            None => {
                proof {
                    assert(false);
                }
                vstd::pervasive::unreached()
            },
        };
        let ghost fams_stuck = registry_families(reg);
        proof {
            assert(fams_stuck == Set::<Seq<char>>::empty().insert(("ibc_effected_packets")@).insert(("ibc_uneffected_packets")@).insert(("ibc_frontrun_counter")@));
        }
        let stuck = match new_gauge_vec(
            &mut reg,
            "ibc_stuck_packets",
            "The number of packets stuck on an IBC channel",
            &l3,
        ) {
            Some(v) => v,
            None => {
                proof {
                    assert(false);
                }
                vstd::pervasive::unreached()
            },
        };
        let ghost fams_chains = registry_families(reg);
        proof {
            assert(fams_chains == Set::<Seq<char>>::empty().insert(("ibc_effected_packets")@).insert(("ibc_uneffected_packets")@).insert(("ibc_frontrun_counter")@).insert(("ibc_stuck_packets")@));
        }
        let chains = match new_gauge_vec(
            &mut reg,
            "chainpulse_chains",
            "The number of chains being monitored",
            &l0,
        ) {
            Some(v) => v,
            None => {
                proof {
                    assert(false);
                }
                vstd::pervasive::unreached()
            },
        };
        let ghost fams_txs = registry_families(reg);
        proof {
            assert(fams_txs == Set::<Seq<char>>::empty().insert(("ibc_effected_packets")@).insert(("ibc_uneffected_packets")@).insert(("ibc_frontrun_counter")@).insert(("ibc_stuck_packets")@).insert(("chainpulse_chains")@));
        }
        let txs = match new_counter_vec(
            &mut reg,
            "chainpulse_txs",
            "The number of txs processed",
            &l1,
        ) {
            Some(v) => v,
            None => {
                proof {
                    assert(false);
                }
                vstd::pervasive::unreached()
            },
        };
        let ghost fams_packets = registry_families(reg);
        proof {
            assert(fams_packets == Set::<Seq<char>>::empty().insert(("ibc_effected_packets")@).insert(("ibc_uneffected_packets")@).insert(("ibc_frontrun_counter")@).insert(("ibc_stuck_packets")@).insert(("chainpulse_chains")@).insert(("chainpulse_txs")@));
        }
        let packets = match new_counter_vec(
            &mut reg,
            "chainpulse_packets",
            "The number of packets processed",
            &l1,
        ) {
            Some(v) => v,
            None => {
                proof {
                    assert(false);
                }
                vstd::pervasive::unreached()
            },
        };
        let ghost fams_reconnects = registry_families(reg);
        proof {
            assert(fams_reconnects == Set::<Seq<char>>::empty().insert(("ibc_effected_packets")@).insert(("ibc_uneffected_packets")@).insert(("ibc_frontrun_counter")@).insert(("ibc_stuck_packets")@).insert(("chainpulse_chains")@).insert(("chainpulse_txs")@).insert(("chainpulse_packets")@));
        }
        let reconnects = match new_counter_vec(
            &mut reg,
            "chainpulse_reconnects",
            "The number of times we had to reconnect to the WebSocket",
            &l1,
        ) {
            Some(v) => v,
            None => {
                proof {
                    assert(false);
                }
                vstd::pervasive::unreached()
            },
        };
        let ghost fams_timeouts = registry_families(reg);
        proof {
            assert(fams_timeouts == Set::<Seq<char>>::empty().insert(("ibc_effected_packets")@).insert(("ibc_uneffected_packets")@).insert(("ibc_frontrun_counter")@).insert(("ibc_stuck_packets")@).insert(("chainpulse_chains")@).insert(("chainpulse_txs")@).insert(("chainpulse_packets")@).insert(("chainpulse_reconnects")@));
        }
        let timeouts = match new_counter_vec(
            &mut reg,
            "chainpulse_timeouts",
            "The number of times the WebSocket connection timed out",
            &l1,
        ) {
            Some(v) => v,
            None => {
                proof {
                    assert(false);
                }
                vstd::pervasive::unreached()
            },
        };
        let ghost fams_errors = registry_families(reg);
        proof {
            assert(fams_errors == Set::<Seq<char>>::empty().insert(("ibc_effected_packets")@).insert(("ibc_uneffected_packets")@).insert(("ibc_frontrun_counter")@).insert(("ibc_stuck_packets")@).insert(("chainpulse_chains")@).insert(("chainpulse_txs")@).insert(("chainpulse_packets")@).insert(("chainpulse_reconnects")@).insert(("chainpulse_timeouts")@));
        }
        let errors = match new_counter_vec(
            &mut reg,
            "chainpulse_errors",
            "The number of times an error was encountered",
            &l1,
        ) {
            Some(v) => v,
            None => {
                proof {
                    assert(false);
                }
                vstd::pervasive::unreached()
            },
        };
        proof {
            assert(registry_families(reg) =~= family_names());
        }
        Some(
            (
                Metrics {
                    effected,
                    uneffected,
                    frontruns,
                    stuck,
                    chains,
                    txs,
                    packets,
                    reconnects,
                    timeouts,
                    errors,
                },
                reg,
            ),
        )
    }

    /// One effected packet: the first submission for its identity landed.
    pub fn ibc_effected_packets(
        &mut self,
        chain_id: &str,
        src_channel: &str,
        src_port: &str,
        dst_channel: &str,
        dst_port: &str,
        signer: &str,
        memo: &str,
    )
        requires
            old(self).wf(),
        ensures
            final(self).wf(),
            bumped(
                old(self).effected,
                final(self).effected,
                packet_labels(
                    chain_id@,
                    src_channel@,
                    src_port@,
                    dst_channel@,
                    dst_port@,
                    signer@,
                    memo@,
                ),
            ),
            unchanged_but_effected(*old(self), *final(self)),
    {
        let mut labels: Vec<&str> = Vec::new();
        labels.push(chain_id);
        labels.push(src_channel);
        labels.push(src_port);
        labels.push(dst_channel);
        labels.push(dst_port);
        labels.push(signer);
        labels.push(memo);
        proof {
            assert(labels_view(labels@) =~= packet_labels(
                chain_id@,
                src_channel@,
                src_port@,
                dst_channel@,
                dst_port@,
                signer@,
                memo@,
            ));
        }
        counter_inc(&mut self.effected, &labels);
    }

    /// One uneffected packet: a duplicate submission after the effected one.
    pub fn ibc_uneffected_packets(
        &mut self,
        chain_id: &str,
        src_channel: &str,
        src_port: &str,
        dst_channel: &str,
        dst_port: &str,
        signer: &str,
        memo: &str,
    )
        requires
            old(self).wf(),
        ensures
            final(self).wf(),
            bumped(
                old(self).uneffected,
                final(self).uneffected,
                packet_labels(
                    chain_id@,
                    src_channel@,
                    src_port@,
                    dst_channel@,
                    dst_port@,
                    signer@,
                    memo@,
                ),
            ),
            unchanged_but_uneffected(*old(self), *final(self)),
    {
        let mut labels: Vec<&str> = Vec::new();
        labels.push(chain_id);
        labels.push(src_channel);
        labels.push(src_port);
        labels.push(dst_channel);
        labels.push(dst_port);
        labels.push(signer);
        labels.push(memo);
        proof {
            assert(labels_view(labels@) =~= packet_labels(
                chain_id@,
                src_channel@,
                src_port@,
                dst_channel@,
                dst_port@,
                signer@,
                memo@,
            ));
        }
        counter_inc(&mut self.uneffected, &labels);
    }

    /// One frontrun: a signer's submission landed after another signer's.
    pub fn ibc_frontrun_counter(
        &mut self,
        chain_id: &str,
        src_channel: &str,
        src_port: &str,
        dst_channel: &str,
        dst_port: &str,
        signer: &str,
        frontrunned_by: &str,
        memo: &str,
        effected_memo: &str,
    )
        requires
            old(self).wf(),
        ensures
            final(self).wf(),
            bumped(
                old(self).frontruns,
                final(self).frontruns,
                frontrun_labels(
                    chain_id@,
                    src_channel@,
                    src_port@,
                    dst_channel@,
                    dst_port@,
                    signer@,
                    frontrunned_by@,
                    memo@,
                    effected_memo@,
                ),
            ),
            unchanged_but_frontruns(*old(self), *final(self)),
    {
        let mut labels: Vec<&str> = Vec::new();
        labels.push(chain_id);
        labels.push(src_channel);
        labels.push(src_port);
        labels.push(dst_channel);
        labels.push(dst_port);
        labels.push(signer);
        labels.push(frontrunned_by);
        labels.push(memo);
        labels.push(effected_memo);
        proof {
            assert(labels_view(labels@) =~= frontrun_labels(
                chain_id@,
                src_channel@,
                src_port@,
                dst_channel@,
                dst_port@,
                signer@,
                frontrunned_by@,
                memo@,
                effected_memo@,
            ));
        }
        counter_inc(&mut self.frontruns, &labels);
    }

    /// The current number of packets stuck on a channel.
    pub fn ibc_stuck_packets(
        &mut self,
        src_chain: &str,
        dst_chain: &str,
        src_channel: &str,
        value: i64,
    )
        requires
            old(self).wf(),
        ensures
            final(self).wf(),
            gauge_set_to(
                old(self).stuck,
                final(self).stuck,
                stuck_labels(src_chain@, dst_chain@, src_channel@),
                value as int,
            ),
            unchanged_but_stuck(*old(self), *final(self)),
    {
        let mut labels: Vec<&str> = Vec::new();
        labels.push(src_chain);
        labels.push(dst_chain);
        labels.push(src_channel);
        proof {
            assert(labels_view(labels@) =~= stuck_labels(src_chain@, dst_chain@, src_channel@));
        }
        gauge_set(&mut self.stuck, &labels, value);
    }

    /// One more chain is being monitored.
    pub fn chainpulse_chains(&mut self)
        requires
            old(self).wf(),
            gval(old(self).chains, Seq::empty()) < i64::MAX,
        ensures
            final(self).wf(),
            gauge_bumped(old(self).chains, final(self).chains, Seq::empty()),
            unchanged_but_chains(*old(self), *final(self)),
    {
        let labels: Vec<&str> = Vec::new();
        proof {
            assert(labels_view(labels@) =~= Seq::<Seq<char>>::empty());
        }
        gauge_inc(&mut self.chains, &labels);
    }

    /// One transaction processed on a chain.
    pub fn chainpulse_txs(&mut self, chain_id: &str)
        requires
            old(self).wf(),
        ensures
            final(self).wf(),
            bumped(old(self).txs, final(self).txs, chain_labels(chain_id@)),
            unchanged_but_txs(*old(self), *final(self)),
    {
        let mut labels: Vec<&str> = Vec::new();
        labels.push(chain_id);
        proof {
            assert(labels_view(labels@) =~= chain_labels(chain_id@));
        }
        counter_inc(&mut self.txs, &labels);
    }

    /// One packet processed on a chain.
    pub fn chainpulse_packets(&mut self, chain_id: &str)
        requires
            old(self).wf(),
        ensures
            final(self).wf(),
            bumped(old(self).packets, final(self).packets, chain_labels(chain_id@)),
            unchanged_but_packets(*old(self), *final(self)),
    {
        let mut labels: Vec<&str> = Vec::new();
        labels.push(chain_id);
        proof {
            assert(labels_view(labels@) =~= chain_labels(chain_id@));
        }
        counter_inc(&mut self.packets, &labels);
    }

    /// One reconnection of a chain's subscription.
    pub fn chainpulse_reconnects(&mut self, chain_id: &str)
        requires
            old(self).wf(),
        ensures
            final(self).wf(),
            bumped(old(self).reconnects, final(self).reconnects, chain_labels(chain_id@)),
            unchanged_but_reconnects(*old(self), *final(self)),
    {
        let mut labels: Vec<&str> = Vec::new();
        labels.push(chain_id);
        proof {
            assert(labels_view(labels@) =~= chain_labels(chain_id@));
        }
        counter_inc(&mut self.reconnects, &labels);
    }

    /// One liveness timeout waiting for a block.
    pub fn chainpulse_timeouts(&mut self, chain_id: &str)
        requires
            old(self).wf(),
        ensures
            final(self).wf(),
            bumped(old(self).timeouts, final(self).timeouts, chain_labels(chain_id@)),
            unchanged_but_timeouts(*old(self), *final(self)),
    {
        let mut labels: Vec<&str> = Vec::new();
        labels.push(chain_id);
        proof {
            assert(labels_view(labels@) =~= chain_labels(chain_id@));
        }
        counter_inc(&mut self.timeouts, &labels);
    }

    /// One error on a chain.
    pub fn chainpulse_errors(&mut self, chain_id: &str)
        requires
            old(self).wf(),
        ensures
            final(self).wf(),
            bumped(old(self).errors, final(self).errors, chain_labels(chain_id@)),
            unchanged_but_errors(*old(self), *final(self)),
    {
        let mut labels: Vec<&str> = Vec::new();
        labels.push(chain_id);
        proof {
            assert(labels_view(labels@) =~= chain_labels(chain_id@));
        }
        counter_inc(&mut self.errors, &labels);
    }

    /// Reads the effected-packets counter at a label tuple.
    pub fn read_effected(
        &self,
        chain_id: &str,
        src_channel: &str,
        src_port: &str,
        dst_channel: &str,
        dst_port: &str,
        signer: &str,
        memo: &str,
    ) -> (r: u64)
        requires
            self.wf(),
        ensures
            ({
                let l = packet_labels(
                    chain_id@,
                    src_channel@,
                    src_port@,
                    dst_channel@,
                    dst_port@,
                    signer@,
                    memo@,
                );
                cval(self.effected, l) <= u64::MAX ==> r == cval(self.effected, l)
            }),
    {
        let mut labels: Vec<&str> = Vec::new();
        labels.push(chain_id);
        labels.push(src_channel);
        labels.push(src_port);
        labels.push(dst_channel);
        labels.push(dst_port);
        labels.push(signer);
        labels.push(memo);
        proof {
            assert(labels_view(labels@) =~= packet_labels(
                chain_id@,
                src_channel@,
                src_port@,
                dst_channel@,
                dst_port@,
                signer@,
                memo@,
            ));
        }
        counter_get(&self.effected, &labels)
    }

    /// Reads the uneffected-packets counter at a label tuple.
    pub fn read_uneffected(
        &self,
        chain_id: &str,
        src_channel: &str,
        src_port: &str,
        dst_channel: &str,
        dst_port: &str,
        signer: &str,
        memo: &str,
    ) -> (r: u64)
        requires
            self.wf(),
        ensures
            ({
                let l = packet_labels(
                    chain_id@,
                    src_channel@,
                    src_port@,
                    dst_channel@,
                    dst_port@,
                    signer@,
                    memo@,
                );
                cval(self.uneffected, l) <= u64::MAX ==> r == cval(self.uneffected, l)
            }),
    {
        let mut labels: Vec<&str> = Vec::new();
        labels.push(chain_id);
        labels.push(src_channel);
        labels.push(src_port);
        labels.push(dst_channel);
        labels.push(dst_port);
        labels.push(signer);
        labels.push(memo);
        proof {
            assert(labels_view(labels@) =~= packet_labels(
                chain_id@,
                src_channel@,
                src_port@,
                dst_channel@,
                dst_port@,
                signer@,
                memo@,
            ));
        }
        counter_get(&self.uneffected, &labels)
    }

    /// Reads the frontrun counter at a label tuple.
    pub fn read_frontruns(
        &self,
        chain_id: &str,
        src_channel: &str,
        src_port: &str,
        dst_channel: &str,
        dst_port: &str,
        signer: &str,
        frontrunned_by: &str,
        memo: &str,
        effected_memo: &str,
    ) -> (r: u64)
        requires
            self.wf(),
        ensures
            ({
                let l = frontrun_labels(
                    chain_id@,
                    src_channel@,
                    src_port@,
                    dst_channel@,
                    dst_port@,
                    signer@,
                    frontrunned_by@,
                    memo@,
                    effected_memo@,
                );
                cval(self.frontruns, l) <= u64::MAX ==> r == cval(self.frontruns, l)
            }),
    {
        let mut labels: Vec<&str> = Vec::new();
        labels.push(chain_id);
        labels.push(src_channel);
        labels.push(src_port);
        labels.push(dst_channel);
        labels.push(dst_port);
        labels.push(signer);
        labels.push(frontrunned_by);
        labels.push(memo);
        labels.push(effected_memo);
        proof {
            assert(labels_view(labels@) =~= frontrun_labels(
                chain_id@,
                src_channel@,
                src_port@,
                dst_channel@,
                dst_port@,
                signer@,
                frontrunned_by@,
                memo@,
                effected_memo@,
            ));
        }
        counter_get(&self.frontruns, &labels)
    }

    /// Reads the stuck-packets gauge at a label tuple.
    pub fn read_stuck(&self, src_chain: &str, dst_chain: &str, src_channel: &str) -> (r: i64)
        requires
            self.wf(),
        ensures
            ({
                let l = stuck_labels(src_chain@, dst_chain@, src_channel@);
                i64::MIN <= gval(self.stuck, l) <= i64::MAX ==> r == gval(self.stuck, l)
            }),
    {
        let mut labels: Vec<&str> = Vec::new();
        labels.push(src_chain);
        labels.push(dst_chain);
        labels.push(src_channel);
        proof {
            assert(labels_view(labels@) =~= stuck_labels(src_chain@, dst_chain@, src_channel@));
        }
        gauge_get(&self.stuck, &labels)
    }

    /// Reads the monitored-chains gauge.
    pub fn read_chains(&self) -> (r: i64)
        requires
            self.wf(),
        ensures
            i64::MIN <= gval(self.chains, Seq::empty()) <= i64::MAX ==> r == gval(
                self.chains,
                Seq::empty(),
            ),
    {
        let labels: Vec<&str> = Vec::new();
        proof {
            assert(labels_view(labels@) =~= Seq::<Seq<char>>::empty());
        }
        gauge_get(&self.chains, &labels)
    }

    /// Reads a per-chain counter: txs.
    pub fn read_txs(&self, chain_id: &str) -> (r: u64)
        requires
            self.wf(),
        ensures
            cval(self.txs, chain_labels(chain_id@)) <= u64::MAX ==> r == cval(
                self.txs,
                chain_labels(chain_id@),
            ),
    {
        let mut labels: Vec<&str> = Vec::new();
        labels.push(chain_id);
        proof {
            assert(labels_view(labels@) =~= chain_labels(chain_id@));
        }
        counter_get(&self.txs, &labels)
    }

    /// Reads a per-chain counter: packets.
    pub fn read_packets(&self, chain_id: &str) -> (r: u64)
        requires
            self.wf(),
        ensures
            cval(self.packets, chain_labels(chain_id@)) <= u64::MAX ==> r == cval(
                self.packets,
                chain_labels(chain_id@),
            ),
    {
        let mut labels: Vec<&str> = Vec::new();
        labels.push(chain_id);
        proof {
            assert(labels_view(labels@) =~= chain_labels(chain_id@));
        }
        counter_get(&self.packets, &labels)
    }

    /// Reads a per-chain counter: reconnects.
    pub fn read_reconnects(&self, chain_id: &str) -> (r: u64)
        requires
            self.wf(),
        ensures
            cval(self.reconnects, chain_labels(chain_id@)) <= u64::MAX ==> r == cval(
                self.reconnects,
                chain_labels(chain_id@),
            ),
    {
        let mut labels: Vec<&str> = Vec::new();
        labels.push(chain_id);
        proof {
            assert(labels_view(labels@) =~= chain_labels(chain_id@));
        }
        counter_get(&self.reconnects, &labels)
    }

    /// Reads a per-chain counter: timeouts.
    pub fn read_timeouts(&self, chain_id: &str) -> (r: u64)
        requires
            self.wf(),
        ensures
            cval(self.timeouts, chain_labels(chain_id@)) <= u64::MAX ==> r == cval(
                self.timeouts,
                chain_labels(chain_id@),
            ),
    {
        let mut labels: Vec<&str> = Vec::new();
        labels.push(chain_id);
        proof {
            assert(labels_view(labels@) =~= chain_labels(chain_id@));
        }
        counter_get(&self.timeouts, &labels)
    }

    /// Reads a per-chain counter: errors.
    pub fn read_errors(&self, chain_id: &str) -> (r: u64)
        requires
            self.wf(),
        ensures
            cval(self.errors, chain_labels(chain_id@)) <= u64::MAX ==> r == cval(
                self.errors,
                chain_labels(chain_id@),
            ),
    {
        let mut labels: Vec<&str> = Vec::new();
        labels.push(chain_id);
        proof {
            assert(labels_view(labels@) =~= chain_labels(chain_id@));
        }
        counter_get(&self.errors, &labels)
    }
}

} // verus!
