//! Configuration model: the set of chains to watch, the database location,
//! and the metrics endpoint settings.

use vstd::prelude::*;

use crate::text::str_eq;

verus! {

/// Wire format of the consensus node's RPC interface.
#[derive(Copy, Clone, PartialEq, Eq, Structural, Debug)]
pub enum CometVersion {
    V0_34,
    V0_37,
}

/// One chain's subscription endpoint.
#[derive(Clone, Debug)]
pub struct Endpoint {
    /// WebSocket URL of the consensus node, `ws[s]://host:port/websocket`.
    pub url: String,
    pub comet_version: CometVersion,
}

/// The chains to watch, each under its chain identifier.
#[derive(Clone, Debug)]
pub struct Chains {
    pub endpoints: Vec<(String, Endpoint)>,
}

/// Location of the database file.
#[derive(Clone, Debug)]
pub struct Database {
    pub path: String,
}

/// Metrics endpoint settings.
#[derive(Copy, Clone, Debug)]
pub struct Metrics {
    pub enabled: bool,
    pub port: u16,
    pub populate_on_start: bool,
    pub stuck_packets: bool,
}

#[derive(Clone, Debug)]
pub struct Config {
    pub chains: Chains,
    pub database: Database,
    pub metrics: Metrics,
}

/// Default wire format when the configuration names none.
pub fn comet_version() -> (v: CometVersion)
    ensures
        v == CometVersion::V0_34,
{
    CometVersion::V0_34
}

/// Default for the stuck-packets poller: on.
pub fn stuck_packets() -> (b: bool)
    ensures
        b,
{
    true
}

/// Default for populating metrics from stored rows at startup: off.
pub fn populate_on_start() -> (b: bool)
    ensures
        !b,
{
    false
}

/// The configuration label of a wire format version.
pub fn comet_version_label(v: CometVersion) -> (s: &'static str)
    ensures
        v == CometVersion::V0_34 ==> s@ == "0.34"@,
        v == CometVersion::V0_37 ==> s@ == "0.37"@,
{
    match v {
        CometVersion::V0_34 => "0.34",
        CometVersion::V0_37 => "0.37",
    }
}

/// Parses a configuration label into a wire format version. Only the two
/// labels `"0.34"` and `"0.37"` are accepted.
pub fn comet_version_parse(s: &str) -> (v: Option<CometVersion>)
    ensures
        v == Some(CometVersion::V0_34) <==> s@ == "0.34"@,
        v == Some(CometVersion::V0_37) <==> s@ == "0.37"@,
        v is None <==> s@ != "0.34"@ && s@ != "0.37"@,
{
    proof {
        // The two accepted labels differ, so the cases below are disjoint.
        reveal_strlit("0.34");
        reveal_strlit("0.37");
        assert(("0.34")@[3] == '4' && ("0.37")@[3] == '7');
        assert(("0.34")@ != ("0.37")@);
    }
    if str_eq(s, "0.34") {
        Some(CometVersion::V0_34)
    } else if str_eq(s, "0.37") {
        Some(CometVersion::V0_37)
    } else {
        None
    }
}

} // verus!
