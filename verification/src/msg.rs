//! The message classifier: a typed envelope `{type_url, value}` is decoded
//! into a closed set of IBC message variants, and the three packet-bearing
//! variants expose the packet and its submitting signer.

use prost::Message as _;
use vstd::prelude::*;
use vstd::string::*;

use crate::text::str_eq;

verus! {

/// Decoding failure of a recognized IBC type URL.
#[derive(Copy, Clone, Debug, PartialEq, Eq, Structural)]
pub enum MsgError {
    Malformed,
}

/// An IBC packet as carried by the three packet-bearing messages: the
/// channel/port four-tuple and the sequence number.
#[derive(Clone, Debug)]
pub struct Packet {
    pub sequence: u64,
    pub source_port: String,
    pub source_channel: String,
    pub destination_port: String,
    pub destination_channel: String,
}

/// Mathematical image of a [`Packet`].
#[verifier::ext_equal]
pub struct PacketV {
    pub sequence: int,
    pub source_port: Seq<char>,
    pub source_channel: Seq<char>,
    pub destination_port: Seq<char>,
    pub destination_channel: Seq<char>,
}

impl View for Packet {
    type V = PacketV;

    open spec fn view(&self) -> PacketV {
        PacketV {
            sequence: self.sequence as int,
            source_port: self.source_port@,
            source_channel: self.source_channel@,
            destination_port: self.destination_port@,
            destination_channel: self.destination_channel@,
        }
    }
}

/// An opaque typed envelope, as found in a transaction body.
#[derive(Debug)]
pub struct AnyMsg {
    pub type_url: String,
    pub value: Vec<u8>,
}

impl Clone for AnyMsg {
    /// A clone carries the same envelope.
    fn clone(&self) -> (r: AnyMsg)
        ensures
            r@ == self@,
    {
        AnyMsg { type_url: self.type_url.clone(), value: crate::text::copy_bytes(&self.value) }
    }
}

/// Mathematical image of an [`AnyMsg`].
#[verifier::ext_equal]
pub struct AnyMsgV {
    pub type_url: Seq<char>,
    pub value: Seq<u8>,
}

impl View for AnyMsg {
    type V = AnyMsgV;

    open spec fn view(&self) -> AnyMsgV {
        AnyMsgV { type_url: self.type_url@, value: self.value@ }
    }
}

/// The classifier's output: the closed set of recognized IBC messages,
/// with unrecognized envelopes falling through to `Other`.
#[derive(Clone, Debug)]
pub enum Msg {
    CreateClient { signer: String },
    UpdateClient { client_id: String, signer: String },
    RecvPacket { packet: Option<Packet>, signer: String },
    Acknowledgement { packet: Option<Packet>, signer: String },
    Timeout { packet: Option<Packet>, signer: String },
    ChanOpenInit { port_id: String, signer: String },
    ChanOpenTry { port_id: String, signer: String },
    ChanOpenAck { port_id: String, channel_id: String, signer: String },
    ChanOpenConfirm { port_id: String, channel_id: String, signer: String },
    Transfer { source_port: String, source_channel: String },
    Other { type_url: String, value: Vec<u8> },
}

/// Mathematical image of a [`Msg`].
#[verifier::ext_equal]
pub enum MsgV {
    CreateClient { signer: Seq<char> },
    UpdateClient { client_id: Seq<char>, signer: Seq<char> },
    RecvPacket { packet: Option<PacketV>, signer: Seq<char> },
    Acknowledgement { packet: Option<PacketV>, signer: Seq<char> },
    Timeout { packet: Option<PacketV>, signer: Seq<char> },
    ChanOpenInit { port_id: Seq<char>, signer: Seq<char> },
    ChanOpenTry { port_id: Seq<char>, signer: Seq<char> },
    ChanOpenAck { port_id: Seq<char>, channel_id: Seq<char>, signer: Seq<char> },
    ChanOpenConfirm { port_id: Seq<char>, channel_id: Seq<char>, signer: Seq<char> },
    Transfer { source_port: Seq<char>, source_channel: Seq<char> },
    Other { type_url: Seq<char>, value: Seq<u8> },
}

pub open spec fn opt_packet_view(p: Option<Packet>) -> Option<PacketV> {
    match p {
        Some(q) => Some(q@),
        None => None,
    }
}

impl View for Msg {
    type V = MsgV;

    open spec fn view(&self) -> MsgV {
        match self {
            Msg::CreateClient { signer } => MsgV::CreateClient { signer: signer@ },
            Msg::UpdateClient { client_id, signer } => MsgV::UpdateClient {
                client_id: client_id@,
                signer: signer@,
            },
            Msg::RecvPacket { packet, signer } => MsgV::RecvPacket {
                packet: opt_packet_view(*packet),
                signer: signer@,
            },
            Msg::Acknowledgement { packet, signer } => MsgV::Acknowledgement {
                packet: opt_packet_view(*packet),
                signer: signer@,
            },
            Msg::Timeout { packet, signer } => MsgV::Timeout {
                packet: opt_packet_view(*packet),
                signer: signer@,
            },
            Msg::ChanOpenInit { port_id, signer } => MsgV::ChanOpenInit {
                port_id: port_id@,
                signer: signer@,
            },
            Msg::ChanOpenTry { port_id, signer } => MsgV::ChanOpenTry {
                port_id: port_id@,
                signer: signer@,
            },
            Msg::ChanOpenAck { port_id, channel_id, signer } => MsgV::ChanOpenAck {
                port_id: port_id@,
                channel_id: channel_id@,
                signer: signer@,
            },
            Msg::ChanOpenConfirm { port_id, channel_id, signer } => MsgV::ChanOpenConfirm {
                port_id: port_id@,
                channel_id: channel_id@,
                signer: signer@,
            },
            Msg::Transfer { source_port, source_channel } => MsgV::Transfer {
                source_port: source_port@,
                source_channel: source_channel@,
            },
            Msg::Other { type_url, value } => MsgV::Other {
                type_url: type_url@,
                value: value@,
            },
        }
    }
}

/// The decoded body of a transaction envelope.
#[derive(Clone, Debug)]
pub struct TxBody {
    pub messages: Vec<AnyMsg>,
    pub memo: String,
}

/// Mathematical image of a [`TxBody`].
#[verifier::ext_equal]
pub struct TxBodyV {
    pub messages: Seq<AnyMsgV>,
    pub memo: Seq<char>,
}

impl View for TxBody {
    type V = TxBodyV;

    open spec fn view(&self) -> TxBodyV {
        TxBodyV {
            messages: Seq::new(self.messages@.len(), |i: int| self.messages@[i]@),
            memo: self.memo@,
        }
    }
}

/// A decoded transaction envelope: the body is absent when the encoded
/// transaction carried none.
#[derive(Clone, Debug)]
pub struct TxEnvelope {
    pub body: Option<TxBody>,
}

/// Mathematical image of a [`TxEnvelope`].
#[verifier::ext_equal]
pub struct TxEnvelopeV {
    pub body: Option<TxBodyV>,
}

impl View for TxEnvelope {
    type V = TxEnvelopeV;

    open spec fn view(&self) -> TxEnvelopeV {
        TxEnvelopeV {
            body: match self.body {
                Some(ref b) => Some(b@),
                None => None,
            },
        }
    }
}

/// What protobuf decoding of a transaction envelope (`cosmos.tx.v1beta1.Tx`)
/// yields on these bytes.
pub uninterp spec fn tx_decode_of(bytes: Seq<u8>) -> Option<TxEnvelopeV>;

/// Relies on prost decoding of ibc-proto's `cosmos.tx.v1beta1.Tx`: the
/// result is a function of the bytes alone.
#[verifier::external_body]
pub(crate) fn decode_tx(bytes: &[u8]) -> (r: Option<TxEnvelope>)
    ensures
        match r {
            Some(t) => tx_decode_of(bytes@) == Some(t@),
            None => tx_decode_of(bytes@) is None,
        },
{
    match ibc_proto::cosmos::tx::v1beta1::Tx::decode(bytes) {
        Ok(tx) => Some(TxEnvelope {
            body: tx.body.map(|b| TxBody {
                messages: b.messages.into_iter().map(|m| AnyMsg {
                    type_url: m.type_url,
                    value: m.value,
                }).collect(),
                memo: b.memo,
            }),
        }),
        Err(_) => None,
    }
}

/// What decoding a client message yields: its signer.
#[verifier::ext_equal]
pub struct SignerOnlyV {
    pub signer: Seq<char>,
}

/// What decoding a client update yields.
#[verifier::ext_equal]
pub struct UpdateClientV {
    pub client_id: Seq<char>,
    pub signer: Seq<char>,
}

/// What decoding a packet-bearing message yields.
#[verifier::ext_equal]
pub struct PacketMsgV {
    pub packet: Option<PacketV>,
    pub signer: Seq<char>,
}

/// What decoding a handshake opening yields.
#[verifier::ext_equal]
pub struct HandshakeInitV {
    pub port_id: Seq<char>,
    pub signer: Seq<char>,
}

/// What decoding a handshake completion yields.
#[verifier::ext_equal]
pub struct HandshakeAckV {
    pub port_id: Seq<char>,
    pub channel_id: Seq<char>,
    pub signer: Seq<char>,
}

/// What decoding a transfer yields.
#[verifier::ext_equal]
pub struct TransferV {
    pub source_port: Seq<char>,
    pub source_channel: Seq<char>,
}

/// What protobuf decoding of `MsgCreateClient` yields on these bytes.
pub uninterp spec fn create_client_of(value: Seq<u8>) -> Option<SignerOnlyV>;

/// What protobuf decoding of `MsgUpdateClient` yields on these bytes.
pub uninterp spec fn update_client_of(value: Seq<u8>) -> Option<UpdateClientV>;

/// What protobuf decoding of `MsgRecvPacket` yields on these bytes.
pub uninterp spec fn recv_packet_of(value: Seq<u8>) -> Option<PacketMsgV>;

/// What protobuf decoding of `MsgAcknowledgement` yields on these bytes.
pub uninterp spec fn acknowledgement_of(value: Seq<u8>) -> Option<PacketMsgV>;

/// What protobuf decoding of `MsgTimeout` yields on these bytes.
pub uninterp spec fn timeout_of(value: Seq<u8>) -> Option<PacketMsgV>;

/// What protobuf decoding of `MsgChannelOpenInit` yields on these bytes.
pub uninterp spec fn chan_open_init_of(value: Seq<u8>) -> Option<HandshakeInitV>;

/// What protobuf decoding of `MsgChannelOpenTry` yields on these bytes.
pub uninterp spec fn chan_open_try_of(value: Seq<u8>) -> Option<HandshakeInitV>;

/// What protobuf decoding of `MsgChannelOpenAck` yields on these bytes.
pub uninterp spec fn chan_open_ack_of(value: Seq<u8>) -> Option<HandshakeAckV>;

/// What protobuf decoding of `MsgChannelOpenConfirm` yields on these bytes.
pub uninterp spec fn chan_open_confirm_of(value: Seq<u8>) -> Option<HandshakeAckV>;

/// What protobuf decoding of `MsgTransfer` yields on these bytes.
pub uninterp spec fn transfer_of(value: Seq<u8>) -> Option<TransferV>;

/// Relies on prost decoding of ibc-proto's `MsgCreateClient`: the result
/// is a function of the bytes alone.
#[verifier::external_body]
fn decode_create_client(value: &[u8]) -> (r: Option<Msg>)
    ensures
        match r {
            Some(m) => (create_client_of(value@) matches Some(d) && m@ == (MsgV::CreateClient {
                signer: d.signer,
            })),
            None => create_client_of(value@) is None,
        },
{
    match ibc_proto::ibc::core::client::v1::MsgCreateClient::decode(value) {
        Ok(x) => Some(Msg::CreateClient { signer: x.signer }),
        Err(_) => None,
    }
}

/// Relies on prost decoding of ibc-proto's `MsgUpdateClient`: the result
/// is a function of the bytes alone.
#[verifier::external_body]
fn decode_update_client(value: &[u8]) -> (r: Option<Msg>)
    ensures
        match r {
            Some(m) => (update_client_of(value@) matches Some(d) && m@ == (MsgV::UpdateClient {
                client_id: d.client_id,
                signer: d.signer,
            })),
            None => update_client_of(value@) is None,
        },
{
    match ibc_proto::ibc::core::client::v1::MsgUpdateClient::decode(value) {
        Ok(x) => Some(Msg::UpdateClient { client_id: x.client_id, signer: x.signer }),
        Err(_) => None,
    }
}

/// Relies on prost decoding of ibc-proto's `MsgRecvPacket`: the result is
/// a function of the bytes alone.
#[verifier::external_body]
fn decode_recv_packet(value: &[u8]) -> (r: Option<Msg>)
    ensures
        match r {
            Some(m) => (recv_packet_of(value@) matches Some(d) && m@ == (MsgV::RecvPacket {
                packet: d.packet,
                signer: d.signer,
            })),
            None => recv_packet_of(value@) is None,
        },
{
    match ibc_proto::ibc::core::channel::v1::MsgRecvPacket::decode(value) {
        Ok(x) => Some(Msg::RecvPacket {
            packet: x.packet.map(|p| Packet {
                sequence: p.sequence,
                source_port: p.source_port,
                source_channel: p.source_channel,
                destination_port: p.destination_port,
                destination_channel: p.destination_channel,
            }),
            signer: x.signer,
        }),
        Err(_) => None,
    }
}

/// Relies on prost decoding of ibc-proto's `MsgAcknowledgement`: the
/// result is a function of the bytes alone.
#[verifier::external_body]
fn decode_acknowledgement(value: &[u8]) -> (r: Option<Msg>)
    ensures
        match r {
            Some(m) => (acknowledgement_of(value@) matches Some(d) && m@
                == (MsgV::Acknowledgement { packet: d.packet, signer: d.signer })),
            None => acknowledgement_of(value@) is None,
        },
{
    match ibc_proto::ibc::core::channel::v1::MsgAcknowledgement::decode(value) {
        Ok(x) => Some(Msg::Acknowledgement {
            packet: x.packet.map(|p| Packet {
                sequence: p.sequence,
                source_port: p.source_port,
                source_channel: p.source_channel,
                destination_port: p.destination_port,
                destination_channel: p.destination_channel,
            }),
            signer: x.signer,
        }),
        Err(_) => None,
    }
}

/// Relies on prost decoding of ibc-proto's `MsgTimeout`: the result is a
/// function of the bytes alone.
#[verifier::external_body]
fn decode_timeout(value: &[u8]) -> (r: Option<Msg>)
    ensures
        match r {
            Some(m) => (timeout_of(value@) matches Some(d) && m@ == (MsgV::Timeout {
                packet: d.packet,
                signer: d.signer,
            })),
            None => timeout_of(value@) is None,
        },
{
    match ibc_proto::ibc::core::channel::v1::MsgTimeout::decode(value) {
        Ok(x) => Some(Msg::Timeout {
            packet: x.packet.map(|p| Packet {
                sequence: p.sequence,
                source_port: p.source_port,
                source_channel: p.source_channel,
                destination_port: p.destination_port,
                destination_channel: p.destination_channel,
            }),
            signer: x.signer,
        }),
        Err(_) => None,
    }
}

/// Relies on prost decoding of ibc-proto's `MsgChannelOpenInit`: the
/// result is a function of the bytes alone.
#[verifier::external_body]
fn decode_chan_open_init(value: &[u8]) -> (r: Option<Msg>)
    ensures
        match r {
            Some(m) => (chan_open_init_of(value@) matches Some(d) && m@ == (MsgV::ChanOpenInit {
                port_id: d.port_id,
                signer: d.signer,
            })),
            None => chan_open_init_of(value@) is None,
        },
{
    match ibc_proto::ibc::core::channel::v1::MsgChannelOpenInit::decode(value) {
        Ok(x) => Some(Msg::ChanOpenInit { port_id: x.port_id, signer: x.signer }),
        Err(_) => None,
    }
}

/// Relies on prost decoding of ibc-proto's `MsgChannelOpenTry`: the
/// result is a function of the bytes alone.
#[verifier::external_body]
fn decode_chan_open_try(value: &[u8]) -> (r: Option<Msg>)
    ensures
        match r {
            Some(m) => (chan_open_try_of(value@) matches Some(d) && m@ == (MsgV::ChanOpenTry {
                port_id: d.port_id,
                signer: d.signer,
            })),
            None => chan_open_try_of(value@) is None,
        },
{
    match ibc_proto::ibc::core::channel::v1::MsgChannelOpenTry::decode(value) {
        Ok(x) => Some(Msg::ChanOpenTry { port_id: x.port_id, signer: x.signer }),
        Err(_) => None,
    }
}

/// Relies on prost decoding of ibc-proto's `MsgChannelOpenAck`: the
/// result is a function of the bytes alone.
#[verifier::external_body]
fn decode_chan_open_ack(value: &[u8]) -> (r: Option<Msg>)
    ensures
        match r {
            Some(m) => (chan_open_ack_of(value@) matches Some(d) && m@ == (MsgV::ChanOpenAck {
                port_id: d.port_id,
                channel_id: d.channel_id,
                signer: d.signer,
            })),
            None => chan_open_ack_of(value@) is None,
        },
{
    match ibc_proto::ibc::core::channel::v1::MsgChannelOpenAck::decode(value) {
        Ok(x) => Some(Msg::ChanOpenAck {
            port_id: x.port_id,
            channel_id: x.channel_id,
            signer: x.signer,
        }),
        Err(_) => None,
    }
}

/// Relies on prost decoding of ibc-proto's `MsgChannelOpenConfirm`: the
/// result is a function of the bytes alone.
#[verifier::external_body]
fn decode_chan_open_confirm(value: &[u8]) -> (r: Option<Msg>)
    ensures
        match r {
            Some(m) => (chan_open_confirm_of(value@) matches Some(d) && m@
                == (MsgV::ChanOpenConfirm {
                port_id: d.port_id,
                channel_id: d.channel_id,
                signer: d.signer,
            })),
            None => chan_open_confirm_of(value@) is None,
        },
{
    match ibc_proto::ibc::core::channel::v1::MsgChannelOpenConfirm::decode(value) {
        Ok(x) => Some(Msg::ChanOpenConfirm {
            port_id: x.port_id,
            channel_id: x.channel_id,
            signer: x.signer,
        }),
        Err(_) => None,
    }
}

/// Relies on prost decoding of ibc-proto's `MsgTransfer`: the result is a
/// function of the bytes alone.
#[verifier::external_body]
fn decode_transfer(value: &[u8]) -> (r: Option<Msg>)
    ensures
        match r {
            Some(m) => (transfer_of(value@) matches Some(d) && m@ == (MsgV::Transfer {
                source_port: d.source_port,
                source_channel: d.source_channel,
            })),
            None => transfer_of(value@) is None,
        },
{
    match ibc_proto::ibc::apps::transfer::v1::MsgTransfer::decode(value) {
        Ok(x) => Some(Msg::Transfer {
            source_port: x.source_port,
            source_channel: x.source_channel,
        }),
        Err(_) => None,
    }
}

impl MsgV {
    /// Every recognized variant is IBC; an unrecognized envelope is IBC
    /// exactly when its type URL starts with `/ibc`.
    pub open spec fn is_ibc(self) -> bool {
        match self {
            MsgV::Other { type_url, .. } => type_url.len() >= 4 && type_url.subrange(0, 4)
                == "/ibc"@,
            _ => true,
        }
    }

    /// The three packet-bearing messages, the only ones that enter
    /// reconciliation.
    pub open spec fn is_relevant(self) -> bool {
        self is RecvPacket || self is Acknowledgement || self is Timeout
    }

    /// The packet of a packet-bearing message, if it carries one.
    pub open spec fn packet(self) -> Option<PacketV> {
        match self {
            MsgV::RecvPacket { packet, .. } => packet,
            MsgV::Acknowledgement { packet, .. } => packet,
            MsgV::Timeout { packet, .. } => packet,
            _ => None,
        }
    }

    /// The submitting address: present on the client, packet-bearing and
    /// handshake variants, absent on transfers and unrecognized envelopes.
    pub open spec fn signer(self) -> Option<Seq<char>> {
        match self {
            MsgV::CreateClient { signer } => Some(signer),
            MsgV::UpdateClient { signer, .. } => Some(signer),
            MsgV::RecvPacket { signer, .. } => Some(signer),
            MsgV::Acknowledgement { signer, .. } => Some(signer),
            MsgV::Timeout { signer, .. } => Some(signer),
            MsgV::ChanOpenInit { signer, .. } => Some(signer),
            MsgV::ChanOpenTry { signer, .. } => Some(signer),
            MsgV::ChanOpenAck { signer, .. } => Some(signer),
            MsgV::ChanOpenConfirm { signer, .. } => Some(signer),
            MsgV::Transfer { .. } => None,
            MsgV::Other { .. } => None,
        }
    }
}

/// What classifying an envelope yields: by exact type URL, the decoded
/// variant, an error when a recognized URL's bytes do not decode, and
/// `Other` for every unrecognized URL.
pub open spec fn decode_spec(url: Seq<char>, value: Seq<u8>) -> Result<MsgV, MsgError> {
    if url == ("/ibc.core.client.v1.MsgCreateClient")@ {
        match create_client_of(value) {
            Some(d) => Ok(MsgV::CreateClient { signer: d.signer }),
            None => Err(MsgError::Malformed),
        }
    } else if url == ("/ibc.core.client.v1.MsgUpdateClient")@ {
        match update_client_of(value) {
            Some(d) => Ok(MsgV::UpdateClient { client_id: d.client_id, signer: d.signer }),
            None => Err(MsgError::Malformed),
        }
    } else if url == ("/ibc.core.channel.v1.MsgTimeout")@ {
        match timeout_of(value) {
            Some(d) => Ok(MsgV::Timeout { packet: d.packet, signer: d.signer }),
            None => Err(MsgError::Malformed),
        }
    } else if url == ("/ibc.core.channel.v1.MsgRecvPacket")@ {
        match recv_packet_of(value) {
            Some(d) => Ok(MsgV::RecvPacket { packet: d.packet, signer: d.signer }),
            None => Err(MsgError::Malformed),
        }
    } else if url == ("/ibc.core.channel.v1.MsgAcknowledgement")@ {
        match acknowledgement_of(value) {
            Some(d) => Ok(MsgV::Acknowledgement { packet: d.packet, signer: d.signer }),
            None => Err(MsgError::Malformed),
        }
    } else if url == ("/ibc.core.channel.v1.MsgChannelOpenInit")@ {
        match chan_open_init_of(value) {
            Some(d) => Ok(MsgV::ChanOpenInit { port_id: d.port_id, signer: d.signer }),
            None => Err(MsgError::Malformed),
        }
    } else if url == ("/ibc.core.channel.v1.MsgChannelOpenTry")@ {
        match chan_open_try_of(value) {
            Some(d) => Ok(MsgV::ChanOpenTry { port_id: d.port_id, signer: d.signer }),
            None => Err(MsgError::Malformed),
        }
    } else if url == ("/ibc.core.channel.v1.MsgChannelOpenAck")@ {
        match chan_open_ack_of(value) {
            Some(d) => Ok(
                MsgV::ChanOpenAck {
                    port_id: d.port_id,
                    channel_id: d.channel_id,
                    signer: d.signer,
                },
            ),
            None => Err(MsgError::Malformed),
        }
    } else if url == ("/ibc.core.channel.v1.MsgChannelOpenConfirm")@ {
        match chan_open_confirm_of(value) {
            Some(d) => Ok(
                MsgV::ChanOpenConfirm {
                    port_id: d.port_id,
                    channel_id: d.channel_id,
                    signer: d.signer,
                },
            ),
            None => Err(MsgError::Malformed),
        }
    } else if url == ("/ibc.applications.transfer.v1.MsgTransfer")@ {
        match transfer_of(value) {
            Some(d) => Ok(
                MsgV::Transfer {
                    source_port: d.source_port,
                    source_channel: d.source_channel,
                },
            ),
            None => Err(MsgError::Malformed),
        }
    } else {
        Ok(MsgV::Other { type_url: url, value: value })
    }
}

/// The view of a classification result.
pub open spec fn decode_result_view(r: Result<Msg, MsgError>) -> Result<MsgV, MsgError> {
    match r {
        Ok(m) => Ok(m@),
        Err(e) => Err(e),
    }
}

impl Msg {
    /// Classifies an envelope by its exact type URL.
    pub fn decode(msg: AnyMsg) -> (r: Result<Msg, MsgError>)
        ensures
            decode_result_view(r) == decode_spec(msg.type_url@, msg.value@),
    {
        let AnyMsg { type_url, value } = msg;
        if str_eq(type_url.as_str(), "/ibc.core.client.v1.MsgCreateClient") {
            match decode_create_client(value.as_slice()) {
                Some(m) => Ok(m),
                None => Err(MsgError::Malformed),
            }
        } else if str_eq(type_url.as_str(), "/ibc.core.client.v1.MsgUpdateClient") {
            match decode_update_client(value.as_slice()) {
                Some(m) => Ok(m),
                None => Err(MsgError::Malformed),
            }
        } else if str_eq(type_url.as_str(), "/ibc.core.channel.v1.MsgTimeout") {
            match decode_timeout(value.as_slice()) {
                Some(m) => Ok(m),
                None => Err(MsgError::Malformed),
            }
        } else if str_eq(type_url.as_str(), "/ibc.core.channel.v1.MsgRecvPacket") {
            match decode_recv_packet(value.as_slice()) {
                Some(m) => Ok(m),
                None => Err(MsgError::Malformed),
            }
        } else if str_eq(type_url.as_str(), "/ibc.core.channel.v1.MsgAcknowledgement") {
            match decode_acknowledgement(value.as_slice()) {
                Some(m) => Ok(m),
                None => Err(MsgError::Malformed),
            }
        } else if str_eq(type_url.as_str(), "/ibc.core.channel.v1.MsgChannelOpenInit") {
            match decode_chan_open_init(value.as_slice()) {
                Some(m) => Ok(m),
                None => Err(MsgError::Malformed),
            }
        } else if str_eq(type_url.as_str(), "/ibc.core.channel.v1.MsgChannelOpenTry") {
            match decode_chan_open_try(value.as_slice()) {
                Some(m) => Ok(m),
                None => Err(MsgError::Malformed),
            }
        } else if str_eq(type_url.as_str(), "/ibc.core.channel.v1.MsgChannelOpenAck") {
            match decode_chan_open_ack(value.as_slice()) {
                Some(m) => Ok(m),
                None => Err(MsgError::Malformed),
            }
        } else if str_eq(type_url.as_str(), "/ibc.core.channel.v1.MsgChannelOpenConfirm") {
            match decode_chan_open_confirm(value.as_slice()) {
                Some(m) => Ok(m),
                None => Err(MsgError::Malformed),
            }
        } else if str_eq(type_url.as_str(), "/ibc.applications.transfer.v1.MsgTransfer") {
            match decode_transfer(value.as_slice()) {
                Some(m) => Ok(m),
                None => Err(MsgError::Malformed),
            }
        } else {
            Ok(Msg::Other { type_url, value })
        }
    }

    /// True of every recognized variant; an unrecognized envelope is IBC
    /// exactly when its type URL starts with `/ibc`.
    pub fn is_ibc(&self) -> (r: bool)
        ensures
            r == self@.is_ibc(),
    {
        match self {
            Msg::Other { type_url, .. } => {
                let n = type_url.as_str().unicode_len();
                if n >= 4 {
                    str_eq(type_url.as_str().substring_char(0, 4), "/ibc")
                } else {
                    false
                }
            },
            _ => true,
        }
    }

    /// True exactly for the three packet-bearing messages.
    pub fn is_relevant(&self) -> (r: bool)
        ensures
            r == self@.is_relevant(),
    {
        match self {
            Msg::RecvPacket { .. } => true,
            Msg::Acknowledgement { .. } => true,
            Msg::Timeout { .. } => true,
            _ => false,
        }
    }

    /// The embedded packet of a packet-bearing message.
    pub fn packet(&self) -> (r: Option<&Packet>)
        ensures
            r is Some <==> self@.packet() is Some,
            r is Some ==> r->0@ == self@.packet()->0,
    {
        match self {
            Msg::RecvPacket { packet, .. } => packet.as_ref(),
            Msg::Acknowledgement { packet, .. } => packet.as_ref(),
            Msg::Timeout { packet, .. } => packet.as_ref(),
            _ => None,
        }
    }

    /// The submitting address, where the variant has one.
    pub fn signer(&self) -> (r: Option<&str>)
        ensures
            r is Some <==> self@.signer() is Some,
            r is Some ==> r->0@ == self@.signer()->0,
    {
        match self {
            Msg::CreateClient { signer } => Some(signer.as_str()),
            Msg::UpdateClient { signer, .. } => Some(signer.as_str()),
            Msg::RecvPacket { signer, .. } => Some(signer.as_str()),
            Msg::Acknowledgement { signer, .. } => Some(signer.as_str()),
            Msg::Timeout { signer, .. } => Some(signer.as_str()),
            Msg::ChanOpenInit { signer, .. } => Some(signer.as_str()),
            Msg::ChanOpenTry { signer, .. } => Some(signer.as_str()),
            Msg::ChanOpenAck { signer, .. } => Some(signer.as_str()),
            Msg::ChanOpenConfirm { signer, .. } => Some(signer.as_str()),
            Msg::Transfer { .. } => None,
            Msg::Other { .. } => None,
        }
    }

    /// A one-line description of the message for logging. A packet-bearing
    /// message must carry its packet.
    pub fn display_string(&self) -> (r: String)
        requires
            self@ is RecvPacket || self@ is Acknowledgement || self@ is Timeout ==> self@.packet()
                is Some,
        ensures
            r@ == display_view(self@),
    {
        match self {
            Msg::CreateClient { .. } => String::from_str("CreateClient"),
            Msg::UpdateClient { client_id, .. } => {
                let mut s = String::from_str("UpdateClient: ");
                s.append(client_id.as_str());
                s
            },
            Msg::RecvPacket { packet, .. } => {
                let p = packet.as_ref().unwrap();
                let mut s = String::from_str("RecvPacket: ");
                s.append(p.source_channel.as_str());
                s.append(" -> ");
                s.append(p.destination_channel.as_str());
                s
            },
            Msg::Timeout { packet, .. } => {
                let p = packet.as_ref().unwrap();
                let mut s = String::from_str("Timeout: ");
                s.append(p.source_channel.as_str());
                s.append(" -> ");
                s.append(p.destination_channel.as_str());
                s
            },
            Msg::Acknowledgement { packet, .. } => {
                let p = packet.as_ref().unwrap();
                let mut s = String::from_str("Acknowledgement: ");
                s.append(p.source_channel.as_str());
                s.append(" -> ");
                s.append(p.destination_channel.as_str());
                s
            },
            Msg::ChanOpenInit { port_id, .. } => {
                let mut s = String::from_str("ChanOpenInit: ");
                s.append(port_id.as_str());
                s
            },
            Msg::ChanOpenTry { port_id, .. } => {
                let mut s = String::from_str("ChanOpenTry: ");
                s.append(port_id.as_str());
                s
            },
            Msg::ChanOpenAck { port_id, channel_id, .. } => {
                let mut s = String::from_str("ChanOpenAck: ");
                s.append(channel_id.as_str());
                s.append("/");
                s.append(port_id.as_str());
                s
            },
            Msg::ChanOpenConfirm { port_id, channel_id, .. } => {
                let mut s = String::from_str("ChanOpenConfirm: ");
                s.append(channel_id.as_str());
                s.append("/");
                s.append(port_id.as_str());
                s
            },
            Msg::Transfer { source_port, source_channel } => {
                let mut s = String::from_str("Transfer: ");
                s.append(source_channel.as_str());
                s.append("/");
                s.append(source_port.as_str());
                s
            },
            Msg::Other { type_url, .. } => {
                let mut s = String::from_str("Unhandled msg: ");
                s.append(type_url.as_str());
                s
            },
        }
    }
}

/// What [`Msg::display_string`] yields.
pub open spec fn display_view(m: MsgV) -> Seq<char> {
    match m {
        MsgV::CreateClient { .. } => ("CreateClient")@,
        MsgV::UpdateClient { client_id, .. } => ("UpdateClient: ")@ + client_id,
        MsgV::RecvPacket { packet, .. } => ("RecvPacket: ")@ + packet->0.source_channel + (
        " -> ")@ + packet->0.destination_channel,
        MsgV::Timeout { packet, .. } => ("Timeout: ")@ + packet->0.source_channel + (" -> ")@
            + packet->0.destination_channel,
        MsgV::Acknowledgement { packet, .. } => ("Acknowledgement: ")@ + packet->0.source_channel
            + (" -> ")@ + packet->0.destination_channel,
        MsgV::ChanOpenInit { port_id, .. } => ("ChanOpenInit: ")@ + port_id,
        MsgV::ChanOpenTry { port_id, .. } => ("ChanOpenTry: ")@ + port_id,
        MsgV::ChanOpenAck { port_id, channel_id, .. } => ("ChanOpenAck: ")@ + channel_id + ("/")@
            + port_id,
        MsgV::ChanOpenConfirm { port_id, channel_id, .. } => ("ChanOpenConfirm: ")@ + channel_id
            + ("/")@ + port_id,
        MsgV::Transfer { source_port, source_channel } => ("Transfer: ")@ + source_channel + (
        "/")@ + source_port,
        MsgV::Other { type_url, .. } => ("Unhandled msg: ")@ + type_url,
    }
}

} // verus!
