use vstd::prelude::*;

use crate::commitment::{
    parse_raw_at, parse_u32_at, parse_u64_at, parse_u8_at, spec_parse_raw, spec_parse_u32,
    spec_parse_u64, spec_parse_u8,
};
use crate::errors::MonitorError;

verus! {

broadcast use crate::crypto::lemma_vec_u8_deep_view;

// ---------------------------------------------------------------------------
// The event monitor's decoder: a closed set of chain-native event kinds is
// mapped to canonical protocol events with extracted attributes. Unknown
// kinds decode to an empty batch; a malformed payload for a known kind
// fails, dropping only that one event's batch.
// ---------------------------------------------------------------------------

/// The closed set of chain-native event kinds, with an explicit fallback
/// for everything else.
#[derive(Clone, Copy, Debug, PartialEq, Eq, Structural)]
pub enum EventKind {
    CreateClient,
    UpdateClient,
    ClientMisbehaviour,
    OpenInitConnection,
    OpenTryConnection,
    OpenAckConnection,
    OpenConfirmConnection,
    OpenInitChannel,
    OpenTryChannel,
    OpenAckChannel,
    OpenConfirmChannel,
    CloseInitChannel,
    CloseConfirmChannel,
    SendPacket,
    ReceivePacket,
    WriteAcknowledgement,
    AcknowledgePacket,
    TimeoutPacket,
    TimeoutOnClosePacket,
    AppModule,
    ChainError,
    ExtrinsicSuccess,
    Unknown,
}

/// Which kind a chain-native variant name means.
pub open spec fn spec_event_kind(variant: Seq<char>) -> EventKind {
    if variant == "CreateClient"@ {
        EventKind::CreateClient
    } else if variant == "UpdateClient"@ {
        EventKind::UpdateClient
    } else if variant == "ClientMisbehaviour"@ {
        EventKind::ClientMisbehaviour
    } else if variant == "OpenInitConnection"@ {
        EventKind::OpenInitConnection
    } else if variant == "OpenTryConnection"@ {
        EventKind::OpenTryConnection
    } else if variant == "OpenAckConnection"@ {
        EventKind::OpenAckConnection
    } else if variant == "OpenConfirmConnection"@ {
        EventKind::OpenConfirmConnection
    } else if variant == "OpenInitChannel"@ {
        EventKind::OpenInitChannel
    } else if variant == "OpenTryChannel"@ {
        EventKind::OpenTryChannel
    } else if variant == "OpenAckChannel"@ {
        EventKind::OpenAckChannel
    } else if variant == "OpenConfirmChannel"@ {
        EventKind::OpenConfirmChannel
    } else if variant == "CloseInitChannel"@ {
        EventKind::CloseInitChannel
    } else if variant == "CloseConfirmChannel"@ {
        EventKind::CloseConfirmChannel
    } else if variant == "SendPacket"@ {
        EventKind::SendPacket
    } else if variant == "ReceivePacket"@ {
        EventKind::ReceivePacket
    } else if variant == "WriteAcknowledgement"@ {
        EventKind::WriteAcknowledgement
    } else if variant == "AcknowledgePacket"@ {
        EventKind::AcknowledgePacket
    } else if variant == "TimeoutPacket"@ {
        EventKind::TimeoutPacket
    } else if variant == "TimeoutOnClosePacket"@ {
        EventKind::TimeoutOnClosePacket
    } else if variant == "AppModule"@ {
        EventKind::AppModule
    } else if variant == "ChainError"@ {
        EventKind::ChainError
    } else if variant == "ExtrinsicSuccess"@ {
        EventKind::ExtrinsicSuccess
    } else {
        EventKind::Unknown
    }
}

/// Classify a chain-native variant name.
pub fn event_kind_of(variant: &String) -> (k: EventKind)
    ensures
        k == spec_event_kind(variant@),
{
    if *variant == ("CreateClient".to_owned()) {
        EventKind::CreateClient
    } else if *variant == ("UpdateClient".to_owned()) {
        EventKind::UpdateClient
    } else if *variant == ("ClientMisbehaviour".to_owned()) {
        EventKind::ClientMisbehaviour
    } else if *variant == ("OpenInitConnection".to_owned()) {
        EventKind::OpenInitConnection
    } else if *variant == ("OpenTryConnection".to_owned()) {
        EventKind::OpenTryConnection
    } else if *variant == ("OpenAckConnection".to_owned()) {
        EventKind::OpenAckConnection
    } else if *variant == ("OpenConfirmConnection".to_owned()) {
        EventKind::OpenConfirmConnection
    } else if *variant == ("OpenInitChannel".to_owned()) {
        EventKind::OpenInitChannel
    } else if *variant == ("OpenTryChannel".to_owned()) {
        EventKind::OpenTryChannel
    } else if *variant == ("OpenAckChannel".to_owned()) {
        EventKind::OpenAckChannel
    } else if *variant == ("OpenConfirmChannel".to_owned()) {
        EventKind::OpenConfirmChannel
    } else if *variant == ("CloseInitChannel".to_owned()) {
        EventKind::CloseInitChannel
    } else if *variant == ("CloseConfirmChannel".to_owned()) {
        EventKind::CloseConfirmChannel
    } else if *variant == ("SendPacket".to_owned()) {
        EventKind::SendPacket
    } else if *variant == ("ReceivePacket".to_owned()) {
        EventKind::ReceivePacket
    } else if *variant == ("WriteAcknowledgement".to_owned()) {
        EventKind::WriteAcknowledgement
    } else if *variant == ("AcknowledgePacket".to_owned()) {
        EventKind::AcknowledgePacket
    } else if *variant == ("TimeoutPacket".to_owned()) {
        EventKind::TimeoutPacket
    } else if *variant == ("TimeoutOnClosePacket".to_owned()) {
        EventKind::TimeoutOnClosePacket
    } else if *variant == ("AppModule".to_owned()) {
        EventKind::AppModule
    } else if *variant == ("ChainError".to_owned()) {
        EventKind::ChainError
    } else if *variant == ("ExtrinsicSuccess".to_owned()) {
        EventKind::ExtrinsicSuccess
    } else {
        EventKind::Unknown
    }
}

/// A raw runtime event as the subscription hands it out: the pallet
/// variant's name and the undecoded payload bytes.
#[derive(Clone, Debug, PartialEq, Eq)]
pub struct RawEvent {
    pub variant: String,
    pub data: Vec<u8>,
}

/// Mathematical model of a `RawEvent`.
pub struct RawEventV {
    pub variant: Seq<char>,
    pub data: Seq<u8>,
}

impl DeepView for RawEvent {
    type V = RawEventV;

    open spec fn deep_view(&self) -> RawEventV {
        RawEventV { variant: self.variant@, data: self.data@ }
    }
}

impl View for RawEvent {
    type V = RawEventV;

    open spec fn view(&self) -> RawEventV {
        self.deep_view()
    }
}

// ---------------------------------------------------------------------------
// Canonical event attributes, one group per family of kinds.
// ---------------------------------------------------------------------------

/// Attributes of the client events.
#[derive(Clone, Debug, PartialEq, Eq)]
pub struct ClientEventData {
    pub client_id: Vec<u8>,
    pub client_type: Vec<u8>,
    pub consensus_height: u64,
}

/// Mathematical model of a `ClientEventData`.
pub struct ClientEventDataV {
    pub client_id: Seq<u8>,
    pub client_type: Seq<u8>,
    pub consensus_height: u64,
}

impl DeepView for ClientEventData {
    type V = ClientEventDataV;

    open spec fn deep_view(&self) -> ClientEventDataV {
        ClientEventDataV {
            client_id: self.client_id@,
            client_type: self.client_type@,
            consensus_height: self.consensus_height,
        }
    }
}

/// Attributes of the connection handshake events.
#[derive(Clone, Debug, PartialEq, Eq)]
pub struct ConnectionEventData {
    pub connection_id: Option<Vec<u8>>,
    pub client_id: Vec<u8>,
    pub counterparty_connection_id: Option<Vec<u8>>,
    pub counterparty_client_id: Vec<u8>,
}

/// Mathematical model of a `ConnectionEventData`.
pub struct ConnectionEventDataV {
    pub connection_id: Option<Seq<u8>>,
    pub client_id: Seq<u8>,
    pub counterparty_connection_id: Option<Seq<u8>>,
    pub counterparty_client_id: Seq<u8>,
}

impl DeepView for ConnectionEventData {
    type V = ConnectionEventDataV;

    open spec fn deep_view(&self) -> ConnectionEventDataV {
        ConnectionEventDataV {
            connection_id: self.connection_id.deep_view(),
            client_id: self.client_id@,
            counterparty_connection_id: self.counterparty_connection_id.deep_view(),
            counterparty_client_id: self.counterparty_client_id@,
        }
    }
}

/// Attributes of the channel handshake and close events.
#[derive(Clone, Debug, PartialEq, Eq)]
pub struct ChannelEventData {
    pub port_id: Vec<u8>,
    pub channel_id: Option<Vec<u8>>,
    pub connection_id: Vec<u8>,
    pub counterparty_port_id: Vec<u8>,
    pub counterparty_channel_id: Option<Vec<u8>>,
}

/// Mathematical model of a `ChannelEventData`.
pub struct ChannelEventDataV {
    pub port_id: Seq<u8>,
    pub channel_id: Option<Seq<u8>>,
    pub connection_id: Seq<u8>,
    pub counterparty_port_id: Seq<u8>,
    pub counterparty_channel_id: Option<Seq<u8>>,
}

impl DeepView for ChannelEventData {
    type V = ChannelEventDataV;

    open spec fn deep_view(&self) -> ChannelEventDataV {
        ChannelEventDataV {
            port_id: self.port_id@,
            channel_id: self.channel_id.deep_view(),
            connection_id: self.connection_id@,
            counterparty_port_id: self.counterparty_port_id@,
            counterparty_channel_id: self.counterparty_channel_id.deep_view(),
        }
    }
}

/// Attributes of the packet events.
#[derive(Clone, Debug, PartialEq, Eq)]
pub struct PacketEventData {
    pub sequence: u64,
    pub source_port: Vec<u8>,
    pub source_channel: Vec<u8>,
    pub destination_port: Vec<u8>,
    pub destination_channel: Vec<u8>,
    pub data: Vec<u8>,
    pub timeout_height: u64,
    pub timeout_timestamp: u64,
}

/// Mathematical model of a `PacketEventData`.
pub struct PacketEventDataV {
    pub sequence: u64,
    pub source_port: Seq<u8>,
    pub source_channel: Seq<u8>,
    pub destination_port: Seq<u8>,
    pub destination_channel: Seq<u8>,
    pub data: Seq<u8>,
    pub timeout_height: u64,
    pub timeout_timestamp: u64,
}

impl DeepView for PacketEventData {
    type V = PacketEventDataV;

    open spec fn deep_view(&self) -> PacketEventDataV {
        PacketEventDataV {
            sequence: self.sequence,
            source_port: self.source_port@,
            source_channel: self.source_channel@,
            destination_port: self.destination_port@,
            destination_channel: self.destination_channel@,
            data: self.data@,
            timeout_height: self.timeout_height,
            timeout_timestamp: self.timeout_timestamp,
        }
    }
}

/// Attributes of a module/app event.
#[derive(Clone, Debug, PartialEq, Eq)]
pub struct ModuleEventData {
    pub kind_text: Vec<u8>,
    pub module_name: Vec<u8>,
}

/// Mathematical model of a `ModuleEventData`.
pub struct ModuleEventDataV {
    pub kind_text: Seq<u8>,
    pub module_name: Seq<u8>,
}

impl DeepView for ModuleEventData {
    type V = ModuleEventDataV;

    open spec fn deep_view(&self) -> ModuleEventDataV {
        ModuleEventDataV { kind_text: self.kind_text@, module_name: self.module_name@ }
    }
}

/// A canonical protocol event.
#[derive(Clone, Debug, PartialEq, Eq)]
pub enum IbcEvent {
    CreateClient(ClientEventData),
    UpdateClient(ClientEventData),
    ClientMisbehaviour(ClientEventData),
    OpenInitConnection(ConnectionEventData),
    OpenTryConnection(ConnectionEventData),
    OpenAckConnection(ConnectionEventData),
    OpenConfirmConnection(ConnectionEventData),
    OpenInitChannel(ChannelEventData),
    OpenTryChannel(ChannelEventData),
    OpenAckChannel(ChannelEventData),
    OpenConfirmChannel(ChannelEventData),
    CloseInitChannel(ChannelEventData),
    CloseConfirmChannel(ChannelEventData),
    SendPacket(PacketEventData),
    ReceivePacket(PacketEventData),
    WriteAcknowledgement(PacketEventData, Vec<u8>),
    AcknowledgePacket(PacketEventData),
    TimeoutPacket(PacketEventData),
    TimeoutOnClosePacket(PacketEventData),
    AppModule(ModuleEventData),
    ChainError(Vec<u8>),
    NewBlock(u64),
}

/// Mathematical model of an `IbcEvent`.
pub enum IbcEventV {
    CreateClient(ClientEventDataV),
    UpdateClient(ClientEventDataV),
    ClientMisbehaviour(ClientEventDataV),
    OpenInitConnection(ConnectionEventDataV),
    OpenTryConnection(ConnectionEventDataV),
    OpenAckConnection(ConnectionEventDataV),
    OpenConfirmConnection(ConnectionEventDataV),
    OpenInitChannel(ChannelEventDataV),
    OpenTryChannel(ChannelEventDataV),
    OpenAckChannel(ChannelEventDataV),
    OpenConfirmChannel(ChannelEventDataV),
    CloseInitChannel(ChannelEventDataV),
    CloseConfirmChannel(ChannelEventDataV),
    SendPacket(PacketEventDataV),
    ReceivePacket(PacketEventDataV),
    WriteAcknowledgement(PacketEventDataV, Seq<u8>),
    AcknowledgePacket(PacketEventDataV),
    TimeoutPacket(PacketEventDataV),
    TimeoutOnClosePacket(PacketEventDataV),
    AppModule(ModuleEventDataV),
    ChainError(Seq<u8>),
    NewBlock(u64),
}

impl DeepView for IbcEvent {
    type V = IbcEventV;

    open spec fn deep_view(&self) -> IbcEventV {
        match self {
            IbcEvent::CreateClient(d) => IbcEventV::CreateClient(d.deep_view()),
            IbcEvent::UpdateClient(d) => IbcEventV::UpdateClient(d.deep_view()),
            IbcEvent::ClientMisbehaviour(d) => IbcEventV::ClientMisbehaviour(d.deep_view()),
            IbcEvent::OpenInitConnection(d) => IbcEventV::OpenInitConnection(d.deep_view()),
            IbcEvent::OpenTryConnection(d) => IbcEventV::OpenTryConnection(d.deep_view()),
            IbcEvent::OpenAckConnection(d) => IbcEventV::OpenAckConnection(d.deep_view()),
            IbcEvent::OpenConfirmConnection(d) => IbcEventV::OpenConfirmConnection(d.deep_view()),
            IbcEvent::OpenInitChannel(d) => IbcEventV::OpenInitChannel(d.deep_view()),
            IbcEvent::OpenTryChannel(d) => IbcEventV::OpenTryChannel(d.deep_view()),
            IbcEvent::OpenAckChannel(d) => IbcEventV::OpenAckChannel(d.deep_view()),
            IbcEvent::OpenConfirmChannel(d) => IbcEventV::OpenConfirmChannel(d.deep_view()),
            IbcEvent::CloseInitChannel(d) => IbcEventV::CloseInitChannel(d.deep_view()),
            IbcEvent::CloseConfirmChannel(d) => IbcEventV::CloseConfirmChannel(d.deep_view()),
            IbcEvent::SendPacket(d) => IbcEventV::SendPacket(d.deep_view()),
            IbcEvent::ReceivePacket(d) => IbcEventV::ReceivePacket(d.deep_view()),
            IbcEvent::WriteAcknowledgement(d, a) => IbcEventV::WriteAcknowledgement(
                d.deep_view(),
                a@,
            ),
            IbcEvent::AcknowledgePacket(d) => IbcEventV::AcknowledgePacket(d.deep_view()),
            IbcEvent::TimeoutPacket(d) => IbcEventV::TimeoutPacket(d.deep_view()),
            IbcEvent::TimeoutOnClosePacket(d) => IbcEventV::TimeoutOnClosePacket(d.deep_view()),
            IbcEvent::AppModule(d) => IbcEventV::AppModule(d.deep_view()),
            IbcEvent::ChainError(t) => IbcEventV::ChainError(t@),
            IbcEvent::NewBlock(h) => IbcEventV::NewBlock(*h),
        }
    }
}

impl View for IbcEvent {
    type V = IbcEventV;

    open spec fn view(&self) -> IbcEventV {
        self.deep_view()
    }
}

// ---------------------------------------------------------------------------
// The canonical attribute layout: little-endian integers of fixed width,
// byte strings length-prefixed with 4 bytes, optional byte strings behind
// a presence byte, and nothing after the last field.
// ---------------------------------------------------------------------------

pub open spec fn spec_parse_bytes_field(s: Seq<u8>) -> Option<(Seq<u8>, Seq<u8>)> {
    match spec_parse_u32(s) {
        None => None,
        Some((n, r)) => spec_parse_raw(r, n as int),
    }
}

pub open spec fn spec_parse_opt_bytes_field(s: Seq<u8>) -> Option<(Option<Seq<u8>>, Seq<u8>)> {
    match spec_parse_u8(s) {
        None => None,
        Some((tag, r)) => if tag == 0 {
            Some((None, r))
        } else if tag == 1 {
            match spec_parse_bytes_field(r) {
                None => None,
                Some((b, r2)) => Some((Some(b), r2)),
            }
        } else {
            None
        },
    }
}

fn parse_bytes_field_at(b: &Vec<u8>, pos: usize) -> (r: Result<(Vec<u8>, usize), MonitorError>)
    requires
        pos <= b@.len(),
    ensures
        match r {
            Ok((v, p2)) => {
                &&& spec_parse_bytes_field(b@.skip(pos as int)) == Some((v@, b@.skip(p2 as int)))
                &&& pos <= p2 <= b@.len()
            },
            Err(e) => spec_parse_bytes_field(b@.skip(pos as int)) is None && e
                == MonitorError::InvalidCodecDecode,
        },
{
    let (n, pos1) = match parse_u32_at(b, pos) {
        Ok(x) => x,
        Err(_) => {
            return Err(MonitorError::InvalidCodecDecode);
        },
    };
    match parse_raw_at(b, pos1, n as usize) {
        Ok(x) => Ok(x),
        Err(_) => Err(MonitorError::InvalidCodecDecode),
    }
}

fn parse_opt_bytes_field_at(b: &Vec<u8>, pos: usize) -> (r: Result<
    (Option<Vec<u8>>, usize),
    MonitorError,
>)
    requires
        pos <= b@.len(),
    ensures
        match r {
            Ok((v, p2)) => {
                &&& spec_parse_opt_bytes_field(b@.skip(pos as int)) == Some(
                    (v.deep_view(), b@.skip(p2 as int)),
                )
                &&& pos <= p2 <= b@.len()
            },
            Err(e) => spec_parse_opt_bytes_field(b@.skip(pos as int)) is None && e
                == MonitorError::InvalidCodecDecode,
        },
{
    let (tag, pos1) = match parse_u8_at(b, pos) {
        Ok(x) => x,
        Err(_) => {
            return Err(MonitorError::InvalidCodecDecode);
        },
    };
    if tag == 0 {
        Ok((None, pos1))
    } else if tag == 1 {
        match parse_bytes_field_at(b, pos1) {
            Ok((v, p2)) => Ok((Some(v), p2)),
            Err(e) => Err(e),
        }
    } else {
        Err(MonitorError::InvalidCodecDecode)
    }
}

pub open spec fn spec_parse_client_event(s: Seq<u8>) -> Option<(u64, ClientEventDataV)> {
    match spec_parse_u64(s) {
        None => None,
        Some((height, r1)) => match spec_parse_bytes_field(r1) {
            None => None,
            Some((client_id, r2)) => match spec_parse_bytes_field(r2) {
                None => None,
                Some((client_type, r3)) => match spec_parse_u64(r3) {
                    None => None,
                    Some((consensus_height, r4)) => if r4.len() == 0 {
                        Some((height, ClientEventDataV { client_id, client_type, consensus_height }))
                    } else {
                        None
                    },
                },
            },
        },
    }
}

fn parse_client_event(data: &Vec<u8>) -> (r: Result<(u64, ClientEventData), MonitorError>)
    ensures
        match r {
            Ok((h, d)) => spec_parse_client_event(data@) == Some((h, d.deep_view())),
            Err(e) => spec_parse_client_event(data@) is None && e
                == MonitorError::InvalidCodecDecode,
        },
{
    proof {
        assert(data@.skip(0) =~= data@);
    }
    let (height, p1) = match parse_u64_at(data, 0) {
        Ok(x) => x,
        Err(_) => {
            return Err(MonitorError::InvalidCodecDecode);
        },
    };
    let (client_id, p2) = match parse_bytes_field_at(data, p1) {
        Ok(x) => x,
        Err(e) => {
            return Err(e);
        },
    };
    let (client_type, p3) = match parse_bytes_field_at(data, p2) {
        Ok(x) => x,
        Err(e) => {
            return Err(e);
        },
    };
    let (consensus_height, p4) = match parse_u64_at(data, p3) {
        Ok(x) => x,
        Err(_) => {
            return Err(MonitorError::InvalidCodecDecode);
        },
    };
    if p4 != data.len() {
        return Err(MonitorError::InvalidCodecDecode);
    }
    Ok((height, ClientEventData { client_id, client_type, consensus_height }))
}

pub open spec fn spec_parse_connection_event(s: Seq<u8>) -> Option<(u64, ConnectionEventDataV)> {
    match spec_parse_u64(s) {
        None => None,
        Some((height, r1)) => match spec_parse_opt_bytes_field(r1) {
            None => None,
            Some((connection_id, r2)) => match spec_parse_bytes_field(r2) {
                None => None,
                Some((client_id, r3)) => match spec_parse_opt_bytes_field(r3) {
                    None => None,
                    Some((counterparty_connection_id, r4)) => match spec_parse_bytes_field(r4) {
                        None => None,
                        Some((counterparty_client_id, r5)) => if r5.len() == 0 {
                            Some(
                                (
                                    height,
                                    ConnectionEventDataV {
                                        connection_id,
                                        client_id,
                                        counterparty_connection_id,
                                        counterparty_client_id,
                                    },
                                ),
                            )
                        } else {
                            None
                        },
                    },
                },
            },
        },
    }
}

fn parse_connection_event(data: &Vec<u8>) -> (r: Result<(u64, ConnectionEventData), MonitorError>)
    ensures
        match r {
            Ok((h, d)) => spec_parse_connection_event(data@) == Some((h, d.deep_view())),
            Err(e) => spec_parse_connection_event(data@) is None && e
                == MonitorError::InvalidCodecDecode,
        },
{
    proof {
        assert(data@.skip(0) =~= data@);
    }
    let (height, p1) = match parse_u64_at(data, 0) {
        Ok(x) => x,
        Err(_) => {
            return Err(MonitorError::InvalidCodecDecode);
        },
    };
    let (connection_id, p2) = match parse_opt_bytes_field_at(data, p1) {
        Ok(x) => x,
        Err(e) => {
            return Err(e);
        },
    };
    let (client_id, p3) = match parse_bytes_field_at(data, p2) {
        Ok(x) => x,
        Err(e) => {
            return Err(e);
        },
    };
    let (counterparty_connection_id, p4) = match parse_opt_bytes_field_at(data, p3) {
        Ok(x) => x,
        Err(e) => {
            return Err(e);
        },
    };
    let (counterparty_client_id, p5) = match parse_bytes_field_at(data, p4) {
        Ok(x) => x,
        Err(e) => {
            return Err(e);
        },
    };
    if p5 != data.len() {
        return Err(MonitorError::InvalidCodecDecode);
    }
    Ok(
        (
            height,
            ConnectionEventData {
                connection_id,
                client_id,
                counterparty_connection_id,
                counterparty_client_id,
            },
        ),
    )
}

pub open spec fn spec_parse_channel_event(s: Seq<u8>) -> Option<(u64, ChannelEventDataV)> {
    match spec_parse_u64(s) {
        None => None,
        Some((height, r1)) => match spec_parse_bytes_field(r1) {
            None => None,
            Some((port_id, r2)) => match spec_parse_opt_bytes_field(r2) {
                None => None,
                Some((channel_id, r3)) => match spec_parse_bytes_field(r3) {
                    None => None,
                    Some((connection_id, r4)) => match spec_parse_bytes_field(r4) {
                        None => None,
                        Some((counterparty_port_id, r5)) => match spec_parse_opt_bytes_field(r5) {
                            None => None,
                            Some((counterparty_channel_id, r6)) => if r6.len() == 0 {
                                Some(
                                    (
                                        height,
                                        ChannelEventDataV {
                                            port_id,
                                            channel_id,
                                            connection_id,
                                            counterparty_port_id,
                                            counterparty_channel_id,
                                        },
                                    ),
                                )
                            } else {
                                None
                            },
                        },
                    },
                },
            },
        },
    }
}

fn parse_channel_event(data: &Vec<u8>) -> (r: Result<(u64, ChannelEventData), MonitorError>)
    ensures
        match r {
            Ok((h, d)) => spec_parse_channel_event(data@) == Some((h, d.deep_view())),
            Err(e) => spec_parse_channel_event(data@) is None && e
                == MonitorError::InvalidCodecDecode,
        },
{
    proof {
        assert(data@.skip(0) =~= data@);
    }
    let (height, p1) = match parse_u64_at(data, 0) {
        Ok(x) => x,
        Err(_) => {
            return Err(MonitorError::InvalidCodecDecode);
        },
    };
    let (port_id, p2) = match parse_bytes_field_at(data, p1) {
        Ok(x) => x,
        Err(e) => {
            return Err(e);
        },
    };
    let (channel_id, p3) = match parse_opt_bytes_field_at(data, p2) {
        Ok(x) => x,
        Err(e) => {
            return Err(e);
        },
    };
    let (connection_id, p4) = match parse_bytes_field_at(data, p3) {
        Ok(x) => x,
        Err(e) => {
            return Err(e);
        },
    };
    let (counterparty_port_id, p5) = match parse_bytes_field_at(data, p4) {
        Ok(x) => x,
        Err(e) => {
            return Err(e);
        },
    };
    let (counterparty_channel_id, p6) = match parse_opt_bytes_field_at(data, p5) {
        Ok(x) => x,
        Err(e) => {
            return Err(e);
        },
    };
    if p6 != data.len() {
        return Err(MonitorError::InvalidCodecDecode);
    }
    Ok(
        (
            height,
            ChannelEventData {
                port_id,
                channel_id,
                connection_id,
                counterparty_port_id,
                counterparty_channel_id,
            },
        ),
    )
}

pub open spec fn spec_parse_packet_fields(s: Seq<u8>) -> Option<(u64, PacketEventDataV, Seq<u8>)> {
    match spec_parse_u64(s) {
        None => None,
        Some((height, r1)) => match spec_parse_u64(r1) {
            None => None,
            Some((sequence, r2)) => match spec_parse_bytes_field(r2) {
                None => None,
                Some((source_port, r3)) => match spec_parse_bytes_field(r3) {
                    None => None,
                    Some((source_channel, r4)) => match spec_parse_bytes_field(r4) {
                        None => None,
                        Some((destination_port, r5)) => match spec_parse_bytes_field(r5) {
                            None => None,
                            Some((destination_channel, r6)) => match spec_parse_bytes_field(r6) {
                                None => None,
                                Some((data, r7)) => match spec_parse_u64(r7) {
                                    None => None,
                                    Some((timeout_height, r8)) => match spec_parse_u64(r8) {
                                        None => None,
                                        Some((timeout_timestamp, r9)) => Some(
                                            (
                                                height,
                                                PacketEventDataV {
                                                    sequence,
                                                    source_port,
                                                    source_channel,
                                                    destination_port,
                                                    destination_channel,
                                                    data,
                                                    timeout_height,
                                                    timeout_timestamp,
                                                },
                                                r9,
                                            ),
                                        ),
                                    },
                                },
                            },
                        },
                    },
                },
            },
        },
    }
}

pub open spec fn spec_parse_packet_event(s: Seq<u8>) -> Option<(u64, PacketEventDataV)> {
    match spec_parse_packet_fields(s) {
        None => None,
        Some((height, d, rest)) => if rest.len() == 0 {
            Some((height, d))
        } else {
            None
        },
    }
}

pub open spec fn spec_parse_write_ack_event(s: Seq<u8>) -> Option<(u64, PacketEventDataV, Seq<u8>)> {
    match spec_parse_packet_fields(s) {
        None => None,
        Some((height, d, rest)) => match spec_parse_bytes_field(rest) {
            None => None,
            Some((ack, r2)) => if r2.len() == 0 {
                Some((height, d, ack))
            } else {
                None
            },
        },
    }
}

fn parse_packet_fields(data: &Vec<u8>) -> (r: Result<(u64, PacketEventData, usize), MonitorError>)
    ensures
        match r {
            Ok((h, d, p)) => {
                &&& spec_parse_packet_fields(data@) == Some((h, d.deep_view(), data@.skip(p as int)))
                &&& p <= data@.len()
            },
            Err(e) => spec_parse_packet_fields(data@) is None && e
                == MonitorError::InvalidCodecDecode,
        },
{
    proof {
        assert(data@.skip(0) =~= data@);
    }
    let (height, p1) = match parse_u64_at(data, 0) {
        Ok(x) => x,
        Err(_) => {
            return Err(MonitorError::InvalidCodecDecode);
        },
    };
    let (sequence, p2) = match parse_u64_at(data, p1) {
        Ok(x) => x,
        Err(_) => {
            return Err(MonitorError::InvalidCodecDecode);
        },
    };
    let (source_port, p3) = match parse_bytes_field_at(data, p2) {
        Ok(x) => x,
        Err(e) => {
            return Err(e);
        },
    };
    let (source_channel, p4) = match parse_bytes_field_at(data, p3) {
        Ok(x) => x,
        Err(e) => {
            return Err(e);
        },
    };
    let (destination_port, p5) = match parse_bytes_field_at(data, p4) {
        Ok(x) => x,
        Err(e) => {
            return Err(e);
        },
    };
    let (destination_channel, p6) = match parse_bytes_field_at(data, p5) {
        Ok(x) => x,
        Err(e) => {
            return Err(e);
        },
    };
    let (pdata, p7) = match parse_bytes_field_at(data, p6) {
        Ok(x) => x,
        Err(e) => {
            return Err(e);
        },
    };
    let (timeout_height, p8) = match parse_u64_at(data, p7) {
        Ok(x) => x,
        Err(_) => {
            return Err(MonitorError::InvalidCodecDecode);
        },
    };
    let (timeout_timestamp, p9) = match parse_u64_at(data, p8) {
        Ok(x) => x,
        Err(_) => {
            return Err(MonitorError::InvalidCodecDecode);
        },
    };
    Ok(
        (
            height,
            PacketEventData {
                sequence,
                source_port,
                source_channel,
                destination_port,
                destination_channel,
                data: pdata,
                timeout_height,
                timeout_timestamp,
            },
            p9,
        ),
    )
}

fn parse_packet_event(data: &Vec<u8>) -> (r: Result<(u64, PacketEventData), MonitorError>)
    ensures
        match r {
            Ok((h, d)) => spec_parse_packet_event(data@) == Some((h, d.deep_view())),
            Err(e) => spec_parse_packet_event(data@) is None && e
                == MonitorError::InvalidCodecDecode,
        },
{
    let (height, d, p) = match parse_packet_fields(data) {
        Ok(x) => x,
        Err(e) => {
            return Err(e);
        },
    };
    if p != data.len() {
        return Err(MonitorError::InvalidCodecDecode);
    }
    Ok((height, d))
}

fn parse_write_ack_event(data: &Vec<u8>) -> (r: Result<
    (u64, PacketEventData, Vec<u8>),
    MonitorError,
>)
    ensures
        match r {
            Ok((h, d, ack)) => spec_parse_write_ack_event(data@) == Some(
                (h, d.deep_view(), ack@),
            ),
            Err(e) => spec_parse_write_ack_event(data@) is None && e
                == MonitorError::InvalidCodecDecode,
        },
{
    let (height, d, p) = match parse_packet_fields(data) {
        Ok(x) => x,
        Err(e) => {
            return Err(e);
        },
    };
    let (ack, p2) = match parse_bytes_field_at(data, p) {
        Ok(x) => x,
        Err(e) => {
            return Err(e);
        },
    };
    if p2 != data.len() {
        return Err(MonitorError::InvalidCodecDecode);
    }
    Ok((height, d, ack))
}

pub open spec fn spec_parse_module_event(s: Seq<u8>) -> Option<ModuleEventDataV> {
    match spec_parse_bytes_field(s) {
        None => None,
        Some((kind_text, r1)) => match spec_parse_bytes_field(r1) {
            None => None,
            Some((module_name, r2)) => if r2.len() == 0 {
                Some(ModuleEventDataV { kind_text, module_name })
            } else {
                None
            },
        },
    }
}

fn parse_module_event(data: &Vec<u8>) -> (r: Result<ModuleEventData, MonitorError>)
    ensures
        match r {
            Ok(d) => spec_parse_module_event(data@) == Some(d.deep_view()),
            Err(e) => spec_parse_module_event(data@) is None && e
                == MonitorError::InvalidCodecDecode,
        },
{
    proof {
        assert(data@.skip(0) =~= data@);
    }
    let (kind_text, p1) = match parse_bytes_field_at(data, 0) {
        Ok(x) => x,
        Err(e) => {
            return Err(e);
        },
    };
    let (module_name, p2) = match parse_bytes_field_at(data, p1) {
        Ok(x) => x,
        Err(e) => {
            return Err(e);
        },
    };
    if p2 != data.len() {
        return Err(MonitorError::InvalidCodecDecode);
    }
    Ok(ModuleEventData { kind_text, module_name })
}

pub open spec fn spec_parse_chain_error_event(s: Seq<u8>) -> Option<Seq<u8>> {
    match spec_parse_bytes_field(s) {
        None => None,
        Some((text, r1)) => if r1.len() == 0 {
            Some(text)
        } else {
            None
        },
    }
}

fn parse_chain_error_event(data: &Vec<u8>) -> (r: Result<Vec<u8>, MonitorError>)
    ensures
        match r {
            Ok(t) => spec_parse_chain_error_event(data@) == Some(t@),
            Err(e) => spec_parse_chain_error_event(data@) is None && e
                == MonitorError::InvalidCodecDecode,
        },
{
    proof {
        assert(data@.skip(0) =~= data@);
    }
    let (text, p1) = match parse_bytes_field_at(data, 0) {
        Ok(x) => x,
        Err(e) => {
            return Err(e);
        },
    };
    if p1 != data.len() {
        return Err(MonitorError::InvalidCodecDecode);
    }
    Ok(text)
}

pub open spec fn spec_parse_extrinsic_success_event(s: Seq<u8>) -> Option<u64> {
    match spec_parse_u64(s) {
        None => None,
        Some((weight, r1)) => if r1.len() == 0 {
            Some(weight)
        } else {
            None
        },
    }
}

// ---------------------------------------------------------------------------
// Batches: one canonical batch per raw event, stamped with the event's own
// height where the payload carries one, and with the freshly queried
// latest finalized height where it does not.
// ---------------------------------------------------------------------------

/// A batch of canonical events at one height, stamped with a fresh
/// correlation id.
#[derive(Clone, Debug, PartialEq, Eq)]
pub struct EventBatch {
    pub height: u64,
    pub events: Vec<IbcEvent>,
    pub chain_id: Vec<u8>,
    pub tracking_id: u64,
}

/// Mathematical model of an `EventBatch`.
pub struct EventBatchV {
    pub height: u64,
    pub events: Seq<IbcEventV>,
    pub chain_id: Seq<u8>,
    pub tracking_id: u64,
}

impl DeepView for EventBatch {
    type V = EventBatchV;

    open spec fn deep_view(&self) -> EventBatchV {
        EventBatchV {
            height: self.height,
            events: self.events.deep_view(),
            chain_id: self.chain_id@,
            tracking_id: self.tracking_id,
        }
    }
}

impl View for EventBatch {
    type V = EventBatchV;

    open spec fn view(&self) -> EventBatchV {
        self.deep_view()
    }
}

/// The batch a single canonical event makes.
pub open spec fn spec_single_batch(
    event: IbcEventV,
    height: u64,
    chain_id: Seq<u8>,
    tracking_id: u64,
) -> EventBatchV {
    EventBatchV { height, events: seq![event], chain_id, tracking_id }
}

fn single_batch(event: IbcEvent, height: u64, chain_id: &Vec<u8>, tracking_id: u64) -> (b:
    EventBatch)
    ensures
        b.deep_view() == spec_single_batch(event.deep_view(), height, chain_id@, tracking_id),
{
    let ghost ev = event.deep_view();
    let mut events: Vec<IbcEvent> = Vec::new();
    events.push(event);
    proof {
        assert(events.deep_view() =~= seq![ev]);
    }
    EventBatch {
        height,
        events,
        chain_id: vstd::slice::slice_to_vec(chain_id.as_slice()),
        tracking_id,
    }
}

/// What decoding one raw event yields: a one-event batch for a known kind
/// whose payload parses, an empty batch for an unknown kind, and
/// `InvalidCodecDecode` for a known kind whose payload does not parse.
pub open spec fn spec_event_batch(
    kind: EventKind,
    data: Seq<u8>,
    chain_id: Seq<u8>,
    latest_height: u64,
    tracking_id: u64,
) -> Result<EventBatchV, MonitorError> {
    match kind {
        EventKind::CreateClient => match spec_parse_client_event(data) {
            None => Err(MonitorError::InvalidCodecDecode),
            Some((h, d)) => Ok(
                spec_single_batch(IbcEventV::CreateClient(d), h, chain_id, tracking_id),
            ),
        },
        EventKind::UpdateClient => match spec_parse_client_event(data) {
            None => Err(MonitorError::InvalidCodecDecode),
            Some((h, d)) => Ok(
                spec_single_batch(IbcEventV::UpdateClient(d), h, chain_id, tracking_id),
            ),
        },
        EventKind::ClientMisbehaviour => match spec_parse_client_event(data) {
            None => Err(MonitorError::InvalidCodecDecode),
            Some((h, d)) => Ok(
                spec_single_batch(IbcEventV::ClientMisbehaviour(d), h, chain_id, tracking_id),
            ),
        },
        EventKind::OpenInitConnection => match spec_parse_connection_event(data) {
            None => Err(MonitorError::InvalidCodecDecode),
            Some((h, d)) => Ok(
                spec_single_batch(IbcEventV::OpenInitConnection(d), h, chain_id, tracking_id),
            ),
        },
        EventKind::OpenTryConnection => match spec_parse_connection_event(data) {
            None => Err(MonitorError::InvalidCodecDecode),
            Some((h, d)) => Ok(
                spec_single_batch(IbcEventV::OpenTryConnection(d), h, chain_id, tracking_id),
            ),
        },
        EventKind::OpenAckConnection => match spec_parse_connection_event(data) {
            None => Err(MonitorError::InvalidCodecDecode),
            Some((h, d)) => Ok(
                spec_single_batch(IbcEventV::OpenAckConnection(d), h, chain_id, tracking_id),
            ),
        },
        EventKind::OpenConfirmConnection => match spec_parse_connection_event(data) {
            None => Err(MonitorError::InvalidCodecDecode),
            Some((h, d)) => Ok(
                spec_single_batch(IbcEventV::OpenConfirmConnection(d), h, chain_id, tracking_id),
            ),
        },
        EventKind::OpenInitChannel => match spec_parse_channel_event(data) {
            None => Err(MonitorError::InvalidCodecDecode),
            Some((h, d)) => Ok(
                spec_single_batch(IbcEventV::OpenInitChannel(d), h, chain_id, tracking_id),
            ),
        },
        EventKind::OpenTryChannel => match spec_parse_channel_event(data) {
            None => Err(MonitorError::InvalidCodecDecode),
            Some((h, d)) => Ok(
                spec_single_batch(IbcEventV::OpenTryChannel(d), h, chain_id, tracking_id),
            ),
        },
        EventKind::OpenAckChannel => match spec_parse_channel_event(data) {
            None => Err(MonitorError::InvalidCodecDecode),
            Some((h, d)) => Ok(
                spec_single_batch(IbcEventV::OpenAckChannel(d), h, chain_id, tracking_id),
            ),
        },
        EventKind::OpenConfirmChannel => match spec_parse_channel_event(data) {
            None => Err(MonitorError::InvalidCodecDecode),
            Some((h, d)) => Ok(
                spec_single_batch(IbcEventV::OpenConfirmChannel(d), h, chain_id, tracking_id),
            ),
        },
        EventKind::CloseInitChannel => match spec_parse_channel_event(data) {
            None => Err(MonitorError::InvalidCodecDecode),
            Some((h, d)) => Ok(
                spec_single_batch(IbcEventV::CloseInitChannel(d), h, chain_id, tracking_id),
            ),
        },
        EventKind::CloseConfirmChannel => match spec_parse_channel_event(data) {
            None => Err(MonitorError::InvalidCodecDecode),
            Some((h, d)) => Ok(
                spec_single_batch(IbcEventV::CloseConfirmChannel(d), h, chain_id, tracking_id),
            ),
        },
        EventKind::SendPacket => match spec_parse_packet_event(data) {
            None => Err(MonitorError::InvalidCodecDecode),
            Some((h, d)) => Ok(
                spec_single_batch(IbcEventV::SendPacket(d), h, chain_id, tracking_id),
            ),
        },
        EventKind::ReceivePacket => match spec_parse_packet_event(data) {
            None => Err(MonitorError::InvalidCodecDecode),
            Some((h, d)) => Ok(
                spec_single_batch(IbcEventV::ReceivePacket(d), h, chain_id, tracking_id),
            ),
        },
        EventKind::WriteAcknowledgement => match spec_parse_write_ack_event(data) {
            None => Err(MonitorError::InvalidCodecDecode),
            Some((h, d, ack)) => Ok(
                spec_single_batch(
                    IbcEventV::WriteAcknowledgement(d, ack),
                    h,
                    chain_id,
                    tracking_id,
                ),
            ),
        },
        EventKind::AcknowledgePacket => match spec_parse_packet_event(data) {
            None => Err(MonitorError::InvalidCodecDecode),
            Some((h, d)) => Ok(
                spec_single_batch(IbcEventV::AcknowledgePacket(d), h, chain_id, tracking_id),
            ),
        },
        EventKind::TimeoutPacket => match spec_parse_packet_event(data) {
            None => Err(MonitorError::InvalidCodecDecode),
            Some((h, d)) => Ok(
                spec_single_batch(IbcEventV::TimeoutPacket(d), h, chain_id, tracking_id),
            ),
        },
        EventKind::TimeoutOnClosePacket => match spec_parse_packet_event(data) {
            None => Err(MonitorError::InvalidCodecDecode),
            Some((h, d)) => Ok(
                spec_single_batch(IbcEventV::TimeoutOnClosePacket(d), h, chain_id, tracking_id),
            ),
        },
        EventKind::AppModule => match spec_parse_module_event(data) {
            None => Err(MonitorError::InvalidCodecDecode),
            Some(d) => Ok(
                spec_single_batch(IbcEventV::AppModule(d), latest_height, chain_id, tracking_id),
            ),
        },
        EventKind::ChainError => match spec_parse_chain_error_event(data) {
            None => Err(MonitorError::InvalidCodecDecode),
            Some(t) => Ok(
                spec_single_batch(IbcEventV::ChainError(t), latest_height, chain_id, tracking_id),
            ),
        },
        EventKind::ExtrinsicSuccess => match spec_parse_extrinsic_success_event(data) {
            None => Err(MonitorError::InvalidCodecDecode),
            Some(_) => Ok(
                spec_single_batch(
                    IbcEventV::NewBlock(latest_height),
                    latest_height,
                    chain_id,
                    tracking_id,
                ),
            ),
        },
        EventKind::Unknown => Ok(
            EventBatchV {
                height: latest_height,
                events: Seq::empty(),
                chain_id,
                tracking_id,
            },
        ),
    }
}

fn batch_client_kind(
    kind: EventKind,
    data: &Vec<u8>,
    chain_id: &Vec<u8>,
    height: u64,
    tracking_id: u64,
) -> (r: Result<EventBatch, MonitorError>)
    requires
        kind == EventKind::CreateClient || kind == EventKind::UpdateClient || kind
            == EventKind::ClientMisbehaviour,
    ensures
        batch_matches(r, kind, data@, chain_id@, height, tracking_id),
{
    match parse_client_event(data) {
        Err(e) => Err(e),
        Ok((h, d)) => {
            let event = match kind {
                EventKind::CreateClient => IbcEvent::CreateClient(d),
                EventKind::UpdateClient => IbcEvent::UpdateClient(d),
                _ => IbcEvent::ClientMisbehaviour(d),
            };
            Ok(single_batch(event, h, chain_id, tracking_id))
        },
    }
}

fn batch_connection_kind(
    kind: EventKind,
    data: &Vec<u8>,
    chain_id: &Vec<u8>,
    height: u64,
    tracking_id: u64,
) -> (r: Result<EventBatch, MonitorError>)
    requires
        kind == EventKind::OpenInitConnection || kind == EventKind::OpenTryConnection || kind
            == EventKind::OpenAckConnection || kind == EventKind::OpenConfirmConnection,
    ensures
        batch_matches(r, kind, data@, chain_id@, height, tracking_id),
{
    match parse_connection_event(data) {
        Err(e) => Err(e),
        Ok((h, d)) => {
            let event = match kind {
                EventKind::OpenInitConnection => IbcEvent::OpenInitConnection(d),
                EventKind::OpenTryConnection => IbcEvent::OpenTryConnection(d),
                EventKind::OpenAckConnection => IbcEvent::OpenAckConnection(d),
                _ => IbcEvent::OpenConfirmConnection(d),
            };
            Ok(single_batch(event, h, chain_id, tracking_id))
        },
    }
}

fn batch_channel_kind(
    kind: EventKind,
    data: &Vec<u8>,
    chain_id: &Vec<u8>,
    height: u64,
    tracking_id: u64,
) -> (r: Result<EventBatch, MonitorError>)
    requires
        kind == EventKind::OpenInitChannel || kind == EventKind::OpenTryChannel || kind
            == EventKind::OpenAckChannel || kind == EventKind::OpenConfirmChannel || kind
            == EventKind::CloseInitChannel || kind == EventKind::CloseConfirmChannel,
    ensures
        batch_matches(r, kind, data@, chain_id@, height, tracking_id),
{
    match parse_channel_event(data) {
        Err(e) => Err(e),
        Ok((h, d)) => {
            let event = match kind {
                EventKind::OpenInitChannel => IbcEvent::OpenInitChannel(d),
                EventKind::OpenTryChannel => IbcEvent::OpenTryChannel(d),
                EventKind::OpenAckChannel => IbcEvent::OpenAckChannel(d),
                EventKind::OpenConfirmChannel => IbcEvent::OpenConfirmChannel(d),
                EventKind::CloseInitChannel => IbcEvent::CloseInitChannel(d),
                _ => IbcEvent::CloseConfirmChannel(d),
            };
            Ok(single_batch(event, h, chain_id, tracking_id))
        },
    }
}

fn batch_packet_kind(
    kind: EventKind,
    data: &Vec<u8>,
    chain_id: &Vec<u8>,
    height: u64,
    tracking_id: u64,
) -> (r: Result<EventBatch, MonitorError>)
    requires
        kind == EventKind::SendPacket || kind == EventKind::ReceivePacket || kind
            == EventKind::AcknowledgePacket || kind == EventKind::TimeoutPacket || kind
            == EventKind::TimeoutOnClosePacket,
    ensures
        batch_matches(r, kind, data@, chain_id@, height, tracking_id),
{
    match parse_packet_event(data) {
        Err(e) => Err(e),
        Ok((h, d)) => {
            let event = match kind {
                EventKind::SendPacket => IbcEvent::SendPacket(d),
                EventKind::ReceivePacket => IbcEvent::ReceivePacket(d),
                EventKind::AcknowledgePacket => IbcEvent::AcknowledgePacket(d),
                EventKind::TimeoutPacket => IbcEvent::TimeoutPacket(d),
                _ => IbcEvent::TimeoutOnClosePacket(d),
            };
            Ok(single_batch(event, h, chain_id, tracking_id))
        },
    }
}

/// Whether an executable decode result means what the spec decoder says
/// for this kind. For the kinds that carry their own height the fallback
/// height plays no part, so `0` may stand for it.
pub open spec fn batch_matches(
    r: Result<EventBatch, MonitorError>,
    kind: EventKind,
    data: Seq<u8>,
    chain_id: Seq<u8>,
    latest_height: u64,
    tracking_id: u64,
) -> bool {
    match r {
        Ok(b) => spec_event_batch(kind, data, chain_id, latest_height, tracking_id) == Ok::<
            EventBatchV,
            MonitorError,
        >(b.deep_view()),
        Err(e) => spec_event_batch(kind, data, chain_id, latest_height, tracking_id) == Err::<
            EventBatchV,
            MonitorError,
        >(e),
    }
}

/// Decode one raw chain event into a canonical batch. A known kind whose
/// payload parses yields a one-event batch at the payload's height (or,
/// for kinds without one, at the freshly queried latest finalized height);
/// an unknown kind yields an empty batch; a malformed payload for a known
/// kind fails `InvalidCodecDecode`, dropping only this event's batch.
pub fn from_raw_event_to_batch_event(
    raw_event: &RawEvent,
    chain_id: &Vec<u8>,
    height: u64,
    tracking_id: u64,
) -> (r: Result<EventBatch, MonitorError>)
    ensures
        batch_matches(
            r,
            spec_event_kind(raw_event.variant@),
            raw_event.data@,
            chain_id@,
            height,
            tracking_id,
        ),
{
    let kind = event_kind_of(&raw_event.variant);
    match kind {
        EventKind::CreateClient | EventKind::UpdateClient | EventKind::ClientMisbehaviour => {
            batch_client_kind(kind, &raw_event.data, chain_id, height, tracking_id)
        },
        EventKind::OpenInitConnection | EventKind::OpenTryConnection
        | EventKind::OpenAckConnection | EventKind::OpenConfirmConnection => {
            batch_connection_kind(kind, &raw_event.data, chain_id, height, tracking_id)
        },
        EventKind::OpenInitChannel | EventKind::OpenTryChannel | EventKind::OpenAckChannel
        | EventKind::OpenConfirmChannel | EventKind::CloseInitChannel
        | EventKind::CloseConfirmChannel => {
            batch_channel_kind(kind, &raw_event.data, chain_id, height, tracking_id)
        },
        EventKind::SendPacket | EventKind::ReceivePacket | EventKind::AcknowledgePacket
        | EventKind::TimeoutPacket | EventKind::TimeoutOnClosePacket => {
            batch_packet_kind(kind, &raw_event.data, chain_id, height, tracking_id)
        },
        EventKind::WriteAcknowledgement => {
            match parse_write_ack_event(&raw_event.data) {
                Ok((h, d, ack)) => Ok(
                    single_batch(IbcEvent::WriteAcknowledgement(d, ack), h, chain_id, tracking_id),
                ),
                Err(e) => Err(e),
            }
        },
        EventKind::AppModule => match parse_module_event(&raw_event.data) {
            Ok(d) => Ok(single_batch(IbcEvent::AppModule(d), height, chain_id, tracking_id)),
            Err(e) => Err(e),
        },
        EventKind::ChainError => match parse_chain_error_event(&raw_event.data) {
            Ok(t) => Ok(single_batch(IbcEvent::ChainError(t), height, chain_id, tracking_id)),
            Err(e) => Err(e),
        },
        EventKind::ExtrinsicSuccess => match parse_extrinsic_success_event(&raw_event.data) {
            Ok(_) => Ok(single_batch(IbcEvent::NewBlock(height), height, chain_id, tracking_id)),
            Err(e) => Err(e),
        },
        EventKind::Unknown => {
            let b = EventBatch {
                height,
                events: Vec::new(),
                chain_id: vstd::slice::slice_to_vec(chain_id.as_slice()),
                tracking_id,
            };
            proof {
                assert(b.deep_view().events =~= Seq::<IbcEventV>::empty());
            }
            Ok(b)
        },
    }
}


/// What one raw event contributes to the outbound bus: nothing when its
/// batch failed to decode or holds no event, the batch otherwise.
pub open spec fn spec_handle_single_event(
    kind: EventKind,
    data: Seq<u8>,
    chain_id: Seq<u8>,
    latest_height: u64,
    tracking_id: u64,
) -> Option<EventBatchV> {
    match spec_event_batch(kind, data, chain_id, latest_height, tracking_id) {
        Err(_) => None,
        Ok(b) => if b.events.len() == 0 {
            None
        } else {
            Some(b)
        },
    }
}

/// Decode one raw event and decide what to publish: a failed or empty
/// batch is dropped — only this event is affected — and any other batch
/// goes out to the bus.
pub fn handle_single_event(
    raw_event: &RawEvent,
    chain_id: &Vec<u8>,
    latest_height: u64,
    tracking_id: u64,
) -> (r: Option<EventBatch>)
    ensures
        match r {
            Some(b) => spec_handle_single_event(
                spec_event_kind(raw_event.variant@),
                raw_event.data@,
                chain_id@,
                latest_height,
                tracking_id,
            ) == Some(b.deep_view()),
            None => spec_handle_single_event(
                spec_event_kind(raw_event.variant@),
                raw_event.data@,
                chain_id@,
                latest_height,
                tracking_id,
            ) is None,
        },
{
    match from_raw_event_to_batch_event(raw_event, chain_id, latest_height, tracking_id) {
        Err(_) => None,
        Ok(b) => if b.events.len() == 0 {
            None
        } else {
            Some(b)
        },
    }
}

fn parse_extrinsic_success_event(data: &Vec<u8>) -> (r: Result<u64, MonitorError>)
    ensures
        match r {
            Ok(w) => spec_parse_extrinsic_success_event(data@) == Some(w),
            Err(e) => spec_parse_extrinsic_success_event(data@) is None && e
                == MonitorError::InvalidCodecDecode,
        },
{
    proof {
        assert(data@.skip(0) =~= data@);
    }
    let (weight, p1) = match parse_u64_at(data, 0) {
        Ok(x) => x,
        Err(_) => {
            return Err(MonitorError::InvalidCodecDecode);
        },
    };
    if p1 != data.len() {
        return Err(MonitorError::InvalidCodecDecode);
    }
    Ok(weight)
}

// ---------------------------------------------------------------------------
// Ordering within one block: NewBlock events go first, the others keep
// their order. Callers needing full FIFO order within a block re-sort
// downstream.
// ---------------------------------------------------------------------------

/// The NewBlock events of a list, in their original order.
pub open spec fn spec_new_block_events(evs: Seq<IbcEventV>) -> Seq<IbcEventV>
    decreases evs.len(),
{
    if evs.len() == 0 {
        Seq::empty()
    } else {
        let rest = spec_new_block_events(evs.skip(1));
        if evs[0] is NewBlock {
            seq![evs[0]] + rest
        } else {
            rest
        }
    }
}

/// The events of a list that are not NewBlock, in their original order.
pub open spec fn spec_other_events(evs: Seq<IbcEventV>) -> Seq<IbcEventV>
    decreases evs.len(),
{
    if evs.len() == 0 {
        Seq::empty()
    } else {
        let rest = spec_other_events(evs.skip(1));
        if evs[0] is NewBlock {
            rest
        } else {
            seq![evs[0]] + rest
        }
    }
}

/// Sort a batch's events by putting the NewBlock events first and leaving
/// the others in their original order.
pub fn sort_events(events: Vec<IbcEvent>) -> (sorted: Vec<IbcEvent>)
    ensures
        sorted.deep_view() == spec_new_block_events(events.deep_view()) + spec_other_events(
            events.deep_view(),
        ),
{
    let ghost orig = events.deep_view();
    let mut rest = events;
    let mut blocks: Vec<IbcEvent> = Vec::new();
    let mut others: Vec<IbcEvent> = Vec::new();
    while rest.len() > 0
        invariant
            spec_new_block_events(orig) == blocks.deep_view() + spec_new_block_events(
                rest.deep_view(),
            ),
            spec_other_events(orig) == others.deep_view() + spec_other_events(rest.deep_view()),
        decreases rest@.len(),
    {
        let ghost restv = rest.deep_view();
        let e = rest.remove(0);
        let ghost ev = e.deep_view();
        proof {
            assert(rest.deep_view() =~= restv.skip(1));
            assert(ev == restv[0]);
        }
        if matches!(e, IbcEvent::NewBlock(_)) {
            let ghost prev = blocks.deep_view();
            blocks.push(e);
            proof {
                assert(blocks.deep_view() =~= prev.push(ev));
                assert(prev + (seq![ev] + spec_new_block_events(restv.skip(1))) =~= prev.push(ev)
                    + spec_new_block_events(restv.skip(1)));
            }
        } else {
            let ghost prev = others.deep_view();
            others.push(e);
            proof {
                assert(others.deep_view() =~= prev.push(ev));
                assert(prev + (seq![ev] + spec_other_events(restv.skip(1))) =~= prev.push(ev)
                    + spec_other_events(restv.skip(1)));
            }
        }
    }
    proof {
        assert(blocks.deep_view() + Seq::<IbcEventV>::empty() =~= blocks.deep_view());
        assert(others.deep_view() + Seq::<IbcEventV>::empty() =~= others.deep_view());
    }
    let ghost blocksv = blocks.deep_view();
    let ghost othersv = others.deep_view();
    let mut sorted = blocks;
    let mut tail = others;
    sorted.append(&mut tail);
    proof {
        assert(sorted.deep_view() =~= blocksv + othersv);
    }
    sorted
}

// ---------------------------------------------------------------------------
// The reconnect loop's bounded backoff: Fibonacci growth from a one-second
// floor, a per-step cap, and a cumulative budget that, once spent, turns
// the next retry into a terminal error.
// ---------------------------------------------------------------------------

/// The backoff floor, in seconds.
pub const INITIAL_DELAY_SECS: u64 = 1;

/// The per-step delay cap, in seconds.
pub const MAX_STEP_DELAY_SECS: u64 = 60;

/// The cumulative backoff budget, in seconds.
pub const MAX_TOTAL_DELAY_SECS: u64 = 600;

/// The Fibonacci delay sequence before capping: 1, 1, 2, 3, 5, ...
pub open spec fn spec_fib(n: nat) -> nat
    decreases n,
{
    if n <= 1 {
        1
    } else {
        spec_fib((n - 1) as nat) + spec_fib((n - 2) as nat)
    }
}

/// One reconnect delay: the Fibonacci value under the per-step cap.
pub open spec fn spec_step_delay(n: nat) -> nat {
    if spec_fib(n) <= MAX_STEP_DELAY_SECS {
        spec_fib(n)
    } else {
        MAX_STEP_DELAY_SECS as nat
    }
}

proof fn lemma_fib_mono(i: nat, j: nat)
    requires
        i <= j,
    ensures
        spec_fib(i) <= spec_fib(j),
    decreases j,
{
    if i < j && j >= 2 {
        lemma_fib_mono(i, (j - 1) as nat);
    }
}

/// The delay before retry `n`, computed iteratively.
pub fn step_delay(n: usize) -> (d: u64)
    ensures
        d == spec_step_delay(n as nat),
        INITIAL_DELAY_SECS <= d <= MAX_STEP_DELAY_SECS,
{
    let mut a: u64 = 1;
    let mut b: u64 = 1;
    let mut i: usize = 0;
    while i < n && a < MAX_STEP_DELAY_SECS
        invariant
            i <= n,
            a == spec_fib(i as nat),
            b == spec_fib(i as nat + 1),
            1 <= a <= b <= 2 * a,
        decreases n - i,
    {
        let next = a + b;
        a = b;
        b = next;
        i = i + 1;
    }
    if a < MAX_STEP_DELAY_SECS {
        a
    } else {
        proof {
            lemma_fib_mono(i as nat, n as nat);
        }
        MAX_STEP_DELAY_SECS
    }
}

/// The cumulative seconds of a delay list.
pub open spec fn spec_sum(delays: Seq<u64>) -> int
    decreases delays.len(),
{
    if delays.len() == 0 {
        0
    } else {
        spec_sum(delays.drop_last()) + delays.last()
    }
}

proof fn lemma_sum_take_step(delays: Seq<u64>, k: int)
    requires
        0 <= k < delays.len(),
    ensures
        spec_sum(delays.take(k + 1)) == spec_sum(delays.take(k)) + delays[k],
{
    assert(delays.take(k + 1).drop_last() =~= delays.take(k));
    assert(delays.take(k + 1).last() == delays[k]);
}

proof fn lemma_sum_take_bounded(delays: Seq<u64>, k: int)
    requires
        0 <= k <= delays.len(),
    ensures
        spec_sum(delays.take(k)) <= spec_sum(delays),
    decreases delays.len() - k,
{
    if k == delays.len() {
        assert(delays.take(k) =~= delays);
    } else {
        lemma_sum_take_step(delays, k);
        lemma_sum_take_bounded(delays, k + 1);
    }
}

/// Build the whole reconnect schedule: Fibonacci delays with the floor and
/// the per-step cap, cut off before the cumulative total would pass the
/// budget. The schedule is the longest such prefix: one more step would
/// break the budget.
pub fn retry_delays() -> (delays: Vec<u64>)
    ensures
        forall|i: int|
            0 <= i < delays@.len() ==> #[trigger] delays@[i] == spec_step_delay(i as nat),
        spec_sum(delays@) <= MAX_TOTAL_DELAY_SECS,
        spec_sum(delays@) + spec_step_delay(delays@.len()) > MAX_TOTAL_DELAY_SECS,
{
    let mut delays: Vec<u64> = Vec::new();
    let mut total: u64 = 0;
    let mut done = false;
    while !done
        invariant
            total == spec_sum(delays@),
            total <= MAX_TOTAL_DELAY_SECS,
            forall|i: int|
                0 <= i < delays@.len() ==> #[trigger] delays@[i] == spec_step_delay(i as nat),
            done ==> spec_sum(delays@) + spec_step_delay(delays@.len()) > MAX_TOTAL_DELAY_SECS,
        decreases MAX_TOTAL_DELAY_SECS + 1 - total, (if done { 0int } else { 1int }),
    {
        let d = step_delay(delays.len());
        if MAX_TOTAL_DELAY_SECS - total < d {
            done = true;
        } else {
            let ghost prev = delays@;
            delays.push(d);
            total = total + d;
            proof {
                assert(delays@.drop_last() =~= prev);
            }
        }
    }
    delays
}

/// One reconnect episode's budget, as the supervised loop consumes it.
pub struct ReconnectBudget {
    /// The delay schedule, fixed when the episode begins.
    pub delays: Vec<u64>,
    /// How many delays have been slept.
    pub attempt: usize,
    /// The cumulative backoff slept so far, in seconds.
    pub total_slept: u64,
}

impl ReconnectBudget {
    /// The budget's invariant: what was slept is the sum of the schedule's
    /// consumed prefix, and the schedule is the complete one — it fits the
    /// cumulative cap, holds the capped Fibonacci delay at every position,
    /// and could not carry one more step. An episode therefore never sleeps
    /// past the cap and never runs out before the cap is genuinely spent.
    pub open spec fn wf(self) -> bool {
        &&& self.attempt <= self.delays@.len()
        &&& self.total_slept == spec_sum(self.delays@.take(self.attempt as int))
        &&& spec_sum(self.delays@) <= MAX_TOTAL_DELAY_SECS
        &&& spec_sum(self.delays@) + spec_step_delay(self.delays@.len()) > MAX_TOTAL_DELAY_SECS
        &&& forall|i: int|
            0 <= i < self.delays@.len() ==> #[trigger] self.delays@[i] == spec_step_delay(i as nat)
    }

    /// Open a fresh episode with the full schedule.
    pub fn begin() -> (r: ReconnectBudget)
        ensures
            r.wf(),
            r.attempt == 0,
            r.total_slept == 0,
    {
        let delays = retry_delays();
        let r = ReconnectBudget { delays, attempt: 0, total_slept: 0 };
        proof {
            assert(r.delays@.take(0) =~= Seq::<u64>::empty());
        }
        r
    }

    /// The next delay to sleep, or nothing once the budget is spent — the
    /// caller then surfaces `RetryBudgetExhausted` instead of retrying
    /// forever. Whatever is slept, the cumulative total stays within the
    /// budget.
    pub fn next_delay(&mut self) -> (r: Option<u64>)
        requires
            old(self).wf(),
        ensures
            final(self).wf(),
            final(self).delays == old(self).delays,
            match r {
                Some(d) => {
                    &&& old(self).attempt < old(self).delays@.len()
                    &&& d == old(self).delays@[old(self).attempt as int]
                    &&& final(self).attempt == old(self).attempt + 1
                    &&& final(self).total_slept == old(self).total_slept + d
                    &&& final(self).total_slept <= MAX_TOTAL_DELAY_SECS
                },
                None => {
                    &&& old(self).attempt == old(self).delays@.len()
                    &&& *final(self) == *old(self)
                },
            },
    {
        if self.attempt < self.delays.len() {
            let d = self.delays[self.attempt];
            proof {
                lemma_sum_take_step(self.delays@, self.attempt as int);
                lemma_sum_take_bounded(self.delays@, self.attempt as int + 1);
                assert(spec_sum(self.delays@.take(self.attempt as int)) >= 0) by {
                    lemma_sum_nonneg(self.delays@.take(self.attempt as int));
                }
            }
            self.total_slept = self.total_slept + d;
            self.attempt = self.attempt + 1;
            Some(d)
        } else {
            None
        }
    }
}

proof fn lemma_sum_nonneg(delays: Seq<u64>)
    ensures
        spec_sum(delays) >= 0,
    decreases delays.len(),
{
    if delays.len() > 0 {
        lemma_sum_nonneg(delays.drop_last());
    }
}

/// Reconnect bound: whatever the reconnect loop has done, the cumulative
/// backoff it has slept never exceeds the budget; and once the schedule is
/// spent, the next ask yields no delay and the terminal error is surfaced
/// instead.
pub proof fn lemma_reconnect_bound(b: ReconnectBudget)
    requires
        b.wf(),
    ensures
        b.total_slept <= MAX_TOTAL_DELAY_SECS,
{
    lemma_sum_take_bounded(b.delays@, b.attempt as int);
    lemma_sum_nonneg(b.delays@.take(b.attempt as int));
}

// ---------------------------------------------------------------------------
// The monitor's supervision states and transitions. The outside loop
// performs the connects, sleeps and reads; these transitions decide what
// comes next.
// ---------------------------------------------------------------------------

/// The monitor's supervision states.
#[derive(Clone, Copy, Debug, PartialEq, Eq, Structural)]
pub enum MonitorState {
    Disconnected,
    Connecting,
    Subscribed,
    Reconnecting,
    Terminated,
}

/// Route a non-blocking publish of a batch onto the outbound bus: a full
/// or closed channel becomes a local error for the error channel — the
/// producer pauses and reconnects rather than silently dropping data.
pub fn classify_send_outcome(sent: bool) -> (r: Result<(), MonitorError>)
    ensures
        r is Ok <==> sent,
        !sent ==> r == Err::<(), MonitorError>(MonitorError::ChannelSendFailed),
{
    if sent {
        Ok(())
    } else {
        Err(MonitorError::ChannelSendFailed)
    }
}

/// The monitor's supervision state machine.
pub struct MonitorMachine {
    pub state: MonitorState,
    pub budget: ReconnectBudget,
}

impl MonitorMachine {
    pub open spec fn wf(self) -> bool {
        self.budget.wf()
    }

    /// A monitor starts disconnected, with a full backoff budget.
    pub fn new() -> (r: MonitorMachine)
        ensures
            r.wf(),
            r.state == MonitorState::Disconnected,
            r.budget.attempt == 0,
            r.budget.total_slept == 0,
    {
        MonitorMachine { state: MonitorState::Disconnected, budget: ReconnectBudget::begin() }
    }

    /// Begin connecting, from the initial state or from a reconnect.
    pub fn start_connect(&mut self)
        requires
            old(self).wf(),
            old(self).state == MonitorState::Disconnected || old(self).state
                == MonitorState::Reconnecting,
        ensures
            final(self).wf(),
            final(self).state == MonitorState::Connecting,
            final(self).budget == old(self).budget,
    {
        self.state = MonitorState::Connecting;
    }

    /// The connection and subscriptions are up: enter the event loop and
    /// forget the previous episode's backoff.
    pub fn on_subscribed(&mut self)
        requires
            old(self).wf(),
            old(self).state == MonitorState::Connecting,
        ensures
            final(self).wf(),
            final(self).state == MonitorState::Subscribed,
            final(self).budget.attempt == 0,
            final(self).budget.total_slept == 0,
    {
        self.state = MonitorState::Subscribed;
        self.budget = ReconnectBudget::begin();
    }

    /// Connecting failed: stay in the reconnect episode, keeping the
    /// backoff consumed so far.
    pub fn on_connect_failed(&mut self)
        requires
            old(self).wf(),
            old(self).state == MonitorState::Connecting,
        ensures
            final(self).wf(),
            final(self).state == MonitorState::Reconnecting,
            final(self).budget == old(self).budget,
    {
        self.state = MonitorState::Reconnecting;
    }

    /// The stream closed or an RPC error propagated, or the outbound
    /// channel was full or closed: leave the event loop and reconnect.
    pub fn on_stream_error(&mut self)
        requires
            old(self).wf(),
            old(self).state == MonitorState::Subscribed,
        ensures
            final(self).wf(),
            final(self).state == MonitorState::Reconnecting,
            final(self).budget == old(self).budget,
    {
        self.state = MonitorState::Reconnecting;
    }

    /// The next reconnect step: while the schedule has delays left, the
    /// next one to sleep before trying again — and only once the schedule
    /// is spent, the terminal error, the monitor terminating instead of
    /// retrying forever.
    pub fn next_reconnect_delay(&mut self) -> (r: Result<u64, MonitorError>)
        requires
            old(self).wf(),
            old(self).state == MonitorState::Reconnecting,
        ensures
            final(self).wf(),
            final(self).budget.delays == old(self).budget.delays,
            r is Ok <==> old(self).budget.attempt < old(self).budget.delays@.len(),
            match r {
                Ok(d) => {
                    &&& d == old(self).budget.delays@[old(self).budget.attempt as int]
                    &&& final(self).state == MonitorState::Reconnecting
                    &&& final(self).budget.attempt == old(self).budget.attempt + 1
                    &&& final(self).budget.total_slept == old(self).budget.total_slept + d
                    &&& final(self).budget.total_slept <= MAX_TOTAL_DELAY_SECS
                },
                Err(e) => {
                    &&& e == MonitorError::RetryBudgetExhausted
                    &&& final(self).state == MonitorState::Terminated
                    &&& final(self).budget == old(self).budget
                },
            },
    {
        match self.budget.next_delay() {
            Some(d) => Ok(d),
            None => {
                self.state = MonitorState::Terminated;
                Err(MonitorError::RetryBudgetExhausted)
            },
        }
    }

    /// A shutdown command, honored cooperatively at the next loop-iteration
    /// boundary.
    pub fn on_shutdown(&mut self)
        requires
            old(self).wf(),
        ensures
            final(self).wf(),
            final(self).state == MonitorState::Terminated,
    {
        self.state = MonitorState::Terminated;
    }
}

} // verus!
