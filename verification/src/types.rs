//! Wire-level constants and value types.

use vstd::prelude::*;

use crate::error::InvalidProtocolId;

verus! {

/// Serial link speed of the FT232R side of the cable.
pub const BAUD: u32 = 115_200;

/// Largest message payload the adapter accepts in a WriteMsgs
/// (4-byte CAN id + 4096 data bytes for ISO15765).
pub const MAX_MSG: usize = 4100;

/// Largest inner command: ILEN(2) + CMD(1) + RxStatus(4) + reserved(4) + MSG,
/// rounded to the DES block size.
pub const MAX_INNER: usize = 4112;

/// Largest wire frame: LEN(2) + payload + XORSUM(1).
pub const MAX_FRAME: usize = 4115;

/// Vendor alias for ISO15765 accepted on connect; the wire always carries 6.
pub const ISO15765_ALIAS: u32 = 0x1000_0001;

/// ProtocolIDs the adapter implements. `ChannelID == ProtocolID` on this
/// device: there is no separate channel handle.
///
/// The enum is closed: the firmware indexes a six-entry handler table with
/// `ProtocolID - 1` and no bounds check, so any other value sends it through a
/// wild pointer. No raw `u32` reaches the wire.
#[derive(Clone, Copy, PartialEq, Eq, Structural, Hash, Debug)]
pub enum ProtocolId {
    J1850Vpw,
    J1850Pwm,
    Iso9141,
    Iso14230,
    Can,
    Iso15765,
}

/// The protocol a raw id selects, if the adapter implements it.
pub open spec fn protocol_of(v: u32) -> Result<ProtocolId, InvalidProtocolId> {
    if v == 1 {
        Ok(ProtocolId::J1850Vpw)
    } else if v == 2 {
        Ok(ProtocolId::J1850Pwm)
    } else if v == 3 {
        Ok(ProtocolId::Iso9141)
    } else if v == 4 {
        Ok(ProtocolId::Iso14230)
    } else if v == 5 {
        Ok(ProtocolId::Can)
    } else if v == 6 || v == ISO15765_ALIAS {
        Ok(ProtocolId::Iso15765)
    } else {
        Err(InvalidProtocolId(v))
    }
}

impl vstd::std_specs::convert::TryFromSpecImpl<u32> for ProtocolId {
    open spec fn obeys_try_from_spec() -> bool {
        true
    }

    open spec fn try_from_spec(v: u32) -> Result<Self, InvalidProtocolId> {
        protocol_of(v)
    }
}

impl TryFrom<u32> for ProtocolId {
    type Error = InvalidProtocolId;

    fn try_from(v: u32) -> (r: Result<Self, InvalidProtocolId>) {
        ProtocolId::from_id(v)
    }
}

impl ProtocolId {
    /// The protocol a raw id selects, if the adapter implements it.
    pub fn from_id(v: u32) -> (r: Result<ProtocolId, InvalidProtocolId>)
        ensures
            r == protocol_of(v),
    {
        match v {
            1 => Ok(ProtocolId::J1850Vpw),
            2 => Ok(ProtocolId::J1850Pwm),
            3 => Ok(ProtocolId::Iso9141),
            4 => Ok(ProtocolId::Iso14230),
            5 => Ok(ProtocolId::Can),
            6 => Ok(ProtocolId::Iso15765),
            ISO15765_ALIAS => Ok(ProtocolId::Iso15765),
            other => Err(InvalidProtocolId(other)),
        }
    }

    /// The id the wire carries.
    pub open spec fn id(self) -> u32 {
        match self {
            ProtocolId::J1850Vpw => 1,
            ProtocolId::J1850Pwm => 2,
            ProtocolId::Iso9141 => 3,
            ProtocolId::Iso14230 => 4,
            ProtocolId::Can => 5,
            ProtocolId::Iso15765 => 6,
        }
    }

    pub fn wire(self) -> (r: u32)
        ensures
            r == self.id(),
            1 <= r <= 6,
    {
        match self {
            ProtocolId::J1850Vpw => 1,
            ProtocolId::J1850Pwm => 2,
            ProtocolId::Iso9141 => 3,
            ProtocolId::Iso14230 => 4,
            ProtocolId::Can => 5,
            ProtocolId::Iso15765 => 6,
        }
    }

    pub open spec fn can_framed(self) -> bool {
        self is Can || self is Iso15765
    }

    pub fn is_can(self) -> (r: bool)
        ensures
            r == self.can_framed(),
    {
        matches!(self, ProtocolId::Can | ProtocolId::Iso15765)
    }
}

/// Every id that can reach the wire selects the protocol it came from, lies in
/// the adapter's six-entry table, and is unlike that of any other protocol.
pub proof fn lemma_protocol_ids(p: ProtocolId, q: ProtocolId)
    ensures
        1 <= p.id() <= 6,
        protocol_of(p.id()) == Ok::<ProtocolId, InvalidProtocolId>(p),
        p.id() == q.id() ==> p == q,
{
}

/// Inner command opcodes.
#[derive(Clone, Copy, PartialEq, Eq, Structural, Debug)]
pub enum Cmd {
    /// Replies 8 DES key bytes in the clear, then toggles encryption.
    Open,
    /// Tears down the encrypted session and every channel with it.
    CloseSession,
    ReadVersion,
    Connect,
    /// Per-channel disconnect, distinct from `CloseSession`.
    Disconnect,
    ReadMsg,
    WriteMsg,
    StartMsgFilter,
    StopMsgFilter,
    SetProgrammingVoltage,
    Ioctl,
    StartPeriodicMsg,
    StopPeriodicMsg,
}

impl Cmd {
    /// The opcode byte.
    pub open spec fn op(self) -> u8 {
        match self {
            Cmd::Open => 0x01,
            Cmd::CloseSession => 0x02,
            Cmd::ReadVersion => 0x03,
            Cmd::Connect => 0x07,
            Cmd::Disconnect => 0x08,
            Cmd::ReadMsg => 0x09,
            Cmd::WriteMsg => 0x0a,
            Cmd::StartMsgFilter => 0x0b,
            Cmd::StopMsgFilter => 0x0c,
            Cmd::SetProgrammingVoltage => 0x0d,
            Cmd::Ioctl => 0x0e,
            Cmd::StartPeriodicMsg => 0x0f,
            Cmd::StopPeriodicMsg => 0x10,
        }
    }

    pub fn code(self) -> (r: u8)
        ensures
            r == self.op(),
    {
        match self {
            Cmd::Open => 0x01,
            Cmd::CloseSession => 0x02,
            Cmd::ReadVersion => 0x03,
            Cmd::Connect => 0x07,
            Cmd::Disconnect => 0x08,
            Cmd::ReadMsg => 0x09,
            Cmd::WriteMsg => 0x0a,
            Cmd::StartMsgFilter => 0x0b,
            Cmd::StopMsgFilter => 0x0c,
            Cmd::SetProgrammingVoltage => 0x0d,
            Cmd::Ioctl => 0x0e,
            Cmd::StartPeriodicMsg => 0x0f,
            Cmd::StopPeriodicMsg => 0x10,
        }
    }
}

/// Status byte of a device reply (inner offset +3). The values are standard
/// J2534 error codes; everything after this byte in a status reply is the
/// adapter's uninitialised stack and must never be parsed.
#[derive(Clone, Copy, PartialEq, Eq, Structural, Debug)]
pub enum DeviceStatus {
    NoError,
    NotSupported,
    InvalidChannelId,
    NullParameter,
    Failed,
    DeviceNotConnected,
    Timeout,
    InvalidMsg,
    InvalidMsgId,
    BufferEmpty,
    BufferFull,
    ChannelInUse,
    InvalidFilterId,
    InvalidDeviceId,
    Unknown(u8),
}

/// The status a wire byte stands for.
pub open spec fn status_from(v: u8) -> DeviceStatus {
    if v == 0x00 {
        DeviceStatus::NoError
    } else if v == 0x01 {
        DeviceStatus::NotSupported
    } else if v == 0x02 {
        DeviceStatus::InvalidChannelId
    } else if v == 0x04 {
        DeviceStatus::NullParameter
    } else if v == 0x07 {
        DeviceStatus::Failed
    } else if v == 0x08 {
        DeviceStatus::DeviceNotConnected
    } else if v == 0x09 {
        DeviceStatus::Timeout
    } else if v == 0x0a {
        DeviceStatus::InvalidMsg
    } else if v == 0x0d {
        DeviceStatus::InvalidMsgId
    } else if v == 0x10 {
        DeviceStatus::BufferEmpty
    } else if v == 0x11 {
        DeviceStatus::BufferFull
    } else if v == 0x14 {
        DeviceStatus::ChannelInUse
    } else if v == 0x16 {
        DeviceStatus::InvalidFilterId
    } else if v == 0x1a {
        DeviceStatus::InvalidDeviceId
    } else {
        DeviceStatus::Unknown(v)
    }
}

impl vstd::std_specs::convert::FromSpecImpl<u8> for DeviceStatus {
    open spec fn obeys_from_spec() -> bool {
        true
    }

    open spec fn from_spec(v: u8) -> Self {
        status_from(v)
    }
}

impl From<u8> for DeviceStatus {
    fn from(v: u8) -> (r: Self) {
        DeviceStatus::from_byte(v)
    }
}

impl DeviceStatus {
    /// The status a wire byte stands for.
    pub fn from_byte(v: u8) -> (r: DeviceStatus)
        ensures
            r == status_from(v),
    {
        if v == 0x00 {
            DeviceStatus::NoError
        } else if v == 0x01 {
            DeviceStatus::NotSupported
        } else if v == 0x02 {
            DeviceStatus::InvalidChannelId
        } else if v == 0x04 {
            DeviceStatus::NullParameter
        } else if v == 0x07 {
            DeviceStatus::Failed
        } else if v == 0x08 {
            DeviceStatus::DeviceNotConnected
        } else if v == 0x09 {
            DeviceStatus::Timeout
        } else if v == 0x0a {
            DeviceStatus::InvalidMsg
        } else if v == 0x0d {
            DeviceStatus::InvalidMsgId
        } else if v == 0x10 {
            DeviceStatus::BufferEmpty
        } else if v == 0x11 {
            DeviceStatus::BufferFull
        } else if v == 0x14 {
            DeviceStatus::ChannelInUse
        } else if v == 0x16 {
            DeviceStatus::InvalidFilterId
        } else if v == 0x1a {
            DeviceStatus::InvalidDeviceId
        } else {
            DeviceStatus::Unknown(v)
        }
    }

    pub fn is_ok(self) -> (r: bool)
        ensures
            r == (self is NoError),
    {
        self == DeviceStatus::NoError
    }

    /// The wire byte this status stands for.
    pub open spec fn byte(self) -> u8 {
        match self {
            DeviceStatus::NoError => 0x00,
            DeviceStatus::NotSupported => 0x01,
            DeviceStatus::InvalidChannelId => 0x02,
            DeviceStatus::NullParameter => 0x04,
            DeviceStatus::Failed => 0x07,
            DeviceStatus::DeviceNotConnected => 0x08,
            DeviceStatus::Timeout => 0x09,
            DeviceStatus::InvalidMsg => 0x0a,
            DeviceStatus::InvalidMsgId => 0x0d,
            DeviceStatus::BufferEmpty => 0x10,
            DeviceStatus::BufferFull => 0x11,
            DeviceStatus::ChannelInUse => 0x14,
            DeviceStatus::InvalidFilterId => 0x16,
            DeviceStatus::InvalidDeviceId => 0x1a,
            DeviceStatus::Unknown(v) => v,
        }
    }

    /// The raw wire byte, which is also a valid J2534 error code.
    pub fn code(self) -> (r: u8)
        ensures
            r == self.byte(),
    {
        match self {
            DeviceStatus::NoError => 0x00,
            DeviceStatus::NotSupported => 0x01,
            DeviceStatus::InvalidChannelId => 0x02,
            DeviceStatus::NullParameter => 0x04,
            DeviceStatus::Failed => 0x07,
            DeviceStatus::DeviceNotConnected => 0x08,
            DeviceStatus::Timeout => 0x09,
            DeviceStatus::InvalidMsg => 0x0a,
            DeviceStatus::InvalidMsgId => 0x0d,
            DeviceStatus::BufferEmpty => 0x10,
            DeviceStatus::BufferFull => 0x11,
            DeviceStatus::ChannelInUse => 0x14,
            DeviceStatus::InvalidFilterId => 0x16,
            DeviceStatus::InvalidDeviceId => 0x1a,
            DeviceStatus::Unknown(v) => v,
        }
    }
}

/// Every status byte survives the trip through `DeviceStatus`.
pub proof fn lemma_status_round_trip(v: u8)
    ensures
        status_from(v).byte() == v,
{
}

/// RxStatus word of a message reply: all 32 bits are kept, since reading only
/// the low byte would drop the 29-bit flag.
#[derive(Clone, Copy, PartialEq, Eq, Structural, Debug)]
pub struct RxStatus {
    pub word: u32,
}

/// Marks both the adapter's transmit echo and the ISO15765 start-of-message
/// indication. Neither is payload.
pub const RX_NOT_DATA: u32 = 0x0002;

/// ISO15765 extended addressing.
pub const RX_ADDR_TYPE: u32 = 0x0080;

/// 29-bit CAN identifier.
pub const RX_CAN_29BIT: u32 = 0x0100;

impl RxStatus {
    pub fn empty() -> (r: RxStatus)
        ensures
            r.word == 0,
    {
        RxStatus { word: 0 }
    }

    /// Every bit is kept, known or not.
    pub fn from_bits_retain(bits: u32) -> (r: RxStatus)
        ensures
            r.word == bits,
    {
        RxStatus { word: bits }
    }

    pub fn bits(self) -> (r: u32)
        ensures
            r == self.word,
    {
        self.word
    }

    pub open spec fn has(self, flags: u32) -> bool {
        self.word & flags == flags
    }

    /// Whether every bit of `flags` is set.
    pub fn contains(self, flags: u32) -> (r: bool)
        ensures
            r == self.has(flags),
    {
        self.word & flags == flags
    }
}

/// TxFlags for WriteMsgs.
#[derive(Clone, Copy, PartialEq, Eq, Structural, Debug)]
pub struct TxFlags {
    pub word: u32,
}

pub const TX_ISO15765_FRAME_PAD: u32 = 0x0040;

pub const TX_ISO15765_ADDR_TYPE: u32 = 0x0080;

pub const TX_CAN_29BIT_ID: u32 = 0x0100;

impl Default for TxFlags {
    fn default() -> (r: TxFlags)
        ensures
            r.word == 0,
    {
        TxFlags { word: 0 }
    }
}

impl TxFlags {
    /// Every bit is kept, known or not.
    pub fn from_bits_retain(bits: u32) -> (r: TxFlags)
        ensures
            r.word == bits,
    {
        TxFlags { word: bits }
    }

    pub fn bits(self) -> (r: u32)
        ensures
            r == self.word,
    {
        self.word
    }

    /// These flags with those of `flags` set too.
    pub fn with(self, flags: u32) -> (r: TxFlags)
        ensures
            r.word == self.word | flags,
    {
        TxFlags { word: self.word | flags }
    }
}

/// Filter types for StartMsgFilter. The firmware accepts `Block` and ignores
/// it.
#[derive(Clone, Copy, PartialEq, Eq, Structural, Debug)]
pub enum FilterType {
    Pass,
    Block,
    FlowControl,
}

impl FilterType {
    pub open spec fn id(self) -> u32 {
        match self {
            FilterType::Pass => 1,
            FilterType::Block => 2,
            FilterType::FlowControl => 3,
        }
    }

    pub fn wire(self) -> (r: u32)
        ensures
            r == self.id(),
    {
        match self {
            FilterType::Pass => 1,
            FilterType::Block => 2,
            FilterType::FlowControl => 3,
        }
    }
}

/// One received message, as the adapter reported it.
#[derive(Debug, PartialEq, Eq)]
pub struct RxMsg {
    pub rx_status: RxStatus,
    /// For CAN/ISO15765: 4-byte big-endian CAN identifier, then the payload.
    pub data: Vec<u8>,
}

/// The contents of a received message.
pub struct RxMsgView {
    pub status: RxStatus,
    pub data: Seq<u8>,
}

impl View for RxMsg {
    type V = RxMsgView;

    open spec fn view(&self) -> RxMsgView {
        RxMsgView { status: self.rx_status, data: self.data@ }
    }
}

impl RxMsgView {
    /// A transmit echo or a start-of-message indication.
    pub open spec fn indication(self) -> bool {
        self.status.has(RX_NOT_DATA)
    }
}

impl RxMsg {
    /// True for the adapter's transmit echo and the ISO15765 start-of-message
    /// indication: frames that carry no payload data.
    pub fn is_indication(&self) -> (r: bool)
        ensures
            r == self@.indication(),
    {
        self.rx_status.contains(RX_NOT_DATA)
    }
}

} // verus!
