//! Errors in words.

use vstd::prelude::*;

use crate::error::{CodecError, Error, InvalidProtocolId, IsoTpError, TransportError};
use crate::text::{
    decimal, hex, hex_byte, push_decimal, push_hex, push_hex_byte, push_text,
};
use crate::time::Duration;
use crate::types::{Cmd, DeviceStatus, ProtocolId};

verus! {

/// How `{:?}` prints a span of whole seconds and nanoseconds.
pub uninterp spec fn duration_text(secs: u64, nanos: u32) -> Seq<char>;

/// The `Debug` output of `std::time::Duration`, of the span of `secs` seconds
/// and `nanos` nanoseconds: the text is a function of those two numbers.
#[verifier::external_body]
fn debug_duration(secs: u64, nanos: u32) -> (s: String)
    requires
        nanos < 1_000_000_000,
    ensures
        s@ == duration_text(secs, nanos),
{
    format!("{:?}", std::time::Duration::new(secs, nanos))
}

impl Duration {
    /// Whole seconds, as many as 64 bits can tell.
    pub open spec fn whole_secs(self) -> u64 {
        if self.nanos / 1_000_000_000 > u64::MAX {
            u64::MAX
        } else {
            (self.nanos / 1_000_000_000) as u64
        }
    }

    /// The span in words.
    pub open spec fn text(self) -> Seq<char> {
        duration_text(self.whole_secs(), (self.nanos % 1_000_000_000) as u32)
    }

    pub fn message(self) -> (s: String)
        ensures
            s@ == self.text(),
    {
        let secs: u128 = self.nanos / 1_000_000_000;
        let whole: u64 = if secs > u64::MAX as u128 {
            u64::MAX
        } else {
            secs as u64
        };
        debug_duration(whole, (self.nanos % 1_000_000_000) as u32)
    }
}

impl ProtocolId {
    pub open spec fn label(self) -> &'static str {
        match self {
            ProtocolId::J1850Vpw => "J1850Vpw",
            ProtocolId::J1850Pwm => "J1850Pwm",
            ProtocolId::Iso9141 => "Iso9141",
            ProtocolId::Iso14230 => "Iso14230",
            ProtocolId::Can => "Can",
            ProtocolId::Iso15765 => "Iso15765",
        }
    }

    /// The protocol's name.
    pub fn name(self) -> (s: &'static str)
        ensures
            s == self.label(),
    {
        match self {
            ProtocolId::J1850Vpw => "J1850Vpw",
            ProtocolId::J1850Pwm => "J1850Pwm",
            ProtocolId::Iso9141 => "Iso9141",
            ProtocolId::Iso14230 => "Iso14230",
            ProtocolId::Can => "Can",
            ProtocolId::Iso15765 => "Iso15765",
        }
    }
}

impl Cmd {
    pub open spec fn label(self) -> &'static str {
        match self {
            Cmd::Open => "Open",
            Cmd::CloseSession => "CloseSession",
            Cmd::ReadVersion => "ReadVersion",
            Cmd::Connect => "Connect",
            Cmd::Disconnect => "Disconnect",
            Cmd::ReadMsg => "ReadMsg",
            Cmd::WriteMsg => "WriteMsg",
            Cmd::StartMsgFilter => "StartMsgFilter",
            Cmd::StopMsgFilter => "StopMsgFilter",
            Cmd::SetProgrammingVoltage => "SetProgrammingVoltage",
            Cmd::Ioctl => "Ioctl",
            Cmd::StartPeriodicMsg => "StartPeriodicMsg",
            Cmd::StopPeriodicMsg => "StopPeriodicMsg",
        }
    }

    /// The command's name.
    pub fn name(self) -> (s: &'static str)
        ensures
            s == self.label(),
    {
        match self {
            Cmd::Open => "Open",
            Cmd::CloseSession => "CloseSession",
            Cmd::ReadVersion => "ReadVersion",
            Cmd::Connect => "Connect",
            Cmd::Disconnect => "Disconnect",
            Cmd::ReadMsg => "ReadMsg",
            Cmd::WriteMsg => "WriteMsg",
            Cmd::StartMsgFilter => "StartMsgFilter",
            Cmd::StopMsgFilter => "StopMsgFilter",
            Cmd::SetProgrammingVoltage => "SetProgrammingVoltage",
            Cmd::Ioctl => "Ioctl",
            Cmd::StartPeriodicMsg => "StartPeriodicMsg",
            Cmd::StopPeriodicMsg => "StopPeriodicMsg",
        }
    }
}

impl DeviceStatus {
    pub open spec fn text(self) -> Seq<char> {
        match self {
            DeviceStatus::NoError => "NoError"@,
            DeviceStatus::NotSupported => "NotSupported"@,
            DeviceStatus::InvalidChannelId => "InvalidChannelId"@,
            DeviceStatus::NullParameter => "NullParameter"@,
            DeviceStatus::Failed => "Failed"@,
            DeviceStatus::DeviceNotConnected => "DeviceNotConnected"@,
            DeviceStatus::Timeout => "Timeout"@,
            DeviceStatus::InvalidMsg => "InvalidMsg"@,
            DeviceStatus::InvalidMsgId => "InvalidMsgId"@,
            DeviceStatus::BufferEmpty => "BufferEmpty"@,
            DeviceStatus::BufferFull => "BufferFull"@,
            DeviceStatus::ChannelInUse => "ChannelInUse"@,
            DeviceStatus::InvalidFilterId => "InvalidFilterId"@,
            DeviceStatus::InvalidDeviceId => "InvalidDeviceId"@,
            DeviceStatus::Unknown(v) => "Unknown("@ + decimal(v as nat) + ")"@,
        }
    }

    /// The status in words.
    pub fn message(self) -> (s: String)
        ensures
            s@ == self.text(),
    {
        match self {
            DeviceStatus::NoError => "NoError".to_owned(),
            DeviceStatus::NotSupported => "NotSupported".to_owned(),
            DeviceStatus::InvalidChannelId => "InvalidChannelId".to_owned(),
            DeviceStatus::NullParameter => "NullParameter".to_owned(),
            DeviceStatus::Failed => "Failed".to_owned(),
            DeviceStatus::DeviceNotConnected => "DeviceNotConnected".to_owned(),
            DeviceStatus::Timeout => "Timeout".to_owned(),
            DeviceStatus::InvalidMsg => "InvalidMsg".to_owned(),
            DeviceStatus::InvalidMsgId => "InvalidMsgId".to_owned(),
            DeviceStatus::BufferEmpty => "BufferEmpty".to_owned(),
            DeviceStatus::BufferFull => "BufferFull".to_owned(),
            DeviceStatus::ChannelInUse => "ChannelInUse".to_owned(),
            DeviceStatus::InvalidFilterId => "InvalidFilterId".to_owned(),
            DeviceStatus::InvalidDeviceId => "InvalidDeviceId".to_owned(),
            DeviceStatus::Unknown(v) => {
                let mut s = "Unknown(".to_owned();
                push_decimal(&mut s, v as u64);
                push_text(&mut s, ")");
                s
            },
        }
    }
}

impl InvalidProtocolId {
    pub open spec fn text(self) -> Seq<char> {
        "unsupported ProtocolID "@ + hex(self.0 as nat)
            + ": the adapter implements only 1-6 (and the 0x10000001 alias); any other value indexes past its handler table and wedges the MCU until the port is reopened"@
    }

    /// The error in words.
    pub fn message(self) -> (s: String)
        ensures
            s@ == self.text(),
    {
        let mut s = "unsupported ProtocolID ".to_owned();
        push_hex(&mut s, self.0 as u64);
        push_text(
            &mut s,
            ": the adapter implements only 1-6 (and the 0x10000001 alias); any other value indexes past its handler table and wedges the MCU until the port is reopened",
        );
        s
    }
}

impl TransportError {
    pub open spec fn text(self) -> Seq<char> {
        match self {
            TransportError::Io(reason) => reason@,
            TransportError::Open { port, reason } => "failed to open port "@ + port@ + ": "@
                + reason@,
        }
    }

    /// The error in words.
    pub fn message(&self) -> (s: String)
        ensures
            s@ == self.text(),
    {
        match self {
            TransportError::Io(reason) => reason.clone(),
            TransportError::Open { port, reason } => {
                let mut s = "failed to open port ".to_owned();
                push_text(&mut s, port.as_str());
                push_text(&mut s, ": ");
                push_text(&mut s, reason.as_str());
                s
            },
        }
    }
}

impl CodecError {
    pub open spec fn text(self) -> Seq<char> {
        match self {
            CodecError::TooShort(n) => "frame too short ("@ + decimal(n as nat)
                + " bytes; minimum is 3)"@,
            CodecError::TooLong(n) => "frame too long ("@ + decimal(n as nat) + " bytes)"@,
            CodecError::LengthMismatch { field, actual } => "length field says "@ + decimal(
                field as nat,
            ) + " but frame is "@ + decimal(actual as nat) + " bytes"@,
            CodecError::BadChecksum { wire, computed } => "bad checksum: wire "@ + hex_byte(wire)
                + ", computed "@ + hex_byte(computed),
            CodecError::BadEncryptedChecksum { wire, cipher, plain } =>
                "bad checksum on encrypted frame: wire "@ + hex_byte(wire)
                + " matches neither the ciphertext sum "@ + hex_byte(cipher)
                + " nor the plaintext sum "@ + hex_byte(plain),
            CodecError::BadCipherLength(n) => "encrypted payload length "@ + decimal(n as nat)
                + " is not a positive multiple of 8"@,
            CodecError::BadIdLen { proto, idlen } => "invalid filter identifier width "@
                + decimal(idlen as nat) + " for "@ + proto.label()@
                + " (1 for K-line, 4 for CAN/ISO15765, 5 for extended addressing)"@,
            CodecError::FilterFieldTooShort { have, need } => "filter field is "@ + decimal(
                have as nat,
            ) + " bytes but the identifier width is "@ + decimal(need as nat),
            CodecError::MsgTooLong(n) => "message of "@ + decimal(n as nat)
                + " bytes exceeds the adapter limit"@,
            CodecError::MalformedReply(why) => "malformed reply: "@ + why@,
        }
    }

    /// The error in words.
    pub fn message(&self) -> (s: String)
        ensures
            s@ == self.text(),
    {
        match *self {
            CodecError::TooShort(n) => {
                let mut s = "frame too short (".to_owned();
                push_decimal(&mut s, n as u64);
                push_text(&mut s, " bytes; minimum is 3)");
                s
            },
            CodecError::TooLong(n) => {
                let mut s = "frame too long (".to_owned();
                push_decimal(&mut s, n as u64);
                push_text(&mut s, " bytes)");
                s
            },
            CodecError::LengthMismatch { field, actual } => {
                let mut s = "length field says ".to_owned();
                push_decimal(&mut s, field as u64);
                push_text(&mut s, " but frame is ");
                push_decimal(&mut s, actual as u64);
                push_text(&mut s, " bytes");
                s
            },
            CodecError::BadChecksum { wire, computed } => {
                let mut s = "bad checksum: wire ".to_owned();
                push_hex_byte(&mut s, wire);
                push_text(&mut s, ", computed ");
                push_hex_byte(&mut s, computed);
                s
            },
            CodecError::BadEncryptedChecksum { wire, cipher, plain } => {
                let mut s = "bad checksum on encrypted frame: wire ".to_owned();
                push_hex_byte(&mut s, wire);
                push_text(&mut s, " matches neither the ciphertext sum ");
                push_hex_byte(&mut s, cipher);
                push_text(&mut s, " nor the plaintext sum ");
                push_hex_byte(&mut s, plain);
                s
            },
            CodecError::BadCipherLength(n) => {
                let mut s = "encrypted payload length ".to_owned();
                push_decimal(&mut s, n as u64);
                push_text(&mut s, " is not a positive multiple of 8");
                s
            },
            CodecError::BadIdLen { proto, idlen } => {
                let mut s = "invalid filter identifier width ".to_owned();
                push_decimal(&mut s, idlen as u64);
                push_text(&mut s, " for ");
                push_text(&mut s, proto.name());
                push_text(
                    &mut s,
                    " (1 for K-line, 4 for CAN/ISO15765, 5 for extended addressing)",
                );
                s
            },
            CodecError::FilterFieldTooShort { have, need } => {
                let mut s = "filter field is ".to_owned();
                push_decimal(&mut s, have as u64);
                push_text(&mut s, " bytes but the identifier width is ");
                push_decimal(&mut s, need as u64);
                s
            },
            CodecError::MsgTooLong(n) => {
                let mut s = "message of ".to_owned();
                push_decimal(&mut s, n as u64);
                push_text(&mut s, " bytes exceeds the adapter limit");
                s
            },
            CodecError::MalformedReply(why) => {
                let mut s = "malformed reply: ".to_owned();
                push_text(&mut s, why);
                s
            },
        }
    }
}

impl IsoTpError {
    pub open spec fn text(self) -> Seq<char> {
        match self {
            IsoTpError::PayloadTooLong(n) => "payload of "@ + decimal(n as nat)
                + " bytes exceeds the 4095-byte ISO-TP limit"@,
            IsoTpError::FirmwareFfDlLimit(n) => "payload of "@ + decimal(n as nat)
                + " bytes exceeds 255: the cable firmware truncates FF_DL to 8 bits and would emit a malformed First Frame — use the host-side ISO-TP path for transfers this large"@,
            IsoTpError::FcTimeout => "no flow control from the ECU within the N_Bs timeout"@,
            IsoTpError::CfTimeout => "consecutive frame gap exceeded the N_Cr timeout"@,
            IsoTpError::WaitLimit(n) => "ECU sent FS=WAIT more than "@ + decimal(n as nat)
                + " times"@,
            IsoTpError::Overflow => "ECU reported flow-control overflow (FS=OVFLW)"@,
            IsoTpError::SequenceError { expected, got } =>
                "consecutive frame sequence error: expected SN "@ + decimal(expected as nat)
                + ", got "@ + decimal(got as nat),
            IsoTpError::Malformed(why) => "malformed ISO-TP frame: "@ + why@,
        }
    }

    /// The error in words.
    pub fn message(&self) -> (s: String)
        ensures
            s@ == self.text(),
    {
        match *self {
            IsoTpError::PayloadTooLong(n) => {
                let mut s = "payload of ".to_owned();
                push_decimal(&mut s, n as u64);
                push_text(&mut s, " bytes exceeds the 4095-byte ISO-TP limit");
                s
            },
            IsoTpError::FirmwareFfDlLimit(n) => {
                let mut s = "payload of ".to_owned();
                push_decimal(&mut s, n as u64);
                push_text(
                    &mut s,
                    " bytes exceeds 255: the cable firmware truncates FF_DL to 8 bits and would emit a malformed First Frame — use the host-side ISO-TP path for transfers this large",
                );
                s
            },
            IsoTpError::FcTimeout =>
                "no flow control from the ECU within the N_Bs timeout".to_owned(),
            IsoTpError::CfTimeout => "consecutive frame gap exceeded the N_Cr timeout".to_owned(),
            IsoTpError::WaitLimit(n) => {
                let mut s = "ECU sent FS=WAIT more than ".to_owned();
                push_decimal(&mut s, n as u64);
                push_text(&mut s, " times");
                s
            },
            IsoTpError::Overflow => "ECU reported flow-control overflow (FS=OVFLW)".to_owned(),
            IsoTpError::SequenceError { expected, got } => {
                let mut s = "consecutive frame sequence error: expected SN ".to_owned();
                push_decimal(&mut s, expected as u64);
                push_text(&mut s, ", got ");
                push_decimal(&mut s, got as u64);
                s
            },
            IsoTpError::Malformed(why) => {
                let mut s = "malformed ISO-TP frame: ".to_owned();
                push_text(&mut s, why);
                s
            },
        }
    }
}

impl Error {
    pub open spec fn text(self) -> Seq<char> {
        match self {
            Error::Transport(e) => e.text(),
            Error::Codec(e) => e.text(),
            Error::Protocol(e) => e.text(),
            Error::IsoTp(e) => e.text(),
            Error::Timeout(d) => "no reply from the adapter within "@ + d.text()
                + " (wedged? reopening the port pulses DTR/RTS and resets the MCU)"@,
            Error::Rejected { cmd, status } => "adapter rejected "@ + cmd.label()@ + ": "@
                + status.text(),
            Error::NoFilterInstalled { proto } =>
                "read timed out and no PASS/FLOW_CONTROL filter is installed on "@
                + proto.label()@
                + ": this adapter's acceptance filter starts enabled and empty, so a filterless channel receives nothing at all — install a filter first"@,
            Error::BufferEmpty => "no message available"@,
            Error::Wedged(n) => "adapter unresponsive after "@ + decimal(n as nat)
                + " consecutive keepalive failures; reopen the device"@,
            Error::Closed => "device handle closed"@,
        }
    }

    /// The error in words.
    pub fn message(&self) -> (s: String)
        ensures
            s@ == self.text(),
    {
        match self {
            Error::Transport(e) => e.message(),
            Error::Codec(e) => e.message(),
            Error::Protocol(e) => e.message(),
            Error::IsoTp(e) => e.message(),
            Error::Timeout(d) => {
                let mut s = "no reply from the adapter within ".to_owned();
                push_text(&mut s, d.message().as_str());
                push_text(
                    &mut s,
                    " (wedged? reopening the port pulses DTR/RTS and resets the MCU)",
                );
                s
            },
            Error::Rejected { cmd, status } => {
                let mut s = "adapter rejected ".to_owned();
                push_text(&mut s, cmd.name());
                push_text(&mut s, ": ");
                push_text(&mut s, status.message().as_str());
                s
            },
            Error::NoFilterInstalled { proto } => {
                let mut s =
                    "read timed out and no PASS/FLOW_CONTROL filter is installed on ".to_owned();
                push_text(&mut s, proto.name());
                push_text(
                    &mut s,
                    ": this adapter's acceptance filter starts enabled and empty, so a filterless channel receives nothing at all — install a filter first",
                );
                s
            },
            Error::BufferEmpty => "no message available".to_owned(),
            Error::Wedged(n) => {
                let mut s = "adapter unresponsive after ".to_owned();
                push_decimal(&mut s, *n as u64);
                push_text(&mut s, " consecutive keepalive failures; reopen the device");
                s
            },
            Error::Closed => "device handle closed".to_owned(),
        }
    }
}

} // verus!
