//! Service ids and negative response codes, as the `automotive_diag` crate has
//! them.

use vstd::prelude::*;

use automotive_diag::kwp2000::{KwpCommand as Kwp, KwpError, KwpErrorByte};
use automotive_diag::obd2::Obd2Command;
use automotive_diag::uds::{DtcSubFunction, UdsCommand as Iso, UdsErrorByte};
use automotive_diag::ByteWrapper;

verus! {

/// KWP2000 services.
#[derive(Clone, Copy, PartialEq, Eq, Structural, Debug)]
pub enum KwpCommand {
    StartDiagnosticSession,
    ECUReset,
    ClearDiagnosticInformation,
    ReadStatusOfDiagnosticTroubleCodes,
    ReadDiagnosticTroubleCodesByStatus,
    ReadECUIdentification,
    ReadDataByLocalIdentifier,
    ReadDataByIdentifier,
    ReadMemoryByAddress,
    SecurityAccess,
    DisableNormalMessageTransmission,
    EnableNormalMessageTransmission,
    DynamicallyDefineLocalIdentifier,
    WriteDataByIdentifier,
    InputOutputControlByLocalIdentifier,
    StartRoutineByLocalIdentifier,
    StopRoutineByLocalIdentifier,
    RequestRoutineResultsByLocalIdentifier,
    RequestDownload,
    RequestUpload,
    TransferData,
    RequestTransferExit,
    WriteDataByLocalIdentifier,
    WriteMemoryByAddress,
    TesterPresent,
    ControlDTCSettings,
    ResponseOnEvent,
}

impl KwpCommand {
    /// The service id.
    pub open spec fn id(self) -> u8 {
        match self {
            KwpCommand::StartDiagnosticSession => 0x10,
            KwpCommand::ECUReset => 0x11,
            KwpCommand::ClearDiagnosticInformation => 0x14,
            KwpCommand::ReadStatusOfDiagnosticTroubleCodes => 0x17,
            KwpCommand::ReadDiagnosticTroubleCodesByStatus => 0x18,
            KwpCommand::ReadECUIdentification => 0x1a,
            KwpCommand::ReadDataByLocalIdentifier => 0x21,
            KwpCommand::ReadDataByIdentifier => 0x22,
            KwpCommand::ReadMemoryByAddress => 0x23,
            KwpCommand::SecurityAccess => 0x27,
            KwpCommand::DisableNormalMessageTransmission => 0x28,
            KwpCommand::EnableNormalMessageTransmission => 0x29,
            KwpCommand::DynamicallyDefineLocalIdentifier => 0x2c,
            KwpCommand::WriteDataByIdentifier => 0x2e,
            KwpCommand::InputOutputControlByLocalIdentifier => 0x30,
            KwpCommand::StartRoutineByLocalIdentifier => 0x31,
            KwpCommand::StopRoutineByLocalIdentifier => 0x32,
            KwpCommand::RequestRoutineResultsByLocalIdentifier => 0x33,
            KwpCommand::RequestDownload => 0x34,
            KwpCommand::RequestUpload => 0x35,
            KwpCommand::TransferData => 0x36,
            KwpCommand::RequestTransferExit => 0x37,
            KwpCommand::WriteDataByLocalIdentifier => 0x3b,
            KwpCommand::WriteMemoryByAddress => 0x3d,
            KwpCommand::TesterPresent => 0x3e,
            KwpCommand::ControlDTCSettings => 0x85,
            KwpCommand::ResponseOnEvent => 0x86,
        }
    }

    pub fn code(self) -> (r: u8)
        ensures
            r == self.id(),
    {
        match self {
            KwpCommand::InputOutputControlByLocalIdentifier => kwp_upper(self),
            KwpCommand::StartRoutineByLocalIdentifier => kwp_upper(self),
            KwpCommand::StopRoutineByLocalIdentifier => kwp_upper(self),
            KwpCommand::RequestRoutineResultsByLocalIdentifier => kwp_upper(self),
            KwpCommand::RequestDownload => kwp_upper(self),
            KwpCommand::RequestUpload => kwp_upper(self),
            KwpCommand::TransferData => kwp_upper(self),
            KwpCommand::RequestTransferExit => kwp_upper(self),
            KwpCommand::WriteDataByLocalIdentifier => kwp_upper(self),
            KwpCommand::WriteMemoryByAddress => kwp_upper(self),
            KwpCommand::TesterPresent => kwp_upper(self),
            KwpCommand::ControlDTCSettings => kwp_upper(self),
            KwpCommand::ResponseOnEvent => kwp_upper(self),
            _ => kwp_lower(self),
        }
    }
}

/// `u8::from` of `automotive_diag::kwp2000::KwpCommand`, for the services below
/// 0x30: the enum's discriminant, which is the service id.
#[verifier::external_body]
fn kwp_lower(c: KwpCommand) -> (r: u8)
    requires
        c.id() < 0x30,
    ensures
        r == c.id(),
{
    u8::from(match c {
        KwpCommand::StartDiagnosticSession => Kwp::StartDiagnosticSession,
        KwpCommand::ECUReset => Kwp::ECUReset,
        KwpCommand::ClearDiagnosticInformation => Kwp::ClearDiagnosticInformation,
        KwpCommand::ReadStatusOfDiagnosticTroubleCodes => Kwp::ReadStatusOfDiagnosticTroubleCodes,
        KwpCommand::ReadDiagnosticTroubleCodesByStatus => Kwp::ReadDiagnosticTroubleCodesByStatus,
        KwpCommand::ReadECUIdentification => Kwp::ReadECUIdentification,
        KwpCommand::ReadDataByLocalIdentifier => Kwp::ReadDataByLocalIdentifier,
        KwpCommand::ReadDataByIdentifier => Kwp::ReadDataByIdentifier, KwpCommand::ReadMemoryByAddress => Kwp::ReadMemoryByAddress,
        KwpCommand::SecurityAccess => Kwp::SecurityAccess, KwpCommand::DisableNormalMessageTransmission => Kwp::DisableNormalMessageTransmission,
        KwpCommand::EnableNormalMessageTransmission => Kwp::EnableNormalMessageTransmission,
        KwpCommand::DynamicallyDefineLocalIdentifier => Kwp::DynamicallyDefineLocalIdentifier, _ => Kwp::WriteDataByIdentifier,
    })
}

/// `u8::from` of `automotive_diag::kwp2000::KwpCommand`, for the services from
/// 0x30 on: the enum's discriminant, which is the service id.
#[verifier::external_body]
fn kwp_upper(c: KwpCommand) -> (r: u8)
    requires
        c.id() >= 0x30,
    ensures
        r == c.id(),
{
    u8::from(match c {
        KwpCommand::InputOutputControlByLocalIdentifier => Kwp::InputOutputControlByLocalIdentifier,
        KwpCommand::StartRoutineByLocalIdentifier => Kwp::StartRoutineByLocalIdentifier,
        KwpCommand::StopRoutineByLocalIdentifier => Kwp::StopRoutineByLocalIdentifier,
        KwpCommand::RequestRoutineResultsByLocalIdentifier => Kwp::RequestRoutineResultsByLocalIdentifier,
        KwpCommand::RequestDownload => Kwp::RequestDownload, KwpCommand::RequestUpload => Kwp::RequestUpload,
        KwpCommand::TransferData => Kwp::TransferData, KwpCommand::RequestTransferExit => Kwp::RequestTransferExit,
        KwpCommand::WriteDataByLocalIdentifier => Kwp::WriteDataByLocalIdentifier,
        KwpCommand::WriteMemoryByAddress => Kwp::WriteMemoryByAddress,
        KwpCommand::TesterPresent => Kwp::TesterPresent, KwpCommand::ControlDTCSettings => Kwp::ControlDTCSettings,
        _ => Kwp::ResponseOnEvent,
    })
}

/// UDS services.
#[derive(Clone, Copy, PartialEq, Eq, Structural, Debug)]
pub enum UdsCommand {
    DiagnosticSessionControl,
    ECUReset,
    SecurityAccess,
    CommunicationControl,
    TesterPresent,
    Authentication,
    SecuredDataTransmission,
    ControlDTCSetting,
    ResponseOnEvent,
    LinkControl,
    ReadDataByIdentifier,
    ReadMemoryByAddress,
    ReadScalingDataByIdentifier,
    ReadDataByPeriodicIdentifier,
    DynamicallyDefineDataIdentifier,
    WriteDataByIdentifier,
    WriteMemoryByAddress,
    ClearDiagnosticInformation,
    ReadDTCInformation,
    InputOutputControlByIdentifier,
    RoutineControl,
    RequestDownload,
    RequestUpload,
    TransferData,
    RequestTransferExit,
    RequestFileTransfer,
}

impl UdsCommand {
    /// The service id.
    pub open spec fn id(self) -> u8 {
        match self {
            UdsCommand::DiagnosticSessionControl => 0x10,
            UdsCommand::ECUReset => 0x11,
            UdsCommand::SecurityAccess => 0x27,
            UdsCommand::CommunicationControl => 0x28,
            UdsCommand::TesterPresent => 0x3e,
            UdsCommand::Authentication => 0x29,
            UdsCommand::SecuredDataTransmission => 0x84,
            UdsCommand::ControlDTCSetting => 0x85,
            UdsCommand::ResponseOnEvent => 0x86,
            UdsCommand::LinkControl => 0x87,
            UdsCommand::ReadDataByIdentifier => 0x22,
            UdsCommand::ReadMemoryByAddress => 0x23,
            UdsCommand::ReadScalingDataByIdentifier => 0x24,
            UdsCommand::ReadDataByPeriodicIdentifier => 0x2a,
            UdsCommand::DynamicallyDefineDataIdentifier => 0x2c,
            UdsCommand::WriteDataByIdentifier => 0x2e,
            UdsCommand::WriteMemoryByAddress => 0x3d,
            UdsCommand::ClearDiagnosticInformation => 0x14,
            UdsCommand::ReadDTCInformation => 0x19,
            UdsCommand::InputOutputControlByIdentifier => 0x2f,
            UdsCommand::RoutineControl => 0x31,
            UdsCommand::RequestDownload => 0x34,
            UdsCommand::RequestUpload => 0x35,
            UdsCommand::TransferData => 0x36,
            UdsCommand::RequestTransferExit => 0x37,
            UdsCommand::RequestFileTransfer => 0x38,
        }
    }

    pub fn code(self) -> (r: u8)
        ensures
            r == self.id(),
    {
        match self {
            UdsCommand::TesterPresent => uds_upper(self),
            UdsCommand::SecuredDataTransmission => uds_upper(self),
            UdsCommand::ControlDTCSetting => uds_upper(self),
            UdsCommand::ResponseOnEvent => uds_upper(self),
            UdsCommand::LinkControl => uds_upper(self),
            UdsCommand::WriteMemoryByAddress => uds_upper(self),
            UdsCommand::RoutineControl => uds_upper(self),
            UdsCommand::RequestDownload => uds_upper(self),
            UdsCommand::RequestUpload => uds_upper(self),
            UdsCommand::TransferData => uds_upper(self),
            UdsCommand::RequestTransferExit => uds_upper(self),
            UdsCommand::RequestFileTransfer => uds_upper(self),
            _ => uds_lower(self),
        }
    }
}

/// `u8::from` of `automotive_diag::uds::UdsCommand`, for the services below
/// 0x30: the enum's discriminant, which is the service id.
#[verifier::external_body]
fn uds_lower(c: UdsCommand) -> (r: u8)
    requires
        c.id() < 0x30,
    ensures
        r == c.id(),
{
    u8::from(match c {
        UdsCommand::DiagnosticSessionControl => Iso::DiagnosticSessionControl, UdsCommand::ECUReset => Iso::ECUReset,
        UdsCommand::SecurityAccess => Iso::SecurityAccess, UdsCommand::CommunicationControl => Iso::CommunicationControl,
        UdsCommand::Authentication => Iso::Authentication, UdsCommand::ReadDataByIdentifier => Iso::ReadDataByIdentifier,
        UdsCommand::ReadMemoryByAddress => Iso::ReadMemoryByAddress,
        UdsCommand::ReadScalingDataByIdentifier => Iso::ReadScalingDataByIdentifier,
        UdsCommand::ReadDataByPeriodicIdentifier => Iso::ReadDataByPeriodicIdentifier,
        UdsCommand::DynamicallyDefineDataIdentifier => Iso::DynamicallyDefineDataIdentifier,
        UdsCommand::WriteDataByIdentifier => Iso::WriteDataByIdentifier,
        UdsCommand::ClearDiagnosticInformation => Iso::ClearDiagnosticInformation,
        UdsCommand::ReadDTCInformation => Iso::ReadDTCInformation, _ => Iso::InputOutputControlByIdentifier,
    })
}

/// `u8::from` of `automotive_diag::uds::UdsCommand`, for the services from 0x30
/// on: the enum's discriminant, which is the service id.
#[verifier::external_body]
fn uds_upper(c: UdsCommand) -> (r: u8)
    requires
        c.id() >= 0x30,
    ensures
        r == c.id(),
{
    u8::from(match c {
        UdsCommand::TesterPresent => Iso::TesterPresent,
        UdsCommand::SecuredDataTransmission => Iso::SecuredDataTransmission,
        UdsCommand::ControlDTCSetting => Iso::ControlDTCSetting, UdsCommand::ResponseOnEvent => Iso::ResponseOnEvent,
        UdsCommand::LinkControl => Iso::LinkControl, UdsCommand::WriteMemoryByAddress => Iso::WriteMemoryByAddress,
        UdsCommand::RoutineControl => Iso::RoutineControl, UdsCommand::RequestDownload => Iso::RequestDownload,
        UdsCommand::RequestUpload => Iso::RequestUpload, UdsCommand::TransferData => Iso::TransferData,
        UdsCommand::RequestTransferExit => Iso::RequestTransferExit, _ => Iso::RequestFileTransfer,
    })
}

/// The service id of OBD-II current data.
pub const OBD_CURRENT_DATA: u8 = 0x01;

/// The service id of OBD-II stored trouble codes.
pub const OBD_STORED_DTCS: u8 = 0x03;

/// The sub-function of readDTCInformation that reports by status mask.
pub const DTC_BY_STATUS_MASK: u8 = 0x02;

/// The code of a refusal because the request is out of range.
pub const NRC_OUT_OF_RANGE: u8 = 0x31;

/// The discriminant of `automotive_diag::obd2::Obd2Command::Service01`.
#[verifier::external_body]
pub(crate) fn obd_service01() -> (r: u8)
    ensures
        r == OBD_CURRENT_DATA,
{
    Obd2Command::Service01 as u8
}

/// The discriminant of `automotive_diag::obd2::Obd2Command::Service03`.
#[verifier::external_body]
pub(crate) fn obd_service03() -> (r: u8)
    ensures
        r == OBD_STORED_DTCS,
{
    Obd2Command::Service03 as u8
}

/// The discriminant of
/// `automotive_diag::uds::DtcSubFunction::ReportDtcByStatusMask`.
#[verifier::external_body]
pub(crate) fn dtc_by_status_mask() -> (r: u8)
    ensures
        r == DTC_BY_STATUS_MASK,
{
    DtcSubFunction::ReportDtcByStatusMask as u8
}

/// The discriminant of `automotive_diag::kwp2000::KwpError::RequestOutOfRange`.
#[verifier::external_body]
pub(crate) fn request_out_of_range() -> (r: u8)
    ensures
        r == NRC_OUT_OF_RANGE,
{
    KwpError::RequestOutOfRange as u8
}

/// A negative response code, told apart by whether its table has it.
#[derive(Clone, Copy, PartialEq, Eq, Structural, Debug)]
pub enum NrcByte {
    Standard(u8),
    Extended(u8),
}

/// The codes of the UDS table.
pub open spec fn in_uds_table(nrc: u8) -> bool {
    ||| 0x10 <= nrc <= 0x14
    ||| 0x21 <= nrc <= 0x22
    ||| 0x24 <= nrc <= 0x26
    ||| nrc == 0x31
    ||| nrc == 0x33
    ||| 0x35 <= nrc <= 0x37
    ||| 0x70 <= nrc <= 0x73
    ||| nrc == 0x78
    ||| 0x7e <= nrc <= 0x7f
    ||| 0x81 <= nrc <= 0x8d
    ||| 0x8f <= nrc <= 0x93
}

/// The codes of the KWP2000 table.
pub open spec fn in_kwp_table(nrc: u8) -> bool {
    ||| 0x10 <= nrc <= 0x12
    ||| 0x21 <= nrc <= 0x23
    ||| nrc == 0x31
    ||| nrc == 0x33
    ||| 0x35 <= nrc <= 0x37
    ||| nrc == 0x40
    ||| nrc == 0x50
    ||| nrc == 0x71
    ||| nrc == 0x78
    ||| nrc == 0x80
    ||| 0x9a <= nrc <= 0x9b
    ||| 0xa0 <= nrc <= 0xa1
}

/// `automotive_diag::uds::UdsErrorByte::from`: a code of the table comes out as
/// standard, any other as extended; either way it is the same code.
#[verifier::external_body]
pub(crate) fn uds_error_byte(nrc: u8) -> (r: NrcByte)
    ensures
        r == if in_uds_table(nrc) {
            NrcByte::Standard(nrc)
        } else {
            NrcByte::Extended(nrc)
        },
{
    match UdsErrorByte::from(nrc) {
        ByteWrapper::Standard(e) => NrcByte::Standard(e.into()),
        ByteWrapper::Extended(v) => NrcByte::Extended(v),
    }
}

/// `automotive_diag::kwp2000::KwpErrorByte::from`: a code of the table comes
/// out as standard, any other as extended; either way it is the same code.
#[verifier::external_body]
pub(crate) fn kwp_error_byte(nrc: u8) -> (r: NrcByte)
    ensures
        r == if in_kwp_table(nrc) {
            NrcByte::Standard(nrc)
        } else {
            NrcByte::Extended(nrc)
        },
{
    match KwpErrorByte::from(nrc) {
        ByteWrapper::Standard(e) => NrcByte::Standard(e.into()),
        ByteWrapper::Extended(v) => NrcByte::Extended(v),
    }
}

/// The name of a negative response code in the UDS table.
pub uninterp spec fn uds_error_text(nrc: u8) -> Seq<char>;

/// The `Debug` output of `automotive_diag::uds::UdsErrorByte::from`: a function
/// of the code alone.
#[verifier::external_body]
pub(crate) fn uds_error_name(nrc: u8) -> (s: String)
    ensures
        s@ == uds_error_text(nrc),
{
    format!("{:?}", UdsErrorByte::from(nrc))
}

} // verus!
