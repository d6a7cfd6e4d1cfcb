//! Command descriptor blocks: the commands this target knows and the
//! parser that turns the bytes of a CDB into one of them.
use crate::mode_page::ModePage;
use vstd::prelude::*;

verus! {

/// Which logical units REPORT LUNS is asked to list.
#[derive(PartialEq, Eq, Debug, Copy, Clone, Structural)]
pub enum ReportLunsSelectReport {
    NoWellKnown,
    WellKnownOnly,
    All,
    Administrative,
    TopLevel,
    SameConglomerate,
}

/// A vital product data page, as INQUIRY names it.
#[derive(PartialEq, Eq, Debug, Copy, Clone, Structural)]
pub enum InquiryPageCode {
    Ascii(u8),
    Ata,
    BlockDeviceCharacteristics,
    BlockDeviceCharacteristicsExt,
    BlockLimits,
    BlockLimitsExt,
    CfaProfile,
    DeviceConstituents,
    DeviceIdentification,
    ExtendedInquiry,
    FormatPresets,
    LogicalBlockProvisioning,
    ManagementNetworkAddresses,
    ModePagePolicy,
    PowerCondition,
    PowerConsumption,
    PortocolSpecificLogicalUnit,
    ProtocolSpecificPort,
    Referrals,
    ScsiFeatureSets,
    ScsiPorts,
    SoftwareInterfaceIdentification,
    SupportedVpdPages,
    ThirdPartyCopy,
    UnitSerialNumber,
    ZonedBlockDeviceCharacteristics,
}

/// Which set of mode parameter values MODE SENSE is asked for.
#[derive(PartialEq, Eq, Debug, Copy, Clone, Structural)]
pub enum ModeSensePageControl {
    Current,
    Changeable,
    Default,
    Saved,
}

/// The format in which REQUEST SENSE wants its sense data.
#[derive(PartialEq, Eq, Debug, Copy, Clone, Structural)]
pub enum SenseFormat {
    Fixed,
    Descriptor,
}

/// The mode pages MODE SENSE selects.
#[derive(PartialEq, Eq, Debug, Copy, Clone, Structural)]
pub enum ModePageSelection {
    AllPageZeros,
    Single(ModePage),
}

/// What REPORT SUPPORTED OPERATION CODES is asked to report on.
#[derive(PartialEq, Eq, Debug, Copy, Clone, Structural)]
pub enum ReportSupportedOpCodesMode {
    All,
    OneCommand(u8),
    OneServiceAction(u8, u16),
    OneCommandOrServiceAction(u8, u16),
}

/// A parsed command with its arguments.
#[derive(PartialEq, Eq, Debug, Copy, Clone, Structural)]
pub enum Command {
    TestUnitReady,
    ReportLuns(ReportLunsSelectReport),
    ReadCapacity10,
    ReadCapacity16,
    ModeSense6 { pc: ModeSensePageControl, mode_page: ModePageSelection, dbd: bool },
    Read10 { dpo: bool, fua: bool, lba: u32, group_number: u8, transfer_length: u16 },
    Inquiry(Option<InquiryPageCode>),
    RequestSense(SenseFormat),
    ReportSupportedOperationCodes { rctd: bool, mode: ReportSupportedOpCodesMode },
}

/// A command without its arguments.
#[derive(PartialEq, Eq, Debug, Copy, Clone, Structural)]
pub enum CommandType {
    TestUnitReady,
    RequestSense,
    Inquiry,
    ModeSense6,
    ReadCapacity10,
    Read10,
    ReadCapacity16,
    ReportLuns,
    ReportSupportedOperationCodes,
}

/// Why a CDB was refused.
#[derive(PartialEq, Eq, Debug, Copy, Clone, Structural)]
pub enum ParseError {
    /// The operation code is not one this target knows.
    InvalidCommand,
    /// The operation code is known, but a field holds a refused value.
    InvalidField,
    /// The buffer ends before the CDB of its operation code does.
    TooShort,
}

/// A parsed CDB.
#[derive(PartialEq, Eq, Debug, Copy, Clone, Structural)]
pub struct Cdb {
    pub command: Command,
    /// The most data-in bytes the initiator takes, where the command has
    /// such a field.
    pub allocation_length: Option<u32>,
    /// The NACA bit of the control byte.
    pub naca: bool,
}

/// The page that a page code names, if it names one.
pub open spec fn vpd_page_of(val: u8) -> Option<InquiryPageCode> {
    if val == 0x00 {
        Some(InquiryPageCode::SupportedVpdPages)
    } else if val <= 0x7f {
        Some(InquiryPageCode::Ascii(val))
    } else if val == 0x80 {
        Some(InquiryPageCode::UnitSerialNumber)
    } else if val == 0x83 {
        Some(InquiryPageCode::DeviceIdentification)
    } else if val == 0x84 {
        Some(InquiryPageCode::SoftwareInterfaceIdentification)
    } else if val == 0x85 {
        Some(InquiryPageCode::ManagementNetworkAddresses)
    } else if val == 0x86 {
        Some(InquiryPageCode::ExtendedInquiry)
    } else if val == 0x87 {
        Some(InquiryPageCode::ModePagePolicy)
    } else if val == 0x88 {
        Some(InquiryPageCode::ScsiPorts)
    } else if val == 0x89 {
        Some(InquiryPageCode::Ata)
    } else if val == 0x8a {
        Some(InquiryPageCode::PowerCondition)
    } else if val == 0x8b {
        Some(InquiryPageCode::DeviceConstituents)
    } else if val == 0x8c {
        Some(InquiryPageCode::CfaProfile)
    } else if val == 0x8d {
        Some(InquiryPageCode::PowerConsumption)
    } else if val == 0x8f {
        Some(InquiryPageCode::ThirdPartyCopy)
    } else if val == 0x90 {
        Some(InquiryPageCode::PortocolSpecificLogicalUnit)
    } else if val == 0x91 {
        Some(InquiryPageCode::ProtocolSpecificPort)
    } else if val == 0x92 {
        Some(InquiryPageCode::ScsiFeatureSets)
    } else if val == 0xb0 {
        Some(InquiryPageCode::BlockLimits)
    } else if val == 0xb1 {
        Some(InquiryPageCode::BlockDeviceCharacteristics)
    } else if val == 0xb2 {
        Some(InquiryPageCode::LogicalBlockProvisioning)
    } else if val == 0xb3 {
        Some(InquiryPageCode::Referrals)
    } else if val == 0xb5 {
        Some(InquiryPageCode::BlockDeviceCharacteristicsExt)
    } else if val == 0xb6 {
        Some(InquiryPageCode::ZonedBlockDeviceCharacteristics)
    } else if val == 0xb7 {
        Some(InquiryPageCode::BlockLimitsExt)
    } else if val == 0xb8 {
        Some(InquiryPageCode::FormatPresets)
    } else {
        None
    }
}

/// The page code of a page.
pub open spec fn vpd_code_of(page: InquiryPageCode) -> u8 {
    match page {
        InquiryPageCode::Ascii(val) => val,
        InquiryPageCode::SupportedVpdPages => 0x00,
        InquiryPageCode::Ata => 0x89,
        InquiryPageCode::BlockDeviceCharacteristics => 0xb1,
        InquiryPageCode::BlockDeviceCharacteristicsExt => 0xb5,
        InquiryPageCode::BlockLimits => 0xb0,
        InquiryPageCode::BlockLimitsExt => 0xb7,
        InquiryPageCode::CfaProfile => 0x8c,
        InquiryPageCode::DeviceConstituents => 0x8b,
        InquiryPageCode::DeviceIdentification => 0x83,
        InquiryPageCode::ExtendedInquiry => 0x86,
        InquiryPageCode::FormatPresets => 0xb8,
        InquiryPageCode::LogicalBlockProvisioning => 0xb2,
        InquiryPageCode::ManagementNetworkAddresses => 0x85,
        InquiryPageCode::ModePagePolicy => 0x87,
        InquiryPageCode::PortocolSpecificLogicalUnit => 0x90,
        InquiryPageCode::PowerCondition => 0x8a,
        InquiryPageCode::PowerConsumption => 0x8d,
        InquiryPageCode::ProtocolSpecificPort => 0x91,
        InquiryPageCode::Referrals => 0xb3,
        InquiryPageCode::ScsiFeatureSets => 0x92,
        InquiryPageCode::ScsiPorts => 0x88,
        InquiryPageCode::SoftwareInterfaceIdentification => 0x84,
        InquiryPageCode::ThirdPartyCopy => 0x8f,
        InquiryPageCode::UnitSerialNumber => 0x80,
        InquiryPageCode::ZonedBlockDeviceCharacteristics => 0xb6,
    }
}

/// The selection that a select-report code names, if it names one.
pub open spec fn select_report_of(val: u8) -> Option<ReportLunsSelectReport> {
    if val == 0x00 {
        Some(ReportLunsSelectReport::NoWellKnown)
    } else if val == 0x01 {
        Some(ReportLunsSelectReport::WellKnownOnly)
    } else if val == 0x02 {
        Some(ReportLunsSelectReport::All)
    } else if val == 0x10 {
        Some(ReportLunsSelectReport::Administrative)
    } else if val == 0x11 {
        Some(ReportLunsSelectReport::TopLevel)
    } else if val == 0x12 {
        Some(ReportLunsSelectReport::SameConglomerate)
    } else {
        None
    }
}

/// The page control that a two-bit code names.
pub open spec fn page_control_of(val: u8) -> Option<ModeSensePageControl> {
    if val == 0 {
        Some(ModeSensePageControl::Current)
    } else if val == 1 {
        Some(ModeSensePageControl::Changeable)
    } else if val == 2 {
        Some(ModeSensePageControl::Default)
    } else if val == 3 {
        Some(ModeSensePageControl::Saved)
    } else {
        None
    }
}

/// The page that a page code names, or an error where it names none.
pub open spec fn vpd_page_from(val: u8) -> Result<InquiryPageCode, ()> {
    match vpd_page_of(val) {
        Some(page) => Ok(page),
        None => Err(()),
    }
}

impl TryFrom<u8> for InquiryPageCode {
    type Error = ();

    /// The page that `val` names; an error where it names none.
    fn try_from(val: u8) -> (page: Result<Self, ()>) {
        match val {
            0x00 => Ok(InquiryPageCode::SupportedVpdPages),
            0x80 => Ok(InquiryPageCode::UnitSerialNumber),
            0x83 => Ok(InquiryPageCode::DeviceIdentification),
            0x84 => Ok(InquiryPageCode::SoftwareInterfaceIdentification),
            0x85 => Ok(InquiryPageCode::ManagementNetworkAddresses),
            0x86 => Ok(InquiryPageCode::ExtendedInquiry),
            0x87 => Ok(InquiryPageCode::ModePagePolicy),
            0x88 => Ok(InquiryPageCode::ScsiPorts),
            0x89 => Ok(InquiryPageCode::Ata),
            0x8a => Ok(InquiryPageCode::PowerCondition),
            0x8b => Ok(InquiryPageCode::DeviceConstituents),
            0x8c => Ok(InquiryPageCode::CfaProfile),
            0x8d => Ok(InquiryPageCode::PowerConsumption),
            0x8f => Ok(InquiryPageCode::ThirdPartyCopy),
            0x90 => Ok(InquiryPageCode::PortocolSpecificLogicalUnit),
            0x91 => Ok(InquiryPageCode::ProtocolSpecificPort),
            0x92 => Ok(InquiryPageCode::ScsiFeatureSets),
            0xb0 => Ok(InquiryPageCode::BlockLimits),
            0xb1 => Ok(InquiryPageCode::BlockDeviceCharacteristics),
            0xb2 => Ok(InquiryPageCode::LogicalBlockProvisioning),
            0xb3 => Ok(InquiryPageCode::Referrals),
            0xb5 => Ok(InquiryPageCode::BlockDeviceCharacteristicsExt),
            0xb6 => Ok(InquiryPageCode::ZonedBlockDeviceCharacteristics),
            0xb7 => Ok(InquiryPageCode::BlockLimitsExt),
            0xb8 => Ok(InquiryPageCode::FormatPresets),
            _ => if val <= 0x7f {
                Ok(InquiryPageCode::Ascii(val))
            } else {
                Err(())
            },
        }
    }
}

impl vstd::std_specs::convert::TryFromSpecImpl<u8> for InquiryPageCode {
    open spec fn obeys_try_from_spec() -> bool {
        true
    }

    open spec fn try_from_spec(val: u8) -> Result<Self, ()> {
        vpd_page_from(val)
    }
}


impl From<InquiryPageCode> for u8 {
    /// The code of a page.
    fn from(page: InquiryPageCode) -> (val: u8) {
        match page {
            InquiryPageCode::Ascii(val) => val,
            InquiryPageCode::SupportedVpdPages => 0x00,
            InquiryPageCode::Ata => 0x89,
            InquiryPageCode::BlockDeviceCharacteristics => 0xb1,
            InquiryPageCode::BlockDeviceCharacteristicsExt => 0xb5,
            InquiryPageCode::BlockLimits => 0xb0,
            InquiryPageCode::BlockLimitsExt => 0xb7,
            InquiryPageCode::CfaProfile => 0x8c,
            InquiryPageCode::DeviceConstituents => 0x8b,
            InquiryPageCode::DeviceIdentification => 0x83,
            InquiryPageCode::ExtendedInquiry => 0x86,
            InquiryPageCode::FormatPresets => 0xb8,
            InquiryPageCode::LogicalBlockProvisioning => 0xb2,
            InquiryPageCode::ManagementNetworkAddresses => 0x85,
            InquiryPageCode::ModePagePolicy => 0x87,
            InquiryPageCode::PortocolSpecificLogicalUnit => 0x90,
            InquiryPageCode::PowerCondition => 0x8a,
            InquiryPageCode::PowerConsumption => 0x8d,
            InquiryPageCode::ProtocolSpecificPort => 0x91,
            InquiryPageCode::Referrals => 0xb3,
            InquiryPageCode::ScsiFeatureSets => 0x92,
            InquiryPageCode::ScsiPorts => 0x88,
            InquiryPageCode::SoftwareInterfaceIdentification => 0x84,
            InquiryPageCode::ThirdPartyCopy => 0x8f,
            InquiryPageCode::UnitSerialNumber => 0x80,
            InquiryPageCode::ZonedBlockDeviceCharacteristics => 0xb6,
        }
    }
}

impl vstd::std_specs::convert::FromSpecImpl<InquiryPageCode> for u8 {
    open spec fn obeys_from_spec() -> bool {
        true
    }

    open spec fn from_spec(page: InquiryPageCode) -> u8 {
        vpd_code_of(page)
    }
}

/// The selection that a select-report code names, or an error where it
/// names none.
pub open spec fn select_report_from(val: u8) -> Result<ReportLunsSelectReport, ()> {
    match select_report_of(val) {
        Some(select) => Ok(select),
        None => Err(()),
    }
}

impl TryFrom<u8> for ReportLunsSelectReport {
    type Error = ();

    /// The selection that `val` names; an error where it names none.
    fn try_from(val: u8) -> (select: Result<Self, ()>) {
        match val {
            0x00 => Ok(ReportLunsSelectReport::NoWellKnown),
            0x01 => Ok(ReportLunsSelectReport::WellKnownOnly),
            0x02 => Ok(ReportLunsSelectReport::All),
            0x10 => Ok(ReportLunsSelectReport::Administrative),
            0x11 => Ok(ReportLunsSelectReport::TopLevel),
            0x12 => Ok(ReportLunsSelectReport::SameConglomerate),
            _ => Err(()),
        }
    }
}

impl vstd::std_specs::convert::TryFromSpecImpl<u8> for ReportLunsSelectReport {
    open spec fn obeys_try_from_spec() -> bool {
        true
    }

    open spec fn try_from_spec(val: u8) -> Result<Self, ()> {
        select_report_from(val)
    }
}

/// The page control that a code names, or an error where it names none.
pub open spec fn page_control_from(val: u8) -> Result<ModeSensePageControl, ()> {
    match page_control_of(val) {
        Some(pc) => Ok(pc),
        None => Err(()),
    }
}

impl TryFrom<u8> for ModeSensePageControl {
    type Error = ();

    /// The page control that `val` names; an error where it names none.
    fn try_from(val: u8) -> (pc: Result<Self, ()>) {
        match val {
            0b00 => Ok(ModeSensePageControl::Current),
            0b01 => Ok(ModeSensePageControl::Changeable),
            0b10 => Ok(ModeSensePageControl::Default),
            0b11 => Ok(ModeSensePageControl::Saved),
            _ => Err(()),
        }
    }
}

impl vstd::std_specs::convert::TryFromSpecImpl<u8> for ModeSensePageControl {
    open spec fn obeys_try_from_spec() -> bool {
        true
    }

    open spec fn try_from_spec(val: u8) -> Result<Self, ()> {
        page_control_from(val)
    }
}

/// What an operation code alone says of a command.
#[derive(PartialEq, Eq, Debug, Copy, Clone, Structural)]
pub enum ParseOpcodeResult {
    /// The operation code names this command.
    Command(CommandType),
    /// The operation code names a group whose service action picks the command.
    ServiceAction(UnparsedServiceAction),
    /// The operation code is unknown.
    Invalid,
}

/// The operation code of a group of commands that a service action tells apart.
#[derive(PartialEq, Eq, Debug, Copy, Clone, Structural)]
pub struct UnparsedServiceAction(pub u8);

/// The operation code of a command.
pub open spec fn opcode_of(ty: CommandType) -> u8 {
    match ty {
        CommandType::TestUnitReady => 0x00,
        CommandType::RequestSense => 0x03,
        CommandType::Inquiry => 0x12,
        CommandType::ModeSense6 => 0x1a,
        CommandType::ReadCapacity10 => 0x25,
        CommandType::Read10 => 0x28,
        CommandType::ReadCapacity16 => 0x9e,
        CommandType::ReportLuns => 0xa0,
        CommandType::ReportSupportedOperationCodes => 0xa3,
    }
}

/// The service action of a command, where it has one.
pub open spec fn service_action_of(ty: CommandType) -> Option<u16> {
    match ty {
        CommandType::TestUnitReady => None,
        CommandType::RequestSense => None,
        CommandType::Inquiry => None,
        CommandType::ModeSense6 => None,
        CommandType::ReadCapacity10 => None,
        CommandType::Read10 => None,
        CommandType::ReadCapacity16 => Some(0x10u16),
        CommandType::ReportLuns => None,
        CommandType::ReportSupportedOperationCodes => Some(0x0cu16),
    }
}

/// The dispatch table: every command with its operation code and service
/// action, in ascending order of operation code.
pub open spec fn opcode_table() -> Seq<(CommandType, (u8, Option<u16>))> {
    seq![
        (CommandType::TestUnitReady, (0x00u8, None::<u16>)),
        (CommandType::RequestSense, (0x03u8, None::<u16>)),
        (CommandType::Inquiry, (0x12u8, None::<u16>)),
        (CommandType::ModeSense6, (0x1au8, None::<u16>)),
        (CommandType::ReadCapacity10, (0x25u8, None::<u16>)),
        (CommandType::Read10, (0x28u8, None::<u16>)),
        (CommandType::ReadCapacity16, (0x9eu8, Some(0x10u16))),
        (CommandType::ReportLuns, (0xa0u8, None::<u16>)),
        (CommandType::ReportSupportedOperationCodes, (0xa3u8, Some(0x0cu16))),
    ]
}

/// What the operation code alone says.
pub open spec fn classify_opcode(opcode: u8) -> ParseOpcodeResult {
    if opcode == 0x00 {
        ParseOpcodeResult::Command(CommandType::TestUnitReady)
    } else if opcode == 0x03 {
        ParseOpcodeResult::Command(CommandType::RequestSense)
    } else if opcode == 0x12 {
        ParseOpcodeResult::Command(CommandType::Inquiry)
    } else if opcode == 0x1a {
        ParseOpcodeResult::Command(CommandType::ModeSense6)
    } else if opcode == 0x25 {
        ParseOpcodeResult::Command(CommandType::ReadCapacity10)
    } else if opcode == 0x28 {
        ParseOpcodeResult::Command(CommandType::Read10)
    } else if opcode == 0x9e {
        ParseOpcodeResult::ServiceAction(UnparsedServiceAction(0x9e))
    } else if opcode == 0xa0 {
        ParseOpcodeResult::Command(CommandType::ReportLuns)
    } else if opcode == 0xa3 {
        ParseOpcodeResult::ServiceAction(UnparsedServiceAction(0xa3))
    } else {
        ParseOpcodeResult::Invalid
    }
}

/// The command that a service action picks in the group of `opcode`.
pub open spec fn service_action_type(opcode: u8, sa: u16) -> Option<CommandType> {
    if opcode == 0x9e && sa == 0x10 {
        Some(CommandType::ReadCapacity16)
    } else if opcode == 0xa3 && sa == 0x0c {
        Some(CommandType::ReportSupportedOperationCodes)
    } else {
        None
    }
}

/// The command that an operation code and a service action name. A known
/// operation code with an unknown service action is an invalid field; an
/// unknown operation code is an invalid command. Where the operation code
/// has no service actions, `sa` is not looked at.
pub open spec fn command_type_of(opcode: u8, sa: u16) -> Result<CommandType, ParseError> {
    match classify_opcode(opcode) {
        ParseOpcodeResult::Command(ty) => Ok(ty),
        ParseOpcodeResult::ServiceAction(_) => match service_action_type(opcode, sa) {
            Some(ty) => Ok(ty),
            None => Err(ParseError::InvalidField),
        },
        ParseOpcodeResult::Invalid => Err(ParseError::InvalidCommand),
    }
}

/// The usage data of a command: as long as its CDB, the operation code
/// and service action in their places, and in every other byte the bits
/// that the parser reads.
pub open spec fn cdb_template_of(ty: CommandType) -> Seq<u8> {
    match ty {
        CommandType::TestUnitReady => seq![0x00u8, 0, 0, 0, 0, 0x04],
        CommandType::RequestSense => seq![0x03u8, 0x01, 0, 0, 0xff, 0x04],
        CommandType::Inquiry => seq![0x12u8, 0x01, 0xff, 0xff, 0xff, 0x04],
        CommandType::ModeSense6 => seq![0x1au8, 0x08, 0xff, 0xff, 0xff, 0x04],
        CommandType::ReadCapacity10 => seq![0x25u8, 0, 0, 0, 0, 0, 0, 0, 0, 0x04],
        CommandType::Read10 => seq![0x28u8, 0x1f, 0xff, 0xff, 0xff, 0xff, 0x1f, 0xff, 0xff, 0x04],
        CommandType::ReadCapacity16 => seq![
            0x9eu8, 0x10, 0, 0, 0, 0, 0, 0, 0, 0, 0xff, 0xff, 0xff, 0xff, 0, 0x04,
        ],
        CommandType::ReportLuns => seq![0xa0u8, 0, 0xff, 0, 0, 0, 0xff, 0xff, 0xff, 0xff, 0, 0x04],
        CommandType::ReportSupportedOperationCodes => seq![
            0xa3u8, 0x0c, 0x87, 0xff, 0xff, 0xff, 0xff, 0xff, 0xff, 0xff, 0, 0x04,
        ],
    }
}

/// The CDB of a command with every argument bit zero: the operation code,
/// the service action where there is one, and zeros up to the length of
/// the command's CDB.
pub open spec fn bare_cdb(ty: CommandType) -> Seq<u8> {
    match ty {
        CommandType::TestUnitReady => seq![0x00u8, 0, 0, 0, 0, 0],
        CommandType::RequestSense => seq![0x03u8, 0, 0, 0, 0, 0],
        CommandType::Inquiry => seq![0x12u8, 0, 0, 0, 0, 0],
        CommandType::ModeSense6 => seq![0x1au8, 0, 0, 0, 0, 0],
        CommandType::ReadCapacity10 => seq![0x25u8, 0, 0, 0, 0, 0, 0, 0, 0, 0],
        CommandType::Read10 => seq![0x28u8, 0, 0, 0, 0, 0, 0, 0, 0, 0],
        CommandType::ReadCapacity16 => seq![0x9eu8, 0x10, 0, 0, 0, 0, 0, 0, 0, 0, 0, 0, 0, 0, 0, 0],
        CommandType::ReportLuns => seq![0xa0u8, 0, 0, 0, 0, 0, 0, 0, 0, 0, 0, 0],
        CommandType::ReportSupportedOperationCodes => seq![
            0xa3u8, 0x0c, 0, 0, 0, 0, 0, 0, 0, 0, 0, 0,
        ],
    }
}

/// The dispatch table as a value.
pub fn opcodes() -> (table: Vec<(CommandType, (u8, Option<u16>))>)
    ensures
        table@ == opcode_table(),
{
    let table = vec![
        (CommandType::TestUnitReady, (0x00u8, None::<u16>)),
        (CommandType::RequestSense, (0x03u8, None::<u16>)),
        (CommandType::Inquiry, (0x12u8, None::<u16>)),
        (CommandType::ModeSense6, (0x1au8, None::<u16>)),
        (CommandType::ReadCapacity10, (0x25u8, None::<u16>)),
        (CommandType::Read10, (0x28u8, None::<u16>)),
        (CommandType::ReadCapacity16, (0x9eu8, Some(0x10u16))),
        (CommandType::ReportLuns, (0xa0u8, None::<u16>)),
        (CommandType::ReportSupportedOperationCodes, (0xa3u8, Some(0x0cu16))),
    ];
    assert(table@ =~= opcode_table());
    table
}

/// Classifies an operation code by the first entry of the dispatch
/// table that has it.
pub fn parse_opcode(opcode: u8) -> (res: ParseOpcodeResult)
    ensures
        res == classify_opcode(opcode),
{
    let table = opcodes();
    let mut i: usize = 0;
    while i < table.len()
        invariant
            i <= table@.len(),
            table@ == opcode_table(),
            forall|k: int| 0 <= k < i ==> (#[trigger] table@[k]).1.0 != opcode,
        decreases table@.len() - i,
    {
        let (ty, (entry_opcode, sa)) = table[i];
        if entry_opcode == opcode {
            assert(i == 0 || i == 1 || i == 2 || i == 3 || i == 4 || i == 5 || i == 6 || i == 7
                || i == 8);
            return match sa {
                None => ParseOpcodeResult::Command(ty),
                Some(_) => ParseOpcodeResult::ServiceAction(UnparsedServiceAction(opcode)),
            };
        }
        i += 1;
    }
    proof {
        lemma_table_has_every_opcode(opcode);
    }
    ParseOpcodeResult::Invalid
}

/// An operation code that the dispatch knows has an entry in the
/// dispatch table.
proof fn lemma_table_has_every_opcode(opcode: u8)
    ensures
        classify_opcode(opcode) != ParseOpcodeResult::Invalid ==> exists|k: int|
            0 <= k < opcode_table().len() && (#[trigger] opcode_table()[k]).1.0 == opcode,
{
    let t = opcode_table();
    if classify_opcode(opcode) != ParseOpcodeResult::Invalid {
        let k: int = if opcode == 0x00 {
            0
        } else if opcode == 0x03 {
            1
        } else if opcode == 0x12 {
            2
        } else if opcode == 0x1a {
            3
        } else if opcode == 0x25 {
            4
        } else if opcode == 0x28 {
            5
        } else if opcode == 0x9e {
            6
        } else if opcode == 0xa0 {
            7
        } else {
            8
        };
        assert(t[k].1.0 == opcode);
    }
}

impl UnparsedServiceAction {
    /// The command that `service_action` picks in this group: that of
    /// the entry of the dispatch table with the operation code of the
    /// group and this service action.
    pub fn parse(self, service_action: u16) -> (ty: Option<CommandType>)
        ensures
            ty == service_action_type(self.0, service_action),
    {
        let table = opcodes();
        let mut i: usize = 0;
        while i < table.len()
            invariant
                i <= table@.len(),
                table@ == opcode_table(),
                forall|k: int|
                    0 <= k < i ==> (#[trigger] table@[k]).1 != (self.0, Some(service_action)),
            decreases table@.len() - i,
        {
            let (ty, (entry_opcode, sa)) = table[i];
            if entry_opcode == self.0 && sa == Some(service_action) {
                assert(i == 0 || i == 1 || i == 2 || i == 3 || i == 4 || i == 5 || i == 6 || i
                    == 7 || i == 8);
                return Some(ty);
            }
            i += 1;
        }
        proof {
            if service_action_type(self.0, service_action) is Some {
                let k: int = if self.0 == 0x9e {
                    6
                } else {
                    8
                };
                assert(table@[k].1 == (self.0, Some(service_action)));
            }
        }
        None
    }
}

impl CommandType {
    /// The command that `cmd_opcode` and `cmd_sa` name.
    pub fn from_opcode_and_sa(cmd_opcode: u8, cmd_sa: u16) -> (res: Result<Self, ParseError>)
        ensures
            res == command_type_of(cmd_opcode, cmd_sa),
    {
        match parse_opcode(cmd_opcode) {
            ParseOpcodeResult::Command(ty) => Ok(ty),
            ParseOpcodeResult::ServiceAction(group) => match group.parse(cmd_sa) {
                Some(ty) => Ok(ty),
                None => Err(ParseError::InvalidField),
            },
            ParseOpcodeResult::Invalid => Err(ParseError::InvalidCommand),
        }
    }

    /// The usage data of this command.
    pub fn cdb_template(self) -> (tpl: &'static [u8])
        ensures
            tpl@ == cdb_template_of(self),
            tpl@.len() == cdb_len(self),
    {
        match self {
            CommandType::TestUnitReady => {
                let bytes: &'static [u8; 6] = &[0x00u8, 0, 0, 0, 0, 0x04];
                assert(bytes@ =~= cdb_template_of(self));
                bytes.as_slice()
            },
            CommandType::RequestSense => {
                let bytes: &'static [u8; 6] = &[0x03u8, 0x01, 0, 0, 0xff, 0x04];
                assert(bytes@ =~= cdb_template_of(self));
                bytes.as_slice()
            },
            CommandType::Inquiry => {
                let bytes: &'static [u8; 6] = &[0x12u8, 0x01, 0xff, 0xff, 0xff, 0x04];
                assert(bytes@ =~= cdb_template_of(self));
                bytes.as_slice()
            },
            CommandType::ModeSense6 => {
                let bytes: &'static [u8; 6] = &[0x1au8, 0x08, 0xff, 0xff, 0xff, 0x04];
                assert(bytes@ =~= cdb_template_of(self));
                bytes.as_slice()
            },
            CommandType::ReadCapacity10 => {
                let bytes: &'static [u8; 10] = &[0x25u8, 0, 0, 0, 0, 0, 0, 0, 0, 0x04];
                assert(bytes@ =~= cdb_template_of(self));
                bytes.as_slice()
            },
            CommandType::Read10 => {
                let bytes: &'static [u8; 10] = &[
                    0x28u8, 0x1f, 0xff, 0xff, 0xff, 0xff, 0x1f, 0xff, 0xff, 0x04,
                ];
                assert(bytes@ =~= cdb_template_of(self));
                bytes.as_slice()
            },
            CommandType::ReadCapacity16 => {
                let bytes: &'static [u8; 16] = &[
                    0x9eu8, 0x10, 0, 0, 0, 0, 0, 0, 0, 0, 0xff, 0xff, 0xff, 0xff, 0, 0x04,
                ];
                assert(bytes@ =~= cdb_template_of(self));
                bytes.as_slice()
            },
            CommandType::ReportLuns => {
                let bytes: &'static [u8; 12] = &[
                    0xa0u8, 0, 0xff, 0, 0, 0, 0xff, 0xff, 0xff, 0xff, 0, 0x04,
                ];
                assert(bytes@ =~= cdb_template_of(self));
                bytes.as_slice()
            },
            CommandType::ReportSupportedOperationCodes => {
                let bytes: &'static [u8; 12] = &[
                    0xa3u8, 0x0c, 0x87, 0xff, 0xff, 0xff, 0xff, 0xff, 0xff, 0xff, 0, 0x04,
                ];
                assert(bytes@ =~= cdb_template_of(self));
                bytes.as_slice()
            },
        }
    }
}

/// Number of bytes in the CDB of a command.
pub open spec fn cdb_len(ty: CommandType) -> nat {
    match ty {
        CommandType::TestUnitReady
        | CommandType::RequestSense
        | CommandType::Inquiry
        | CommandType::ModeSense6 => 6,
        CommandType::ReadCapacity10 | CommandType::Read10 => 10,
        CommandType::ReportLuns | CommandType::ReportSupportedOperationCodes => 12,
        CommandType::ReadCapacity16 => 16,
    }
}

/// The big-endian number in the two bytes of `buf` from `at` on.
pub open spec fn be16_at(buf: Seq<u8>, at: int) -> int {
    buf[at] * 0x100 + buf[at + 1]
}

/// The big-endian number in the four bytes of `buf` from `at` on.
pub open spec fn be32_at(buf: Seq<u8>, at: int) -> int {
    buf[at] * 0x100_0000 + buf[at + 1] * 0x1_0000 + buf[at + 2] * 0x100 + buf[at + 3]
}

/// The NACA bit of a control byte.
pub open spec fn naca_of(control: u8) -> bool {
    control & 0b0000_0100 != 0
}

/// The command that the first bytes of a CDB name: the operation code in
/// byte 0 and, for a group with service actions, the low five bits of byte 1.
pub open spec fn type_of_cdb(buf: Seq<u8>) -> Result<CommandType, ParseError> {
    if buf.len() < 1 {
        Err(ParseError::TooShort)
    } else {
        match classify_opcode(buf[0]) {
            ParseOpcodeResult::Command(ty) => Ok(ty),
            ParseOpcodeResult::ServiceAction(_) => if buf.len() < 2 {
                Err(ParseError::TooShort)
            } else {
                match service_action_type(buf[0], (buf[1] & 0b0001_1111) as u16) {
                    Some(ty) => Ok(ty),
                    None => Err(ParseError::InvalidField),
                }
            },
            ParseOpcodeResult::Invalid => Err(ParseError::InvalidCommand),
        }
    }
}

/// The page INQUIRY asks for. Byte 1 may hold the EVPD bit and nothing
/// else; without EVPD the page code must be zero, with it the code must
/// name a page.
pub open spec fn inquiry_page(flags: u8, code: u8) -> Result<Option<InquiryPageCode>, ParseError> {
    if flags == 0 {
        if code == 0 {
            Ok(None)
        } else {
            Err(ParseError::InvalidField)
        }
    } else if flags == 1 {
        match vpd_page_of(code) {
            Some(page) => Ok(Some(page)),
            None => Err(ParseError::InvalidField),
        }
    } else {
        Err(ParseError::InvalidField)
    }
}

/// The pages MODE SENSE selects: the caching page, or all pages, in both
/// cases with subpage 0.
pub open spec fn mode_selection(page_code: u8, subpage_code: u8) -> Option<ModePageSelection> {
    if page_code == 0x08 && subpage_code == 0 {
        Some(ModePageSelection::Single(ModePage::Caching))
    } else if page_code == 0x3f && subpage_code == 0 {
        Some(ModePageSelection::AllPageZeros)
    } else {
        None
    }
}

/// MODE SENSE (6) from bytes 1 to 3 of its CDB. Byte 1 may hold the DBD
/// bit and nothing else; the top two bits of byte 2 are the page control,
/// the low six the page code; byte 3 is the subpage code.
pub open spec fn mode_sense_command(flags: u8, page: u8, subpage: u8) -> Result<
    Command,
    ParseError,
> {
    if flags != 0b0000_1000 && flags != 0 {
        Err(ParseError::InvalidField)
    } else {
        match (
            mode_selection(page & 0b0011_1111, subpage),
            page_control_of((page & 0b1100_0000) >> 6),
        ) {
            (Some(mode_page), Some(pc)) => Ok(
                Command::ModeSense6 { pc, mode_page, dbd: flags == 0b0000_1000 },
            ),
            _ => Err(ParseError::InvalidField),
        }
    }
}

/// READ (10) from its CDB. Bit 4 of byte 1 is DPO, bit 3 is FUA, the low
/// three bits must be zero; bytes 2 to 5 hold the block address, the low
/// five bits of byte 6 the group number, bytes 7 and 8 the transfer length.
pub open spec fn read10_command(buf: Seq<u8>) -> Result<Command, ParseError> {
    if buf[1] & 0b0000_0111 != 0 {
        Err(ParseError::InvalidField)
    } else {
        Ok(
            Command::Read10 {
                dpo: buf[1] & 0b0001_0000 != 0,
                fua: buf[1] & 0b0000_1000 != 0,
                lba: be32_at(buf, 2) as u32,
                group_number: buf[6] & 0b0001_1111,
                transfer_length: be16_at(buf, 7) as u16,
            },
        )
    }
}

/// What REPORT SUPPORTED OPERATION CODES is asked to report on: the low
/// three bits of byte 2 pick the mode, byte 3 is the operation code and
/// bytes 4 and 5 the service action that a mode may take.
pub open spec fn report_mode(buf: Seq<u8>) -> Option<ReportSupportedOpCodesMode> {
    let options = buf[2] & 0b0000_0111;
    if options == 0 {
        Some(ReportSupportedOpCodesMode::All)
    } else if options == 1 {
        Some(ReportSupportedOpCodesMode::OneCommand(buf[3]))
    } else if options == 2 {
        Some(ReportSupportedOpCodesMode::OneServiceAction(buf[3], be16_at(buf, 4) as u16))
    } else if options == 3 {
        Some(ReportSupportedOpCodesMode::OneCommandOrServiceAction(buf[3], be16_at(buf, 4) as u16))
    } else {
        None
    }
}

/// The command and its arguments in a CDB of a known type, or the reason
/// for which a field is refused.
pub open spec fn command_of(ty: CommandType, buf: Seq<u8>) -> Result<Command, ParseError>
    recommends
        buf.len() >= cdb_len(ty),
{
    match ty {
        CommandType::TestUnitReady => Ok(Command::TestUnitReady),
        CommandType::RequestSense => Ok(
            Command::RequestSense(
                if buf[1] & 0b0000_0001 == 1 {
                    SenseFormat::Descriptor
                } else {
                    SenseFormat::Fixed
                },
            ),
        ),
        CommandType::Inquiry => match inquiry_page(buf[1], buf[2]) {
            Ok(page) => Ok(Command::Inquiry(page)),
            Err(e) => Err(e),
        },
        CommandType::ModeSense6 => mode_sense_command(buf[1], buf[2], buf[3]),
        CommandType::ReadCapacity10 => Ok(Command::ReadCapacity10),
        CommandType::Read10 => read10_command(buf),
        CommandType::ReadCapacity16 => Ok(Command::ReadCapacity16),
        CommandType::ReportLuns => match select_report_of(buf[2]) {
            Some(select) => Ok(Command::ReportLuns(select)),
            None => Err(ParseError::InvalidField),
        },
        CommandType::ReportSupportedOperationCodes => match report_mode(buf) {
            Some(mode) => Ok(
                Command::ReportSupportedOperationCodes { rctd: buf[2] & 0b1000_0000 != 0, mode },
            ),
            None => Err(ParseError::InvalidField),
        },
    }
}

/// The allocation length in a CDB of a known type, for the commands that
/// carry one.
pub open spec fn allocation_length_of(ty: CommandType, buf: Seq<u8>) -> Option<u32>
    recommends
        buf.len() >= cdb_len(ty),
{
    match ty {
        CommandType::TestUnitReady | CommandType::ReadCapacity10 | CommandType::Read10 => None,
        CommandType::RequestSense | CommandType::ModeSense6 => Some(buf[4] as u32),
        CommandType::Inquiry => Some(be16_at(buf, 3) as u32),
        CommandType::ReadCapacity16 => Some(be32_at(buf, 10) as u32),
        CommandType::ReportLuns | CommandType::ReportSupportedOperationCodes => Some(
            be32_at(buf, 6) as u32,
        ),
    }
}

/// What parsing a CDB gives. The buffer may be longer than the CDB; the
/// control byte is the last byte of the CDB, not of the buffer.
pub open spec fn parse_spec(buf: Seq<u8>) -> Result<Cdb, ParseError> {
    match type_of_cdb(buf) {
        Err(e) => Err(e),
        Ok(ty) => if buf.len() < cdb_len(ty) {
            Err(ParseError::TooShort)
        } else {
            match command_of(ty, buf) {
                Err(e) => Err(e),
                Ok(command) => Ok(
                    Cdb {
                        command,
                        allocation_length: allocation_length_of(ty, buf),
                        naca: naca_of(buf[cdb_len(ty) - 1]),
                    },
                ),
            }
        },
    }
}

/// Reads the big-endian number in two bytes of `buf`.
pub fn be16(buf: &[u8], at: usize) -> (val: u16)
    requires
        at + 2 <= buf@.len(),
    ensures
        val == be16_at(buf@, at as int),
{
    (buf[at] as u16) * 0x100 + (buf[at + 1] as u16)
}

/// Reads the big-endian number in four bytes of `buf`.
pub fn be32(buf: &[u8], at: usize) -> (val: u32)
    requires
        at + 4 <= buf@.len(),
    ensures
        val == be32_at(buf@, at as int),
{
    (buf[at] as u32) * 0x100_0000 + (buf[at + 1] as u32) * 0x1_0000 + (buf[at + 2] as u32) * 0x100
        + (buf[at + 3] as u32)
}

impl CommandType {
    /// The command that the first bytes of `cdb` name.
    pub fn from_cdb(cdb: &[u8]) -> (res: Result<Self, ParseError>)
        ensures
            res == type_of_cdb(cdb@),
    {
        if cdb.len() < 1 {
            return Err(ParseError::TooShort);
        }
        match parse_opcode(cdb[0]) {
            ParseOpcodeResult::Command(ty) => Ok(ty),
            ParseOpcodeResult::ServiceAction(group) => {
                if cdb.len() < 2 {
                    return Err(ParseError::TooShort);
                }
                match group.parse((cdb[1] & 0b0001_1111) as u16) {
                    Some(ty) => Ok(ty),
                    None => Err(ParseError::InvalidField),
                }
            },
            ParseOpcodeResult::Invalid => Err(ParseError::InvalidCommand),
        }
    }

    /// Number of bytes in the CDB of this command.
    pub fn cdb_length(self) -> (len: usize)
        ensures
            len == cdb_len(self),
    {
        match self {
            CommandType::TestUnitReady
            | CommandType::RequestSense
            | CommandType::Inquiry
            | CommandType::ModeSense6 => 6,
            CommandType::ReadCapacity10 | CommandType::Read10 => 10,
            CommandType::ReportLuns | CommandType::ReportSupportedOperationCodes => 12,
            CommandType::ReadCapacity16 => 16,
        }
    }
}

impl Cdb {
    /// Parses the CDB at the start of `buf`.
    ///
    /// An unknown operation code gives `InvalidCommand`; a known one with
    /// an unknown service action or a refused field gives `InvalidField`;
    /// a buffer that ends before the CDB does gives `TooShort`.
    pub fn parse(buf: &[u8]) -> (res: Result<Self, ParseError>)
        ensures
            res == parse_spec(buf@),
    {
        let ct = match CommandType::from_cdb(buf) {
            Ok(ct) => ct,
            Err(e) => {
                return Err(e);
            },
        };
        if buf.len() < ct.cdb_length() {
            return Err(ParseError::TooShort);
        }
        match ct {
            CommandType::TestUnitReady => Ok(
                Self {
                    command: Command::TestUnitReady,
                    allocation_length: None,
                    naca: (buf[5] & 0b0000_0100) != 0,
                },
            ),
            CommandType::RequestSense => {
                let format = if buf[1] & 0b0000_0001 == 1 {
                    SenseFormat::Descriptor
                } else {
                    SenseFormat::Fixed
                };
                Ok(
                    Self {
                        command: Command::RequestSense(format),
                        allocation_length: Some(buf[4] as u32),
                        naca: (buf[5] & 0b0000_0100) != 0,
                    },
                )
            },
            CommandType::Inquiry => {
                let evpd = match buf[1] {
                    0 => false,
                    1 => true,
                    _ => {
                        return Err(ParseError::InvalidField);
                    },
                };
                let page_code_raw = buf[2];
                let page_code = if evpd {
                    match InquiryPageCode::try_from(page_code_raw) {
                        Ok(page) => Some(page),
                        Err(_) => {
                            return Err(ParseError::InvalidField);
                        },
                    }
                } else if page_code_raw == 0 {
                    None
                } else {
                    return Err(ParseError::InvalidField);
                };
                Ok(
                    Self {
                        command: Command::Inquiry(page_code),
                        allocation_length: Some(be16(buf, 3) as u32),
                        naca: (buf[5] & 0b0000_0100) != 0,
                    },
                )
            },
            CommandType::ModeSense6 => {
                let dbd = match buf[1] {
                    0b0000_1000 => true,
                    0b0000_0000 => false,
                    _ => {
                        return Err(ParseError::InvalidField);
                    },
                };
                let pc = (buf[2] & 0b1100_0000) >> 6;
                let page_code = buf[2] & 0b0011_1111;
                let subpage_code = buf[3];
                let mode = if page_code == 0x08 && subpage_code == 0 {
                    ModePageSelection::Single(ModePage::Caching)
                } else if page_code == 0x3f && subpage_code == 0 {
                    ModePageSelection::AllPageZeros
                } else {
                    return Err(ParseError::InvalidField);
                };
                let pc = match ModeSensePageControl::try_from(pc) {
                    Ok(pc) => pc,
                    Err(_) => {
                        return Err(ParseError::InvalidField);
                    },
                };
                Ok(
                    Self {
                        command: Command::ModeSense6 { pc, mode_page: mode, dbd },
                        allocation_length: Some(buf[4] as u32),
                        naca: (buf[5] & 0b0000_0100) != 0,
                    },
                )
            },
            CommandType::ReadCapacity10 => Ok(
                Self {
                    command: Command::ReadCapacity10,
                    allocation_length: None,
                    naca: (buf[9] & 0b0000_0100) != 0,
                },
            ),
            CommandType::Read10 => {
                if buf[1] & 0b0000_0111 != 0 {
                    return Err(ParseError::InvalidField);
                }
                Ok(
                    Self {
                        command: Command::Read10 {
                            dpo: buf[1] & 0b0001_0000 != 0,
                            fua: buf[1] & 0b0000_1000 != 0,
                            lba: be32(buf, 2),
                            group_number: buf[6] & 0b0001_1111,
                            transfer_length: be16(buf, 7),
                        },
                        allocation_length: None,
                        naca: (buf[9] & 0b0000_0100) != 0,
                    },
                )
            },
            CommandType::ReadCapacity16 => Ok(
                Self {
                    command: Command::ReadCapacity16,
                    allocation_length: Some(be32(buf, 10)),
                    naca: (buf[15] & 0b0000_0100) != 0,
                },
            ),
            CommandType::ReportLuns => {
                let select = match ReportLunsSelectReport::try_from(buf[2]) {
                    Ok(select) => select,
                    Err(_) => {
                        return Err(ParseError::InvalidField);
                    },
                };
                Ok(
                    Self {
                        command: Command::ReportLuns(select),
                        allocation_length: Some(be32(buf, 6)),
                        naca: (buf[11] & 0b0000_0100) != 0,
                    },
                )
            },
            CommandType::ReportSupportedOperationCodes => {
                let rctd = buf[2] & 0b1000_0000 != 0;
                let options = buf[2] & 0b0000_0111;
                let mode = if options == 0b000 {
                    ReportSupportedOpCodesMode::All
                } else if options == 0b001 {
                    ReportSupportedOpCodesMode::OneCommand(buf[3])
                } else if options == 0b010 {
                    ReportSupportedOpCodesMode::OneServiceAction(buf[3], be16(buf, 4))
                } else if options == 0b011 {
                    ReportSupportedOpCodesMode::OneCommandOrServiceAction(buf[3], be16(buf, 4))
                } else {
                    return Err(ParseError::InvalidField);
                };
                Ok(
                    Self {
                        command: Command::ReportSupportedOperationCodes { rctd, mode },
                        allocation_length: Some(be32(buf, 6)),
                        naca: (buf[11] & 0b0000_0100) != 0,
                    },
                )
            },
        }
    }
}

/// The CDB of every command but MODE SENSE (6), with all argument bits
/// zero, parses: to that command, with every flag clear, every number
/// zero and the NACA bit clear. (MODE SENSE (6) is left out: page code 0
/// is a selection this target refuses.)
pub proof fn lemma_bare_cdb_parses(ty: CommandType)
    requires
        ty != CommandType::ModeSense6,
    ensures
        bare_cdb(ty).len() == cdb_len(ty),
        type_of_cdb(bare_cdb(ty)) == Ok::<CommandType, ParseError>(ty),
        parse_spec(bare_cdb(ty)) is Ok,
        parse_spec(bare_cdb(ty)).unwrap().naca == false,
        parse_spec(bare_cdb(ty)).unwrap().command == match ty {
            CommandType::TestUnitReady => Command::TestUnitReady,
            CommandType::RequestSense => Command::RequestSense(SenseFormat::Fixed),
            CommandType::Inquiry => Command::Inquiry(None),
            CommandType::ReadCapacity10 => Command::ReadCapacity10,
            CommandType::Read10 => Command::Read10 {
                dpo: false,
                fua: false,
                lba: 0,
                group_number: 0,
                transfer_length: 0,
            },
            CommandType::ReadCapacity16 => Command::ReadCapacity16,
            CommandType::ReportLuns => Command::ReportLuns(ReportLunsSelectReport::NoWellKnown),
            _ => Command::ReportSupportedOperationCodes {
                rctd: false,
                mode: ReportSupportedOpCodesMode::All,
            },
        },
{
    assert(0u8 & 0b0000_0100 == 0) by (bit_vector);
    assert(0u8 & 0b0000_0001 == 0) by (bit_vector);
    assert(0u8 & 0b0000_0111 == 0) by (bit_vector);
    assert(0u8 & 0b0001_0000 == 0) by (bit_vector);
    assert(0u8 & 0b0000_1000 == 0) by (bit_vector);
    assert(0u8 & 0b0001_1111 == 0) by (bit_vector);
    assert(0u8 & 0b1000_0000 == 0) by (bit_vector);
    assert(0x10u8 & 0b0001_1111 == 0x10) by (bit_vector);
    assert(0x0cu8 & 0b0001_1111 == 0x0c) by (bit_vector);
}

/// A CDB whose operation code is unknown is an invalid command, whatever
/// follows the operation code.
pub proof fn lemma_unknown_opcode_is_invalid_command(buf: Seq<u8>)
    requires
        buf.len() >= 1,
        classify_opcode(buf[0]) == ParseOpcodeResult::Invalid,
    ensures
        parse_spec(buf) == Err::<Cdb, ParseError>(ParseError::InvalidCommand),
{
}

/// A CDB whose operation code names a group, and whose service action
/// names no command of that group, has an invalid field.
pub proof fn lemma_unknown_service_action_is_invalid_field(buf: Seq<u8>)
    requires
        buf.len() >= 2,
        classify_opcode(buf[0]) is ServiceAction,
        service_action_type(buf[0], (buf[1] & 0b0001_1111) as u16) is None,
    ensures
        parse_spec(buf) == Err::<Cdb, ParseError>(ParseError::InvalidField),
{
}

/// The dispatch table and the dispatch agree: an operation code and a
/// service action name a command exactly when the table holds an entry
/// of that command with that operation code and, where the entry has a
/// service action, that service action.
pub proof fn lemma_table_is_dispatch(opcode: u8, sa: u16, ty: CommandType)
    ensures
        command_type_of(opcode, sa) == Ok::<CommandType, ParseError>(ty) <==> exists|i: int|
            0 <= i < opcode_table().len() && #[trigger] opcode_table()[i] == (
                ty,
                (opcode, service_action_of(ty)),
            ) && (service_action_of(ty) is Some ==> service_action_of(ty) == Some(sa)),
        opcode_of(ty) == opcode && (service_action_of(ty) is Some ==> service_action_of(ty) == Some(
            sa,
        )) <==> command_type_of(opcode, sa) == Ok::<CommandType, ParseError>(ty),
{
    let t = opcode_table();
    let entry = (ty, (opcode, service_action_of(ty)));
    if command_type_of(opcode, sa) == Ok::<CommandType, ParseError>(ty) {
        let i: int = match ty {
            CommandType::TestUnitReady => 0,
            CommandType::RequestSense => 1,
            CommandType::Inquiry => 2,
            CommandType::ModeSense6 => 3,
            CommandType::ReadCapacity10 => 4,
            CommandType::Read10 => 5,
            CommandType::ReadCapacity16 => 6,
            CommandType::ReportLuns => 7,
            CommandType::ReportSupportedOperationCodes => 8,
        };
        assert(t[i] == entry);
    }
    if exists|i: int|
        0 <= i < t.len() && #[trigger] t[i] == entry && (service_action_of(ty) is Some
            ==> service_action_of(ty) == Some(sa)) {
        let i = choose|i: int|
            0 <= i < t.len() && #[trigger] t[i] == entry && (service_action_of(ty) is Some
                ==> service_action_of(ty) == Some(sa));
        assert(t[i] == entry);
        assert(i == 0 || i == 1 || i == 2 || i == 3 || i == 4 || i == 5 || i == 6 || i == 7 || i
            == 8);
    }
}

/// A buffer of sixteen bytes or more is never too short: no CDB that
/// this target knows is longer.
pub proof fn lemma_long_buffer_is_not_too_short(buf: Seq<u8>)
    requires
        buf.len() >= 16,
    ensures
        parse_spec(buf) != Err::<Cdb, ParseError>(ParseError::TooShort),
{
}

} // verus!
