use vhost_user_scsi::command::{
    be16, be32, opcodes, parse_opcode, Cdb, Command, CommandType, InquiryPageCode,
    ModePageSelection, ModeSensePageControl, ParseError, ParseOpcodeResult,
    ReportLunsSelectReport, ReportSupportedOpCodesMode, SenseFormat, UnparsedServiceAction,
};
use vhost_user_scsi::mode_page::ModePage;
use vhost_user_scsi::sense::{
    invalid_command_operation_code, invalid_field_in_cdb, logical_block_address_out_of_range,
    logical_unit_not_supported, unrecovered_read_error, SenseTriple,
};

fn all_types() -> Vec<CommandType> {
    vec![
        CommandType::TestUnitReady,
        CommandType::RequestSense,
        CommandType::Inquiry,
        CommandType::ModeSense6,
        CommandType::ReadCapacity10,
        CommandType::Read10,
        CommandType::ReadCapacity16,
        CommandType::ReportLuns,
        CommandType::ReportSupportedOperationCodes,
    ]
}

/// The template of a command with everything but the operation code and
/// the service action set to zero.
fn bare_cdb(ty: CommandType) -> Vec<u8> {
    let template = ty.cdb_template();
    let mut cdb = vec![0u8; template.len()];
    cdb[0] = template[0];
    if matches!(ty, CommandType::ReadCapacity16 | CommandType::ReportSupportedOperationCodes) {
        cdb[1] = template[1];
    }
    cdb
}

#[test]
fn fixed_sense_layout() {
    assert_eq!(
        SenseTriple(0x5, 0x24, 0x0).to_fixed_sense(),
        vec![0x70, 0, 0x5, 0, 0, 0, 0, 0xa, 0, 0, 0, 0, 0x24, 0, 0, 0, 0, 0]
    );
    assert_eq!(
        SenseTriple(0xab, 0xcd, 0xef).to_fixed_sense(),
        vec![0x70, 0, 0xab, 0, 0, 0, 0, 0xa, 0, 0, 0, 0, 0xcd, 0xef, 0, 0, 0, 0]
    );
    assert_eq!(SenseTriple(1, 2, 3).to_fixed_sense().len(), 18);
}

#[test]
fn sense_catalogue() {
    assert_eq!(invalid_command_operation_code(), SenseTriple(0x5, 0x20, 0x0));
    assert_eq!(logical_block_address_out_of_range(), SenseTriple(0x5, 0x21, 0x0));
    assert_eq!(invalid_field_in_cdb(), SenseTriple(0x5, 0x24, 0x0));
    assert_eq!(logical_unit_not_supported(), SenseTriple(0x5, 0x25, 0x0));
    assert_eq!(unrecovered_read_error(), SenseTriple(0x3, 0x11, 0x0));
}

#[test]
fn bare_cdb_of_every_command_parses() {
    for ty in all_types() {
        let parsed = Cdb::parse(&bare_cdb(ty));
        if ty == CommandType::ModeSense6 {
            // page code 0 selects nothing that this target has
            assert_eq!(parsed, Err(ParseError::InvalidField));
        } else {
            let cdb = parsed.unwrap();
            assert!(!cdb.naca);
        }
    }
    assert_eq!(
        Cdb::parse(&bare_cdb(CommandType::Read10)),
        Ok(Cdb {
            command: Command::Read10 {
                dpo: false,
                fua: false,
                lba: 0,
                group_number: 0,
                transfer_length: 0
            },
            allocation_length: None,
            naca: false
        })
    );
    assert_eq!(
        Cdb::parse(&bare_cdb(CommandType::ReportSupportedOperationCodes)),
        Ok(Cdb {
            command: Command::ReportSupportedOperationCodes {
                rctd: false,
                mode: ReportSupportedOpCodesMode::All
            },
            allocation_length: Some(0),
            naca: false
        })
    );
}

#[test]
fn templates_start_with_opcode_and_service_action() {
    let expected: Vec<(CommandType, Vec<u8>)> = vec![
        (CommandType::TestUnitReady, vec![0x00, 0, 0, 0, 0, 0x04]),
        (CommandType::RequestSense, vec![0x03, 0x01, 0, 0, 0xff, 0x04]),
        (CommandType::Inquiry, vec![0x12, 0x01, 0xff, 0xff, 0xff, 0x04]),
        (CommandType::ModeSense6, vec![0x1a, 0x08, 0xff, 0xff, 0xff, 0x04]),
        (CommandType::ReadCapacity10, vec![0x25, 0, 0, 0, 0, 0, 0, 0, 0, 0x04]),
        (
            CommandType::Read10,
            vec![0x28, 0x1f, 0xff, 0xff, 0xff, 0xff, 0x1f, 0xff, 0xff, 0x04],
        ),
        (
            CommandType::ReadCapacity16,
            vec![0x9e, 0x10, 0, 0, 0, 0, 0, 0, 0, 0, 0xff, 0xff, 0xff, 0xff, 0, 0x04],
        ),
        (
            CommandType::ReportLuns,
            vec![0xa0, 0, 0xff, 0, 0, 0, 0xff, 0xff, 0xff, 0xff, 0, 0x04],
        ),
        (
            CommandType::ReportSupportedOperationCodes,
            vec![0xa3, 0x0c, 0x87, 0xff, 0xff, 0xff, 0xff, 0xff, 0xff, 0xff, 0, 0x04],
        ),
    ];
    for (ty, template) in expected {
        assert_eq!(ty.cdb_template(), &template[..]);
        assert_eq!(ty.cdb_length(), template.len());
        assert_eq!(CommandType::from_cdb(&template), Ok(ty));
    }
}

#[test]
fn dispatch_by_opcode_and_service_action() {
    assert_eq!(CommandType::from_opcode_and_sa(0x00, 0), Ok(CommandType::TestUnitReady));
    assert_eq!(CommandType::from_opcode_and_sa(0x03, 0), Ok(CommandType::RequestSense));
    assert_eq!(CommandType::from_opcode_and_sa(0x12, 0), Ok(CommandType::Inquiry));
    assert_eq!(CommandType::from_opcode_and_sa(0x12, 0x1f), Ok(CommandType::Inquiry));
    assert_eq!(CommandType::from_opcode_and_sa(0x1a, 0), Ok(CommandType::ModeSense6));
    assert_eq!(CommandType::from_opcode_and_sa(0x25, 0), Ok(CommandType::ReadCapacity10));
    assert_eq!(CommandType::from_opcode_and_sa(0x28, 0), Ok(CommandType::Read10));
    assert_eq!(CommandType::from_opcode_and_sa(0x9e, 0x10), Ok(CommandType::ReadCapacity16));
    assert_eq!(CommandType::from_opcode_and_sa(0xa0, 0), Ok(CommandType::ReportLuns));
    assert_eq!(
        CommandType::from_opcode_and_sa(0xa3, 0x0c),
        Ok(CommandType::ReportSupportedOperationCodes)
    );
    assert_eq!(CommandType::from_opcode_and_sa(0x9e, 0x11), Err(ParseError::InvalidField));
    assert_eq!(CommandType::from_opcode_and_sa(0xa3, 0x1f), Err(ParseError::InvalidField));
    assert_eq!(CommandType::from_opcode_and_sa(0xa3, 0x10c), Err(ParseError::InvalidField));
    assert_eq!(CommandType::from_opcode_and_sa(0xff, 0), Err(ParseError::InvalidCommand));
    assert_eq!(CommandType::from_opcode_and_sa(0x01, 0x10), Err(ParseError::InvalidCommand));
}

#[test]
fn dispatch_table_agrees_with_dispatch() {
    let table = opcodes();
    assert_eq!(table.len(), 9);
    for (ty, (opcode, sa)) in table {
        assert_eq!(CommandType::from_opcode_and_sa(opcode, sa.unwrap_or(0)), Ok(ty));
        match sa {
            None => assert_eq!(parse_opcode(opcode), ParseOpcodeResult::Command(ty)),
            Some(sa) => {
                assert_eq!(
                    parse_opcode(opcode),
                    ParseOpcodeResult::ServiceAction(UnparsedServiceAction(opcode))
                );
                assert_eq!(UnparsedServiceAction(opcode).parse(sa), Some(ty));
                assert_eq!(UnparsedServiceAction(opcode).parse(sa + 1), None);
            }
        }
    }
    assert_eq!(parse_opcode(0x2a), ParseOpcodeResult::Invalid);
}

#[test]
fn unknown_opcode_and_unknown_service_action() {
    assert_eq!(Cdb::parse(&[0xff, 0, 0, 0, 0, 0]), Err(ParseError::InvalidCommand));
    assert_eq!(Cdb::parse(&[0xff]), Err(ParseError::InvalidCommand));
    assert_eq!(
        Cdb::parse(&[0xa3, 0x1f, 0, 0, 0, 0, 0, 0, 0, 0, 0, 0]),
        Err(ParseError::InvalidField)
    );
    assert_eq!(Cdb::parse(&[0x9e, 0x00]), Err(ParseError::InvalidField));
    // only the low five bits of byte 1 are the service action
    assert_eq!(
        Cdb::parse(&[0x9e, 0xf0, 0, 0, 0, 0, 0, 0, 0, 0, 0, 0, 0, 1, 0, 0]),
        Ok(Cdb { command: Command::ReadCapacity16, allocation_length: Some(1), naca: false })
    );
}

#[test]
fn short_buffers() {
    assert_eq!(Cdb::parse(&[]), Err(ParseError::TooShort));
    assert_eq!(Cdb::parse(&[0x00, 0, 0, 0, 0]), Err(ParseError::TooShort));
    assert_eq!(Cdb::parse(&[0x9e]), Err(ParseError::TooShort));
    assert_eq!(Cdb::parse(&[0x9e, 0x10, 0, 0, 0, 0, 0, 0, 0, 0, 0, 0, 0, 0, 0]), Err(ParseError::TooShort));
    assert_eq!(Cdb::parse(&[0x28, 0, 0, 0, 0, 0, 0, 0, 0]), Err(ParseError::TooShort));
    assert_eq!(CommandType::from_cdb(&[]), Err(ParseError::TooShort));
    assert_eq!(CommandType::from_cdb(&[0xa3]), Err(ParseError::TooShort));
    assert_eq!(CommandType::from_cdb(&[0x12]), Ok(CommandType::Inquiry));
}

#[test]
fn longer_buffer_than_the_cdb() {
    let mut buf = vec![0u8; 32];
    buf[0] = 0x12;
    buf[4] = 36;
    buf[5] = 0b100;
    buf[31] = 0xff;
    assert_eq!(
        Cdb::parse(&buf),
        Ok(Cdb { command: Command::Inquiry(None), allocation_length: Some(36), naca: true })
    );
}

#[test]
fn test_unit_ready_and_naca() {
    assert_eq!(
        Cdb::parse(&[0, 0, 0, 0, 0, 0]),
        Ok(Cdb { command: Command::TestUnitReady, allocation_length: None, naca: false })
    );
    assert_eq!(
        Cdb::parse(&[0, 0xff, 0xff, 0xff, 0xff, 0b0000_0100]),
        Ok(Cdb { command: Command::TestUnitReady, allocation_length: None, naca: true })
    );
    assert_eq!(
        Cdb::parse(&[0, 0, 0, 0, 0, 0b1111_1011]),
        Ok(Cdb { command: Command::TestUnitReady, allocation_length: None, naca: false })
    );
}

#[test]
fn request_sense() {
    assert_eq!(
        Cdb::parse(&[0x03, 0, 0, 0, 18, 0]),
        Ok(Cdb {
            command: Command::RequestSense(SenseFormat::Fixed),
            allocation_length: Some(18),
            naca: false
        })
    );
    assert_eq!(
        Cdb::parse(&[0x03, 1, 0, 0, 252, 4]),
        Ok(Cdb {
            command: Command::RequestSense(SenseFormat::Descriptor),
            allocation_length: Some(252),
            naca: true
        })
    );
}

#[test]
fn inquiry() {
    assert_eq!(
        Cdb::parse(&[0x12, 0, 0, 0x12, 0x34, 0]),
        Ok(Cdb { command: Command::Inquiry(None), allocation_length: Some(0x1234), naca: false })
    );
    assert_eq!(
        Cdb::parse(&[0x12, 1, 0xb1, 0, 64, 0]),
        Ok(Cdb {
            command: Command::Inquiry(Some(InquiryPageCode::BlockDeviceCharacteristics)),
            allocation_length: Some(64),
            naca: false
        })
    );
    assert_eq!(
        Cdb::parse(&[0x12, 1, 0x00, 0xff, 0xff, 0]),
        Ok(Cdb {
            command: Command::Inquiry(Some(InquiryPageCode::SupportedVpdPages)),
            allocation_length: Some(0xffff),
            naca: false
        })
    );
    // a page code without EVPD
    assert_eq!(Cdb::parse(&[0x12, 0, 0xb1, 0, 64, 0]), Err(ParseError::InvalidField));
    // EVPD with a page code that names no page
    assert_eq!(Cdb::parse(&[0x12, 1, 0xff, 0, 64, 0]), Err(ParseError::InvalidField));
    assert_eq!(Cdb::parse(&[0x12, 1, 0x81, 0, 64, 0]), Err(ParseError::InvalidField));
    // other bits of byte 1
    assert_eq!(Cdb::parse(&[0x12, 2, 0, 0, 64, 0]), Err(ParseError::InvalidField));
    assert_eq!(Cdb::parse(&[0x12, 3, 0, 0, 64, 0]), Err(ParseError::InvalidField));
    assert_eq!(Cdb::parse(&[0x12, 0x81, 0, 0, 64, 0]), Err(ParseError::InvalidField));
}

#[test]
fn parse_mode_sense_6() {
    assert_eq!(
        Cdb::parse(&[0x1a, 0, 0x08, 0, 200, 0]),
        Ok(Cdb {
            command: Command::ModeSense6 {
                pc: ModeSensePageControl::Current,
                mode_page: ModePageSelection::Single(ModePage::Caching),
                dbd: false
            },
            allocation_length: Some(200),
            naca: false
        })
    );
    assert_eq!(
        Cdb::parse(&[0x1a, 8, 0xff, 0, 4, 4]),
        Ok(Cdb {
            command: Command::ModeSense6 {
                pc: ModeSensePageControl::Saved,
                mode_page: ModePageSelection::AllPageZeros,
                dbd: true
            },
            allocation_length: Some(4),
            naca: true
        })
    );
    let pc = |byte: u8| match Cdb::parse(&[0x1a, 0, byte, 0, 0, 0]) {
        Ok(Cdb { command: Command::ModeSense6 { pc, .. }, .. }) => pc,
        other => panic!("{:?}", other),
    };
    assert_eq!(pc(0x08), ModeSensePageControl::Current);
    assert_eq!(pc(0x48), ModeSensePageControl::Changeable);
    assert_eq!(pc(0x88), ModeSensePageControl::Default);
    assert_eq!(pc(0xc8), ModeSensePageControl::Saved);
    // a page that this target does not have, a subpage, other flags
    assert_eq!(Cdb::parse(&[0x1a, 0, 0x00, 0, 0, 0]), Err(ParseError::InvalidField));
    assert_eq!(Cdb::parse(&[0x1a, 0, 0x0a, 0, 0, 0]), Err(ParseError::InvalidField));
    assert_eq!(Cdb::parse(&[0x1a, 0, 0x08, 1, 0, 0]), Err(ParseError::InvalidField));
    assert_eq!(Cdb::parse(&[0x1a, 0, 0x3f, 0xff, 0, 0]), Err(ParseError::InvalidField));
    assert_eq!(Cdb::parse(&[0x1a, 1, 0x08, 0, 0, 0]), Err(ParseError::InvalidField));
    assert_eq!(Cdb::parse(&[0x1a, 0x18, 0x08, 0, 0, 0]), Err(ParseError::InvalidField));
}

#[test]
fn read_capacity() {
    assert_eq!(
        Cdb::parse(&[0x25, 0, 0, 0, 0, 0, 0, 0, 0, 4]),
        Ok(Cdb { command: Command::ReadCapacity10, allocation_length: None, naca: true })
    );
    assert_eq!(
        Cdb::parse(&[0x9e, 0x10, 0, 0, 0, 0, 0, 0, 0, 0, 0x12, 0x34, 0x56, 0x78, 0, 4]),
        Ok(Cdb {
            command: Command::ReadCapacity16,
            allocation_length: Some(0x1234_5678),
            naca: true
        })
    );
    assert_eq!(
        Cdb::parse(&[0x9e, 0x10, 0, 0, 0, 0, 0, 0, 0, 0, 0xff, 0xff, 0xff, 0xff, 4, 0]),
        Ok(Cdb {
            command: Command::ReadCapacity16,
            allocation_length: Some(0xffff_ffff),
            naca: false
        })
    );
}

#[test]
fn read_10() {
    assert_eq!(
        Cdb::parse(&[0x28, 0b0001_1000, 0x12, 0x34, 0x56, 0x78, 0x1f, 0xab, 0xcd, 0]),
        Ok(Cdb {
            command: Command::Read10 {
                dpo: true,
                fua: true,
                lba: 0x1234_5678,
                group_number: 0x1f,
                transfer_length: 0xabcd
            },
            allocation_length: None,
            naca: false
        })
    );
    assert_eq!(
        Cdb::parse(&[0x28, 0b0001_0000, 0xff, 0xff, 0xff, 0xff, 0xe0, 0xff, 0xff, 4]),
        Ok(Cdb {
            command: Command::Read10 {
                dpo: true,
                fua: false,
                lba: 0xffff_ffff,
                group_number: 0,
                transfer_length: 0xffff
            },
            allocation_length: None,
            naca: true
        })
    );
    for low in 1u8..8 {
        assert_eq!(
            Cdb::parse(&[0x28, low, 0, 0, 0, 0, 0, 0, 1, 0]),
            Err(ParseError::InvalidField)
        );
    }
}

#[test]
fn report_luns() {
    let select = |byte: u8| Cdb::parse(&[0xa0, 0, byte, 0, 0, 0, 0, 0, 1, 0, 0, 0]);
    let with = |select: ReportLunsSelectReport| {
        Ok(Cdb { command: Command::ReportLuns(select), allocation_length: Some(256), naca: false })
    };
    assert_eq!(select(0x00), with(ReportLunsSelectReport::NoWellKnown));
    assert_eq!(select(0x01), with(ReportLunsSelectReport::WellKnownOnly));
    assert_eq!(select(0x02), with(ReportLunsSelectReport::All));
    assert_eq!(select(0x10), with(ReportLunsSelectReport::Administrative));
    assert_eq!(select(0x11), with(ReportLunsSelectReport::TopLevel));
    assert_eq!(select(0x12), with(ReportLunsSelectReport::SameConglomerate));
    assert_eq!(select(0x03), Err(ParseError::InvalidField));
    assert_eq!(select(0x13), Err(ParseError::InvalidField));
    assert_eq!(select(0xff), Err(ParseError::InvalidField));
    // the control byte is the last byte of the CDB
    assert_eq!(
        Cdb::parse(&[0xa0, 0, 0, 0, 0, 0, 0, 0, 0, 4, 0, 0]),
        Ok(Cdb {
            command: Command::ReportLuns(ReportLunsSelectReport::NoWellKnown),
            allocation_length: Some(4),
            naca: false
        })
    );
    assert_eq!(
        Cdb::parse(&[0xa0, 0, 0, 0, 0, 0, 0, 0, 0, 0, 0, 4]),
        Ok(Cdb {
            command: Command::ReportLuns(ReportLunsSelectReport::NoWellKnown),
            allocation_length: Some(0),
            naca: true
        })
    );
}

#[test]
fn report_supported_operation_codes() {
    let parse = |options: u8| Cdb::parse(&[0xa3, 0x0c, options, 0x9e, 0x12, 0x34, 0, 1, 0, 0, 0, 0]);
    let with = |rctd: bool, mode: ReportSupportedOpCodesMode| {
        Ok(Cdb {
            command: Command::ReportSupportedOperationCodes { rctd, mode },
            allocation_length: Some(0x10000),
            naca: false,
        })
    };
    assert_eq!(parse(0), with(false, ReportSupportedOpCodesMode::All));
    assert_eq!(parse(0x80), with(true, ReportSupportedOpCodesMode::All));
    assert_eq!(parse(1), with(false, ReportSupportedOpCodesMode::OneCommand(0x9e)));
    assert_eq!(parse(2), with(false, ReportSupportedOpCodesMode::OneServiceAction(0x9e, 0x1234)));
    assert_eq!(
        parse(0x83),
        with(true, ReportSupportedOpCodesMode::OneCommandOrServiceAction(0x9e, 0x1234))
    );
    for options in 4u8..8 {
        assert_eq!(parse(options), Err(ParseError::InvalidField));
    }
}

#[test]
fn vital_product_data_page_codes() {
    assert_eq!(InquiryPageCode::try_from(0x00), Ok(InquiryPageCode::SupportedVpdPages));
    assert_eq!(InquiryPageCode::try_from(0x01), Ok(InquiryPageCode::Ascii(0x01)));
    assert_eq!(InquiryPageCode::try_from(0x7f), Ok(InquiryPageCode::Ascii(0x7f)));
    assert_eq!(InquiryPageCode::try_from(0x80), Ok(InquiryPageCode::UnitSerialNumber));
    assert_eq!(InquiryPageCode::try_from(0x83), Ok(InquiryPageCode::DeviceIdentification));
    assert_eq!(InquiryPageCode::try_from(0xb0), Ok(InquiryPageCode::BlockLimits));
    assert_eq!(InquiryPageCode::try_from(0xb1), Ok(InquiryPageCode::BlockDeviceCharacteristics));
    assert_eq!(InquiryPageCode::try_from(0xb2), Ok(InquiryPageCode::LogicalBlockProvisioning));
    assert_eq!(InquiryPageCode::try_from(0xb8), Ok(InquiryPageCode::FormatPresets));
    for unknown in [0x81u8, 0x82, 0x8e, 0x93, 0xaf, 0xb4, 0xb9, 0xff] {
        assert_eq!(InquiryPageCode::try_from(unknown), Err(()));
    }
    let mut known = 0;
    for code in 0u8..=255 {
        if let Ok(page) = InquiryPageCode::try_from(code) {
            assert_eq!(u8::from(page), code);
            known += 1;
        }
    }
    assert_eq!(known, 128 + 24);
    assert_eq!(ModePage::Caching.page_code(), (0x08, 0));
    assert_eq!(ModePage::Caching.page_length(), 0x12);
    assert_eq!(ModePage::all_zero(), vec![ModePage::Caching]);
    let mut page = vec![0xaa];
    ModePage::Caching.write(&mut page);
    assert_eq!(page.len(), 21);
    assert_eq!(&page[..4], &[0xaa, 0x08, 0x12, 0x04]);
    assert!(page[4..].iter().all(|b| *b == 0));
}

#[test]
fn page_control_and_select_report_codes() {
    assert_eq!(ModeSensePageControl::try_from(0), Ok(ModeSensePageControl::Current));
    assert_eq!(ModeSensePageControl::try_from(1), Ok(ModeSensePageControl::Changeable));
    assert_eq!(ModeSensePageControl::try_from(2), Ok(ModeSensePageControl::Default));
    assert_eq!(ModeSensePageControl::try_from(3), Ok(ModeSensePageControl::Saved));
    assert_eq!(ModeSensePageControl::try_from(4), Err(()));
    assert_eq!(ReportLunsSelectReport::try_from(2), Ok(ReportLunsSelectReport::All));
    assert_eq!(ReportLunsSelectReport::try_from(3), Err(()));
}

#[test]
fn big_endian_numbers() {
    let buf = [0x12, 0x34, 0x56, 0x78, 0x9a];
    assert_eq!(be16(&buf, 0), 0x1234);
    assert_eq!(be16(&buf, 3), 0x789a);
    assert_eq!(be32(&buf, 0), 0x1234_5678);
    assert_eq!(be32(&buf, 1), 0x3456_789a);
    assert_eq!(be32(&[0xff, 0xff, 0xff, 0xff], 0), 0xffff_ffff);
}
