//! Encoders of the data that commands return.
use crate::command::{
    cdb_len, cdb_template_of, classify_opcode, opcode_table, opcodes, parse_opcode,
    service_action_type, vpd_code_of, CommandType, InquiryPageCode, ParseOpcodeResult,
    ReportSupportedOpCodesMode,
};
use vstd::prelude::*;

verus! {

/// `n` zero bytes.
pub open spec fn zeros(n: nat) -> Seq<u8> {
    Seq::new(n, |i: int| 0u8)
}

/// A 16-bit number, most significant byte first.
pub open spec fn be16_bytes(x: u16) -> Seq<u8> {
    seq![(x / 0x100) as u8, (x % 0x100) as u8]
}

/// A 32-bit number, most significant byte first.
pub open spec fn be32_bytes(x: u32) -> Seq<u8> {
    seq![
        (x / 0x100_0000) as u8,
        (x / 0x1_0000 % 0x100) as u8,
        (x / 0x100 % 0x100) as u8,
        (x % 0x100) as u8,
    ]
}

/// A 64-bit number, most significant byte first.
pub open spec fn be64_bytes(x: u64) -> Seq<u8> {
    be32_bytes((x / 0x1_0000_0000) as u32) + be32_bytes((x % 0x1_0000_0000) as u32)
}

/// Appends `n` zero bytes.
pub fn push_zeros(out: &mut Vec<u8>, n: usize)
    ensures
        final(out)@ == old(out)@ + zeros(n as nat),
{
    let mut i: usize = 0;
    assert(out@ =~= old(out)@ + zeros(0));
    while i < n
        invariant
            i <= n,
            out@ == old(out)@ + zeros(i as nat),
        decreases n - i,
    {
        out.push(0);
        i += 1;
        assert(out@ =~= old(out)@ + zeros(i as nat));
    }
}

/// Appends a 16-bit number, most significant byte first.
pub fn push_be16(out: &mut Vec<u8>, x: u16)
    ensures
        final(out)@ == old(out)@ + be16_bytes(x),
{
    out.push((x / 0x100) as u8);
    out.push((x % 0x100) as u8);
    assert(out@ =~= old(out)@ + be16_bytes(x));
}

/// Appends a 32-bit number, most significant byte first.
pub fn push_be32(out: &mut Vec<u8>, x: u32)
    ensures
        final(out)@ == old(out)@ + be32_bytes(x),
{
    out.push((x / 0x100_0000) as u8);
    out.push((x / 0x1_0000 % 0x100) as u8);
    out.push((x / 0x100 % 0x100) as u8);
    out.push((x % 0x100) as u8);
    assert(out@ =~= old(out)@ + be32_bytes(x));
}

/// Appends a 64-bit number, most significant byte first.
pub fn push_be64(out: &mut Vec<u8>, x: u64)
    ensures
        final(out)@ == old(out)@ + be64_bytes(x),
{
    push_be32(out, (x / 0x1_0000_0000) as u32);
    push_be32(out, (x % 0x1_0000_0000) as u32);
    assert(out@ =~= old(out)@ + be64_bytes(x));
}

/// Appends the bytes of `bytes`.
pub fn push_all(out: &mut Vec<u8>, bytes: &[u8])
    ensures
        final(out)@ == old(out)@ + bytes@,
{
    out.extend_from_slice(bytes);
    assert(out@ =~= old(out)@ + bytes@);
}

/// The device type of a direct-access block device, with peripheral
/// qualifier 0: the logical unit is there.
pub const DIRECT_ACCESS_BLOCK: u8 = 0x00;

/// Peripheral qualifier 3 with the unknown device type: no logical unit
/// is there.
pub const NO_DEVICE: u8 = 0x7f;

/// One logical unit in the list of REPORT LUNS: flat addressing on one
/// level, the number in the second byte.
pub open spec fn lun_entry(lun: u16) -> Seq<u8> {
    seq![0u8, lun as u8, 0, 0, 0, 0, 0, 0]
}

/// The entries of a list of logical units, in order.
pub open spec fn lun_entries(luns: Seq<u16>) -> Seq<u8>
    decreases luns.len(),
{
    if luns.len() == 0 {
        Seq::empty()
    } else {
        lun_entries(luns.drop_last()) + lun_entry(luns.last())
    }
}

/// The data of REPORT LUNS: the length of the list in bytes, four
/// reserved bytes, then the list, eight bytes for each logical unit.
pub open spec fn report_luns_data(luns: Seq<u16>) -> Seq<u8> {
    be32_bytes((8 * luns.len()) as u32) + zeros(4) + lun_entries(luns)
}

/// Appends the data of REPORT LUNS for `luns`.
pub fn respond_report_luns(out: &mut Vec<u8>, luns: &Vec<u16>)
    requires
        luns@.len() <= 0x1000_0000,
        forall|i: int| 0 <= i < luns@.len() ==> luns@[i] < 256,
    ensures
        final(out)@ == old(out)@ + report_luns_data(luns@),
{
    push_be32(out, (luns.len() * 8) as u32);
    push_zeros(out, 4);
    let mut i: usize = 0;
    assert(luns@.subrange(0, 0) =~= Seq::<u16>::empty());
    assert(out@ =~= old(out)@ + be32_bytes((8 * luns@.len()) as u32) + zeros(4) + lun_entries(
        luns@.subrange(0, 0),
    ));
    while i < luns.len()
        invariant
            i <= luns@.len(),
            forall|k: int| 0 <= k < luns@.len() ==> luns@[k] < 256,
            out@ == old(out)@ + be32_bytes((8 * luns@.len()) as u32) + zeros(4) + lun_entries(
                luns@.subrange(0, i as int),
            ),
        decreases luns@.len() - i,
    {
        let lun = luns[i];
        let entry = [0u8, lun as u8, 0, 0, 0, 0, 0, 0];
        assert(entry@ =~= lun_entry(lun));
        push_all(out, entry.as_slice());
        proof {
            let next = luns@.subrange(0, i + 1);
            assert(next.drop_last() =~= luns@.subrange(0, i as int));
            assert(next.last() == lun);
            assert(out@ =~= old(out)@ + be32_bytes((8 * luns@.len()) as u32) + zeros(4)
                + lun_entries(next));
        }
        i += 1;
    }
    assert(luns@.subrange(0, i as int) =~= luns@);
    assert(out@ =~= old(out)@ + report_luns_data(luns@));
}

/// The T10 vendor identification, `rust-vmm`.
pub open spec fn vendor_id() -> Seq<u8> {
    seq![0x72u8, 0x75, 0x73, 0x74, 0x2d, 0x76, 0x6d, 0x6d]
}

/// The product identification, `vhost-user-scsi` and a space.
pub open spec fn product_id() -> Seq<u8> {
    seq![
        0x76u8, 0x68, 0x6f, 0x73, 0x74, 0x2d, 0x75, 0x73, 0x65, 0x72, 0x2d, 0x73, 0x63, 0x73, 0x69,
        0x20,
    ]
}

/// The product revision, `v0` and two spaces.
pub open spec fn product_revision() -> Seq<u8> {
    seq![0x76u8, 0x30, 0x20, 0x20]
}

/// The version descriptors: SAM-6, SPC-5 and SBC-4, then five empty ones.
pub open spec fn version_descriptors() -> Seq<u8> {
    be16_bytes(0x00c0) + be16_bytes(0x05c0) + be16_bytes(0x0600) + zeros(10)
}

/// The standard INQUIRY data after its first byte: not removable,
/// version SPC-6, NormACA and hierarchical addressing with response
/// format 2, 91 bytes after the fifth, command queueing, the three
/// identification strings, and the version descriptors between two runs
/// of 22 zero bytes.
pub open spec fn standard_inquiry_data() -> Seq<u8> {
    seq![0u8, 0x07, 0x32, 91, 0, 0, 0x02] + vendor_id() + product_id() + product_revision() + zeros(
        22,
    ) + version_descriptors() + zeros(22)
}

/// Appends the standard INQUIRY data after its first byte.
pub fn respond_standard_inquiry_data(out: &mut Vec<u8>)
    ensures
        final(out)@ == old(out)@ + standard_inquiry_data(),
        standard_inquiry_data().len() == 95,
{
    let flags = [0u8, 0x07, 0x32, 91, 0, 0, 0x02];
    assert(flags@ =~= seq![0u8, 0x07, 0x32, 91, 0, 0, 0x02]);
    push_all(out, flags.as_slice());
    let vendor = [0x72u8, 0x75, 0x73, 0x74, 0x2d, 0x76, 0x6d, 0x6d];
    assert(vendor@ =~= vendor_id());
    push_all(out, vendor.as_slice());
    let product = [
        0x76u8, 0x68, 0x6f, 0x73, 0x74, 0x2d, 0x75, 0x73, 0x65, 0x72, 0x2d, 0x73, 0x63, 0x73, 0x69,
        0x20,
    ];
    assert(product@ =~= product_id());
    push_all(out, product.as_slice());
    let revision = [0x76u8, 0x30, 0x20, 0x20];
    assert(revision@ =~= product_revision());
    push_all(out, revision.as_slice());
    push_zeros(out, 22);
    push_be16(out, 0x00c0);
    push_be16(out, 0x05c0);
    push_be16(out, 0x0600);
    push_zeros(out, 10);
    push_zeros(out, 22);
    assert(out@ =~= old(out)@ + standard_inquiry_data());
}

/// The payload of a vital product data page, for the pages this target
/// has: the list of its pages; the block device characteristics, which
/// are the rotation rate (1 for a solid-state medium, else 0) and 58
/// zero bytes; the logical block provisioning, which reports UNMAP and
/// both WRITE SAME commands on a thin-provisioned medium.
pub open spec fn vpd_payload(page: InquiryPageCode, solid_state: bool) -> Option<Seq<u8>> {
    match page {
        InquiryPageCode::SupportedVpdPages => Some(seq![0x00u8, 0xb1, 0xb2]),
        InquiryPageCode::BlockDeviceCharacteristics => Some(
            be16_bytes(
                if solid_state {
                    1
                } else {
                    0
                },
            ) + zeros(58),
        ),
        InquiryPageCode::LogicalBlockProvisioning => Some(seq![0x00u8, 0xe4, 0x02, 0x00]),
        _ => None,
    }
}

/// A vital product data page after the device type: the page code, the
/// length of the payload in two bytes, the payload.
pub open spec fn vpd_page_data(page: InquiryPageCode, payload: Seq<u8>) -> Seq<u8> {
    seq![vpd_code_of(page)] + be16_bytes(payload.len() as u16) + payload
}

/// The payload of a vital product data page; none for a page this
/// target does not have.
pub fn vpd_page_payload(page: InquiryPageCode, solid_state: bool) -> (payload: Option<Vec<u8>>)
    ensures
        payload is Some == vpd_payload(page, solid_state) is Some,
        payload is Some ==> payload.unwrap()@ == vpd_payload(page, solid_state).unwrap(),
        payload is Some ==> payload.unwrap()@.len() <= 60,
{
    let mut out: Vec<u8> = Vec::new();
    match page {
        InquiryPageCode::SupportedVpdPages => {
            out.push(u8::from(InquiryPageCode::SupportedVpdPages));
            out.push(u8::from(InquiryPageCode::BlockDeviceCharacteristics));
            out.push(u8::from(InquiryPageCode::LogicalBlockProvisioning));
            assert(out@ =~= seq![0x00u8, 0xb1, 0xb2]);
        },
        InquiryPageCode::BlockDeviceCharacteristics => {
            let rotation_rate: u16 = if solid_state {
                1
            } else {
                0
            };
            push_be16(&mut out, rotation_rate);
            push_zeros(&mut out, 58);
            assert(out@ =~= be16_bytes(rotation_rate) + zeros(58));
        },
        InquiryPageCode::LogicalBlockProvisioning => {
            out.push(0);
            out.push(0b1110_0100);
            out.push(0b0000_0010);
            out.push(0);
            assert(out@ =~= seq![0x00u8, 0xe4, 0x02, 0x00]);
        },
        _ => {
            return None;
        },
    }
    Some(out)
}

/// A command timeouts descriptor that names no timeout: ten bytes
/// follow its length, all of them zero.
pub open spec fn timeout_descriptor() -> Seq<u8> {
    be16_bytes(0x000a) + zeros(2) + be32_bytes(0) + be32_bytes(0)
}

/// The timeouts descriptor where it was asked for, else nothing.
pub open spec fn timeouts(rctd: bool) -> Seq<u8> {
    if rctd {
        timeout_descriptor()
    } else {
        Seq::empty()
    }
}

/// The flags of a command descriptor: bit 1 says that a timeouts
/// descriptor follows, bit 0 that the command has a service action.
pub open spec fn descriptor_flags(rctd: bool, has_sa: bool) -> u8 {
    if rctd {
        if has_sa {
            0b11
        } else {
            0b10
        }
    } else {
        if has_sa {
            0b01
        } else {
            0b00
        }
    }
}

/// The descriptor of one command in the list of all commands: operation
/// code, a reserved byte, the service action (zero where the command has
/// none), a reserved byte, the flags, the length of the CDB and, where
/// asked for, the timeouts descriptor.
pub open spec fn command_descriptor(entry: (CommandType, (u8, Option<u16>)), rctd: bool) -> Seq<
    u8,
> {
    seq![entry.1.0, 0u8] + be16_bytes(
        match entry.1.1 {
            Some(sa) => sa,
            None => 0,
        },
    ) + seq![0u8, descriptor_flags(rctd, entry.1.1 is Some)] + be16_bytes(
        cdb_len(entry.0) as u16,
    ) + timeouts(rctd)
}

/// The descriptors of a list of commands, in order.
pub open spec fn command_descriptors(entries: Seq<(CommandType, (u8, Option<u16>))>, rctd: bool)
    -> Seq<u8>
    decreases entries.len(),
{
    if entries.len() == 0 {
        Seq::empty()
    } else {
        command_descriptors(entries.drop_last(), rctd) + command_descriptor(entries.last(), rctd)
    }
}

/// Number of bytes in a command descriptor.
pub open spec fn descriptor_len(rctd: bool) -> nat {
    if rctd {
        20
    } else {
        8
    }
}

/// The list of all commands: the length of what follows, then one
/// descriptor for each entry of the dispatch table, in its order.
pub open spec fn all_commands_data(rctd: bool) -> Seq<u8> {
    be32_bytes((opcode_table().len() * descriptor_len(rctd)) as u32) + command_descriptors(
        opcode_table(),
        rctd,
    )
}

/// The report on one supported command: a reserved byte, the support
/// code 3, the length of its CDB, its usage data and, where asked for,
/// the timeouts descriptor.
pub open spec fn supported_data(ty: CommandType, rctd: bool) -> Seq<u8> {
    seq![0u8, 0b0000_0011] + be16_bytes(cdb_len(ty) as u16) + cdb_template_of(ty) + timeouts(rctd)
}

/// The report on a command this target does not have: a reserved byte,
/// the support code 1, and a CDB length of zero.
pub open spec fn not_supported_data() -> Seq<u8> {
    seq![0u8, 0b0000_0001, 0, 0]
}

/// What REPORT SUPPORTED OPERATION CODES says of one command.
pub enum Support {
    /// The command is this one.
    Supported(CommandType),
    /// The target has no such command.
    NotSupported,
    /// The question itself is refused.
    InvalidField,
}

/// What is reported for a question about one command.
///
/// Asked by operation code alone: a command without service actions is
/// supported, an operation code with service actions makes the question
/// invalid, an unknown one is not supported. Asked by operation code and
/// service action: the pair is supported where it names a command and not
/// supported where the service action is unknown, and the question is
/// invalid for an operation code that has no service actions or is
/// unknown. Asked either way: a command without service actions is
/// supported where the service action given is zero, a known pair is
/// supported, and everything else is not supported.
pub open spec fn support_of(mode: ReportSupportedOpCodesMode) -> Support
    recommends
        mode != ReportSupportedOpCodesMode::All,
{
    match mode {
        ReportSupportedOpCodesMode::All => Support::InvalidField,
        ReportSupportedOpCodesMode::OneCommand(opcode) => match classify_opcode(opcode) {
            ParseOpcodeResult::Command(ty) => Support::Supported(ty),
            ParseOpcodeResult::ServiceAction(_) => Support::InvalidField,
            ParseOpcodeResult::Invalid => Support::NotSupported,
        },
        ReportSupportedOpCodesMode::OneServiceAction(opcode, sa) => match classify_opcode(opcode) {
            ParseOpcodeResult::Command(_) => Support::InvalidField,
            ParseOpcodeResult::ServiceAction(_) => match service_action_type(opcode, sa) {
                Some(ty) => Support::Supported(ty),
                None => Support::NotSupported,
            },
            ParseOpcodeResult::Invalid => Support::InvalidField,
        },
        ReportSupportedOpCodesMode::OneCommandOrServiceAction(opcode, sa) => match classify_opcode(
            opcode,
        ) {
            ParseOpcodeResult::Command(ty) => if sa == 0 {
                Support::Supported(ty)
            } else {
                Support::NotSupported
            },
            ParseOpcodeResult::ServiceAction(_) => match service_action_type(opcode, sa) {
                Some(ty) => Support::Supported(ty),
                None => Support::NotSupported,
            },
            ParseOpcodeResult::Invalid => Support::NotSupported,
        },
    }
}

/// The data of REPORT SUPPORTED OPERATION CODES; none where the
/// question is refused as an invalid field.
pub open spec fn supported_operation_codes_data(rctd: bool, mode: ReportSupportedOpCodesMode)
    -> Option<Seq<u8>> {
    match mode {
        ReportSupportedOpCodesMode::All => Some(all_commands_data(rctd)),
        _ => match support_of(mode) {
            Support::Supported(ty) => Some(supported_data(ty, rctd)),
            Support::NotSupported => Some(not_supported_data()),
            Support::InvalidField => None,
        },
    }
}

/// Appends a timeouts descriptor that names no timeout.
pub fn timeout_descriptor_to(out: &mut Vec<u8>)
    ensures
        final(out)@ == old(out)@ + timeout_descriptor(),
        timeout_descriptor().len() == 12,
{
    push_be16(out, 0xa);
    push_zeros(out, 2);
    push_be32(out, 0);
    push_be32(out, 0);
    assert(out@ =~= old(out)@ + timeout_descriptor());
}

/// Appends the report on one supported command.
pub fn one_command_supported(out: &mut Vec<u8>, ty: CommandType, rctd: bool)
    ensures
        final(out)@ == old(out)@ + supported_data(ty, rctd),
{
    out.push(0);
    out.push(0b0000_0011);
    let tpl = ty.cdb_template();
    push_be16(out, tpl.len() as u16);
    push_all(out, tpl);
    if rctd {
        timeout_descriptor_to(out);
    }
    assert(out@ =~= old(out)@ + supported_data(ty, rctd));
}

/// Appends the report on a command this target does not have.
pub fn one_command_not_supported(out: &mut Vec<u8>)
    ensures
        final(out)@ == old(out)@ + not_supported_data(),
{
    out.push(0);
    out.push(0b0000_0001);
    push_zeros(out, 2);
    assert(out@ =~= old(out)@ + not_supported_data());
}

/// Appends the list of all commands.
pub fn all_commands(out: &mut Vec<u8>, rctd: bool)
    ensures
        final(out)@ == old(out)@ + all_commands_data(rctd),
{
    let table = opcodes();
    let cmd_len: usize = if rctd {
        20
    } else {
        8
    };
    push_be32(out, (table.len() * cmd_len) as u32);
    let ghost head = old(out)@ + be32_bytes((opcode_table().len() * descriptor_len(rctd)) as u32);
    let mut i: usize = 0;
    assert(table@.subrange(0, 0) =~= Seq::<(CommandType, (u8, Option<u16>))>::empty());
    assert(out@ =~= head + command_descriptors(table@.subrange(0, 0), rctd));
    while i < table.len()
        invariant
            i <= table@.len(),
            table@ == opcode_table(),
            out@ == head + command_descriptors(table@.subrange(0, i as int), rctd),
        decreases table@.len() - i,
    {
        let (ty, (opcode, sa)) = table[i];
        let ghost before = out@;
        out.push(opcode);
        out.push(0);
        push_be16(
            out,
            match sa {
                Some(sa) => sa,
                None => 0,
            },
        );
        out.push(0);
        let ctdp: u8 = if rctd {
            0b10
        } else {
            0b00
        };
        let servactv: u8 = if sa.is_some() {
            0b1
        } else {
            0b0
        };
        out.push(ctdp + servactv);
        push_be16(out, ty.cdb_template().len() as u16);
        if rctd {
            timeout_descriptor_to(out);
        }
        proof {
            let next = table@.subrange(0, i + 1);
            assert(next.drop_last() =~= table@.subrange(0, i as int));
            assert(next.last() == table@[i as int]);
            assert(out@ =~= before + command_descriptor(table@[i as int], rctd));
            assert(out@ =~= head + command_descriptors(next, rctd));
        }
        i += 1;
    }
    assert(table@.subrange(0, i as int) =~= table@);
}

/// What is reported for a question about one command.
pub fn support(mode: ReportSupportedOpCodesMode) -> (res: Support)
    requires
        mode != ReportSupportedOpCodesMode::All,
    ensures
        res == support_of(mode),
{
    match mode {
        ReportSupportedOpCodesMode::All => Support::InvalidField,
        ReportSupportedOpCodesMode::OneCommand(opcode) => match parse_opcode(opcode) {
            ParseOpcodeResult::Command(ty) => Support::Supported(ty),
            ParseOpcodeResult::ServiceAction(_) => Support::InvalidField,
            ParseOpcodeResult::Invalid => Support::NotSupported,
        },
        ReportSupportedOpCodesMode::OneServiceAction(opcode, sa) => match parse_opcode(opcode) {
            ParseOpcodeResult::Command(_) => Support::InvalidField,
            ParseOpcodeResult::ServiceAction(unparsed_sa) => match unparsed_sa.parse(sa) {
                Some(ty) => Support::Supported(ty),
                None => Support::NotSupported,
            },
            ParseOpcodeResult::Invalid => Support::InvalidField,
        },
        ReportSupportedOpCodesMode::OneCommandOrServiceAction(opcode, sa) => match parse_opcode(
            opcode,
        ) {
            ParseOpcodeResult::Command(ty) => if sa == 0 {
                Support::Supported(ty)
            } else {
                Support::NotSupported
            },
            ParseOpcodeResult::ServiceAction(unparsed_sa) => match unparsed_sa.parse(sa) {
                Some(ty) => Support::Supported(ty),
                None => Support::NotSupported,
            },
            ParseOpcodeResult::Invalid => Support::NotSupported,
        },
    }
}

/// Appends the data of REPORT SUPPORTED OPERATION CODES and returns
/// `true`, or appends nothing and returns `false` where the question is
/// refused as an invalid field.
pub fn respond_supported_operation_codes(
    out: &mut Vec<u8>,
    rctd: bool,
    mode: ReportSupportedOpCodesMode,
) -> (answered: bool)
    ensures
        answered == supported_operation_codes_data(rctd, mode) is Some,
        final(out)@ == match supported_operation_codes_data(rctd, mode) {
            Some(data) => old(out)@ + data,
            None => old(out)@,
        },
{
    match mode {
        ReportSupportedOpCodesMode::All => {
            all_commands(out, rctd);
            true
        },
        _ => match support(mode) {
            Support::Supported(ty) => {
                one_command_supported(out, ty, rctd);
                true
            },
            Support::NotSupported => {
                one_command_not_supported(out);
                true
            },
            Support::InvalidField => false,
        },
    }
}

} // verus!
