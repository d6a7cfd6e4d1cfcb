//! The block device: a logical unit over a read-only backing store.
use crate::command::{
    classify_opcode, parse_spec, service_action_type, Cdb, Command, ModePageSelection,
    ModeSensePageControl, ParseError, ParseOpcodeResult, ReportLunsSelectReport,
};
use crate::mode_page::{all_zero_pages, page_bytes, pages_bytes, ModePage};
use crate::response_data::{
    be32_bytes, be64_bytes, push_all, push_be16, push_be32, push_be64, push_zeros,
    report_luns_data, respond_report_luns, respond_standard_inquiry_data,
    respond_supported_operation_codes, standard_inquiry_data, supported_operation_codes_data,
    vpd_page_data, vpd_page_payload, vpd_payload, zeros, DIRECT_ACCESS_BLOCK,
};
use crate::scsi::{
    deliver, limit_of, output_check_condition, output_ok, reportable, within, Answer, CmdError,
    CmdOutput, LogicalUnit, Medium, MediumQuery, MediumView, Outcome, Progress, Request,
};
use crate::sense::{
    invalid_command_operation_code, invalid_field_in_cdb, logical_block_address_out_of_range,
    unrecovered_read_error, FIXED_SENSE_LEN,
};
use crate::sink::DataIn;
use vstd::prelude::*;

verus! {

/// The block size of a new device.
pub const DEFAULT_BLOCK_SIZE: u32 = 512;

/// A block device. It holds what it tells of itself; whoever runs its
/// commands holds the backing store and answers for it.
#[derive(Debug, Clone, Copy)]
pub struct BlockDevice {
    block_size: u32,
    write_protected: bool,
    solid_state: bool,
}

/// The data of READ CAPACITY (10): the address of the last block, or
/// all ones where it does not fit, and the block size.
pub open spec fn read_capacity_10_data(size_in_blocks: u64, block_size: u32) -> Seq<u8> {
    be32_bytes(
        if size_in_blocks - 1 > 0xffff_ffff {
            0xffff_ffffu32
        } else {
            (size_in_blocks - 1) as u32
        },
    ) + be32_bytes(block_size)
}

/// The data of READ CAPACITY (16): the address of the last block, the
/// block size, no protection, one physical block for each logical one,
/// thin provisioning with unmapped blocks that read as zeros, and 16
/// reserved bytes.
pub open spec fn read_capacity_16_data(size_in_blocks: u64, block_size: u32) -> Seq<u8> {
    be64_bytes((size_in_blocks - 1) as u64) + be32_bytes(block_size) + seq![
        0u8,
        0,
        0b1100_0000,
        0,
    ] + zeros(16)
}

/// The device-specific parameter of the mode parameter header: the
/// write-protect bit, and support for DPO and FUA.
pub open spec fn device_specific_parameter(write_protected: bool) -> u8 {
    if write_protected {
        0b1001_0000
    } else {
        0b0001_0000
    }
}

/// The pages that a selection names.
pub open spec fn selected_pages(selection: ModePageSelection) -> Seq<ModePage> {
    match selection {
        ModePageSelection::Single(page) => seq![page],
        ModePageSelection::AllPageZeros => all_zero_pages(),
    }
}

/// The data of MODE SENSE (6): a header of four bytes, which are the
/// number of bytes after the first, the medium type 0, the
/// device-specific parameter and the length 0 of the block descriptors;
/// then the pages.
pub open spec fn mode_sense_data(pages: Seq<ModePage>, write_protected: bool) -> Seq<u8> {
    seq![
        (pages_bytes(pages).len() + 3) as u8,
        0u8,
        device_specific_parameter(write_protected),
        0u8,
    ] + pages_bytes(pages)
}

/// What a block device tells of itself.
pub struct Device {
    pub block_size: u32,
    pub write_protected: bool,
    pub solid_state: bool,
}

/// Whether a block device takes a parsed command. It takes no command
/// with the NACA bit, lists logical units only without the well-known
/// ones, reports only current mode values and only without the DBD bit,
/// reads only in group 0, and has no REQUEST SENSE.
pub open spec fn takes(cdb: Cdb) -> bool {
    &&& !cdb.naca
    &&& match cdb.command {
        Command::ReportLuns(select) => select == ReportLunsSelectReport::NoWellKnown,
        Command::ModeSense6 { pc, mode_page, dbd } => pc == ModeSensePageControl::Current && !dbd,
        Command::Read10 { dpo, fua, lba, group_number, transfer_length } => group_number == 0,
        Command::RequestSense(_) => false,
        _ => true,
    }
}

/// Whether the length that the backing store gave suits a command: it
/// is a multiple of the block size, and for READ CAPACITY there is at
/// least one block.
pub open spec fn medium_suits(block_size: u32, command: Command, len: Answer<u64>) -> bool {
    match len {
        Answer::Known(len) => {
            &&& len % (block_size as u64) == 0
            &&& command == Command::ReadCapacity10 || command == Command::ReadCapacity16 ==> len
                >= block_size
        },
        _ => true,
    }
}

/// What a block device makes of READ (10), step by step: with FUA the
/// backing store is synced first; then its length is asked for; a read
/// that ends past the last block is refused; then the bytes are asked
/// for; and they are the data of the command. A backing store that
/// fails to give its length or the bytes makes an unrecovered read error.
pub open spec fn read_outcome(
    block_size: u32,
    fua: bool,
    lba: u32,
    transfer_length: u16,
    medium: MediumView,
) -> Outcome {
    if fua && !medium.synced {
        Outcome::Ask(MediumQuery::Sync)
    } else {
        match medium.len {
            Answer::Unknown => Outcome::Ask(MediumQuery::Length),
            Answer::Failed => Outcome::Reply(
                Seq::empty(),
                output_check_condition(unrecovered_read_error()),
            ),
            Answer::Known(len) => if lba + transfer_length > len / (block_size as u64) {
                Outcome::Reply(
                    Seq::empty(),
                    output_check_condition(logical_block_address_out_of_range()),
                )
            } else {
                match medium.data {
                    Answer::Unknown => Outcome::Ask(
                        MediumQuery::Read {
                            offset: (lba * block_size) as u64,
                            len: (transfer_length * block_size) as u64,
                        },
                    ),
                    Answer::Failed => Outcome::Reply(
                        Seq::empty(),
                        output_check_condition(unrecovered_read_error()),
                    ),
                    Answer::Known(bytes) => Outcome::Reply(bytes, output_ok()),
                }
            },
        }
    }
}

/// What a block device makes of READ CAPACITY, in ten bytes or in
/// sixteen: the length of the backing store is asked for, and the
/// capacity is computed from it.
pub open spec fn capacity_outcome(block_size: u32, long: bool, medium: MediumView) -> Outcome {
    match medium.len {
        Answer::Unknown => Outcome::Ask(MediumQuery::Length),
        Answer::Failed => Outcome::Reply(
            Seq::empty(),
            output_check_condition(unrecovered_read_error()),
        ),
        Answer::Known(len) => Outcome::Reply(
            if long {
                read_capacity_16_data(len / (block_size as u64), block_size)
            } else {
                read_capacity_10_data(len / (block_size as u64), block_size)
            },
            output_ok(),
        ),
    }
}

/// What a block device makes of a parsed command that it takes.
pub open spec fn command_outcome(
    dev: Device,
    command: Command,
    luns: Seq<u16>,
    medium: MediumView,
) -> Outcome {
    match command {
        Command::TestUnitReady => Outcome::Reply(Seq::empty(), output_ok()),
        Command::ReportLuns(_) => Outcome::Reply(report_luns_data(luns), output_ok()),
        Command::ReadCapacity10 => capacity_outcome(dev.block_size, false, medium),
        Command::ReadCapacity16 => capacity_outcome(dev.block_size, true, medium),
        Command::ModeSense6 { pc, mode_page, dbd } => Outcome::Reply(
            mode_sense_data(selected_pages(mode_page), dev.write_protected),
            output_ok(),
        ),
        Command::Read10 { dpo, fua, lba, group_number, transfer_length } => read_outcome(
            dev.block_size,
            fua,
            lba,
            transfer_length,
            medium,
        ),
        Command::Inquiry(None) => Outcome::Reply(
            seq![DIRECT_ACCESS_BLOCK] + standard_inquiry_data(),
            output_ok(),
        ),
        Command::Inquiry(Some(page)) => match vpd_payload(page, dev.solid_state) {
            Some(payload) => Outcome::Reply(
                seq![DIRECT_ACCESS_BLOCK] + vpd_page_data(page, payload),
                output_ok(),
            ),
            None => Outcome::Reply(
                seq![DIRECT_ACCESS_BLOCK],
                output_check_condition(invalid_field_in_cdb()),
            ),
        },
        Command::RequestSense(_) => Outcome::Reply(Seq::empty(), output_ok()),
        Command::ReportSupportedOperationCodes { rctd, mode } => {
            match supported_operation_codes_data(rctd, mode) {
                Some(data) => Outcome::Reply(data, output_ok()),
                None => Outcome::Reply(
                    Seq::empty(),
                    output_check_condition(invalid_field_in_cdb()),
                ),
            }
        },
    }
}

/// What a block device makes of the bytes of a CDB: an unknown
/// operation code and a refused field end the command with CHECK
/// CONDITION and no data; a parsed command is executed.
pub open spec fn device_outcome(dev: Device, cdb: Seq<u8>, luns: Seq<u16>, medium: MediumView)
    -> Outcome {
    match parse_spec(cdb) {
        Err(ParseError::InvalidCommand) => Outcome::Reply(
            Seq::empty(),
            output_check_condition(invalid_command_operation_code()),
        ),
        Err(ParseError::InvalidField) => Outcome::Reply(
            Seq::empty(),
            output_check_condition(invalid_field_in_cdb()),
        ),
        Err(ParseError::TooShort) => Outcome::TooShort,
        Ok(parsed) => command_outcome(dev, parsed.command, luns, medium),
    }
}

/// Whether a block device can execute the command in `cdb`.
pub open spec fn device_ready(dev: Device, cdb: Seq<u8>, medium: MediumView) -> bool {
    &&& dev.block_size > 0
    &&& match parse_spec(cdb) {
        Ok(parsed) => takes(parsed) && medium_suits(dev.block_size, parsed.command, medium.len),
        Err(_) => true,
    }
}

/// What executing a command gives before any byte is delivered.
pub enum Step {
    /// The backing store has to answer first.
    Ask(MediumQuery),
    /// These data-in bytes and this output.
    Reply(Vec<u8>, CmdOutput),
}

/// The outcome that a step stands for.
pub open spec fn step_outcome(step: Step) -> Outcome {
    match step {
        Step::Ask(query) => Outcome::Ask(query),
        Step::Reply(data, output) => Outcome::Reply(data@, output@),
    }
}

impl View for BlockDevice {
    type V = Device;

    closed spec fn view(&self) -> Device {
        Device {
            block_size: self.block_size,
            write_protected: self.write_protected,
            solid_state: self.solid_state,
        }
    }
}

impl BlockDevice {
    /// A device with blocks of 512 bytes that is neither write-protected
    /// nor solid-state.
    pub fn new() -> (dev: Self)
        ensures
            dev@ == (Device {
                block_size: DEFAULT_BLOCK_SIZE,
                write_protected: false,
                solid_state: false,
            }),
    {
        Self { block_size: 512, write_protected: false, solid_state: false }
    }

    /// The number of blocks in a backing store of `len` bytes.
    pub fn size_in_blocks(&self, len: u64) -> (blocks: u64)
        requires
            self@.block_size > 0,
            len % (self@.block_size as u64) == 0,
        ensures
            blocks == len / (self@.block_size as u64),
            blocks * self@.block_size == len,
    {
        let blocks = len / (self.block_size as u64);
        assert(blocks * self.block_size == len) by (nonlinear_arith)
            requires
                self.block_size > 0,
                len % (self.block_size as u64) == 0,
                blocks == len / (self.block_size as u64),
        ;
        blocks
    }

    /// The number of bytes in a block.
    pub fn block_size(&self) -> (size: u32)
        ensures
            size == self@.block_size,
    {
        self.block_size
    }

    /// Makes the device report itself as write-protected, or not.
    pub fn set_write_protected(&mut self, wp: bool)
        ensures
            final(self)@ == (Device { write_protected: wp, ..old(self)@ }),
    {
        self.write_protected = wp;
    }

    /// Makes the device report a medium that does not rotate, or not.
    pub fn set_solid_state(&mut self, solid_state: bool)
        ensures
            final(self)@ == (Device { solid_state, ..old(self)@ }),
    {
        self.solid_state = solid_state;
    }

    /// The query for `blocks` blocks from block `lba` on.
    pub fn read_blocks(&self, lba: u32, blocks: u16) -> (query: MediumQuery)
        ensures
            query == (MediumQuery::Read {
                offset: (lba * self@.block_size) as u64,
                len: (blocks * self@.block_size) as u64,
            }),
    {
        assert(lba * self.block_size <= 0xffff_ffff * 0xffff_ffff) by (nonlinear_arith)
            requires
                lba <= 0xffff_ffff,
                self.block_size <= 0xffff_ffff,
        ;
        assert(blocks * self.block_size <= 0xffff * 0xffff_ffff) by (nonlinear_arith)
            requires
                blocks <= 0xffff,
                self.block_size <= 0xffff_ffff,
        ;
        MediumQuery::Read {
            offset: (lba as u64) * (self.block_size as u64),
            len: (blocks as u64) * (self.block_size as u64),
        }
    }
}

impl BlockDevice {
    /// Whether the device takes `cdb`, and whether the length that the
    /// backing store gave suits it.
    pub fn accepts(&self, cdb: &Cdb, medium: &Medium) -> (ok: bool)
        requires
            self@.block_size > 0,
        ensures
            ok == (takes(*cdb) && medium_suits(self@.block_size, cdb.command, medium@.len)),
    {
        if cdb.naca {
            return false;
        }
        let taken = match cdb.command {
            Command::ReportLuns(select) => select == ReportLunsSelectReport::NoWellKnown,
            Command::ModeSense6 { pc, mode_page, dbd } => pc == ModeSensePageControl::Current
                && !dbd,
            Command::Read10 { dpo, fua, lba, group_number, transfer_length } => group_number == 0,
            Command::RequestSense(_) => false,
            _ => true,
        };
        if !taken {
            return false;
        }
        match medium.len {
            Answer::Known(len) => {
                let capacity = match cdb.command {
                    Command::ReadCapacity10 | Command::ReadCapacity16 => true,
                    _ => false,
                };
                len % (self.block_size as u64) == 0 && (!capacity || len >= self.block_size as u64)
            },
            _ => true,
        }
    }

    /// The data of MODE SENSE (6) for a selection of pages.
    pub fn mode_sense(&self, selection: ModePageSelection) -> (data: Vec<u8>)
        ensures
            data@ == mode_sense_data(selected_pages(selection), self@.write_protected),
    {
        let pages = match selection {
            ModePageSelection::Single(page) => {
                let single = vec![page];
                assert(single@ =~= selected_pages(selection));
                single
            },
            ModePageSelection::AllPageZeros => ModePage::all_zero(),
        };
        assert(pages@.len() == 1);
        assert(pages@.drop_last() =~= Seq::<ModePage>::empty());
        assert(pages_bytes(pages@) =~= page_bytes(pages@[0])) by {
            assert(pages_bytes(pages@.drop_last()) =~= Seq::<u8>::empty());
        }
        let mut pages_len: u32 = 0;
        let mut i: usize = 0;
        while i < pages.len()
            invariant
                i <= pages@.len(),
                pages@.len() == 1,
                pages_len == if i == 0 {
                    0
                } else {
                    page_bytes(pages@[0]).len()
                },
            decreases pages@.len() - i,
        {
            pages_len = pages_len + (pages[i].page_length() as u32 + 2);
            i += 1;
        }
        let mut data: Vec<u8> = Vec::new();
        data.push((pages_len + 3) as u8);
        data.push(0);
        data.push(
            if self.write_protected {
                0b1001_0000
            } else {
                0b0001_0000
            },
        );
        data.push(0);
        let ghost header = data@;
        let mut k: usize = 0;
        while k < pages.len()
            invariant
                k <= pages@.len(),
                pages@.len() == 1,
                data@ == header + if k == 0 {
                    Seq::<u8>::empty()
                } else {
                    page_bytes(pages@[0])
                },
            decreases pages@.len() - k,
        {
            pages[k].write(&mut data);
            k += 1;
            assert(data@ =~= header + page_bytes(pages@[0]));
        }
        assert(data@ =~= mode_sense_data(pages@, self@.write_protected));
        data
    }

    /// The data of READ CAPACITY for a backing store of `len` bytes, in
    /// the form of the sixteen-byte command where `long` is set.
    pub fn read_capacity(&self, long: bool, len: u64) -> (data: Vec<u8>)
        requires
            self@.block_size > 0,
            len % (self@.block_size as u64) == 0,
            len >= self@.block_size,
        ensures
            data@ == if long {
                read_capacity_16_data(len / (self@.block_size as u64), self@.block_size)
            } else {
                read_capacity_10_data(len / (self@.block_size as u64), self@.block_size)
            },
    {
        let size = self.size_in_blocks(len);
        assert(size >= 1) by (nonlinear_arith)
            requires
                size * self@.block_size == len,
                len >= self@.block_size,
                self@.block_size > 0,
        ;
        let mut data: Vec<u8> = Vec::new();
        if long {
            let final_block: u64 = size - 1;
            push_be64(&mut data, final_block);
            push_be32(&mut data, self.block_size);
            data.push(0);
            data.push(0);
            data.push(0b1100_0000);
            data.push(0);
            push_zeros(&mut data, 16);
            assert(data@ =~= read_capacity_16_data(size, self.block_size));
        } else {
            let final_block: u32 = if size - 1 > 0xffff_ffff {
                0xffff_ffff
            } else {
                (size - 1) as u32
            };
            push_be32(&mut data, final_block);
            push_be32(&mut data, self.block_size);
            assert(data@ =~= read_capacity_10_data(size, self.block_size));
        }
        data
    }

    /// Executes a parsed command as far as `medium` allows, without
    /// delivering anything.
    pub fn respond(&self, cdb: &Cdb, luns: &Vec<u16>, medium: &Medium) -> (step: Step)
        requires
            self@.block_size > 0,
            reportable(luns@),
            takes(*cdb),
            medium_suits(self@.block_size, cdb.command, medium@.len),
        ensures
            step_outcome(step) == command_outcome(self@, cdb.command, luns@, medium@),
            step matches Step::Reply(_, output) ==> output@.sense.len() <= FIXED_SENSE_LEN,
    {
        let mut data: Vec<u8> = Vec::new();
        match cdb.command {
            Command::TestUnitReady => Step::Reply(data, CmdOutput::ok()),
            Command::ReportLuns(_) => {
                respond_report_luns(&mut data, luns);
                assert(data@ =~= report_luns_data(luns@));
                Step::Reply(data, CmdOutput::ok())
            },
            Command::ReadCapacity10 => match medium.len {
                Answer::Unknown => Step::Ask(MediumQuery::Length),
                Answer::Failed => Step::Reply(
                    data,
                    CmdOutput::check_condition(unrecovered_read_error()),
                ),
                Answer::Known(len) => Step::Reply(self.read_capacity(false, len), CmdOutput::ok()),
            },
            Command::ReadCapacity16 => match medium.len {
                Answer::Unknown => Step::Ask(MediumQuery::Length),
                Answer::Failed => Step::Reply(
                    data,
                    CmdOutput::check_condition(unrecovered_read_error()),
                ),
                Answer::Known(len) => Step::Reply(self.read_capacity(true, len), CmdOutput::ok()),
            },
            Command::ModeSense6 { pc, mode_page, dbd } => Step::Reply(
                self.mode_sense(mode_page),
                CmdOutput::ok(),
            ),
            Command::Read10 { dpo, fua, lba, group_number, transfer_length } => {
                if fua && !medium.synced {
                    return Step::Ask(MediumQuery::Sync);
                }
                let size = match medium.len {
                    Answer::Unknown => {
                        return Step::Ask(MediumQuery::Length);
                    },
                    Answer::Failed => {
                        return Step::Reply(
                            data,
                            CmdOutput::check_condition(unrecovered_read_error()),
                        );
                    },
                    Answer::Known(len) => self.size_in_blocks(len),
                };
                if lba as u64 + transfer_length as u64 > size {
                    return Step::Reply(
                        data,
                        CmdOutput::check_condition(logical_block_address_out_of_range()),
                    );
                }
                match &medium.data {
                    Answer::Unknown => Step::Ask(self.read_blocks(lba, transfer_length)),
                    Answer::Failed => Step::Reply(
                        data,
                        CmdOutput::check_condition(unrecovered_read_error()),
                    ),
                    Answer::Known(bytes) => {
                        push_all(&mut data, bytes.as_slice());
                        assert(data@ =~= bytes@);
                        Step::Reply(data, CmdOutput::ok())
                    },
                }
            },
            Command::Inquiry(page_code) => {
                data.push(DIRECT_ACCESS_BLOCK);
                if let Some(code) = page_code {
                    match vpd_page_payload(code, self.solid_state) {
                        Some(out) => {
                            data.push(u8::from(code));
                            push_be16(&mut data, out.len() as u16);
                            push_all(&mut data, out.as_slice());
                            assert(data@ =~= seq![DIRECT_ACCESS_BLOCK] + vpd_page_data(
                                code,
                                out@,
                            ));
                            Step::Reply(data, CmdOutput::ok())
                        },
                        None => Step::Reply(
                            data,
                            CmdOutput::check_condition(invalid_field_in_cdb()),
                        ),
                    }
                } else {
                    respond_standard_inquiry_data(&mut data);
                    assert(data@ =~= seq![DIRECT_ACCESS_BLOCK] + standard_inquiry_data());
                    Step::Reply(data, CmdOutput::ok())
                }
            },
            Command::RequestSense(_) => Step::Reply(data, CmdOutput::ok()),
            Command::ReportSupportedOperationCodes { rctd, mode } => {
                if respond_supported_operation_codes(&mut data, rctd, mode) {
                    assert(data@ =~= supported_operation_codes_data(rctd, mode).unwrap());
                    Step::Reply(data, CmdOutput::ok())
                } else {
                    Step::Reply(data, CmdOutput::check_condition(invalid_field_in_cdb()))
                }
            },
        }
    }
}

impl LogicalUnit for BlockDevice {
    open spec fn ready(&self, cdb: Seq<u8>, medium: MediumView) -> bool {
        device_ready(self@, cdb, medium)
    }

    open spec fn outcome(&self, cdb: Seq<u8>, luns: Seq<u16>, medium: MediumView) -> Outcome {
        device_outcome(self@, cdb, luns, medium)
    }

    fn is_ready(&self, cdb: &[u8], medium: &Medium) -> (ok: bool) {
        if self.block_size == 0 {
            return false;
        }
        match Cdb::parse(cdb) {
            Ok(parsed) => self.accepts(&parsed, medium),
            Err(_) => true,
        }
    }

    fn execute_command<W: DataIn>(
        &self,
        req: Request<'_, W>,
        luns: &Vec<u16>,
        medium: &Medium,
    ) -> (res: Progress) {
        let none: Vec<u8> = Vec::new();
        let cdb = match Cdb::parse(req.cdb) {
            Ok(cdb) => cdb,
            Err(ParseError::InvalidCommand) => {
                assert(within(Seq::<u8>::empty(), limit_of(req.cdb@)) =~= Seq::<u8>::empty());
                return Progress::Done(
                    deliver(
                        none.as_slice(),
                        CmdOutput::check_condition(invalid_command_operation_code()),
                        None,
                        req.data_in,
                    ),
                );
            },
            Err(ParseError::InvalidField) => {
                assert(within(Seq::<u8>::empty(), limit_of(req.cdb@)) =~= Seq::<u8>::empty());
                return Progress::Done(
                    deliver(
                        none.as_slice(),
                        CmdOutput::check_condition(invalid_field_in_cdb()),
                        None,
                        req.data_in,
                    ),
                );
            },
            Err(ParseError::TooShort) => {
                return Progress::Done(Err(CmdError::CdbTooShort));
            },
        };
        match self.respond(&cdb, luns, medium) {
            Step::Ask(query) => Progress::Ask(query),
            Step::Reply(data, output) => Progress::Done(
                deliver(data.as_slice(), output, cdb.allocation_length, req.data_in),
            ),
        }
    }
}

/// A block device ends a command with an unknown operation code with
/// CHECK CONDITION and the sense data of an invalid operation code, and
/// returns no data.
pub proof fn lemma_unknown_opcode_is_refused(
    dev: Device,
    cdb: Seq<u8>,
    luns: Seq<u16>,
    medium: MediumView,
)
    requires
        cdb.len() >= 1,
        classify_opcode(cdb[0]) == ParseOpcodeResult::Invalid,
    ensures
        device_ready(dev, cdb, medium) == (dev.block_size > 0),
        device_outcome(dev, cdb, luns, medium) == Outcome::Reply(
            Seq::empty(),
            output_check_condition(invalid_command_operation_code()),
        ),
{
}

/// A block device ends a command whose operation code is known and
/// whose service action is not with CHECK CONDITION and the sense data
/// of an invalid field, and returns no data.
pub proof fn lemma_unknown_service_action_is_refused(
    dev: Device,
    cdb: Seq<u8>,
    luns: Seq<u16>,
    medium: MediumView,
)
    requires
        cdb.len() >= 2,
        classify_opcode(cdb[0]) is ServiceAction,
        service_action_type(cdb[0], (cdb[1] & 0b0001_1111) as u16) is None,
    ensures
        device_ready(dev, cdb, medium) == (dev.block_size > 0),
        device_outcome(dev, cdb, luns, medium) == Outcome::Reply(
            Seq::empty(),
            output_check_condition(invalid_field_in_cdb()),
        ),
{
}

/// Whatever a block device makes of a command, the data that reaches
/// the initiator is within the allocation length of the CDB.
pub proof fn lemma_data_within_allocation_length(
    dev: Device,
    cdb: Seq<u8>,
    luns: Seq<u16>,
    medium: MediumView,
)
    requires
        parse_spec(cdb) matches Ok(parsed) && parsed.allocation_length is Some,
    ensures
        device_outcome(dev, cdb, luns, medium) matches Outcome::Reply(data, _) ==> within(
            data,
            limit_of(cdb),
        ).len() <= parse_spec(cdb).unwrap().allocation_length.unwrap(),
{
}

} // verus!
