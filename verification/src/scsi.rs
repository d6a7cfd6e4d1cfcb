//! The SCSI layer: requests, their outcome, logical units and the
//! target that routes a request to one of them.
use crate::command::{
    parse_spec, Cdb, Command, ParseError, ReportLunsSelectReport, SenseFormat,
};
use crate::response_data::{
    report_luns_data, respond_report_luns, respond_standard_inquiry_data, standard_inquiry_data,
    NO_DEVICE,
};
use crate::sense::{
    fixed_sense, invalid_field_in_cdb, logical_unit_not_supported, SenseTriple, FIXED_SENSE_LEN,
};
use crate::sink::{after_write_all, kept, DataIn, SilentlyTruncate, WriteError};
use vstd::prelude::*;

verus! {

/// How a task is queued.
#[derive(PartialEq, Eq, Debug, Clone, Copy, Structural)]
pub enum TaskAttr {
    Simple,
    Ordered,
    HeadOfQueue,
    Aca,
}

/// Number of bytes that the transport reserves for sense data. The sense
/// data of a command is shorter than this.
pub const SENSE_SIZE: usize = 96;

/// Status GOOD.
pub const STATUS_GOOD: u8 = 0;

/// Status CHECK CONDITION.
pub const STATUS_CHECK_CONDITION: u8 = 2;

/// How a command ended, as the initiator is told.
#[derive(Debug, PartialEq, Eq, Clone)]
pub struct CmdOutput {
    pub status: u8,
    pub status_qualifier: u16,
    pub sense: Vec<u8>,
}

/// A `CmdOutput` as a value of specifications.
pub struct Output {
    pub status: u8,
    pub status_qualifier: u16,
    pub sense: Seq<u8>,
}

impl View for CmdOutput {
    type V = Output;

    open spec fn view(&self) -> Output {
        Output { status: self.status, status_qualifier: self.status_qualifier, sense: self.sense@ }
    }
}

/// Status GOOD without sense data.
pub open spec fn output_ok() -> Output {
    Output { status: STATUS_GOOD, status_qualifier: 0, sense: Seq::empty() }
}

/// Status CHECK CONDITION with `sense` as fixed-format sense data.
pub open spec fn output_check_condition(sense: SenseTriple) -> Output {
    Output {
        status: STATUS_CHECK_CONDITION,
        status_qualifier: 0,
        sense: fixed_sense(sense.0, sense.1, sense.2),
    }
}

impl CmdOutput {
    /// The command succeeded.
    pub fn ok() -> (out: Self)
        ensures
            out@ == output_ok(),
    {
        Self { status: 0, status_qualifier: 0, sense: Vec::new() }
    }

    /// The command failed; `sense` says why.
    pub fn check_condition(sense: SenseTriple) -> (out: Self)
        ensures
            out@ == output_check_condition(sense),
            out@.sense.len() == FIXED_SENSE_LEN,
    {
        Self { status: 2, status_qualifier: 0, sense: sense.to_fixed_sense() }
    }
}

/// A failure of the transport while a command was executed. Whatever
/// goes wrong at the SCSI level is reported in a `CmdOutput` instead.
#[derive(Debug, PartialEq, Eq, Clone, Copy, Structural)]
pub enum CmdError {
    /// The buffer ends before the CDB of its operation code does.
    CdbTooShort,
    /// The data-in bytes could not be delivered.
    DataIn(WriteError),
}

/// A command as the transport hands it to a logical unit.
pub struct Request<'a, W: DataIn> {
    pub id: u64,
    pub cdb: &'a [u8],
    pub task_attr: TaskAttr,
    pub data_in: &'a mut W,
    pub crn: u8,
    pub prio: u8,
}

/// What is known of one fact about the backing store.
#[derive(Debug, PartialEq, Eq, Clone)]
pub enum Answer<T> {
    /// Nobody has asked yet.
    Unknown,
    /// The backing store failed to tell.
    Failed,
    /// The backing store gave this.
    Known(T),
}

/// What a logical unit needs of its backing store before it can go on.
#[derive(Debug, PartialEq, Eq, Clone, Copy, Structural)]
pub enum MediumQuery {
    /// Everything written so far is to reach the medium.
    Sync,
    /// The length of the medium in bytes.
    Length,
    /// The `len` bytes of the medium from `offset` on.
    Read { offset: u64, len: u64 },
}

/// What the backing store has told while one command is executed. A
/// command starts with nothing known; whoever runs it answers each
/// query here and runs it again.
#[derive(Debug, PartialEq, Eq, Clone)]
pub struct Medium {
    /// Whether a `Sync` was carried out, with or without success.
    pub synced: bool,
    /// The answer to `Length`.
    pub len: Answer<u64>,
    /// The answer to `Read`.
    pub data: Answer<Vec<u8>>,
}

/// A `Medium` as a value of specifications.
pub struct MediumView {
    pub synced: bool,
    pub len: Answer<u64>,
    pub data: Answer<Seq<u8>>,
}

impl View for Medium {
    type V = MediumView;

    open spec fn view(&self) -> MediumView {
        MediumView {
            synced: self.synced,
            len: self.len,
            data: match self.data {
                Answer::Unknown => Answer::Unknown,
                Answer::Failed => Answer::Failed,
                Answer::Known(bytes) => Answer::Known(bytes@),
            },
        }
    }
}

impl Medium {
    /// Nothing is known yet.
    pub fn new() -> (medium: Self)
        ensures
            medium@ == (MediumView { synced: false, len: Answer::Unknown, data: Answer::Unknown }),
    {
        Medium { synced: false, len: Answer::Unknown, data: Answer::Unknown }
    }
}

/// How far the execution of a command has come.
#[derive(Debug, PartialEq, Eq)]
pub enum Progress {
    /// Nothing was written; the command is to be run again once the
    /// backing store has answered.
    Ask(MediumQuery),
    /// The command has ended.
    Done(Result<CmdOutput, CmdError>),
}

/// What a logical unit makes of a command, before any byte is delivered.
pub enum Outcome {
    /// It needs an answer of the backing store first.
    Ask(MediumQuery),
    /// It answers with these data-in bytes and this output.
    Reply(Seq<u8>, Output),
    /// The buffer ends before the CDB does.
    TooShort,
}

/// The most data-in bytes that a CDB lets through: its allocation
/// length, or no limit where it has none or does not parse.
pub open spec fn limit_of(cdb: Seq<u8>) -> nat {
    match parse_spec(cdb) {
        Ok(parsed) => match parsed.allocation_length {
            Some(len) => len as nat,
            None => usize::MAX as nat,
        },
        Err(_) => usize::MAX as nat,
    }
}

/// The part of `data` within a limit.
pub open spec fn within(data: Seq<u8>, limit: nat) -> Seq<u8> {
    data.subrange(0, kept(data.len(), limit) as int)
}

/// What delivering a reply comes to. The data within the limit goes to
/// the sink. Where the sink has room for it the command ends with the
/// output; where it has not, the sink is filled and the command fails
/// with `WriteZero`.
pub open spec fn delivered(
    data: Seq<u8>,
    output: Output,
    limit: nat,
    taken: Seq<u8>,
    room: nat,
    taken_after: Seq<u8>,
    res: Result<CmdOutput, CmdError>,
) -> bool {
    &&& taken_after == after_write_all(taken, room, within(data, limit))
    &&& if within(data, limit).len() <= room {
        res matches Ok(out) && out@ == output
    } else {
        res == Err::<CmdOutput, CmdError>(CmdError::DataIn(WriteError::WriteZero))
    }
}

/// How the execution of a command relates to its outcome. A query and
/// a CDB that is too short leave the sink as it was; a reply is
/// delivered within the limit of the CDB.
pub open spec fn executed(
    outcome: Outcome,
    limit: nat,
    taken: Seq<u8>,
    room: nat,
    taken_after: Seq<u8>,
    progress: Progress,
) -> bool {
    match outcome {
        Outcome::Ask(query) => progress == Progress::Ask(query) && taken_after == taken,
        Outcome::TooShort => progress == Progress::Done(Err(CmdError::CdbTooShort)) && taken_after
            == taken,
        Outcome::Reply(data, output) => progress matches Progress::Done(res) && delivered(
            data,
            output,
            limit,
            taken,
            room,
            taken_after,
            res,
        ),
    }
}

/// Delivers a reply: writes `data` to `data_in` within the allocation
/// length and ends the command with `output`, or with `WriteZero` where
/// `data_in` has too little room.
pub fn deliver<W: DataIn>(
    data: &[u8],
    output: CmdOutput,
    allocation_length: Option<u32>,
    data_in: &mut W,
) -> (res: Result<CmdOutput, CmdError>)
    requires
        old(data_in).inv(),
    ensures
        final(data_in).inv(),
        delivered(
            data@,
            output@,
            match allocation_length {
                Some(len) => len as nat,
                None => usize::MAX as nat,
            },
            old(data_in).taken(),
            old(data_in).room(),
            final(data_in).taken(),
            res,
        ),
        final(data_in).taken().len() + final(data_in).room() == old(data_in).taken().len() + old(
            data_in,
        ).room(),
        final(data_in).place() == old(data_in).place(),
{
    let mut limit = SilentlyTruncate::new(allocation_length);
    match limit.write_all(data_in, data) {
        Ok(()) => Ok(output),
        Err(e) => Err(CmdError::DataIn(e)),
    }
}

/// The numbers of a list of logical units can be reported: there are at
/// most 256 of them, each below 256.
pub open spec fn reportable(luns: Seq<u16>) -> bool {
    &&& luns.len() <= 256
    &&& forall|i: int| 0 <= i < luns.len() ==> luns[i] < 256
}

/// A logical unit: what executes the commands sent to one LUN.
pub trait LogicalUnit: Send + Sync {
    /// Whether the unit can execute the command in `cdb` with what is
    /// known of its backing store. A unit need not take a command that
    /// asks for what it has not implemented.
    spec fn ready(&self, cdb: Seq<u8>, medium: MediumView) -> bool;

    /// What the unit makes of the command in `cdb`, on a target whose
    /// logical units have the numbers `luns`.
    spec fn outcome(&self, cdb: Seq<u8>, luns: Seq<u16>, medium: MediumView) -> Outcome;

    /// Whether the unit can execute the command in `cdb`.
    fn is_ready(&self, cdb: &[u8], medium: &Medium) -> (ok: bool)
        ensures
            ok == self.ready(cdb@, medium@),
    ;

    /// Executes the command of `req` as far as `medium` allows.
    ///
    /// Fails only where the transport does: a SCSI-level failure ends
    /// the command with CHECK CONDITION and sense data. Data-in bytes
    /// past the allocation length of the CDB are discarded.
    fn execute_command<W: DataIn>(
        &self,
        req: Request<'_, W>,
        luns: &Vec<u16>,
        medium: &Medium,
    ) -> (res: Progress)
        requires
            old(req.data_in).inv(),
            reportable(luns@),
            self.ready(req.cdb@, medium@),
        ensures
            final(req.data_in).inv(),
            executed(
                self.outcome(req.cdb@, luns@, medium@),
                limit_of(req.cdb@),
                old(req.data_in).taken(),
                old(req.data_in).room(),
                final(req.data_in).taken(),
                res,
            ),
            final(req.data_in).taken().len() <= old(req.data_in).taken().len() + limit_of(
                req.cdb@,
            ),
            final(req.data_in).place() == old(req.data_in).place(),
            final(req.data_in).taken().len() + final(req.data_in).room() == old(
                req.data_in,
            ).taken().len() + old(req.data_in).room(),
            res matches Progress::Done(Ok(out)) ==> out@.sense.len() < SENSE_SIZE,
            res matches Progress::Done(Err(CmdError::CdbTooShort)) ==> parse_spec(req.cdb@)
                == Err::<Cdb, ParseError>(ParseError::TooShort),
    ;
}

/// What answers for a LUN that the target does not have.
#[derive(Debug, Clone, Copy)]
pub struct MissingLun;

/// What a LUN that is not there makes of a command. It lists the
/// logical units of the target, or none where only well-known or
/// administrative ones are asked for; it answers INQUIRY with the
/// qualifier "not there"; it hands out its sense data on REQUEST SENSE
/// in fixed format and refuses the descriptor format; to everything
/// else, and to what does not parse, it says that the logical unit is
/// not supported.
pub open spec fn missing_lun_outcome(cdb: Seq<u8>, luns: Seq<u16>) -> Outcome {
    match parse_spec(cdb) {
        Ok(parsed) => match parsed.command {
            Command::ReportLuns(select) => Outcome::Reply(
                report_luns_data(
                    match select {
                        ReportLunsSelectReport::NoWellKnown | ReportLunsSelectReport::All => luns,
                        _ => Seq::empty(),
                    },
                ),
                output_ok(),
            ),
            Command::Inquiry(None) => Outcome::Reply(
                seq![NO_DEVICE] + standard_inquiry_data(),
                output_ok(),
            ),
            Command::Inquiry(Some(_)) => Outcome::Reply(seq![NO_DEVICE, 0u8], output_ok()),
            Command::RequestSense(SenseFormat::Fixed) => Outcome::Reply(
                fixed_sense(
                    logical_unit_not_supported().0,
                    logical_unit_not_supported().1,
                    logical_unit_not_supported().2,
                ),
                output_ok(),
            ),
            Command::RequestSense(SenseFormat::Descriptor) => Outcome::Reply(
                Seq::empty(),
                output_check_condition(invalid_field_in_cdb()),
            ),
            _ => Outcome::Reply(Seq::empty(), output_check_condition(logical_unit_not_supported())),
        },
        Err(_) => Outcome::Reply(
            Seq::empty(),
            output_check_condition(logical_unit_not_supported()),
        ),
    }
}

impl LogicalUnit for MissingLun {
    open spec fn ready(&self, cdb: Seq<u8>, medium: MediumView) -> bool {
        true
    }

    open spec fn outcome(&self, cdb: Seq<u8>, luns: Seq<u16>, medium: MediumView) -> Outcome {
        missing_lun_outcome(cdb, luns)
    }

    fn is_ready(&self, cdb: &[u8], medium: &Medium) -> (ok: bool) {
        true
    }

    fn execute_command<W: DataIn>(
        &self,
        req: Request<'_, W>,
        luns: &Vec<u16>,
        medium: &Medium,
    ) -> (res: Progress) {
        let mut data: Vec<u8> = Vec::new();
        match Cdb::parse(req.cdb) {
            Ok(cdb) => {
                let output = match cdb.command {
                    Command::ReportLuns(select_report) => {
                        match select_report {
                            ReportLunsSelectReport::NoWellKnown | ReportLunsSelectReport::All => {
                                respond_report_luns(&mut data, luns);
                            },
                            ReportLunsSelectReport::WellKnownOnly
                            | ReportLunsSelectReport::Administrative
                            | ReportLunsSelectReport::TopLevel
                            | ReportLunsSelectReport::SameConglomerate => {
                                let none: Vec<u16> = Vec::new();
                                respond_report_luns(&mut data, &none);
                            },
                        }
                        assert(data@ =~= report_luns_data(
                            match select_report {
                                ReportLunsSelectReport::NoWellKnown
                                | ReportLunsSelectReport::All => luns@,
                                _ => Seq::empty(),
                            },
                        ));
                        CmdOutput::ok()
                    },
                    Command::Inquiry(page_code) => {
                        data.push(NO_DEVICE);
                        match page_code {
                            Some(_) => {
                                data.push(0);
                                assert(data@ =~= seq![NO_DEVICE, 0u8]);
                            },
                            None => {
                                respond_standard_inquiry_data(&mut data);
                                assert(data@ =~= seq![NO_DEVICE] + standard_inquiry_data());
                            },
                        }
                        CmdOutput::ok()
                    },
                    Command::RequestSense(format) => {
                        match format {
                            SenseFormat::Fixed => {
                                data = logical_unit_not_supported().to_fixed_sense();
                                CmdOutput::ok()
                            },
                            SenseFormat::Descriptor => CmdOutput::check_condition(
                                invalid_field_in_cdb(),
                            ),
                        }
                    },
                    _ => CmdOutput::check_condition(logical_unit_not_supported()),
                };
                Progress::Done(deliver(data.as_slice(), output, cdb.allocation_length, req.data_in))
            },
            Err(_) => {
                let output = CmdOutput::check_condition(logical_unit_not_supported());
                assert(within(Seq::<u8>::empty(), limit_of(req.cdb@)) =~= Seq::<u8>::empty());
                Progress::Done(deliver(data.as_slice(), output, None, req.data_in))
            },
        }
    }
}

/// A target: what executes the commands sent to any of its LUNs.
pub trait Target: Send + Sync {
    /// Whether the target can execute the command in `cdb` for `lun`.
    spec fn ready(&self, lun: u16, cdb: Seq<u8>, medium: MediumView) -> bool;

    /// What the target makes of the command in `cdb` for `lun`.
    spec fn outcome(&self, lun: u16, cdb: Seq<u8>, medium: MediumView) -> Outcome;

    /// Whether the target can execute the command in `cdb` for `lun`.
    fn can_execute(&self, lun: u16, cdb: &[u8], medium: &Medium) -> (ok: bool)
        ensures
            ok == self.ready(lun, cdb@, medium@),
    ;

    /// Executes the command of `req` for `lun` as far as `medium` allows.
    fn execute_command<W: DataIn>(&self, lun: u16, req: Request<'_, W>, medium: &Medium) -> (res:
        Progress)
        requires
            old(req.data_in).inv(),
            self.ready(lun, req.cdb@, medium@),
        ensures
            final(req.data_in).inv(),
            executed(
                self.outcome(lun, req.cdb@, medium@),
                limit_of(req.cdb@),
                old(req.data_in).taken(),
                old(req.data_in).room(),
                final(req.data_in).taken(),
                res,
            ),
            final(req.data_in).taken().len() <= old(req.data_in).taken().len() + limit_of(
                req.cdb@,
            ),
            final(req.data_in).place() == old(req.data_in).place(),
            final(req.data_in).taken().len() + final(req.data_in).room() == old(
                req.data_in,
            ).taken().len() + old(req.data_in).room(),
            res matches Progress::Done(Ok(out)) ==> out@.sense.len() < SENSE_SIZE,
            res matches Progress::Done(Err(CmdError::CdbTooShort)) ==> parse_spec(req.cdb@)
                == Err::<Cdb, ParseError>(ParseError::TooShort),
    ;
}

/// The numbers of `count` logical units: 0, 1, and so on.
pub open spec fn lun_numbers(count: nat) -> Seq<u16> {
    Seq::new(count, |i: int| i as u16)
}

/// The most logical units a target can hold.
pub const MAX_LUNS: usize = 256;

/// A target made of logical units. The unit at index `i` has LUN `i`;
/// a LUN past the last unit is answered by `MissingLun`. A target with
/// more than `MAX_LUNS` units executes nothing.
pub struct EmulatedTarget<L: LogicalUnit> {
    luns: Vec<L>,
}

impl<L: LogicalUnit> EmulatedTarget<L> {
    /// The logical units, in the order of their LUNs.
    pub closed spec fn units(&self) -> Seq<L> {
        self.luns@
    }

    /// A target without logical units.
    pub fn new() -> (target: Self)
        ensures
            target.units() == Seq::<L>::empty(),
    {
        Self { luns: Vec::new() }
    }

    /// Gives the target one more logical unit, under the next LUN.
    pub fn add_lun(&mut self, logical_unit: L)
        ensures
            final(self).units() == old(self).units().push(logical_unit),
    {
        self.luns.push(logical_unit);
    }

    /// The LUNs of the target, in ascending order.
    pub fn luns(&self) -> (numbers: Vec<u16>)
        requires
            self.units().len() <= 0x1_0000,
        ensures
            numbers@ == lun_numbers(self.units().len()),
            self.units().len() <= MAX_LUNS ==> reportable(numbers@),
    {
        let mut numbers: Vec<u16> = Vec::new();
        let mut idx: usize = 0;
        while idx < self.luns.len()
            invariant
                idx <= self.luns@.len(),
                self.luns@.len() <= 0x1_0000,
                numbers@ == lun_numbers(idx as nat),
            decreases self.luns@.len() - idx,
        {
            numbers.push(idx as u16);
            idx += 1;
            assert(numbers@ =~= lun_numbers(idx as nat));
        }
        numbers
    }
}

impl<L: LogicalUnit> Target for EmulatedTarget<L> {
    open spec fn ready(&self, lun: u16, cdb: Seq<u8>, medium: MediumView) -> bool {
        &&& self.units().len() <= MAX_LUNS
        &&& lun < self.units().len() ==> self.units()[lun as int].ready(cdb, medium)
    }

    open spec fn outcome(&self, lun: u16, cdb: Seq<u8>, medium: MediumView) -> Outcome {
        if lun < self.units().len() {
            self.units()[lun as int].outcome(cdb, lun_numbers(self.units().len()), medium)
        } else {
            missing_lun_outcome(cdb, lun_numbers(self.units().len()))
        }
    }

    fn can_execute(&self, lun: u16, cdb: &[u8], medium: &Medium) -> (ok: bool) {
        if self.luns.len() > MAX_LUNS {
            false
        } else if (lun as usize) < self.luns.len() {
            self.luns[lun as usize].is_ready(cdb, medium)
        } else {
            true
        }
    }

    fn execute_command<W: DataIn>(&self, lun: u16, req: Request<'_, W>, medium: &Medium) -> (res:
        Progress) {
        let numbers = self.luns();
        if (lun as usize) < self.luns.len() {
            self.luns[lun as usize].execute_command(req, &numbers, medium)
        } else {
            MissingLun.execute_command(req, &numbers, medium)
        }
    }
}

/// A command for a LUN that the target does not have is answered by
/// the stand-in for missing LUNs, never by one of the logical units:
/// whatever they are, the outcome is that of `missing_lun_outcome`.
pub proof fn lemma_missing_lun_is_answered_by_stand_in<L: LogicalUnit>(
    target: EmulatedTarget<L>,
    lun: u16,
    cdb: Seq<u8>,
    medium: MediumView,
)
    requires
        lun >= target.units().len(),
    ensures
        target.outcome(lun, cdb, medium) == missing_lun_outcome(
            cdb,
            lun_numbers(target.units().len()),
        ),
        target.ready(lun, cdb, medium) == (target.units().len() <= MAX_LUNS),
        !(target.outcome(lun, cdb, medium) is Ask),
        !(target.outcome(lun, cdb, medium) is TooShort),
{
}

/// The sense data of every outcome of a missing LUN is shorter than
/// `SENSE_SIZE`, and what does not parse is answered with CHECK
/// CONDITION and "logical unit not supported".
pub proof fn lemma_missing_lun_outcomes(cdb: Seq<u8>, luns: Seq<u16>)
    ensures
        missing_lun_outcome(cdb, luns) matches Outcome::Reply(_, output) && output.sense.len()
            < SENSE_SIZE,
        parse_spec(cdb) is Err ==> missing_lun_outcome(cdb, luns) == Outcome::Reply(
            Seq::empty(),
            output_check_condition(logical_unit_not_supported()),
        ),
{
}

} // verus!
