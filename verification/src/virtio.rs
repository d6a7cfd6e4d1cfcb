//! The virtio-scsi transport: LUN addresses, the response header, the
//! cursors over a descriptor chain, and the handling of one request.
use crate::chain::{addresses, chain_fits, fits, run, run_left, total_len, Cursor, Descriptor};
use crate::command::{lemma_long_buffer_is_not_too_short, Cdb};
use crate::scsi::{
    limit_of, within, CmdError, CmdOutput, Medium, MediumQuery, Outcome, Output, Progress, Target,
    TaskAttr, SENSE_SIZE,
};
use crate::sink::{after_write_all, write_all, DataIn, WriteError};
use vstd::prelude::*;
use vstd::slice::slice_subrange;

verus! {

/// Number of bytes that a request reserves for its CDB.
pub const CDB_SIZE: usize = 32;

/// Number of bytes in a request header before the CDB.
pub const REQUEST_HEADER_SIZE: usize = 19;

/// Number of bytes in a response header before the sense data.
pub const RESPONSE_HEADER_SIZE: usize = 12;

/// A LUN in the addressing of virtio-scsi.
#[derive(PartialEq, Eq, Clone, Copy, Debug, Structural)]
pub enum VirtioScsiLun {
    /// The well-known logical unit of REPORT LUNS.
    ReportLuns,
    /// A logical unit of a target: the target, then the LUN.
    TargetLun(u8, u16),
}

/// The address of the well-known logical unit of REPORT LUNS.
pub open spec fn report_luns_address() -> Seq<u8> {
    seq![0xc1u8, 0x01, 0, 0, 0, 0, 0, 0]
}

/// The LUN that eight bytes name. A first byte of 1 starts the address
/// of a logical unit: the target is in the second byte, the two bits on
/// top of the third are 01, and the fourteen bits below them are the LUN.
pub open spec fn lun_of(bytes: Seq<u8>) -> Option<VirtioScsiLun> {
    if bytes == report_luns_address() {
        Some(VirtioScsiLun::ReportLuns)
    } else if bytes[0] == 0x01 && bytes[2] & 0b1100_0000 == 0b0100_0000 {
        Some(
            VirtioScsiLun::TargetLun(
                bytes[1],
                ((bytes[2] & 0b0011_1111) * 0x100 + bytes[3]) as u16,
            ),
        )
    } else {
        None
    }
}

impl VirtioScsiLun {
    /// Parses the eight bytes of a LUN.
    pub fn parse(bytes: [u8; 8]) -> (lun: Option<Self>)
        ensures
            lun == lun_of(bytes@),
    {
        if bytes[0] == 0xc1 && bytes[1] == 0x01 && bytes[2] == 0 && bytes[3] == 0 && bytes[4] == 0
            && bytes[5] == 0 && bytes[6] == 0 && bytes[7] == 0 {
            assert(bytes@ =~= report_luns_address());
            Some(Self::ReportLuns)
        } else if bytes[0] == 0x1 && bytes[2] & 0b1100_0000 == 0b0100_0000 {
            let target = bytes[1];
            let third = bytes[2];
            let high = third & 0b0011_1111;
            assert(high <= 0x3f) by (bit_vector)
                requires
                    high == third & 0b0011_1111,
            ;
            let lun = (high as u16) * 0x100 + (bytes[3] as u16);
            Some(Self::TargetLun(target, lun))
        } else {
            None
        }
    }
}

/// A request with its CDB parsed.
#[derive(Debug, PartialEq, Eq, Clone, Copy, Structural)]
pub struct Request {
    pub lun: VirtioScsiLun,
    pub id: u64,
    pub task_attr: u8,
    pub prio: u8,
    pub crn: u8,
    pub cdb: Cdb,
}

/// How the transport fared with a request.
#[derive(Debug, PartialEq, Eq, Clone, Copy, Structural)]
pub enum VirtioScsiResponse {
    Success,
    Overrun,
    Aborted,
    BadTarget,
    Reset,
    TransportFailure,
    TargetFailure,
    NexusFailure,
    Busy,
    Failure,
}

/// The code of a response on the wire.
pub open spec fn response_code(response: VirtioScsiResponse) -> u8 {
    match response {
        VirtioScsiResponse::Success => 0,
        VirtioScsiResponse::Overrun => 1,
        VirtioScsiResponse::Aborted => 2,
        VirtioScsiResponse::BadTarget => 3,
        VirtioScsiResponse::Reset => 4,
        VirtioScsiResponse::TransportFailure => 5,
        VirtioScsiResponse::TargetFailure => 6,
        VirtioScsiResponse::NexusFailure => 7,
        VirtioScsiResponse::Busy => 8,
        VirtioScsiResponse::Failure => 9,
    }
}

impl VirtioScsiResponse {
    /// The code of the response on the wire.
    pub fn code(self) -> (code: u8)
        ensures
            code == response_code(self),
    {
        match self {
            VirtioScsiResponse::Success => 0,
            VirtioScsiResponse::Overrun => 1,
            VirtioScsiResponse::Aborted => 2,
            VirtioScsiResponse::BadTarget => 3,
            VirtioScsiResponse::Reset => 4,
            VirtioScsiResponse::TransportFailure => 5,
            VirtioScsiResponse::TargetFailure => 6,
            VirtioScsiResponse::NexusFailure => 7,
            VirtioScsiResponse::Busy => 8,
            VirtioScsiResponse::Failure => 9,
        }
    }
}

/// Why a descriptor chain could not be handled as a request.
#[derive(Debug, PartialEq, Eq, Clone, Copy, Structural)]
pub enum VirtioScsiError {
    /// The readable descriptors end before the request does.
    UnexpectedEof,
    /// The guest memory behind a readable descriptor could not be loaded.
    Memory,
}

/// The response to a request.
#[derive(Debug, PartialEq, Eq, Clone)]
pub struct Response {
    pub response: VirtioScsiResponse,
    pub status: u8,
    pub status_qualifier: u16,
    pub sense: Vec<u8>,
    pub residual: u32,
}

/// A `Response` as a value of specifications.
pub struct ResponseView {
    pub response: VirtioScsiResponse,
    pub status: u8,
    pub status_qualifier: u16,
    pub sense: Seq<u8>,
    pub residual: u32,
}

impl View for Response {
    type V = ResponseView;

    open spec fn view(&self) -> ResponseView {
        ResponseView {
            response: self.response,
            status: self.status,
            status_qualifier: self.status_qualifier,
            sense: self.sense@,
            residual: self.residual,
        }
    }
}

/// A 16-bit number, least significant byte first.
pub open spec fn le16_bytes(x: u16) -> Seq<u8> {
    seq![(x % 0x100) as u8, (x / 0x100) as u8]
}

/// A 32-bit number, least significant byte first.
pub open spec fn le32_bytes(x: u32) -> Seq<u8> {
    seq![
        (x % 0x100) as u8,
        (x / 0x100 % 0x100) as u8,
        (x / 0x1_0000 % 0x100) as u8,
        (x / 0x100_0000) as u8,
    ]
}

/// The header of a response on the wire: the length of the sense data,
/// the residual, the status qualifier, the status and the response code.
pub open spec fn response_header(response: ResponseView) -> Seq<u8> {
    le32_bytes(response.sense.len() as u32) + le32_bytes(response.residual) + le16_bytes(
        response.status_qualifier,
    ) + seq![response.status, response_code(response.response)]
}

/// A response on the wire: the header, then the sense data.
pub open spec fn response_bytes(response: ResponseView) -> Seq<u8> {
    response_header(response) + response.sense
}

impl Response {
    /// The response on the wire.
    pub fn to_bytes(&self) -> (bytes: Vec<u8>)
        requires
            self@.sense.len() < SENSE_SIZE,
        ensures
            bytes@ == response_bytes(self@),
            bytes@.len() == RESPONSE_HEADER_SIZE + self@.sense.len(),
    {
        let mut bytes: Vec<u8> = Vec::new();
        let sense_len = self.sense.len() as u32;
        bytes.push((sense_len % 0x100) as u8);
        bytes.push((sense_len / 0x100 % 0x100) as u8);
        bytes.push((sense_len / 0x1_0000 % 0x100) as u8);
        bytes.push((sense_len / 0x100_0000) as u8);
        bytes.push((self.residual % 0x100) as u8);
        bytes.push((self.residual / 0x100 % 0x100) as u8);
        bytes.push((self.residual / 0x1_0000 % 0x100) as u8);
        bytes.push((self.residual / 0x100_0000) as u8);
        bytes.push((self.status_qualifier % 0x100) as u8);
        bytes.push((self.status_qualifier / 0x100) as u8);
        bytes.push(self.status);
        bytes.push(self.response.code());
        assert(bytes@ =~= response_header(self@));
        bytes.extend_from_slice(self.sense.as_slice());
        assert(bytes@ =~= response_bytes(self@));
        bytes
    }

    /// Writes the response to `writer`. Fails with `WriteZero`, after
    /// filling `writer`, where it has too little room.
    pub fn write<W: DataIn>(&self, writer: &mut W) -> (res: Result<(), WriteError>)
        requires
            old(writer).inv(),
            self@.sense.len() < SENSE_SIZE,
        ensures
            final(writer).inv(),
            res is Ok <==> RESPONSE_HEADER_SIZE + self@.sense.len() <= old(writer).room(),
            res is Err ==> res == Err::<(), WriteError>(WriteError::WriteZero),
            final(writer).taken() == after_write_all(
                old(writer).taken(),
                old(writer).room(),
                response_bytes(self@),
            ),
            final(writer).place() == old(writer).place(),
    {
        let bytes = self.to_bytes();
        write_all(writer, bytes.as_slice())
    }
}

/// Bytes to store in guest memory from an address on.
#[derive(Debug, PartialEq, Eq, Clone)]
pub struct WriteOp {
    pub addr: u64,
    pub data: Vec<u8>,
}

/// A run of guest memory to load.
#[derive(Debug, PartialEq, Eq, Clone, Copy, Structural)]
pub struct ReadOp {
    pub addr: u64,
    pub len: u32,
}

/// The bytes of a list of stores, in order.
pub open spec fn bytes_of(ops: Seq<WriteOp>) -> Seq<u8>
    decreases ops.len(),
{
    if ops.len() == 0 {
        Seq::empty()
    } else {
        bytes_of(ops.drop_last()) + ops.last().data@
    }
}

/// The guest address of each byte of a list of stores, in order.
pub open spec fn targets_of(ops: Seq<WriteOp>) -> Seq<nat>
    decreases ops.len(),
{
    if ops.len() == 0 {
        Seq::empty()
    } else {
        targets_of(ops.drop_last()) + run(ops.last().addr as nat, ops.last().data@.len())
    }
}

/// The guest address of each byte of a list of loads, in order.
pub open spec fn sources_of(ops: Seq<ReadOp>) -> Seq<nat>
    decreases ops.len(),
{
    if ops.len() == 0 {
        Seq::empty()
    } else {
        sources_of(ops.drop_last()) + run(ops.last().addr as nat, ops.last().len as nat)
    }
}

/// The addresses of two runs of a chain that touch are those of the
/// whole run.
pub proof fn lemma_addresses_join(chain: Seq<Descriptor>, pos: nat, a: nat, b: nat)
    ensures
        addresses(chain, pos, a) + addresses(chain, pos + a, b) == addresses(chain, pos, a + b),
{
    assert(addresses(chain, pos, a) + addresses(chain, pos + a, b) =~= addresses(
        chain,
        pos,
        a + b,
    ));
}

/// The number of bytes in a list of runs, each given by its position
/// and its length.
pub open spec fn run_total(runs: Seq<(u32, u32)>) -> nat
    decreases runs.len(),
{
    if runs.len() == 0 {
        0
    } else {
        run_total(runs.drop_last()) + runs.last().1 as nat
    }
}

/// The guest addresses of the bytes of a list of runs of a chain, each
/// given by its position and its length, in order.
pub open spec fn run_addresses(chain: Seq<Descriptor>, runs: Seq<(u32, u32)>) -> Seq<nat>
    decreases runs.len(),
{
    if runs.len() == 0 {
        Seq::empty()
    } else {
        run_addresses(chain, runs.drop_last()) + addresses(
            chain,
            runs.last().0 as nat,
            runs.last().1 as nat,
        )
    }
}

/// What stays as it is while a writer takes bytes.
pub struct WriterPlace {
    /// The chain of writable descriptors.
    pub chain: Seq<Descriptor>,
    /// The runs of bytes taken before the last skip: the position and the
    /// length of each.
    pub runs: Seq<(u32, u32)>,
    /// The position in the chain at which the first byte after the last
    /// skip went or will go.
    pub origin: nat,
    /// How many bytes were skipped, or written before the writer was made.
    pub base: nat,
    /// The high-water mark taken over from other writers.
    pub seen: nat,
}

/// Where the bytes that a writer has taken lie in its chain: first the
/// runs before the last skip, then one run from the origin on.
pub open spec fn placed(place: WriterPlace, taken: nat) -> Seq<nat> {
    run_addresses(place.chain, place.runs) + addresses(
        place.chain,
        place.origin,
        (taken - run_total(place.runs)) as nat,
    )
}

/// A write cursor over the writable descriptors of a chain. It keeps the
/// bytes written through it as a list of stores for whoever owns the
/// guest memory.
#[derive(Debug)]
pub struct DescriptorChainWriter {
    cursor: Cursor,
    runs: Vec<(u32, u32)>,
    origin: u32,
    run_len: u32,
    written: u32,
    seen: u32,
    ops: Vec<WriteOp>,
}

impl DescriptorChainWriter {
    /// The chain of writable descriptors.
    pub closed spec fn chain(&self) -> Seq<Descriptor> {
        self.cursor.chain()
    }

    /// Number of bytes of the chain before the cursor.
    pub closed spec fn position(&self) -> nat {
        self.cursor.position()
    }

    /// Number of bytes written or skipped through this cursor.
    pub closed spec fn written(&self) -> nat {
        self.written as nat
    }

    /// The high-water mark: the most bytes written or skipped through
    /// this cursor or through one that it has absorbed.
    pub closed spec fn high_water(&self) -> nat {
        if self.written >= self.seen {
            self.written as nat
        } else {
            self.seen as nat
        }
    }

    /// The stores that the writes so far come to.
    pub closed spec fn stores(&self) -> Seq<WriteOp> {
        self.ops@
    }

    /// What holds of every writer. The bytes it has taken since the
    /// last skip lie in the chain one after the other from its origin
    /// on, up to the cursor unless the cursor has moved to the end, and
    /// each store goes to the addresses that the chain gives its bytes.
    pub closed spec fn well_formed(&self) -> bool {
        &&& self.cursor.inv()
        &&& self.written + self.cursor.room() <= u32::MAX
        &&& bytes_of(self.ops@).len() == run_total(self.runs@) + self.run_len
        &&& self.origin + self.run_len <= self.cursor.position()
        &&& self.cursor.room() > 0 ==> self.origin + self.run_len == self.cursor.position()
        &&& bytes_of(self.ops@).len() <= self.written
        &&& targets_of(self.ops@) == run_addresses(self.cursor.chain(), self.runs@) + addresses(
            self.cursor.chain(),
            self.origin as nat,
            self.run_len as nat,
        )
    }

    /// How the counters of a writer hang together: the bytes it has
    /// taken since the last skip lie between its origin and the cursor,
    /// all bytes taken are counted as written on top of the base, and
    /// the high-water mark is the count or the mark it has taken over,
    /// whichever is higher.
    pub proof fn lemma_counters(&self)
        requires
            self.inv(),
        ensures
            self.chain() == self.place().chain,
            self.position() + self.room() == total_len(self.chain()),
            run_total(self.place().runs) <= self.taken().len(),
            self.place().origin + (self.taken().len() - run_total(self.place().runs))
                + self.room() <= total_len(self.place().chain),
            self.room() > 0 ==> self.place().origin + (self.taken().len() - run_total(
                self.place().runs,
            )) + self.room() == total_len(self.place().chain),
            self.written() == self.place().base + self.taken().len(),
            self.high_water() == if self.written() >= self.place().seen {
                self.written()
            } else {
                self.place().seen
            },
            total_len(self.place().chain) <= u32::MAX,
    {
        self.cursor.lemma_position_bounded();
    }

    /// A writer at the start of the writable descriptors `chain`.
    pub fn new(chain: Vec<Descriptor>) -> (writer: Self)
        requires
            chain_fits(chain@),
        ensures
            writer.inv(),
            writer.taken() == Seq::<u8>::empty(),
            writer.stores() == Seq::<WriteOp>::empty(),
            writer.room() == total_len(chain@),
            writer.written() == 0,
            writer.high_water() == 0,
            writer.place() == (WriterPlace {
                chain: chain@,
                runs: Seq::empty(),
                origin: 0,
                base: 0,
                seen: 0,
            }),
    {
        let cursor = Cursor::new(chain);
        let writer = DescriptorChainWriter {
            cursor,
            runs: Vec::new(),
            origin: 0,
            run_len: 0,
            written: 0,
            seen: 0,
            ops: Vec::new(),
        };
        assert(targets_of(writer.ops@) =~= run_addresses(writer.cursor.chain(), writer.runs@)
            + addresses(writer.cursor.chain(), 0, 0));
        writer
    }

    /// A second writer at the same place of the same chain, with the
    /// same counters and no stores of its own.
    pub fn duplicate(&self) -> (writer: Self)
        requires
            self.inv(),
        ensures
            writer.inv(),
            writer.taken() == Seq::<u8>::empty(),
            writer.stores() == Seq::<WriteOp>::empty(),
            writer.room() == self.room(),
            writer.written() == self.written(),
            writer.high_water() == self.high_water(),
            writer.place() == (WriterPlace {
                chain: self.place().chain,
                runs: Seq::empty(),
                origin: (total_len(self.place().chain) - self.room()) as nat,
                base: self.written(),
                seen: self.place().seen,
            }),
    {
        proof {
            self.cursor.lemma_position_bounded();
        }
        let cursor = self.cursor.duplicate();
        let origin = self.cursor.position_now();
        let writer = DescriptorChainWriter {
            cursor,
            runs: Vec::new(),
            origin,
            run_len: 0,
            written: self.written,
            seen: self.seen,
            ops: Vec::new(),
        };
        assert(targets_of(writer.ops@) =~= run_addresses(writer.cursor.chain(), writer.runs@)
            + addresses(writer.cursor.chain(), origin as nat, 0));
        writer
    }

    fn add_written(&mut self, written: u32)
        requires
            old(self).written + written <= u32::MAX,
        ensures
            final(self).written == old(self).written + written,
            final(self).seen == old(self).seen,
            final(self).cursor == old(self).cursor,
            final(self).runs == old(self).runs,
            final(self).origin == old(self).origin,
            final(self).run_len == old(self).run_len,
            final(self).ops == old(self).ops,
    {
        self.written += written;
    }

    /// The high-water mark.
    pub fn max_written(&self) -> (mark: u32)
        ensures
            mark == self.high_water(),
    {
        if self.written >= self.seen {
            self.written
        } else {
            self.seen
        }
    }

    /// Takes over the high-water mark of `other` where it is higher.
    pub fn absorb(&mut self, other: &DescriptorChainWriter)
        requires
            old(self).inv(),
        ensures
            final(self).inv(),
            final(self).taken() == old(self).taken(),
            final(self).stores() == old(self).stores(),
            final(self).room() == old(self).room(),
            final(self).written() == old(self).written(),
            final(self).high_water() == if old(self).high_water() >= other.high_water() {
                old(self).high_water()
            } else {
                other.high_water()
            },
            final(self).place().chain == old(self).place().chain,
            final(self).place().runs == old(self).place().runs,
            final(self).place().origin == old(self).place().origin,
            final(self).place().base == old(self).place().base,
    {
        let mark = other.max_written();
        if mark > self.seen {
            self.seen = mark;
        }
    }

    /// Moves the cursor `bytes` bytes on without writing, or to the end
    /// of the chain where fewer are left, and counts all of `bytes` as
    /// written. What is written next starts a new run of bytes.
    pub fn skip(&mut self, bytes: u32)
        requires
            old(self).inv(),
            old(self).written() + bytes <= u32::MAX,
        ensures
            final(self).inv(),
            final(self).taken() == old(self).taken(),
            final(self).stores() == old(self).stores(),
            final(self).room() == if bytes <= old(self).room() {
                (old(self).room() - bytes) as nat
            } else {
                0
            },
            final(self).written() == old(self).written() + bytes,
            final(self).high_water() == if old(self).high_water() >= old(self).written() + bytes {
                old(self).high_water()
            } else {
                old(self).written() + bytes as nat
            },
            final(self).place() == (WriterPlace {
                chain: old(self).place().chain,
                runs: if old(self).taken().len() > run_total(old(self).place().runs) {
                    old(self).place().runs.push(
                        (
                            old(self).place().origin as u32,
                            (old(self).taken().len() - run_total(old(self).place().runs)) as u32,
                        ),
                    )
                } else {
                    old(self).place().runs
                },
                origin: (total_len(old(self).place().chain) - final(self).room()) as nat,
                base: old(self).place().base + bytes as nat,
                seen: old(self).place().seen,
            }),
    {
        proof {
            self.cursor.lemma_position_bounded();
        }
        let ghost before = *self;
        if self.run_len > 0 {
            self.runs.push((self.origin, self.run_len));
            self.run_len = 0;
            proof {
                assert(self.runs@.drop_last() =~= before.runs@);
                assert(run_addresses(self.cursor.chain(), self.runs@) + addresses(
                    self.cursor.chain(),
                    self.origin as nat,
                    0,
                ) =~= run_addresses(self.cursor.chain(), self.runs@));
            }
        }
        let ghost sealed = run_addresses(self.cursor.chain(), self.runs@) + addresses(
            self.cursor.chain(),
            self.origin as nat,
            0,
        );
        assert(targets_of(self.ops@) =~= sealed);
        self.add_written(bytes);
        self.cursor.skip(bytes);
        self.origin = self.cursor.position_now();
        proof {
            self.cursor.lemma_position_bounded();
            assert(run_addresses(self.cursor.chain(), self.runs@) + addresses(
                self.cursor.chain(),
                self.origin as nat,
                0,
            ) =~= sealed);
        }
    }

    /// Moves the cursor to the end of the chain and says how many bytes
    /// were left unused.
    pub fn residual(&mut self) -> (unused: u32)
        requires
            old(self).inv(),
        ensures
            final(self).inv(),
            unused == old(self).room(),
            final(self).room() == 0,
            final(self).taken() == old(self).taken(),
            final(self).stores() == old(self).stores(),
            final(self).written() == old(self).written(),
            final(self).high_water() == old(self).high_water(),
            final(self).place() == old(self).place(),
    {
        proof {
            self.cursor.lemma_position_bounded();
        }
        self.cursor.drain()
    }

    /// Hands out the stores.
    pub fn into_stores(self) -> (ops: Vec<WriteOp>)
        requires
            self.inv(),
        ensures
            ops@ == self.stores(),
            bytes_of(ops@) == self.taken(),
            targets_of(ops@) == placed(self.place(), self.taken().len()),
    {
        self.ops
    }
}

impl DataIn for DescriptorChainWriter {
    open spec fn inv(&self) -> bool {
        self.well_formed()
    }

    closed spec fn taken(&self) -> Seq<u8> {
        bytes_of(self.ops@)
    }

    closed spec fn room(&self) -> nat {
        self.cursor.room()
    }

    type Place = WriterPlace;

    closed spec fn place(&self) -> WriterPlace {
        WriterPlace {
            chain: self.cursor.chain(),
            runs: self.runs@,
            origin: self.origin as nat,
            base: (self.written - bytes_of(self.ops@).len()) as nat,
            seen: self.seen as nat,
        }
    }

    /// Takes the bytes of `buf` that fit into the descriptor that the
    /// cursor is in.
    fn write(&mut self, buf: &[u8]) -> (n: usize)
        ensures
            n == if buf@.len() <= run_left(old(self).chain(), old(self).position()) {
                buf@.len()
            } else {
                run_left(old(self).chain(), old(self).position())
            },
            final(self).position() == old(self).position() + n,
    {
        proof {
            self.cursor.lemma_position_bounded();
        }
        let ghost before = *self;
        let (addr, len) = self.cursor.step(buf.len());
        let n = len as usize;
        if n > 0 {
            let mut data: Vec<u8> = Vec::new();
            data.extend_from_slice(slice_subrange(buf, 0, n));
            assert(data@ =~= buf@.subrange(0, n as int));
            self.ops.push(WriteOp { addr, data });
            self.run_len += len;
            proof {
                assert(self.ops@.drop_last() =~= before.ops@);
                lemma_addresses_join(
                    before.cursor.chain(),
                    before.origin as nat,
                    before.run_len as nat,
                    n as nat,
                );
                let sealed = run_addresses(before.cursor.chain(), before.runs@);
                let run = addresses(
                    before.cursor.chain(),
                    before.origin as nat,
                    before.run_len as nat,
                );
                let more = addresses(
                    before.cursor.chain(),
                    (before.origin + before.run_len) as nat,
                    n as nat,
                );
                assert((sealed + run) + more =~= sealed + (run + more));
            }
        } else {
            assert(buf@.subrange(0, 0) =~= Seq::<u8>::empty());
            assert(bytes_of(self.ops@) + Seq::<u8>::empty() =~= bytes_of(self.ops@));
        }
        self.add_written(len);
        n
    }
}

/// A read cursor over the readable descriptors of a chain. It says
/// which runs of guest memory to load; whoever owns the memory loads them.
#[derive(Debug)]
pub struct DescriptorChainReader {
    cursor: Cursor,
}

impl DescriptorChainReader {
    /// The chain of readable descriptors.
    pub closed spec fn chain(&self) -> Seq<Descriptor> {
        self.cursor.chain()
    }

    /// Number of bytes of the chain before the cursor.
    pub closed spec fn position(&self) -> nat {
        self.cursor.position()
    }

    /// Number of bytes of the chain after the cursor.
    pub open spec fn room(&self) -> nat {
        (total_len(self.chain()) - self.position()) as nat
    }

    /// What holds of every reader.
    pub closed spec fn inv(&self) -> bool {
        self.cursor.inv()
    }

    /// A reader at the start of the readable descriptors `chain`.
    pub fn new(chain: Vec<Descriptor>) -> (reader: Self)
        requires
            chain_fits(chain@),
        ensures
            reader.inv(),
            reader.chain() == chain@,
            reader.position() == 0,
    {
        DescriptorChainReader { cursor: Cursor::new(chain) }
    }

    /// The next load: what is left of the descriptor that the cursor is
    /// in, or `len` bytes of it where more are left. It is empty only
    /// where `len` is zero or the chain is used up.
    pub fn read(&mut self, len: usize) -> (op: ReadOp)
        requires
            old(self).inv(),
        ensures
            final(self).inv(),
            final(self).chain() == old(self).chain(),
            op.len == if len <= run_left(old(self).chain(), old(self).position()) {
                len as nat
            } else {
                run_left(old(self).chain(), old(self).position())
            },
            op.len <= len,
            op.len <= old(self).room(),
            op.len == 0 <==> len == 0 || old(self).room() == 0,
            final(self).position() == old(self).position() + op.len,
            op.addr + op.len <= u64::MAX,
            addresses(old(self).chain(), old(self).position(), op.len as nat) == run(
                op.addr as nat,
                op.len as nat,
            ),
    {
        let (addr, len) = self.cursor.step(len);
        ReadOp { addr, len }
    }

    /// The loads for the next `len` bytes, in order; an error, with the
    /// chain used up, where it holds fewer.
    pub fn read_exact(&mut self, len: usize) -> (res: Result<Vec<ReadOp>, VirtioScsiError>)
        requires
            old(self).inv(),
        ensures
            final(self).inv(),
            final(self).chain() == old(self).chain(),
            res is Ok <==> len <= old(self).room(),
            res matches Ok(ops) ==> {
                &&& final(self).position() == old(self).position() + len
                &&& sources_of(ops@) == addresses(
                    old(self).chain(),
                    old(self).position(),
                    len as nat,
                )
            },
            res is Err ==> final(self).room() == 0,
    {
        proof {
            self.cursor.lemma_position_bounded();
        }
        let mut ops: Vec<ReadOp> = Vec::new();
        let mut done: usize = 0;
        assert(addresses(self.chain(), self.position(), 0) =~= Seq::<nat>::empty());
        while done < len
            invariant
                self.inv(),
                self.chain() == old(self).chain(),
                done <= len,
                done <= old(self).room(),
                self.position() == old(self).position() + done,
                sources_of(ops@) == addresses(old(self).chain(), old(self).position(), done as nat),
            decreases len - done,
        {
            let ghost before = ops@;
            proof {
                self.cursor.lemma_position_bounded();
            }
            let op = self.read(len - done);
            proof {
                self.cursor.lemma_position_bounded();
            }
            if op.len == 0 {
                return Err(VirtioScsiError::UnexpectedEof);
            }
            ops.push(op);
            proof {
                assert(ops@.drop_last() =~= before);
                lemma_addresses_join(
                    old(self).chain(),
                    old(self).position(),
                    done as nat,
                    op.len as nat,
                );
            }
            done += op.len as usize;
        }
        Ok(ops)
    }
}

/// Where the data-in bytes of a response start: after the response
/// header and the room reserved for sense data.
pub const DATA_IN_OFFSET: u32 = 108;

/// The task attribute that a code names.
pub open spec fn task_attr_of(code: u8) -> Option<TaskAttr> {
    if code == 0 {
        Some(TaskAttr::Simple)
    } else if code == 1 {
        Some(TaskAttr::Ordered)
    } else if code == 2 {
        Some(TaskAttr::HeadOfQueue)
    } else if code == 3 {
        Some(TaskAttr::Aca)
    } else {
        None
    }
}

/// The task attribute that `code` names, if it names one.
pub fn task_attr(code: u8) -> (attr: Option<TaskAttr>)
    ensures
        attr == task_attr_of(code),
{
    match code {
        0 => Some(TaskAttr::Simple),
        1 => Some(TaskAttr::Ordered),
        2 => Some(TaskAttr::HeadOfQueue),
        3 => Some(TaskAttr::Aca),
        _ => None,
    }
}

/// The target and the LUN that a request addresses, among `count`
/// targets. The well-known logical unit of REPORT LUNS and a target that
/// is not there address nothing.
pub open spec fn target_of(count: nat, lun: Option<VirtioScsiLun>) -> Option<(u8, u16)> {
    match lun {
        Some(VirtioScsiLun::TargetLun(target, lun)) => if target < count {
            Some((target, lun))
        } else {
            None
        },
        _ => None,
    }
}

/// The index of the target and the LUN that `lun` addresses.
pub fn parse_target<T: Target>(targets: &Vec<T>, lun: VirtioScsiLun) -> (res: Option<(usize, u16)>)
    ensures
        match target_of(targets@.len(), Some(lun)) {
            Some((target, lun)) => res == Some((target as usize, lun)),
            None => res is None,
        },
{
    match lun {
        VirtioScsiLun::TargetLun(target, lun) => if (target as usize) < targets.len() {
            Some((target as usize, lun))
        } else {
            None
        },
        VirtioScsiLun::ReportLuns => None,
    }
}

/// The response that tells of no failure of the transport.
pub open spec fn response_success(out: Output, residual: u32) -> ResponseView {
    ResponseView {
        response: VirtioScsiResponse::Success,
        status: out.status,
        status_qualifier: out.status_qualifier,
        sense: out.sense,
        residual,
    }
}

/// The response to a command whose data did not fit.
pub open spec fn response_overrun() -> ResponseView {
    ResponseView {
        response: VirtioScsiResponse::Overrun,
        status: 0,
        status_qualifier: 0,
        sense: Seq::empty(),
        residual: 0,
    }
}

/// The response to a request that addresses no target.
pub open spec fn response_bad_target(residual: u32) -> ResponseView {
    ResponseView {
        response: VirtioScsiResponse::BadTarget,
        status: 0,
        status_qualifier: 0,
        sense: Seq::empty(),
        residual,
    }
}

/// The response to a command that has ended: it tells the status and
/// the sense data of a command that has delivered its data, and an
/// overrun where the data did not fit.
pub open spec fn response_to(result: Result<CmdOutput, CmdError>, residual: u32) -> ResponseView {
    match result {
        Ok(out) => response_success(out@, residual),
        Err(_) => response_overrun(),
    }
}

/// The response to a command that has ended with `result`, with
/// `residual` bytes of the data-in buffer left unused.
pub fn respond(result: Result<CmdOutput, CmdError>, residual: u32) -> (response: Response)
    requires
        !(result matches Err(CmdError::CdbTooShort)),
        result matches Ok(out) ==> out@.sense.len() < SENSE_SIZE,
    ensures
        response@ == response_to(result, residual),
        response@.sense.len() < SENSE_SIZE,
{
    match result {
        Ok(output) => Response {
            response: VirtioScsiResponse::Success,
            status: output.status,
            status_qualifier: output.status_qualifier,
            sense: output.sense,
            residual,
        },
        Err(_) => Response {
            response: VirtioScsiResponse::Overrun,
            status: 0,
            status_qualifier: 0,
            sense: Vec::new(),
            residual: 0,
        },
    }
}

/// What handling a request has come to.
#[derive(Debug)]
pub enum Handled {
    /// Nothing is to be stored yet: the backing store has to answer
    /// first, and the request is to be handled again.
    Ask(MediumQuery),
    /// The request has ended. The stores of `data` carry its data-in
    /// bytes into guest memory, and those of `response` its response,
    /// which is stored last; `used` is the number of bytes of the
    /// writable descriptors that then count as used.
    Respond { data: Vec<WriteOp>, response: Vec<WriteOp>, used: u32 },
}

/// What a request has ended in: the data-in bytes and the response.
pub struct Reply {
    pub data: Seq<u8>,
    pub response: ResponseView,
}

/// What a command that was answered ends in, with a data-in buffer of
/// `room` bytes. The data within the allocation length is delivered as
/// far as the buffer has room. Where all of it fits, the response tells
/// the status and the sense data of the command and the part of the
/// buffer left unused; where it does not, the response is an overrun.
pub open spec fn reply_to(data: Seq<u8>, output: Output, limit: nat, room: nat) -> Reply {
    let sent = within(data, limit);
    if sent.len() <= room {
        Reply { data: sent, response: response_success(output, (room - sent.len()) as u32) }
    } else {
        Reply { data: sent.subrange(0, room as int), response: response_overrun() }
    }
}

/// Whether stores carry a reply into a chain of writable descriptors:
/// the data to the bytes of the chain from `DATA_IN_OFFSET` on, the
/// response to the bytes from the start on; and all bytes up to the end
/// of the data count as used.
pub open spec fn carries(
    data: Seq<WriteOp>,
    response: Seq<WriteOp>,
    used: u32,
    chain: Seq<Descriptor>,
    reply: Reply,
) -> bool {
    &&& bytes_of(data) == reply.data
    &&& targets_of(data) == addresses(chain, DATA_IN_OFFSET as nat, reply.data.len())
    &&& bytes_of(response) == response_bytes(reply.response)
    &&& targets_of(response) == addresses(chain, 0, response_bytes(reply.response).len())
    &&& used == DATA_IN_OFFSET + reply.data.len()
}

/// Number of bytes that a chain of writable descriptors has for data:
/// what follows the first `DATA_IN_OFFSET` bytes.
pub open spec fn data_room(writable: Seq<Descriptor>) -> nat {
    if total_len(writable) >= DATA_IN_OFFSET {
        (total_len(writable) - DATA_IN_OFFSET) as nat
    } else {
        0
    }
}

/// The CDB of a request.
pub open spec fn cdb_of(request: Seq<u8>) -> Seq<u8> {
    request.subrange(REQUEST_HEADER_SIZE as int, request.len() as int)
}

/// What a request ends in; nothing while the backing store has to
/// answer first.
///
/// A request that addresses no target is answered with `BadTarget` and
/// no data. Otherwise the target says what its logical unit makes of
/// the command, and its answer becomes the reply of the request.
pub open spec fn reply_of<T: Target>(
    targets: Seq<T>,
    request: Seq<u8>,
    writable: Seq<Descriptor>,
    medium: Medium,
) -> Option<Reply> {
    match target_of(targets.len(), lun_of(request.subrange(0, 8))) {
        None => Some(
            Reply {
                data: Seq::empty(),
                response: response_bad_target(data_room(writable) as u32),
            },
        ),
        Some((target, lun)) => match targets[target as int].outcome(
            lun,
            cdb_of(request),
            medium@,
        ) {
            Outcome::Reply(data, output) => Some(
                reply_to(data, output, limit_of(cdb_of(request)), data_room(writable)),
            ),
            _ => None,
        },
    }
}

/// Whether a request can be taken up: it has a header and room for a
/// CDB, its task attribute is one of the four, its writable descriptors
/// can be walked, and the target that it addresses can execute its
/// command.
pub open spec fn acceptable<T: Target>(
    targets: Seq<T>,
    request: Seq<u8>,
    writable: Seq<Descriptor>,
    medium: Medium,
) -> bool {
    &&& request.len() == REQUEST_HEADER_SIZE + CDB_SIZE
    &&& task_attr_of(request[16]) is Some
    &&& chain_fits(writable)
    &&& match target_of(targets.len(), lun_of(request.subrange(0, 8))) {
        Some((target, lun)) => targets[target as int].ready(lun, cdb_of(request), medium@),
        None => true,
    }
}

/// Whether a request can be handled: it can be taken up, and its
/// writable descriptors have room for the response that it ends in.
pub open spec fn can_handle<T: Target>(
    targets: Seq<T>,
    request: Seq<u8>,
    writable: Seq<Descriptor>,
    medium: Medium,
) -> bool {
    &&& acceptable(targets, request, writable, medium)
    &&& match reply_of(targets, request, writable, medium) {
        Some(reply) => RESPONSE_HEADER_SIZE + reply.response.sense.len() <= total_len(writable),
        None => true,
    }
}

/// What handling a request gives: the query of the logical unit where
/// it has one, else the stores that carry the reply of the request. The
/// CDB of a request is never too short.
pub open spec fn handles<T: Target>(
    targets: Seq<T>,
    request: Seq<u8>,
    writable: Seq<Descriptor>,
    medium: Medium,
    handled: Handled,
) -> bool {
    match reply_of(targets, request, writable, medium) {
        Some(reply) => {
            &&& handled matches Handled::Respond { data, response, used } && carries(
                data@,
                response@,
                used,
                writable,
                reply,
            )
            &&& reply.response.sense.len() < SENSE_SIZE
        },
        None => {
            &&& target_of(targets.len(), lun_of(request.subrange(0, 8))) matches Some(
                (target, lun),
            )
            &&& targets[target as int].outcome(lun, cdb_of(request), medium@) matches Outcome::Ask(
                query,
            )
            &&& handled matches Handled::Ask(asked)
            &&& asked == query
        },
    }
}

/// The 64-bit number in eight bytes of `buf`, least significant byte first.
pub open spec fn le64_at(buf: Seq<u8>, at: int) -> int {
    buf[at] + buf[at + 1] * 0x100 + buf[at + 2] * 0x1_0000 + buf[at + 3] * 0x100_0000 + buf[at
        + 4] * 0x1_0000_0000 + buf[at + 5] * 0x100_0000_0000 + buf[at + 6] * 0x1_0000_0000_0000
        + buf[at + 7] * 0x100_0000_0000_0000
}

/// Reads the 64-bit number in eight bytes of `buf`, least significant
/// byte first.
pub fn le64(buf: &[u8], at: usize) -> (val: u64)
    requires
        at + 8 <= buf@.len(),
    ensures
        val == le64_at(buf@, at as int),
{
    (buf[at] as u64) + (buf[at + 1] as u64) * 0x100 + (buf[at + 2] as u64) * 0x1_0000 + (buf[at
        + 3] as u64) * 0x100_0000 + (buf[at + 4] as u64) * 0x1_0000_0000 + (buf[at + 5] as u64)
        * 0x100_0000_0000 + (buf[at + 6] as u64) * 0x1_0000_0000_0000 + (buf[at + 7] as u64)
        * 0x100_0000_0000_0000
}

/// Handles one request of the request queue as far as it can be
/// handled: returns nothing where the writable descriptors have no room
/// for the response.
fn handle<T: Target>(
    targets: &Vec<T>,
    request: &[u8],
    writable: Vec<Descriptor>,
    medium: &Medium,
) -> (res: Option<Handled>)
    requires
        acceptable(targets@, request@, writable@, *medium),
    ensures
        res is Some == can_handle(targets@, request@, writable@, *medium),
        res matches Some(handled) ==> handles(targets@, request@, writable@, *medium, handled),
{
    let lun_bytes = [
        request[0],
        request[1],
        request[2],
        request[3],
        request[4],
        request[5],
        request[6],
        request[7],
    ];
    assert(lun_bytes@ =~= request@.subrange(0, 8));
    let lun = VirtioScsiLun::parse(lun_bytes);
    let id = le64(request, 8);
    let task_attr = match task_attr(request[16]) {
        Some(attr) => attr,
        None => TaskAttr::Simple,
    };
    let prio = request[17];
    let crn = request[18];
    let cdb = slice_subrange(request, REQUEST_HEADER_SIZE, REQUEST_HEADER_SIZE + CDB_SIZE);
    assert(cdb@ =~= cdb_of(request@));

    let mut writer = DescriptorChainWriter::new(writable);
    let mut body_writer = writer.duplicate();
    body_writer.skip(DATA_IN_OFFSET);
    proof {
        body_writer.lemma_counters();
    }
    let ghost start = body_writer.place();

    let addressed = match lun {
        Some(lun) => parse_target(targets, lun),
        None => None,
    };
    let response = if let Some((target, lun)) = addressed {
        let progress = targets[target].execute_command(
            lun,
            crate::scsi::Request {
                id,
                cdb,
                task_attr,
                data_in: &mut body_writer,
                crn,
                prio,
            },
            medium,
        );
        proof {
            lemma_long_buffer_is_not_too_short(cdb@);
            body_writer.lemma_counters();
        }
        match progress {
            Progress::Ask(query) => {
                return Some(Handled::Ask(query));
            },
            Progress::Done(output) => {
                let residual = body_writer.residual();
                respond(output, residual)
            },
        }
    } else {
        Response {
            response: VirtioScsiResponse::BadTarget,
            status: 0,
            status_qualifier: 0,
            sense: Vec::new(),
            residual: body_writer.residual(),
        }
    };
    let written = response.write(&mut writer);
    if written.is_err() {
        return None;
    }
    proof {
        writer.lemma_counters();
    }
    writer.absorb(&body_writer);
    let used = writer.max_written();
    proof {
        let len = body_writer.taken().len();
        assert(placed(start, len) =~= addresses(writable@, DATA_IN_OFFSET as nat, len));
        assert(placed(writer.place(), writer.taken().len()) =~= addresses(
            writable@,
            0,
            writer.taken().len(),
        ));
    }
    Some(Handled::Respond { data: body_writer.into_stores(), response: writer.into_stores(), used })
}

/// Handles one request of the request queue.
///
/// `request` holds the header of the request and its CDB; `writable`
/// are the writable descriptors of its chain. The logical unit writes
/// its data behind the room reserved for the response, and the response
/// is written into that room once the command has ended. A request that
/// addresses no target is answered with `BadTarget`.
pub fn handle_request<T: Target>(
    targets: &Vec<T>,
    request: &[u8],
    writable: Vec<Descriptor>,
    medium: &Medium,
) -> (res: Handled)
    requires
        can_handle(targets@, request@, writable@, *medium),
    ensures
        handles(targets@, request@, writable@, *medium, res),
{
    match handle(targets, request, writable, medium) {
        Some(handled) => handled,
        None => vstd::pervasive::unreached(),
    }
}

/// Whether a request can be taken up.
pub fn request_ready<T: Target>(
    targets: &Vec<T>,
    request: &[u8],
    writable: &Vec<Descriptor>,
    medium: &Medium,
) -> (ok: bool)
    ensures
        ok == acceptable(targets@, request@, writable@, *medium),
{
    if request.len() != REQUEST_HEADER_SIZE + CDB_SIZE {
        return false;
    }
    if task_attr(request[16]).is_none() {
        return false;
    }
    if !fits(writable) {
        return false;
    }
    let lun_bytes = [
        request[0],
        request[1],
        request[2],
        request[3],
        request[4],
        request[5],
        request[6],
        request[7],
    ];
    assert(lun_bytes@ =~= request@.subrange(0, 8));
    let addressed = match VirtioScsiLun::parse(lun_bytes) {
        Some(lun) => parse_target(targets, lun),
        None => None,
    };
    match addressed {
        Some((target, lun)) => {
            let cdb = slice_subrange(request, REQUEST_HEADER_SIZE, REQUEST_HEADER_SIZE + CDB_SIZE);
            assert(cdb@ =~= cdb_of(request@));
            targets[target].can_execute(lun, cdb, medium)
        },
        None => true,
    }
}

/// Handles one request of the request queue where it can be handled,
/// and does nothing where it cannot.
pub fn try_handle_request<T: Target>(
    targets: &Vec<T>,
    request: &[u8],
    writable: Vec<Descriptor>,
    medium: &Medium,
) -> (res: Option<Handled>)
    ensures
        res is Some == can_handle(targets@, request@, writable@, *medium),
        res matches Some(handled) ==> handles(targets@, request@, writable@, *medium, handled),
{
    if request_ready(targets, request, &writable, medium) {
        handle(targets, request, writable, medium)
    } else {
        None
    }
}

/// Every response on the wire starts with the length of its sense data,
/// which is below `SENSE_SIZE`, and ends with that sense data.
pub proof fn lemma_response_tells_sense_length(response: ResponseView)
    requires
        response.sense.len() < SENSE_SIZE,
    ensures
        response_bytes(response).len() == RESPONSE_HEADER_SIZE + response.sense.len(),
        response_bytes(response).subrange(0, 4) == le32_bytes(response.sense.len() as u32),
        response_bytes(response)[0] == response.sense.len(),
        response_bytes(response)[1] == 0,
        response_bytes(response)[2] == 0,
        response_bytes(response)[3] == 0,
        response_bytes(response)[0] <= SENSE_SIZE - 1,
        response_bytes(response).subrange(
            RESPONSE_HEADER_SIZE as int,
            response_bytes(response).len() as int,
        ) == response.sense,
{
    let bytes = response_bytes(response);
    assert(bytes.subrange(0, 4) =~= le32_bytes(response.sense.len() as u32));
    assert(bytes.subrange(RESPONSE_HEADER_SIZE as int, bytes.len() as int) =~= response.sense);
}

/// The response of every request that was handled tells the length of
/// its sense data, which is below `SENSE_SIZE`, in its first byte, and
/// ends with that sense data.
pub proof fn lemma_handled_response_tells_sense_length<T: Target>(
    targets: Seq<T>,
    request: Seq<u8>,
    writable: Seq<Descriptor>,
    medium: Medium,
    handled: Handled,
)
    requires
        handles(targets, request, writable, medium, handled),
        handled is Respond,
    ensures
        reply_of(targets, request, writable, medium) matches Some(reply)
            && handled matches Handled::Respond { response, .. } && {
            &&& bytes_of(response@) == response_bytes(reply.response)
            &&& bytes_of(response@)[0] == reply.response.sense.len()
            &&& reply.response.sense.len() <= SENSE_SIZE - 1
            &&& bytes_of(response@).subrange(
                RESPONSE_HEADER_SIZE as int,
                bytes_of(response@).len() as int,
            ) == reply.response.sense
        },
{
    let reply = reply_of(targets, request, writable, medium).unwrap();
    lemma_response_tells_sense_length(reply.response);
}

/// The data that a request ends in is within the allocation length of
/// its CDB and within the room of the data-in buffer, and it is the
/// start of the data that the logical unit answered with.
pub proof fn lemma_reply_is_bounded(data: Seq<u8>, output: Output, limit: nat, room: nat)
    ensures
        reply_to(data, output, limit, room).data.len() <= limit,
        reply_to(data, output, limit, room).data.len() <= room,
        reply_to(data, output, limit, room).data.len() <= data.len(),
        reply_to(data, output, limit, room).data == data.subrange(
            0,
            reply_to(data, output, limit, room).data.len() as int,
        ),
{
    let sent = within(data, limit);
    assert(sent.subrange(0, sent.len() as int) =~= sent);
    if sent.len() > room {
        assert(sent.subrange(0, room as int) =~= data.subrange(0, room as int));
    }
}

/// A request that addresses no target (the well-known logical unit, a
/// target that is not there, or bytes that are no LUN) ends with the
/// response `BadTarget`, status 0, no sense data and no data-in bytes.
pub proof fn lemma_unaddressed_request_is_bad_target<T: Target>(
    targets: Seq<T>,
    request: Seq<u8>,
    writable: Seq<Descriptor>,
    medium: Medium,
    handled: Handled,
)
    requires
        handles(targets, request, writable, medium, handled),
        target_of(targets.len(), lun_of(request.subrange(0, 8))) is None,
    ensures
        handled matches Handled::Respond { data, response, used } && {
            &&& used == DATA_IN_OFFSET
            &&& bytes_of(data@).len() == 0
            &&& bytes_of(response@).len() == RESPONSE_HEADER_SIZE
            &&& bytes_of(response@)[0] == 0
            &&& bytes_of(response@)[10] == 0
            &&& bytes_of(response@)[11] == response_code(VirtioScsiResponse::BadTarget)
            &&& targets_of(response@) == addresses(writable, 0, RESPONSE_HEADER_SIZE as nat)
        },
{
    lemma_response_tells_sense_length(response_bad_target(data_room(writable) as u32));
}

} // verus!
