//! Guest memory: where the loads and the stores of a request are
//! carried out.
use crate::chain::{chain_fits, total_len, Descriptor};
use crate::virtio::{
    bytes_of, sources_of, DescriptorChainReader, ReadOp, VirtioScsiError, WriteOp, CDB_SIZE,
    DATA_IN_OFFSET, REQUEST_HEADER_SIZE,
};
use vm_memory::{Bytes, GuestAddress, GuestMemoryMmap, GuestRegionCollection, GuestRegionMmap};
use vstd::prelude::*;

verus! {

/// `vm_memory::GuestRegionCollection`, the regions that make up the
/// memory of a guest. Nothing is claimed of what it holds.
#[verifier::external_type_specification]
#[verifier::external_body]
#[verifier::reject_recursive_types(R)]
pub struct ExGuestRegionCollection<R>(GuestRegionCollection<R>);

/// `vm_memory::GuestRegionMmap`, one region of guest memory that is
/// mapped into this process. Nothing is claimed of what it holds.
#[verifier::external_type_specification]
#[verifier::external_body]
#[verifier::reject_recursive_types(B)]
pub struct ExGuestRegionMmap<B>(GuestRegionMmap<B>);

/// Stores `data` in guest memory from `addr` on, with
/// `vm_memory::Bytes::write_slice`, and says whether all of it was
/// stored. A store without bytes succeeds at every address, as
/// `write_slice` documents. Of a store with bytes nothing is claimed: it
/// depends on what of its memory the guest has made known.
#[verifier::external_body]
fn store_bytes(mem: &GuestMemoryMmap, addr: u64, data: &[u8]) -> (stored: bool)
    ensures
        data@.len() == 0 ==> stored,
{
    mem.write_slice(data, GuestAddress(addr)).is_ok()
}

/// Loads `len` bytes of guest memory from `addr` on, with
/// `vm_memory::Bytes::read_slice`, which fills the whole buffer or
/// fails. Nothing is claimed of when it fails, nor of the bytes.
#[verifier::external_body]
fn load_bytes(mem: &GuestMemoryMmap, addr: u64, len: u32) -> (loaded: Option<Vec<u8>>)
    ensures
        loaded matches Some(bytes) ==> bytes@.len() == len,
{
    let mut bytes = vec![0; len as usize];
    match mem.read_slice(&mut bytes, GuestAddress(addr)) {
        Ok(()) => Some(bytes),
        Err(_) => None,
    }
}

/// Number of bytes in the loads of a list.
pub open spec fn loads_len(ops: Seq<ReadOp>) -> nat
    decreases ops.len(),
{
    if ops.len() == 0 {
        0
    } else {
        loads_len(ops.drop_last()) + ops.last().len as nat
    }
}

/// A list of loads has one address for each of its bytes.
pub proof fn lemma_loads_len(ops: Seq<ReadOp>)
    ensures
        sources_of(ops).len() == loads_len(ops),
    decreases ops.len(),
{
    if ops.len() > 0 {
        lemma_loads_len(ops.drop_last());
    }
}

/// Carries out loads in order and returns the bytes loaded, one load
/// after the other; nothing where a load fails.
pub fn load_all(mem: &GuestMemoryMmap, ops: &Vec<ReadOp>) -> (loaded: Option<Vec<u8>>)
    ensures
        loaded matches Some(bytes) ==> bytes@.len() == loads_len(ops@),
        ops@.len() == 0 ==> loaded is Some,
{
    let mut bytes: Vec<u8> = Vec::new();
    let mut i: usize = 0;
    assert(ops@.subrange(0, 0) =~= Seq::<ReadOp>::empty());
    while i < ops.len()
        invariant
            i <= ops@.len(),
            bytes@.len() == loads_len(ops@.subrange(0, i as int)),
        decreases ops@.len() - i,
    {
        let op = ops[i];
        match load_bytes(mem, op.addr, op.len) {
            Some(mut piece) => {
                bytes.append(&mut piece);
            },
            None => {
                return None;
            },
        }
        assert(ops@.subrange(0, i + 1).drop_last() =~= ops@.subrange(0, i as int));
        i += 1;
    }
    assert(ops@.subrange(0, i as int) =~= ops@);
    Some(bytes)
}

/// Loads the header and the CDB of a request from the readable
/// descriptors of its chain.
///
/// Fails with `UnexpectedEof`, before it loads anything, where the
/// descriptors hold fewer bytes than a request has, and with `Memory`
/// where guest memory does not give the bytes.
pub fn load_request(mem: &GuestMemoryMmap, readable: Vec<Descriptor>) -> (res: Result<
    Vec<u8>,
    VirtioScsiError,
>)
    requires
        chain_fits(readable@),
    ensures
        res matches Ok(request) ==> request@.len() == REQUEST_HEADER_SIZE + CDB_SIZE,
        res == Err::<Vec<u8>, VirtioScsiError>(VirtioScsiError::UnexpectedEof) <==> total_len(
            readable@,
        ) < REQUEST_HEADER_SIZE + CDB_SIZE,
{
    let mut reader = DescriptorChainReader::new(readable);
    let ops = match reader.read_exact(REQUEST_HEADER_SIZE + CDB_SIZE) {
        Ok(ops) => ops,
        Err(_) => {
            return Err(VirtioScsiError::UnexpectedEof);
        },
    };
    proof {
        lemma_loads_len(ops@);
    }
    match load_all(mem, &ops) {
        Some(request) => Ok(request),
        None => Err(VirtioScsiError::Memory),
    }
}

/// Carries out stores in order, up to the first that fails, and returns
/// how many were carried out. A store without bytes never fails: where
/// not all stores were carried out, the first that was not has bytes.
pub fn store_all(mem: &GuestMemoryMmap, ops: &Vec<WriteOp>) -> (stored: usize)
    ensures
        stored <= ops@.len(),
        stored < ops@.len() ==> ops@[stored as int].data@.len() > 0,
{
    let mut i: usize = 0;
    while i < ops.len()
        invariant
            i <= ops@.len(),
        decreases ops@.len() - i,
    {
        if !store_bytes(mem, ops[i].addr, ops[i].data.as_slice()) {
            return i;
        }
        i += 1;
    }
    i
}

/// How carrying a reply into guest memory ended.
#[derive(Debug, PartialEq, Eq, Clone, Copy, Structural)]
pub enum Carried {
    /// Data and response are stored, and `used` bytes of the writable
    /// descriptors count as used.
    Done { used: u32 },
    /// A store of the data failed. The request is abandoned without a
    /// response; `used` bytes of the writable descriptors count as used.
    Abandoned { used: u32 },
    /// The data is stored and a store of the response failed.
    ResponseLost,
}

/// What carrying a reply into guest memory comes to, where `stored` of
/// the stores of its data and `answered` of the stores of its response
/// were carried out. A store of the data that fails ends it: the bytes
/// up to the last byte stored then count as used.
pub open spec fn carried(
    data: Seq<WriteOp>,
    response: Seq<WriteOp>,
    used: u32,
    stored: nat,
    answered: nat,
) -> Carried {
    if stored < data.len() {
        Carried::Abandoned {
            used: (DATA_IN_OFFSET + bytes_of(data.subrange(0, stored as int)).len()) as u32,
        }
    } else if answered < response.len() {
        Carried::ResponseLost
    } else {
        Carried::Done { used }
    }
}

/// The bytes of the first stores of a list are no more than those of
/// the whole list.
pub proof fn lemma_bytes_of_prefix(ops: Seq<WriteOp>, count: int)
    requires
        0 <= count <= ops.len(),
    ensures
        bytes_of(ops.subrange(0, count)).len() <= bytes_of(ops).len(),
    decreases ops.len() - count,
{
    if count < ops.len() {
        lemma_bytes_of_prefix(ops, count + 1);
        assert(ops.subrange(0, count + 1).drop_last() =~= ops.subrange(0, count));
    } else {
        assert(ops.subrange(0, count) =~= ops);
    }
}

/// Says how carrying a reply into guest memory ended, from the number
/// of stores that were carried out.
pub fn conclude(
    data: &Vec<WriteOp>,
    response: &Vec<WriteOp>,
    used: u32,
    stored: usize,
    answered: usize,
) -> (res: Carried)
    requires
        stored <= data@.len(),
        DATA_IN_OFFSET + bytes_of(data@).len() <= u32::MAX,
    ensures
        res == carried(data@, response@, used, stored as nat, answered as nat),
{
    if stored < data.len() {
        let mut used_so_far: u32 = DATA_IN_OFFSET;
        let mut i: usize = 0;
        assert(data@.subrange(0, 0) =~= Seq::<WriteOp>::empty());
        while i < stored
            invariant
                i <= stored <= data@.len(),
                DATA_IN_OFFSET + bytes_of(data@).len() <= u32::MAX,
                used_so_far == DATA_IN_OFFSET + bytes_of(data@.subrange(0, i as int)).len(),
            decreases stored - i,
        {
            proof {
                lemma_bytes_of_prefix(data@, i + 1);
                assert(data@.subrange(0, i + 1).drop_last() =~= data@.subrange(0, i as int));
            }
            used_so_far += data[i].data.len() as u32;
            i += 1;
        }
        Carried::Abandoned { used: used_so_far }
    } else if answered < response.len() {
        Carried::ResponseLost
    } else {
        Carried::Done { used }
    }
}

/// Carries a reply into guest memory: first the stores of its data,
/// then, where they all went through, those of its response.
pub fn carry_out(
    mem: &GuestMemoryMmap,
    data: &Vec<WriteOp>,
    response: &Vec<WriteOp>,
    used: u32,
) -> (res: Carried)
    requires
        DATA_IN_OFFSET + bytes_of(data@).len() <= u32::MAX,
    ensures
        exists|stored: nat, answered: nat|
            stored <= data@.len() && answered <= response@.len() && res == #[trigger] carried(
                data@,
                response@,
                used,
                stored,
                answered,
            ),
        res matches Carried::Done { used: counted } ==> counted == used,
        res matches Carried::Abandoned { used: counted } ==> DATA_IN_OFFSET <= counted
            <= DATA_IN_OFFSET + bytes_of(data@).len(),
{
    let stored = store_all(mem, data);
    let answered = if stored == data.len() {
        store_all(mem, response)
    } else {
        0
    };
    proof {
        lemma_bytes_of_prefix(data@, stored as int);
    }
    conclude(data, response, used, stored, answered)
}

} // verus!
