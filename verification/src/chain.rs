//! Descriptor chains: the pieces of guest memory that carry a request,
//! and a cursor that walks them byte by byte.
use vstd::prelude::*;

verus! {

/// One piece of guest memory: `len` bytes from `addr` on.
#[derive(Debug, PartialEq, Eq, Clone, Copy, Structural)]
pub struct Descriptor {
    pub addr: u64,
    pub len: u32,
}

/// Number of bytes in all descriptors of a chain.
pub open spec fn total_len(chain: Seq<Descriptor>) -> nat
    decreases chain.len(),
{
    if chain.len() == 0 {
        0
    } else {
        total_len(chain.drop_last()) + chain.last().len as nat
    }
}

/// Whether a chain can be walked: its bytes can be counted in 32 bits,
/// and no descriptor runs past the end of the address space.
pub open spec fn chain_fits(chain: Seq<Descriptor>) -> bool {
    &&& total_len(chain) <= u32::MAX
    &&& forall|i: int|
        0 <= i < chain.len() ==> (#[trigger] chain[i]).addr + chain[i].len <= u64::MAX
}

/// The guest address of the byte at position `pos` of a chain, counted
/// over its descriptors in order.
pub open spec fn address_at(chain: Seq<Descriptor>, pos: nat) -> nat
    decreases chain.len(),
{
    if chain.len() == 0 {
        0
    } else if pos >= total_len(chain.drop_last()) {
        (chain.last().addr + (pos - total_len(chain.drop_last()))) as nat
    } else {
        address_at(chain.drop_last(), pos)
    }
}

/// Number of bytes from position `pos` of a chain to the end of the
/// descriptor that holds the byte at `pos`; zero at the end of the chain.
pub open spec fn run_left(chain: Seq<Descriptor>, pos: nat) -> nat
    decreases chain.len(),
{
    if chain.len() == 0 {
        0
    } else if pos >= total_len(chain.drop_last()) {
        if pos < total_len(chain) {
            (total_len(chain) - pos) as nat
        } else {
            0
        }
    } else {
        run_left(chain.drop_last(), pos)
    }
}

/// The guest addresses of `len` bytes of a chain from position `pos` on.
pub open spec fn addresses(chain: Seq<Descriptor>, pos: nat, len: nat) -> Seq<nat> {
    Seq::new(len, |k: int| address_at(chain, (pos + k) as nat))
}

/// The `len` addresses from `addr` on.
pub open spec fn run(addr: nat, len: nat) -> Seq<nat> {
    Seq::new(len, |k: int| (addr + k) as nat)
}

/// The bytes before descriptor `i` are no more than those before a later
/// descriptor `j`.
pub proof fn lemma_total_len_monotonic(chain: Seq<Descriptor>, i: int, j: int)
    requires
        0 <= i <= j <= chain.len(),
    ensures
        total_len(chain.subrange(0, i)) <= total_len(chain.subrange(0, j)),
    decreases j - i,
{
    if i < j {
        lemma_total_len_monotonic(chain, i, j - 1);
        assert(chain.subrange(0, j).drop_last() =~= chain.subrange(0, j - 1));
    }
}

/// The byte at offset `off` of descriptor `i` has the address that the
/// descriptor gives it.
pub proof fn lemma_address_in_descriptor(chain: Seq<Descriptor>, i: int, off: nat)
    requires
        0 <= i < chain.len(),
        off < chain[i].len,
    ensures
        address_at(chain, total_len(chain.subrange(0, i)) + off) == chain[i].addr + off,
    decreases chain.len(),
{
    let pos = total_len(chain.subrange(0, i)) + off;
    assert(chain.subrange(0, chain.len() as int) =~= chain);
    if i == chain.len() - 1 {
        assert(chain.subrange(0, i) =~= chain.drop_last());
    } else {
        lemma_total_len_monotonic(chain, i + 1, chain.len() - 1);
        assert(chain.subrange(0, i + 1).drop_last() =~= chain.subrange(0, i));
        assert(chain.subrange(0, chain.len() - 1) =~= chain.drop_last());
        assert(pos < total_len(chain.drop_last()));
        lemma_address_in_descriptor(chain.drop_last(), i, off);
        assert(chain.drop_last().subrange(0, i) =~= chain.subrange(0, i));
    }
}

/// From offset `off` of descriptor `i`, the descriptor has as many bytes
/// left as its length says.
pub proof fn lemma_run_left_in_descriptor(chain: Seq<Descriptor>, i: int, off: nat)
    requires
        0 <= i < chain.len(),
        off < chain[i].len,
    ensures
        run_left(chain, total_len(chain.subrange(0, i)) + off) == chain[i].len - off,
    decreases chain.len(),
{
    let pos = total_len(chain.subrange(0, i)) + off;
    assert(chain.subrange(0, chain.len() as int) =~= chain);
    if i == chain.len() - 1 {
        assert(chain.subrange(0, i) =~= chain.drop_last());
    } else {
        lemma_total_len_monotonic(chain, i + 1, chain.len() - 1);
        assert(chain.subrange(0, i + 1).drop_last() =~= chain.subrange(0, i));
        assert(chain.subrange(0, chain.len() - 1) =~= chain.drop_last());
        assert(pos < total_len(chain.drop_last()));
        lemma_run_left_in_descriptor(chain.drop_last(), i, off);
        assert(chain.drop_last().subrange(0, i) =~= chain.subrange(0, i));
    }
}

/// At the end of a chain no descriptor has bytes left.
pub proof fn lemma_run_left_at_end(chain: Seq<Descriptor>, pos: nat)
    requires
        pos >= total_len(chain),
    ensures
        run_left(chain, pos) == 0,
    decreases chain.len(),
{
    if chain.len() > 0 {
        lemma_run_left_at_end(chain.drop_last(), pos);
    }
}

/// The bytes before descriptor `i + 1` are those before descriptor `i`
/// and those of descriptor `i`.
pub proof fn lemma_total_len_step(chain: Seq<Descriptor>, i: int)
    requires
        0 <= i < chain.len(),
    ensures
        total_len(chain.subrange(0, i + 1)) == total_len(chain.subrange(0, i)) + chain[i].len,
        total_len(chain.subrange(0, i + 1)) <= total_len(chain),
{
    assert(chain.subrange(0, i + 1).drop_last() =~= chain.subrange(0, i));
    lemma_total_len_monotonic(chain, i + 1, chain.len() as int);
    assert(chain.subrange(0, chain.len() as int) =~= chain);
}

/// A place in a descriptor chain: between two of its bytes, or at its end.
#[derive(Debug)]
pub struct Cursor {
    chain: Vec<Descriptor>,
    current: usize,
    offset: u32,
}

impl Cursor {
    /// The chain that the cursor walks.
    pub closed spec fn chain(&self) -> Seq<Descriptor> {
        self.chain@
    }

    /// Number of bytes of the chain before the cursor.
    pub closed spec fn position(&self) -> nat {
        total_len(self.chain@.subrange(0, self.current as int)) + self.offset as nat
    }

    /// What holds of every cursor: its chain can be walked, and it
    /// stands before a byte of a descriptor or at the end of the chain,
    /// never at the end of a descriptor.
    pub closed spec fn inv(&self) -> bool {
        &&& chain_fits(self.chain@)
        &&& self.current <= self.chain@.len()
        &&& self.current < self.chain@.len() ==> self.offset < self.chain@[self.current as int].len
        &&& self.current == self.chain@.len() ==> self.offset == 0
    }

    /// Number of bytes of the chain after the cursor.
    pub open spec fn room(&self) -> nat {
        (total_len(self.chain()) - self.position()) as nat
    }

    /// A cursor is never past the end of its chain.
    pub proof fn lemma_position_bounded(&self)
        requires
            self.inv(),
        ensures
            self.position() <= total_len(self.chain()),
            total_len(self.chain()) <= u32::MAX,
    {
        if self.current < self.chain@.len() {
            lemma_total_len_step(self.chain@, self.current as int);
        } else {
            assert(self.chain@.subrange(0, self.current as int) =~= self.chain@);
        }
    }

    /// Moves a cursor that stands at the start of a descriptor past the
    /// empty descriptors before it.
    fn settle(&mut self)
        requires
            chain_fits(old(self).chain@),
            old(self).current <= old(self).chain@.len(),
            old(self).offset == 0,
        ensures
            final(self).inv(),
            final(self).chain() == old(self).chain(),
            final(self).position() == old(self).position(),
    {
        while self.current < self.chain.len() && self.chain[self.current].len == 0
            invariant
                self.chain@ == old(self).chain@,
                self.current <= self.chain@.len(),
                self.offset == 0,
                self.position() == old(self).position(),
            decreases self.chain@.len() - self.current,
        {
            proof {
                lemma_total_len_step(self.chain@, self.current as int);
            }
            self.current += 1;
        }
    }

    /// A cursor at the start of `chain`.
    pub fn new(chain: Vec<Descriptor>) -> (cursor: Self)
        requires
            chain_fits(chain@),
        ensures
            cursor.inv(),
            cursor.chain() == chain@,
            cursor.position() == 0,
    {
        let mut cursor = Cursor { chain, current: 0, offset: 0 };
        assert(cursor.chain@.subrange(0, 0) =~= Seq::<Descriptor>::empty());
        cursor.settle();
        cursor
    }

    /// Number of bytes of the chain before the cursor.
    pub fn position_now(&self) -> (pos: u32)
        requires
            self.inv(),
        ensures
            pos == self.position(),
    {
        proof {
            self.lemma_position_bounded();
        }
        let mut pos: u32 = self.offset;
        let mut i: usize = 0;
        assert(self.chain@.subrange(0, 0) =~= Seq::<Descriptor>::empty());
        while i < self.current
            invariant
                i <= self.current <= self.chain@.len(),
                self.position() <= u32::MAX,
                pos == total_len(self.chain@.subrange(0, i as int)) + self.offset,
                total_len(self.chain@.subrange(0, i as int)) <= total_len(
                    self.chain@.subrange(0, self.current as int),
                ),
            decreases self.current - i,
        {
            proof {
                lemma_total_len_step(self.chain@, i as int);
                lemma_total_len_monotonic(self.chain@, i + 1, self.current as int);
            }
            pos += self.chain[i].len;
            i += 1;
        }
        pos
    }

    /// A second cursor at the same place of the same chain.
    pub fn duplicate(&self) -> (cursor: Self)
        requires
            self.inv(),
        ensures
            cursor.inv(),
            cursor.chain() == self.chain(),
            cursor.position() == self.position(),
    {
        let mut chain: Vec<Descriptor> = Vec::new();
        let mut i: usize = 0;
        while i < self.chain.len()
            invariant
                i <= self.chain@.len(),
                chain@ == self.chain@.subrange(0, i as int),
            decreases self.chain@.len() - i,
        {
            chain.push(self.chain[i]);
            i += 1;
            assert(chain@ =~= self.chain@.subrange(0, i as int));
        }
        assert(chain@ =~= self.chain@);
        Cursor { chain, current: self.current, offset: self.offset }
    }

    /// Takes the bytes that are left of the descriptor that the cursor
    /// is in, or `want` of them where more are left, and says where they
    /// start and how many they are.
    pub fn step(&mut self, want: usize) -> (piece: (u64, u32))
        requires
            old(self).inv(),
        ensures
            final(self).inv(),
            final(self).chain() == old(self).chain(),
            piece.1 == if want <= run_left(old(self).chain(), old(self).position()) {
                want as nat
            } else {
                run_left(old(self).chain(), old(self).position())
            },
            piece.1 <= want,
            piece.1 <= old(self).room(),
            final(self).position() == old(self).position() + piece.1,
            piece.1 == 0 <==> want == 0 || old(self).room() == 0,
            piece.0 + piece.1 <= u64::MAX,
            addresses(old(self).chain(), old(self).position(), piece.1 as nat) == run(
                piece.0 as nat,
                piece.1 as nat,
            ),
    {
        proof {
            self.lemma_position_bounded();
        }
        if self.current < self.chain.len() {
            let cur = self.chain[self.current];
            let left: u32 = cur.len - self.offset;
            let n: u32 = if want < left as usize {
                want as u32
            } else {
                left
            };
            let addr: u64 = cur.addr + self.offset as u64;
            proof {
                lemma_total_len_step(self.chain@, self.current as int);
                lemma_run_left_in_descriptor(
                    self.chain@,
                    self.current as int,
                    self.offset as nat,
                );
                let found = addresses(self.chain@, self.position(), n as nat);
                assert forall|k: int| 0 <= k < n implies #[trigger] found[k] == addr + k by {
                    lemma_address_in_descriptor(
                        self.chain@,
                        self.current as int,
                        (self.offset + k) as nat,
                    );
                }
                assert(found =~= run(addr as nat, n as nat));
            }
            self.offset += n;
            if self.offset == cur.len {
                self.current += 1;
                self.offset = 0;
                self.settle();
            }
            (addr, n)
        } else {
            assert(self.chain@.subrange(0, self.current as int) =~= self.chain@);
            assert(addresses(self.chain@, self.position(), 0) =~= run(0, 0));
            proof {
                lemma_run_left_at_end(self.chain@, self.position());
            }
            (0, 0)
        }
    }

    /// Moves the cursor `bytes` bytes on, or to the end of the chain
    /// where fewer are left.
    pub fn skip(&mut self, bytes: u32)
        requires
            old(self).inv(),
        ensures
            final(self).inv(),
            final(self).chain() == old(self).chain(),
            final(self).position() == if bytes <= old(self).room() {
                old(self).position() + bytes
            } else {
                total_len(old(self).chain()) as int
            },
    {
        proof {
            self.lemma_position_bounded();
        }
        let mut left: u32 = bytes;
        while left > 0 && self.current < self.chain.len()
            invariant
                self.inv(),
                self.chain@ == old(self).chain@,
                left <= bytes,
                self.position() <= total_len(self.chain@),
                self.position() + left == old(self).position() + bytes,
            decreases left,
        {
            proof {
                lemma_total_len_step(self.chain@, self.current as int);
            }
            let (_, n) = self.step(left as usize);
            left -= n;
            proof {
                self.lemma_position_bounded();
            }
        }
        proof {
            if self.current == self.chain@.len() {
                assert(self.chain@.subrange(0, self.current as int) =~= self.chain@);
            }
        }
    }

    /// Moves the cursor to the end of the chain and says how many bytes
    /// it passed.
    pub fn drain(&mut self) -> (passed: u32)
        requires
            old(self).inv(),
        ensures
            final(self).inv(),
            final(self).chain() == old(self).chain(),
            passed == old(self).room(),
            final(self).position() == total_len(old(self).chain()),
            final(self).room() == 0,
    {
        proof {
            self.lemma_position_bounded();
        }
        let mut passed: u32 = 0;
        while self.current < self.chain.len()
            invariant
                self.inv(),
                self.chain@ == old(self).chain@,
                self.position() <= total_len(self.chain@),
                total_len(self.chain@) <= u32::MAX,
                self.position() == old(self).position() + passed,
            decreases total_len(self.chain@) - self.position(),
        {
            proof {
                lemma_total_len_step(self.chain@, self.current as int);
            }
            let (_, n) = self.step(usize::MAX);
            passed += n;
            proof {
                self.lemma_position_bounded();
            }
        }
        assert(self.chain@.subrange(0, self.current as int) =~= self.chain@);
        passed
    }
}

/// Whether a chain can be walked.
pub fn fits(chain: &Vec<Descriptor>) -> (ok: bool)
    ensures
        ok == chain_fits(chain@),
{
    let mut total: u32 = 0;
    let mut i: usize = 0;
    assert(chain@.subrange(0, 0) =~= Seq::<Descriptor>::empty());
    while i < chain.len()
        invariant
            i <= chain@.len(),
            total == total_len(chain@.subrange(0, i as int)),
            forall|k: int| 0 <= k < i ==> (#[trigger] chain@[k]).addr + chain@[k].len <= u64::MAX,
        decreases chain@.len() - i,
    {
        let d = chain[i];
        proof {
            lemma_total_len_step(chain@, i as int);
        }
        if d.len > u32::MAX - total || d.len as u64 > u64::MAX - d.addr {
            return false;
        }
        total += d.len;
        i += 1;
    }
    assert(chain@.subrange(0, i as int) =~= chain@);
    true
}

} // verus!
