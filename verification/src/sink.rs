//! Byte sinks: where the data-in of a command goes.
use vstd::prelude::*;
use vstd::slice::slice_subrange;

verus! {

/// Why bytes could not be delivered.
#[derive(PartialEq, Eq, Debug, Copy, Clone, Structural)]
pub enum WriteError {
    /// The sink has no room left.
    WriteZero,
}

/// A sink for data-in bytes.
pub trait DataIn {
    /// What must hold of a sink between calls.
    spec fn inv(&self) -> bool;

    /// The bytes the sink has taken so far, in order.
    spec fn taken(&self) -> Seq<u8>;

    /// How many more bytes the sink can take.
    spec fn room(&self) -> nat;

    /// What the sink is apart from the bytes it has taken.
    type Place;

    /// What writing leaves as it is: where the sink puts its bytes.
    spec fn place(&self) -> Self::Place;

    /// Takes bytes from the front of `buf` and says how many. Takes at
    /// least one where `buf` is not empty and there is room.
    fn write(&mut self, buf: &[u8]) -> (n: usize)
        requires
            old(self).inv(),
        ensures
            final(self).inv(),
            n <= buf@.len(),
            n <= old(self).room(),
            final(self).taken() == old(self).taken() + buf@.subrange(0, n as int),
            final(self).room() == old(self).room() - n,
            final(self).place() == old(self).place(),
            n == 0 ==> buf@.len() == 0 || old(self).room() == 0,
    ;
}

impl DataIn for Vec<u8> {
    open spec fn inv(&self) -> bool {
        true
    }

    open spec fn taken(&self) -> Seq<u8> {
        self@
    }

    open spec fn room(&self) -> nat {
        (usize::MAX - self@.len()) as nat
    }

    type Place = ();

    open spec fn place(&self) -> () {
        ()
    }

    /// Takes all of `buf`, or as much of it as the vector has room for.
    fn write(&mut self, buf: &[u8]) -> (n: usize)
        ensures
            n == if buf@.len() <= old(self).room() {
                buf@.len()
            } else {
                old(self).room()
            },
    {
        let free: usize = usize::MAX - self.len();
        let n: usize = if buf.len() <= free {
            buf.len()
        } else {
            free
        };
        self.extend_from_slice(slice_subrange(buf, 0, n));
        n
    }
}

/// What a sink holds after `buf` was written to it in full or, where
/// the room does not suffice, as far as there was room.
pub open spec fn after_write_all(taken: Seq<u8>, room: nat, buf: Seq<u8>) -> Seq<u8> {
    if buf.len() <= room {
        taken + buf
    } else {
        taken + buf.subrange(0, room as int)
    }
}

/// Writes all of `buf` to `sink`. Fails with `WriteZero`, after filling
/// the sink, where `buf` is longer than the sink's room.
pub fn write_all<W: DataIn>(sink: &mut W, buf: &[u8]) -> (res: Result<(), WriteError>)
    requires
        old(sink).inv(),
    ensures
        final(sink).inv(),
        res is Ok <==> buf@.len() <= old(sink).room(),
        res is Err ==> res == Err::<(), WriteError>(WriteError::WriteZero),
        final(sink).taken() == after_write_all(old(sink).taken(), old(sink).room(), buf@),
        final(sink).room() == if buf@.len() <= old(sink).room() {
            old(sink).room() - buf@.len()
        } else {
            0
        },
        final(sink).place() == old(sink).place(),
{
    let mut done: usize = 0;
    while done < buf.len()
        invariant
            sink.inv(),
            done <= buf@.len(),
            done <= old(sink).room(),
            sink.taken() == old(sink).taken() + buf@.subrange(0, done as int),
            sink.room() == old(sink).room() - done,
            sink.place() == old(sink).place(),
        decreases buf@.len() - done,
    {
        let rest = slice_subrange(buf, done, buf.len());
        let n = sink.write(rest);
        if n == 0 {
            return Err(WriteError::WriteZero);
        }
        assert(buf@.subrange(0, done as int) + rest@.subrange(0, n as int) =~= buf@.subrange(
            0,
            done + n,
        ));
        done += n;
    }
    assert(buf@.subrange(0, done as int) =~= buf@);
    Ok(())
}

/// The number of bytes that pass a limit of `remaining` bytes.
pub open spec fn kept(len: nat, remaining: nat) -> nat {
    if len <= remaining {
        len
    } else {
        remaining
    }
}

/// A limit on the bytes that reach a sink: the allocation length of a
/// command. Bytes past the limit are discarded without complaint.
#[derive(Debug, Clone, Copy)]
pub struct SilentlyTruncate {
    /// How many more bytes may reach the sink.
    pub remaining: usize,
}

impl SilentlyTruncate {
    /// The limit that an allocation length sets; none where the command
    /// has no allocation length.
    pub fn new(allocation_length: Option<u32>) -> (limit: Self)
        ensures
            limit.remaining == match allocation_length {
                Some(len) => len as usize,
                None => usize::MAX,
            },
    {
        match allocation_length {
            Some(len) => SilentlyTruncate { remaining: len as usize },
            None => SilentlyTruncate { remaining: usize::MAX },
        }
    }

    /// Forwards the front of `buf` to `inner`, as far as the limit
    /// allows, and says how many bytes `inner` took. Once the limit is
    /// used up, claims to have taken all of `buf` and forwards nothing.
    pub fn write<W: DataIn>(&mut self, inner: &mut W, buf: &[u8]) -> (n: usize)
        requires
            old(inner).inv(),
        ensures
            final(inner).inv(),
            final(inner).place() == old(inner).place(),
            n <= buf@.len(),
            old(self).remaining == 0 ==> {
                &&& n == buf@.len()
                &&& final(self).remaining == 0
                &&& final(inner).taken() == old(inner).taken()
                &&& final(inner).room() == old(inner).room()
            },
            old(self).remaining > 0 ==> {
                &&& n <= old(self).remaining
                &&& n <= old(inner).room()
                &&& final(self).remaining == old(self).remaining - n
                &&& final(inner).taken() == old(inner).taken() + buf@.subrange(0, n as int)
                &&& final(inner).room() == old(inner).room() - n
                &&& (n == 0 ==> buf@.len() == 0 || old(inner).room() == 0)
            },
    {
        if self.remaining == 0 {
            return buf.len();
        }
        let len = if buf.len() <= self.remaining {
            buf.len()
        } else {
            self.remaining
        };
        let head = slice_subrange(buf, 0, len);
        let written = inner.write(head);
        assert(head@.subrange(0, written as int) =~= buf@.subrange(0, written as int));
        self.remaining -= written;
        written
    }

    /// Writes `buf` to `inner` up to the limit and discards the rest.
    /// Fails with `WriteZero`, after filling `inner`, where the bytes
    /// within the limit are more than `inner` has room for.
    pub fn write_all<W: DataIn>(&mut self, inner: &mut W, buf: &[u8]) -> (res: Result<
        (),
        WriteError,
    >)
        requires
            old(inner).inv(),
        ensures
            final(inner).inv(),
            final(inner).place() == old(inner).place(),
            res is Ok <==> kept(buf@.len(), old(self).remaining as nat) <= old(inner).room(),
            res is Err ==> res == Err::<(), WriteError>(WriteError::WriteZero),
            final(inner).taken() == after_write_all(
                old(inner).taken(),
                old(inner).room(),
                buf@.subrange(0, kept(buf@.len(), old(self).remaining as nat) as int),
            ),
            final(inner).taken().len() <= old(inner).taken().len() + old(self).remaining,
            final(inner).taken().len() + final(inner).room() == old(inner).taken().len() + old(
                inner,
            ).room(),
            final(self).remaining + final(inner).taken().len() == old(self).remaining + old(
                inner,
            ).taken().len(),
    {
        let mut done: usize = 0;
        while done < buf.len()
            invariant
                inner.inv(),
                inner.place() == old(inner).place(),
                done <= buf@.len(),
                self.remaining > 0 ==> done <= old(self).remaining && done <= old(inner).room(),
                self.remaining > 0 ==> {
                    &&& self.remaining == old(self).remaining - done
                    &&& inner.taken() == old(inner).taken() + buf@.subrange(0, done as int)
                    &&& inner.room() == old(inner).room() - done
                },
                self.remaining == 0 ==> {
                    &&& old(self).remaining <= old(inner).room()
                    &&& old(self).remaining <= buf@.len()
                    &&& inner.taken() == old(inner).taken() + buf@.subrange(
                        0,
                        old(self).remaining as int,
                    )
                    &&& inner.room() == old(inner).room() - old(self).remaining
                },
            decreases buf@.len() - done,
        {
            let rest = slice_subrange(buf, done, buf.len());
            let n = self.write(inner, rest);
            if n == 0 {
                return Err(WriteError::WriteZero);
            }
            assert(buf@.subrange(0, done as int) + rest@.subrange(0, n as int) =~= buf@.subrange(
                0,
                done + n,
            ));
            done += n;
        }
        assert(buf@.subrange(0, done as int) =~= buf@);
        Ok(())
    }
}

} // verus!
