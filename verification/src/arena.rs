//! A bump arena: storage that is handed out front to back and given back
//! all at once.

use vstd::prelude::*;

verus! {

/// Simple bump arena for block/function-scoped allocations.
#[derive(Debug, Clone)]
pub struct Arena {
    buf: Vec<u8>,
    off: usize,
}

/// Why an allocation failed.
#[derive(Debug, PartialEq, Eq)]
pub enum ArenaError {
    OutOfCapacity { requested: usize, remaining: usize },
}

/// Indexing a `Vec` by a range, mutably: the view is that part of the
/// vector and stays as long as it is; what is written into it is written
/// into the vector, and the rest of the vector stays as it is.
#[verifier::external_body]
fn window(buf: &mut Vec<u8>, start: usize, end: usize) -> (r: &mut [u8])
    requires
        start <= end <= old(buf)@.len(),
    ensures
        r@ == old(buf)@.subrange(start as int, end as int),
        final(r)@.len() == r@.len(),
        final(buf)@ == old(buf)@.subrange(0, start as int) + final(r)@ + old(buf)@.subrange(
            end as int,
            old(buf)@.len() as int,
        ),
{
    &mut buf[start..end]
}

impl Arena {
    /// The bytes of the arena, used and free.
    pub closed spec fn bytes(&self) -> Seq<u8> {
        self.buf@
    }

    /// How many bytes are handed out.
    pub closed spec fn used(&self) -> nat {
        self.off as nat
    }

    /// What holds of every arena: no more is handed out than it has.
    pub open spec fn wf(&self) -> bool {
        self.used() <= self.cap()
    }

    /// Total capacity in bytes.
    pub open spec fn cap(&self) -> nat {
        self.bytes().len()
    }

    /// Create a new arena with a fixed capacity, all of it free and zero.
    pub fn with_capacity(cap: usize) -> (r: Self)
        ensures
            r.wf(),
            r.used() == 0,
            r.bytes() == Seq::new(cap as nat, |i: int| 0u8),
    {
        let buf = vec![0u8; cap];
        assert(buf@ =~= Seq::new(cap as nat, |i: int| 0u8));
        Arena { buf, off: 0 }
    }

    /// Total capacity in bytes.
    pub fn capacity(&self) -> (r: usize)
        ensures
            r == self.cap(),
    {
        self.buf.len()
    }

    /// Remaining free space in bytes: what the arena has and has not handed
    /// out.
    pub fn remaining(&self) -> (r: usize)
        ensures
            r == (if self.used() <= self.cap() {
                self.cap() - self.used()
            } else {
                0
            }),
            self.wf() ==> r == self.cap() - self.used(),
    {
        if self.off <= self.buf.len() {
            self.buf.len() - self.off
        } else {
            0
        }
    }

    /// Allocate `size` bytes and return a mutable view.
    ///
    /// A request for more than what remains fails and changes nothing, and
    /// the error tells what was asked for and what remained. Otherwise the
    /// view is the next `size` bytes of the arena: what the caller writes
    /// into it is what the arena holds there afterwards, and nothing else
    /// changes.
    pub fn allocate(&mut self, size: usize) -> (r: Result<&mut [u8], ArenaError>)
        requires
            old(self).wf(),
        ensures
            final(self).wf(),
            final(self).cap() == old(self).cap(),
            size > old(self).cap() - old(self).used() ==> r == Err::<&mut [u8], ArenaError>(
                ArenaError::OutOfCapacity {
                    requested: size,
                    remaining: (old(self).cap() - old(self).used()) as usize,
                },
            ) && final(self).used() == old(self).used() && final(self).bytes() == old(
                self,
            ).bytes(),
            size <= old(self).cap() - old(self).used() ==> (r matches Ok(view) && {
                let start = old(self).used() as int;
                &&& final(self).used() == start + size
                &&& view@ == old(self).bytes().subrange(start, start + size)
                &&& final(self).bytes() == old(self).bytes().subrange(0, start) + final(view)@
                    + old(self).bytes().subrange(start + size, old(self).cap() as int)
            }),
    {
        let remaining = self.remaining();
        if size > remaining {
            return Err(ArenaError::OutOfCapacity { requested: size, remaining });
        }
        let start = self.off;
        assert(self.buf@.len() == self.buf.len());
        let end = start + size;
        self.off = end;
        Ok(window(&mut self.buf, start, end))
    }

    /// Reset the arena to an empty state; data remains but is considered
    /// invalid.
    pub fn reset(&mut self)
        ensures
            final(self).wf(),
            final(self).used() == 0,
            final(self).bytes() == old(self).bytes(),
    {
        self.off = 0;
    }
}

} // verus!
