//! A bounds-checked cursor over a byte slice.
//!
//! The class-file parser consumes its input through this reader. Every read
//! states which bytes it returned and how far it advanced; a read past the
//! end fails with `VmError::MalformedClassFile` and leaves the position
//! unchanged.

use vstd::prelude::*;

use crate::err::VmError;
use crate::op::spec_be16;
use crate::op::spec_be32;
use crate::op::read_be16;
use crate::op::read_be32;

verus! {

/// The big-endian 64-bit value at `s[i]`..`s[i + 7]`.
pub open spec fn spec_be64(s: Seq<u8>, i: int) -> u64 {
    (spec_be32(s, i) * 0x100000000 + spec_be32(s, i + 4)) as u64
}

/// A position inside a byte slice.
pub struct Reader<'a> {
    pub buf: &'a [u8],
    pub pos: usize,
}

impl<'a> Reader<'a> {
    /// The position never passes the end of the buffer.
    pub open spec fn wf(&self) -> bool {
        self.pos <= self.buf@.len()
    }

    pub open spec fn remaining_spec(&self) -> int {
        self.buf@.len() - self.pos
    }

    pub fn new(buf: &'a [u8]) -> (r: Self)
        ensures
            r.wf(),
            r.buf@ == buf@,
            r.pos == 0,
    {
        Reader { buf, pos: 0 }
    }

    /// How many bytes are left to read.
    pub fn remaining(&self) -> (r: usize)
        requires
            self.wf(),
        ensures
            r == self.remaining_spec(),
    {
        self.buf.len() - self.pos
    }

    /// Whether the whole input has been consumed.
    pub fn done(&self) -> (r: bool)
        requires
            self.wf(),
        ensures
            r == (self.remaining_spec() == 0),
    {
        self.pos == self.buf.len()
    }

    pub fn read_u8(&mut self) -> (r: Result<u8, VmError>)
        requires
            old(self).wf(),
        ensures
            final(self).wf(),
            final(self).buf@ == old(self).buf@,
            r matches Ok(v) ==> old(self).remaining_spec() >= 1 && v == old(self).buf@[old(
                self,
            ).pos as int] && final(self).pos == old(self).pos + 1,
            r is Err ==> old(self).remaining_spec() < 1 && *final(self) == *old(self) && r
                == Err::<u8, VmError>(VmError::MalformedClassFile),
    {
        if self.buf.len() - self.pos < 1 {
            return Err(VmError::MalformedClassFile);
        }
        let v = self.buf[self.pos];
        self.pos = self.pos + 1;
        Ok(v)
    }

    pub fn read_u16(&mut self) -> (r: Result<u16, VmError>)
        requires
            old(self).wf(),
        ensures
            final(self).wf(),
            final(self).buf@ == old(self).buf@,
            r matches Ok(v) ==> old(self).remaining_spec() >= 2 && v == spec_be16(
                old(self).buf@,
                old(self).pos as int,
            ) && final(self).pos == old(self).pos + 2,
            r is Err ==> old(self).remaining_spec() < 2 && *final(self) == *old(self) && r
                == Err::<u16, VmError>(VmError::MalformedClassFile),
    {
        if self.buf.len() - self.pos < 2 {
            return Err(VmError::MalformedClassFile);
        }
        let v = read_be16(self.buf, self.pos);
        self.pos = self.pos + 2;
        Ok(v)
    }

    pub fn read_u32(&mut self) -> (r: Result<u32, VmError>)
        requires
            old(self).wf(),
        ensures
            final(self).wf(),
            final(self).buf@ == old(self).buf@,
            r matches Ok(v) ==> old(self).remaining_spec() >= 4 && v == spec_be32(
                old(self).buf@,
                old(self).pos as int,
            ) && final(self).pos == old(self).pos + 4,
            r is Err ==> old(self).remaining_spec() < 4 && *final(self) == *old(self) && r
                == Err::<u32, VmError>(VmError::MalformedClassFile),
    {
        if self.buf.len() - self.pos < 4 {
            return Err(VmError::MalformedClassFile);
        }
        let v = read_be32(self.buf, self.pos);
        self.pos = self.pos + 4;
        Ok(v)
    }

    pub fn read_u64(&mut self) -> (r: Result<u64, VmError>)
        requires
            old(self).wf(),
        ensures
            final(self).wf(),
            final(self).buf@ == old(self).buf@,
            r matches Ok(v) ==> old(self).remaining_spec() >= 8 && v == spec_be64(
                old(self).buf@,
                old(self).pos as int,
            ) && final(self).pos == old(self).pos + 8,
            r is Err ==> old(self).remaining_spec() < 8 && *final(self) == *old(self) && r
                == Err::<u64, VmError>(VmError::MalformedClassFile),
    {
        if self.buf.len() - self.pos < 8 {
            return Err(VmError::MalformedClassFile);
        }
        let hi = read_be32(self.buf, self.pos);
        let lo = read_be32(self.buf, self.pos + 4);
        self.pos = self.pos + 8;
        Ok(hi as u64 * 0x100000000 + lo as u64)
    }

    /// Read `n` bytes into an owned vector.
    pub fn take(&mut self, n: usize) -> (r: Result<Vec<u8>, VmError>)
        requires
            old(self).wf(),
        ensures
            final(self).wf(),
            final(self).buf@ == old(self).buf@,
            r matches Ok(v) ==> old(self).remaining_spec() >= n && v@ == old(self).buf@.subrange(
                old(self).pos as int,
                old(self).pos + n,
            ) && final(self).pos == old(self).pos + n,
            r is Err ==> old(self).remaining_spec() < n && *final(self) == *old(self) && r == Err::<
                Vec<u8>,
                VmError,
            >(VmError::MalformedClassFile),
    {
        if self.buf.len() - self.pos < n {
            return Err(VmError::MalformedClassFile);
        }
        let mut v: Vec<u8> = Vec::new();
        let mut k: usize = 0;
        while k < n
            invariant
                k <= n,
                self.wf(),
                self.pos + n <= self.buf@.len(),
                self.buf@.len() <= usize::MAX,
                v@ == self.buf@.subrange(self.pos as int, self.pos + k),
            decreases n - k,
        {
            let b = self.buf[self.pos + k];
            v.push(b);
            proof {
                assert(v@ =~= self.buf@.subrange(self.pos as int, self.pos + k + 1));
            }
            k = k + 1;
        }
        self.pos = self.pos + n;
        Ok(v)
    }

    /// Move to an absolute position.
    pub fn seek(&mut self, p: usize)
        requires
            old(self).wf(),
            p <= old(self).buf@.len(),
        ensures
            final(self).wf(),
            final(self).buf@ == old(self).buf@,
            final(self).pos == p,
    {
        self.pos = p;
    }

    /// Skip `n` bytes.
    pub fn skip(&mut self, n: usize) -> (r: Result<(), VmError>)
        requires
            old(self).wf(),
        ensures
            final(self).wf(),
            final(self).buf@ == old(self).buf@,
            r matches Ok(u) ==> old(self).remaining_spec() >= n && final(self).pos == old(self).pos
                + n,
            r is Err ==> old(self).remaining_spec() < n && *final(self) == *old(self) && r == Err::<
                (),
                VmError,
            >(VmError::MalformedClassFile),
    {
        if self.buf.len() - self.pos < n {
            return Err(VmError::MalformedClassFile);
        }
        self.pos = self.pos + n;
        Ok(())
    }
}

} // verus!
