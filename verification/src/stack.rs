//! The shared scratch stack.
//!
//! One growable byte buffer is created by the top-level caller and threaded
//! by mutable reference through every nested interpreter instance; it is the
//! only state shared across calls. A stack pointer tracks the logical top:
//! pushes write at the stack pointer's offset (overwriting any bytes left
//! above it by earlier pops) and pops retreat it. Values are serialized
//! least-significant byte first.

use vstd::prelude::*;

use crate::bytebuf::bmut_at;
use crate::bytebuf::bmut_len;
use crate::bytebuf::bmut_put_u8;
use crate::bytebuf::bmut_seq;
use crate::bytebuf::bmut_truncate;
use crate::bytebuf::bmut_with_capacity;
use bytes::BytesMut;
use vstd::bytes::spec_u128_from_le_bytes;
use vstd::bytes::spec_u128_to_le_bytes;
use vstd::bytes::spec_u32_from_le_bytes;
use vstd::bytes::spec_u32_to_le_bytes;
use vstd::bytes::spec_u64_from_le_bytes;
use vstd::bytes::spec_u64_to_le_bytes;
use vstd::bytes::u128_from_le_bytes;
use vstd::bytes::u128_to_le_bytes;
use vstd::bytes::u32_from_le_bytes;
use vstd::bytes::u32_to_le_bytes;
use vstd::bytes::u64_from_le_bytes;
use vstd::bytes::u64_to_le_bytes;

verus! {

/// The scratch stack: a byte buffer plus the stack pointer marking its
/// logical top. Its view is the logical contents, the bytes below the stack
/// pointer.
pub struct ScratchStack {
    data: BytesMut,
    sp: usize,
}

impl View for ScratchStack {
    type V = Seq<u8>;

    closed spec fn view(&self) -> Seq<u8> {
        bmut_seq(self.data).take(self.sp as int)
    }
}

impl ScratchStack {
    /// The stack pointer never points past the bytes actually in the buffer.
    pub closed spec fn wf(&self) -> bool {
        self.sp <= bmut_seq(self.data).len()
    }

    /// Creates an empty scratch stack.
    pub fn new() -> (s: ScratchStack)
        ensures
            s.wf(),
            s@ == Seq::<u8>::empty(),
    {
        let s = ScratchStack { data: bmut_with_capacity(0xFF), sp: 0 };
        proof {
            assert(s@ =~= Seq::<u8>::empty());
        }
        s
    }

    /// The number of bytes below the stack pointer.
    pub fn len(&self) -> (r: usize)
        requires
            self.wf(),
        ensures
            r == self@.len(),
    {
        self.sp
    }

    /// Copies the logical contents out, bottom byte first.
    pub fn contents(&self) -> (r: Vec<u8>)
        requires
            self.wf(),
        ensures
            r@ == self@,
    {
        let mut out: Vec<u8> = Vec::new();
        let mut i: usize = 0;
        while i < self.sp
            invariant
                self.wf(),
                i <= self.sp,
                out@ =~= self@.take(i as int),
            decreases self.sp - i,
        {
            out.push(bmut_at(&self.data, i));
            i = i + 1;
        }
        proof {
            assert(self@.take(self.sp as int) =~= self@);
        }
        out
    }

    /// Writes one byte at the stack pointer, discarding any bytes above it,
    /// and advances the pointer.
    fn push_byte(&mut self, v: u8)
        requires
            old(self).wf(),
        ensures
            final(self).wf(),
            final(self)@ == old(self)@.push(v),
    {
        bmut_truncate(&mut self.data, self.sp);
        bmut_put_u8(&mut self.data, v);
        let n = bmut_len(&self.data);
        self.sp = n;
        proof {
            assert(self@ =~= old(self)@.push(v));
        }
    }

    /// Pushes `n` bytes from `bts` in order, starting at index 0.
    fn push_bytes(&mut self, bts: &Vec<u8>)
        requires
            old(self).wf(),
        ensures
            final(self).wf(),
            final(self)@ == old(self)@ + bts@,
    {
        let n = bts.len();
        let mut i: usize = 0;
        while i < n
            invariant
                self.wf(),
                i <= n,
                n == bts@.len(),
                self@ =~= old(self)@ + bts@.take(i as int),
            decreases n - i,
        {
            self.push_byte(bts[i]);
            proof {
                assert(old(self)@ + bts@.take(i as int + 1) =~= (old(self)@ + bts@.take(
                    i as int,
                )).push(bts@[i as int]));
            }
            i = i + 1;
        }
        proof {
            assert(old(self)@ + bts@.take(n as int) =~= old(self)@ + bts@);
        }
    }

    /// Copies the top `n` bytes, lowest address first, without moving the
    /// stack pointer.
    fn peek_bytes(&self, n: usize) -> (r: Vec<u8>)
        requires
            self.wf(),
            n <= self@.len(),
        ensures
            r@ == self@.skip(self@.len() - n as int),
    {
        let start = self.sp - n;
        let mut out: Vec<u8> = Vec::new();
        let mut i: usize = 0;
        while i < n
            invariant
                self.wf(),
                i <= n,
                n <= self.sp,
                start == self.sp - n,
                out@ =~= bmut_seq(self.data).subrange(start as int, start as int + i as int),
            decreases n - i,
        {
            out.push(bmut_at(&self.data, start + i));
            i = i + 1;
        }
        proof {
            assert(out@ =~= self@.skip(self@.len() - n as int));
        }
        out
    }

    /// Serializes a 32-bit value onto the stack, least-significant byte
    /// first.
    pub fn push_u32(&mut self, v: u32)
        requires
            old(self).wf(),
        ensures
            final(self).wf(),
            final(self)@ == old(self)@ + spec_u32_to_le_bytes(v),
    {
        let bts = u32_to_le_bytes(v);
        self.push_bytes(&bts);
    }

    /// Serializes a 64-bit value onto the stack, least-significant byte
    /// first.
    pub fn push_u64(&mut self, v: u64)
        requires
            old(self).wf(),
        ensures
            final(self).wf(),
            final(self)@ == old(self)@ + spec_u64_to_le_bytes(v),
    {
        let bts = u64_to_le_bytes(v);
        self.push_bytes(&bts);
    }

    /// Serializes a 128-bit value onto the stack, least-significant byte
    /// first.
    pub fn push_u128(&mut self, v: u128)
        requires
            old(self).wf(),
        ensures
            final(self).wf(),
            final(self)@ == old(self)@ + spec_u128_to_le_bytes(v),
    {
        let bts = u128_to_le_bytes(v);
        self.push_bytes(&bts);
    }

    /// Pops the top four bytes as a 32-bit value; `None` on underflow, with
    /// the stack unchanged.
    pub fn pop_u32(&mut self) -> (r: Option<u32>)
        requires
            old(self).wf(),
        ensures
            final(self).wf(),
            old(self)@.len() < 4 ==> r is None && final(self)@ == old(self)@,
            old(self)@.len() >= 4 ==> r == Some(
                spec_u32_from_le_bytes(old(self)@.skip(old(self)@.len() - 4)),
            ) && final(self)@ == old(self)@.take(old(self)@.len() - 4),
    {
        if self.sp < 4 {
            None
        } else {
            let bts = self.peek_bytes(4);
            let x = u32_from_le_bytes(bts.as_slice());
            self.sp = self.sp - 4;
            proof {
                assert(self@ =~= old(self)@.take(old(self)@.len() - 4));
            }
            Some(x)
        }
    }

    /// Pops the top eight bytes as a 64-bit value; `None` on underflow, with
    /// the stack unchanged.
    pub fn pop_u64(&mut self) -> (r: Option<u64>)
        requires
            old(self).wf(),
        ensures
            final(self).wf(),
            old(self)@.len() < 8 ==> r is None && final(self)@ == old(self)@,
            old(self)@.len() >= 8 ==> r == Some(
                spec_u64_from_le_bytes(old(self)@.skip(old(self)@.len() - 8)),
            ) && final(self)@ == old(self)@.take(old(self)@.len() - 8),
    {
        if self.sp < 8 {
            None
        } else {
            let bts = self.peek_bytes(8);
            let x = u64_from_le_bytes(bts.as_slice());
            self.sp = self.sp - 8;
            proof {
                assert(self@ =~= old(self)@.take(old(self)@.len() - 8));
            }
            Some(x)
        }
    }

    /// Pops the top sixteen bytes as a 128-bit value; `None` on underflow,
    /// with the stack unchanged.
    pub fn pop_u128(&mut self) -> (r: Option<u128>)
        requires
            old(self).wf(),
        ensures
            final(self).wf(),
            old(self)@.len() < 16 ==> r is None && final(self)@ == old(self)@,
            old(self)@.len() >= 16 ==> r == Some(
                spec_u128_from_le_bytes(old(self)@.skip(old(self)@.len() - 16)),
            ) && final(self)@ == old(self)@.take(old(self)@.len() - 16),
    {
        if self.sp < 16 {
            None
        } else {
            let bts = self.peek_bytes(16);
            let x = u128_from_le_bytes(bts.as_slice());
            self.sp = self.sp - 16;
            proof {
                assert(self@ =~= old(self)@.take(old(self)@.len() - 16));
            }
            Some(x)
        }
    }
}

} // verus!
