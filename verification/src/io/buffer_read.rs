//! A source of bytes that is read through a buffer.

use vstd::prelude::*;

verus! {

/// A source of bytes that hands its bytes out in pieces.
pub trait BufferRead {
    /// The bytes that have not been consumed yet.
    spec fn remaining(&self) -> Seq<u8>;

    /// The number of bytes at the front of `remaining` that are in the
    /// buffer.
    spec fn buffered(&self) -> nat;

    /// The bytes that are left are no more than a `usize` counts.
    proof fn lemma_remaining_bounded(&self)
        ensures
            self.remaining().len() <= usize::MAX,
    ;

    /// Puts bytes into the buffer, if it holds none, and returns how many
    /// it holds: none only where the source is at its end.
    fn fill_buf(&mut self) -> (n: usize)
        ensures
            final(self).remaining() == old(self).remaining(),
            final(self).remaining().len() <= usize::MAX,
            final(self).buffered() == n,
            n <= final(self).remaining().len(),
            (n == 0) == (final(self).remaining().len() == 0),
    ;

    /// The byte at position `index` of the buffer.
    fn peek(&self, index: usize) -> (b: u8)
        requires
            index < self.buffered(),
            self.buffered() <= self.remaining().len(),
        ensures
            b == self.remaining()[index as int],
    ;

    /// Takes the first `amt` bytes of the buffer out of the source.
    fn consume(&mut self, amt: usize)
        requires
            amt <= old(self).buffered(),
            old(self).buffered() <= old(self).remaining().len(),
        ensures
            final(self).remaining() == old(self).remaining().skip(amt as int),
            final(self).buffered() == old(self).buffered() - amt,
    ;
}

/// Bytes in memory, read through a buffer of a fixed size.
pub struct BufferReader {
    data: Vec<u8>,
    position: usize,
    capacity: usize,
    filled: usize,
}

impl BufferReader {
    #[verifier::type_invariant]
    spec fn well_formed(self) -> bool {
        &&& self.position <= self.data.len()
        &&& self.capacity >= 1
        &&& self.filled <= self.data.len() - self.position
    }

    /// A reader of `data` whose buffer holds `capacity` bytes, and one byte
    /// where `capacity` is 0.
    pub fn new(data: Vec<u8>, capacity: usize) -> (r: BufferReader)
        ensures
            r.remaining() == data@,
    {
        let r = BufferReader { data, position: 0, capacity: if capacity == 0 { 1 } else { capacity }, filled: 0 };
        assert(r.data@.skip(0) =~= data@);
        r
    }
}

impl BufferRead for BufferReader {
    closed spec fn remaining(&self) -> Seq<u8> {
        if self.position <= self.data.len() {
            self.data@.skip(self.position as int)
        } else {
            Seq::empty()
        }
    }

    proof fn lemma_remaining_bounded(&self) {
    }

    closed spec fn buffered(&self) -> nat {
        self.filled as nat
    }

    fn fill_buf(&mut self) -> (n: usize) {
        proof {
            use_type_invariant(&*self);
        }
        if self.filled == 0 {
            let left = self.data.len() - self.position;
            self.filled = if left < self.capacity { left } else { self.capacity };
        }
        self.filled
    }

    fn peek(&self, index: usize) -> (b: u8) {
        proof {
            use_type_invariant(self);
        }
        self.data[self.position + index]
    }

    fn consume(&mut self, amt: usize) {
        proof {
            use_type_invariant(&*self);
        }
        let ghost before = self.remaining();
        self.filled = self.filled - amt;
        self.position = self.position + amt;
        assert(self.data@.skip(self.position as int) =~= before.skip(amt as int));
    }
}

} // verus!
