//! The just-in-time loader's buffer, modelled as a bounds-checked contiguous
//! byte region: page-multiple size, a monotone write cursor, every byte
//! pre-filled with the one-byte return opcode so an unwritten region is a safe
//! immediate return, and the reserved variable-storage and output-staging
//! sub-regions zero-filled. Obtaining executable backing memory for these
//! bytes, and reinterpreting their base as a callable routine, is the
//! embedder's business; the loading discipline itself is here.

use vstd::prelude::*;

verus! {

/// Start of the reserved variable-storage region within the buffer.
pub const VARIABLE_OFFSET: usize = 1000;

/// Size in bytes of the reserved variable-storage region.
pub const VARIABLE_MEMORY_SIZE: usize = 1000;

/// Start of the reserved output-staging region within the buffer.
pub const OUTPUT_OFFSET: usize = 2000;

/// Size in bytes of the output-staging region (one 64-bit slot).
pub const OUTPUT_STAGING_SIZE: usize = 8;

/// The one-byte return opcode the buffer is pre-filled with.
pub const RET_OPCODE: u8 = 0xc3;

/// What a freshly allocated buffer holds at offset `i`: zero inside the two
/// reserved sub-regions, the return opcode everywhere else.
pub open spec fn fresh_byte(i: int) -> u8 {
    if VARIABLE_OFFSET <= i < VARIABLE_OFFSET + VARIABLE_MEMORY_SIZE {
        0u8
    } else if OUTPUT_OFFSET <= i < OUTPUT_OFFSET + OUTPUT_STAGING_SIZE {
        0u8
    } else {
        RET_OPCODE
    }
}

/// Failure of a buffer operation: the write would run past the allocated
/// size.
#[derive(Debug, Clone, Copy, PartialEq, Eq, Structural)]
pub enum JitError {
    BufferFull,
}

/// An exclusively owned, page-multiple byte region with a monotone write
/// cursor. The view is the byte contents; `cursor()` is the write position.
pub struct JitMemory {
    contents: Vec<u8>,
    counter: usize,
}

impl View for JitMemory {
    type V = Seq<u8>;

    closed spec fn view(&self) -> Seq<u8> {
        self.contents@
    }
}

impl JitMemory {
    /// The write cursor: how many bytes have been loaded so far.
    pub closed spec fn cursor(&self) -> int {
        self.counter as int
    }

    /// The buffer's standing invariant: the cursor never exceeds the
    /// allocated size, and the size is a whole multiple of the page size and
    /// large enough to hold both reserved sub-regions.
    pub open spec fn wf(&self) -> bool {
        &&& 0 <= self.cursor() <= self@.len()
        &&& (self@.len() as int) % (crate::PAGE_SIZE as int) == 0
        &&& self@.len() >= OUTPUT_OFFSET + OUTPUT_STAGING_SIZE
    }

    /// Allocates a buffer of `num_pages` pages: cursor at zero, reserved
    /// sub-regions zeroed, every other byte the return opcode.
    pub fn new(num_pages: usize) -> (r: JitMemory)
        requires
            1 <= num_pages,
            num_pages * crate::PAGE_SIZE <= usize::MAX,
        ensures
            r.wf(),
            r.cursor() == 0,
            r@.len() == num_pages * crate::PAGE_SIZE,
            forall|i: int| 0 <= i < r@.len() ==> r@[i] == fresh_byte(i),
    {
        let size: usize = num_pages * crate::PAGE_SIZE;
        let mut contents: Vec<u8> = Vec::new();
        let mut i: usize = 0;
        while i < size
            invariant
                i <= size,
                contents@.len() == i,
                forall|j: int| 0 <= j < i ==> contents@[j] == fresh_byte(j),
            decreases size - i,
        {
            let byte: u8 = if VARIABLE_OFFSET <= i && i < VARIABLE_OFFSET + VARIABLE_MEMORY_SIZE {
                0u8
            } else if OUTPUT_OFFSET <= i && i < OUTPUT_OFFSET + OUTPUT_STAGING_SIZE {
                0u8
            } else {
                RET_OPCODE
            };
            contents.push(byte);
            i = i + 1;
        }
        proof {
            assert(size as int % (crate::PAGE_SIZE as int) == 0) by {
                vstd::arithmetic::div_mod::lemma_mod_multiples_basic(
                    num_pages as int,
                    crate::PAGE_SIZE as int,
                );
            };
        }
        JitMemory { contents, counter: 0 }
    }

    /// How many bytes the buffer holds in all.
    pub fn size(&self) -> (r: usize)
        ensures
            r == self@.len(),
    {
        self.contents.len()
    }

    /// The current write position.
    pub fn loaded(&self) -> (r: usize)
        ensures
            r == self.cursor(),
    {
        self.counter
    }

    /// The byte at offset `i`.
    pub fn read(&self, i: usize) -> (r: u8)
        requires
            i < self@.len(),
        ensures
            r == self@[i as int],
    {
        self.contents[i]
    }

    /// The whole byte region, for an embedder to copy into executable memory.
    pub fn bytes(&self) -> (r: &Vec<u8>)
        ensures
            r@ == self@,
    {
        &self.contents
    }

    /// Writes one byte at the cursor and advances it; rejects the write,
    /// leaving the buffer untouched, if the cursor has reached the allocated
    /// size.
    pub fn add(&mut self, byte: u8) -> (r: Result<(), JitError>)
        requires
            old(self).wf(),
        ensures
            final(self).wf(),
            old(self).cursor() < old(self)@.len() ==> {
                &&& r is Ok
                &&& final(self)@ == old(self)@.update(old(self).cursor(), byte)
                &&& final(self).cursor() == old(self).cursor() + 1
            },
            old(self).cursor() >= old(self)@.len() ==> {
                &&& r is Err
                &&& final(self)@ == old(self)@
                &&& final(self).cursor() == old(self).cursor()
            },
    {
        if self.counter < self.contents.len() {
            let c = self.counter;
            self.contents.set(c, byte);
            self.counter = c + 1;
            Ok(())
        } else {
            Err(JitError::BufferFull)
        }
    }

    /// Loads a byte sequence at the cursor, advancing it; rejects the whole
    /// append, leaving the buffer untouched, if it would exceed the allocated
    /// size.
    pub fn append(&mut self, bytes: &[u8]) -> (r: Result<(), JitError>)
        requires
            old(self).wf(),
        ensures
            final(self).wf(),
            old(self).cursor() + bytes@.len() <= old(self)@.len() ==> {
                &&& r is Ok
                &&& final(self)@.len() == old(self)@.len()
                &&& final(self).cursor() == old(self).cursor() + bytes@.len()
                &&& forall|i: int|
                    0 <= i < bytes@.len() ==> final(self)@[old(self).cursor() + i] == bytes@[i]
                &&& forall|i: int|
                    0 <= i < old(self)@.len() && !(old(self).cursor() <= i < old(self).cursor()
                        + bytes@.len()) ==> final(self)@[i] == old(self)@[i]
            },
            old(self).cursor() + bytes@.len() > old(self)@.len() ==> {
                &&& r is Err
                &&& final(self)@ == old(self)@
                &&& final(self).cursor() == old(self).cursor()
            },
    {
        if bytes.len() > self.contents.len() - self.counter {
            return Err(JitError::BufferFull);
        }
        let limit: usize = self.counter + bytes.len();
        let mut i: usize = 0;
        while i < bytes.len()
            invariant
                old(self).wf(),
                i <= bytes@.len(),
                old(self).cursor() + bytes@.len() <= old(self)@.len(),
                self.counter == old(self).cursor() + i,
                limit == old(self).cursor() + bytes@.len(),
                self.counter <= limit,
                self.contents@.len() == old(self)@.len(),
                forall|j: int| 0 <= j < i ==> self.contents@[old(self).cursor() + j] == bytes@[j],
                forall|j: int|
                    0 <= j < old(self)@.len() && !(old(self).cursor() <= j < old(self).cursor()
                        + i) ==> self.contents@[j] == old(self)@[j],
            decreases bytes@.len() - i,
        {
            let c = self.counter;
            self.contents.set(c, bytes[i]);
            self.counter = c + 1;
            i = i + 1;
        }
        Ok(())
    }
}

/// A freshly allocated, unloaded buffer is safe to invoke: its entry byte,
/// and every byte outside the reserved data sub-regions, is the return
/// opcode, so execution started at the base returns immediately.
pub proof fn lemma_unloaded_buffer_returns(jit: JitMemory)
    requires
        jit.wf(),
        jit.cursor() == 0,
        forall|i: int| 0 <= i < jit@.len() ==> jit@[i] == fresh_byte(i),
    ensures
        jit@[0] == RET_OPCODE,
        forall|i: int|
            0 <= i < jit@.len() && !(VARIABLE_OFFSET <= i < VARIABLE_OFFSET
                + VARIABLE_MEMORY_SIZE) && !(OUTPUT_OFFSET <= i < OUTPUT_OFFSET
                + OUTPUT_STAGING_SIZE) ==> jit@[i] == RET_OPCODE,
{
    assert(jit@[0] == fresh_byte(0));
    assert forall|i: int|
        0 <= i < jit@.len() && !(VARIABLE_OFFSET <= i < VARIABLE_OFFSET + VARIABLE_MEMORY_SIZE)
            && !(OUTPUT_OFFSET <= i < OUTPUT_OFFSET
            + OUTPUT_STAGING_SIZE) implies jit@[i] == RET_OPCODE by {
        assert(jit@[i] == fresh_byte(i));
    };
}

} // verus!
