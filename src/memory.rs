use vstd::prelude::*;

verus! {

/// Number of addressable bytes.
pub const MEMORY_SIZE: usize = 4096;

/// The one way a memory access can fail.
#[derive(Clone, Copy, Debug, PartialEq, Eq, Structural)]
pub enum MemoryError {
    /// The access reaches past the last address.
    OutOfBounds,
}

/// A byte-addressable store of exactly `MEMORY_SIZE` bytes.
pub struct Memory {
    data: Vec<u8>,
}

impl View for Memory {
    type V = Seq<u8>;

    closed spec fn view(&self) -> Seq<u8> {
        self.data@
    }
}

/// The bytes of `mem` with `bytes` written from `start` on.
pub open spec fn copied_in(mem: Seq<u8>, start: int, bytes: Seq<u8>) -> Seq<u8> {
    Seq::new(
        mem.len(),
        |a: int|
            if start <= a < start + bytes.len() {
                bytes[a - start]
            } else {
                mem[a]
            },
    )
}

impl Memory {
    /// Well-formedness: the store has exactly `MEMORY_SIZE` bytes.
    pub open spec fn wf(&self) -> bool {
        self@.len() == MEMORY_SIZE
    }

    /// A store of `MEMORY_SIZE` bytes, all zero.
    pub fn new() -> (r: Memory)
        ensures
            r.wf(),
            r@ == Seq::new(MEMORY_SIZE as nat, |a: int| 0u8),
    {
        let mut data: Vec<u8> = Vec::new();
        let mut a: usize = 0;
        while a < MEMORY_SIZE
            invariant
                a <= MEMORY_SIZE,
                data@ == Seq::new(a as nat, |i: int| 0u8),
            decreases MEMORY_SIZE - a,
        {
            data.push(0);
            a = a + 1;
        }
        Memory { data }
    }

    /// The byte at `address`, or `OutOfBounds` when `address >= MEMORY_SIZE`.
    pub fn read(&self, address: usize) -> (r: Result<u8, MemoryError>)
        requires
            self.wf(),
        ensures
            address < MEMORY_SIZE ==> r == Ok::<u8, MemoryError>(self@[address as int]),
            address >= MEMORY_SIZE ==> r == Err::<u8, MemoryError>(MemoryError::OutOfBounds),
    {
        if address < self.data.len() {
            Ok(self.data[address])
        } else {
            Err(MemoryError::OutOfBounds)
        }
    }

    /// Stores `value` at `address`; out of range, nothing changes and
    /// `OutOfBounds` is returned.
    pub fn write(&mut self, address: usize, value: u8) -> (r: Result<(), MemoryError>)
        requires
            old(self).wf(),
        ensures
            final(self).wf(),
            address < MEMORY_SIZE ==> r is Ok && final(self)@ == old(self)@.update(
                address as int,
                value,
            ),
            address >= MEMORY_SIZE ==> r == Err::<(), MemoryError>(MemoryError::OutOfBounds)
                && final(self)@ == old(self)@,
    {
        if address < self.data.len() {
            self.data.set(address, value);
            Ok(())
        } else {
            Err(MemoryError::OutOfBounds)
        }
    }

    /// Writes `bytes` as a contiguous run from `start` on. When the run would
    /// reach past the last address nothing changes and `OutOfBounds` is
    /// returned.
    pub fn copy_in(&mut self, start: usize, bytes: &[u8]) -> (r: Result<(), MemoryError>)
        requires
            old(self).wf(),
        ensures
            final(self).wf(),
            start + bytes@.len() <= MEMORY_SIZE ==> r is Ok && final(self)@ == copied_in(
                old(self)@,
                start as int,
                bytes@,
            ),
            start + bytes@.len() > MEMORY_SIZE ==> r == Err::<(), MemoryError>(
                MemoryError::OutOfBounds,
            ) && final(self)@ == old(self)@,
    {
        if start > MEMORY_SIZE || bytes.len() > MEMORY_SIZE - start {
            return Err(MemoryError::OutOfBounds);
        }
        let mut k: usize = 0;
        while k < bytes.len()
            invariant
                self.wf(),
                start + bytes@.len() <= MEMORY_SIZE,
                k <= bytes@.len(),
                self@ == copied_in(old(self)@, start as int, bytes@.subrange(0, k as int)),
            decreases bytes@.len() - k,
        {
            self.data.set(start + k, bytes[k]);
            k = k + 1;
            assert(self@ =~= copied_in(old(self)@, start as int, bytes@.subrange(0, k as int)));
        }
        assert(bytes@.subrange(0, k as int) =~= bytes@);
        Ok(())
    }

    /// The whole store, address by address.
    pub fn as_slice(&self) -> (r: &[u8])
        ensures
            r@ == self@,
    {
        self.data.as_slice()
    }
}

/// Writes `data` into `dest` from `location` on; see `Memory::copy_in`.
pub fn write_into(data: &[u8], dest: &mut Memory, location: u16) -> (r: Result<(), MemoryError>)
    requires
        old(dest).wf(),
    ensures
        final(dest).wf(),
        location + data@.len() <= MEMORY_SIZE ==> r is Ok && final(dest)@ == copied_in(
            old(dest)@,
            location as int,
            data@,
        ),
        location + data@.len() > MEMORY_SIZE ==> r == Err::<(), MemoryError>(
            MemoryError::OutOfBounds,
        ) && final(dest)@ == old(dest)@,
{
    dest.copy_in(location as usize, data)
}

/// The byte of `source` at `location`; see `Memory::read`.
pub fn read_from(source: &Memory, location: u16) -> (r: Result<u8, MemoryError>)
    requires
        source.wf(),
    ensures
        location < MEMORY_SIZE ==> r == Ok::<u8, MemoryError>(source@[location as int]),
        location >= MEMORY_SIZE ==> r == Err::<u8, MemoryError>(MemoryError::OutOfBounds),
{
    source.read(location as usize)
}

} // verus!
