//! Loading bytes into memory in the order in which they stand: the font when
//! a machine is made, and a program before it runs.

use vstd::prelude::*;
use crate::error::Chip8Error;
use crate::machine::PROGRAM_START;
use crate::memory::{overwrite, span_inside, Ram, MEMORY_SIZE};

verus! {

/// Memory `mem` after `bytes` was copied into it from `start` on, the first
/// byte at `start`; `OutOfBounds` if a byte would land outside.
pub open spec fn copied_into(mem: Seq<u8>, start: int, bytes: Seq<u8>) -> Result<
    Seq<u8>,
    Chip8Error,
> {
    if span_inside(mem.len(), start, bytes.len()) {
        Ok(overwrite(mem, start, bytes))
    } else {
        Err(Chip8Error::OutOfBounds)
    }
}

/// Copies `bytes` into memory from `start` on. Where a byte would land
/// outside memory nothing is written.
pub fn copy_into(memory: &mut Ram, start: usize, bytes: &Vec<u8>) -> (res: Result<(), Chip8Error>)
    requires
        old(memory).wf(),
    ensures
        final(memory).wf(),
        match copied_into(old(memory)@, start as int, bytes@) {
            Ok(mem) => res == Ok::<(), Chip8Error>(()) && final(memory)@ == mem,
            Err(e) => res == Err::<(), Chip8Error>(e) && final(memory)@ == old(memory)@,
        },
{
    let total: usize = bytes.len();
    if total == 0 {
        assert(memory@ =~= overwrite(memory@, start as int, bytes@));
        return Ok(());
    }
    if total > MEMORY_SIZE || start > MEMORY_SIZE - total {
        return Err(Chip8Error::OutOfBounds);
    }
    let mut k: usize = 0;
    while k < total
        invariant
            memory.wf(),
            k <= total,
            total == bytes@.len(),
            start + total <= MEMORY_SIZE,
            memory@ == overwrite(old(memory)@, start as int, bytes@.subrange(0, k as int)),
        decreases total - k,
    {
        match memory.write(start + k, bytes[k]) {
            Ok(()) => {},
            Err(e) => {
                return Err(e);
            },
        }
        k += 1;
        assert(memory@ =~= overwrite(old(memory)@, start as int, bytes@.subrange(0, k as int)));
    }
    assert(bytes@.subrange(0, total as int) =~= bytes@);
    Ok(())
}

/// Loads the program `rom` into memory, its first byte at `PROGRAM_START`.
/// A program that does not fit is refused, and nothing is written.
pub fn load_rom(memory: &mut Ram, rom: &Vec<u8>) -> (res: Result<(), Chip8Error>)
    requires
        old(memory).wf(),
    ensures
        final(memory).wf(),
        match copied_into(old(memory)@, PROGRAM_START as int, rom@) {
            Ok(mem) => res == Ok::<(), Chip8Error>(()) && final(memory)@ == mem,
            Err(e) => res == Err::<(), Chip8Error>(e) && final(memory)@ == old(memory)@,
        },
{
    copy_into(memory, PROGRAM_START as usize, rom)
}

} // verus!
