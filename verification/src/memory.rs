//! The machine's memory: 4096 bytes, every access checked against the bounds.

use vstd::prelude::*;
use crate::error::Chip8Error;

verus! {

/// The number of bytes of memory.
pub const MEMORY_SIZE: usize = 4096;

/// The span that a sequential read must have in front of it, whatever the
/// number of bytes asked for. This is a historical bound and is kept as it is.
pub const SEQ_READ_SPAN: usize = 16;

/// What a read of `loc` gives in memory `mem`.
pub open spec fn read_at(mem: Seq<u8>, loc: int) -> Result<u8, Chip8Error> {
    if 0 <= loc < mem.len() {
        Ok(mem[loc])
    } else {
        Err(Chip8Error::OutOfBounds)
    }
}

/// Memory `mem` after a write of `x` to `loc`.
pub open spec fn written(mem: Seq<u8>, loc: int, x: u8) -> Result<Seq<u8>, Chip8Error> {
    if 0 <= loc < mem.len() {
        Ok(mem.update(loc, x))
    } else {
        Err(Chip8Error::OutOfBounds)
    }
}

/// `mem` with `bytes` laid over it from `start` on; the rest is kept.
pub open spec fn overwrite(mem: Seq<u8>, start: int, bytes: Seq<u8>) -> Seq<u8> {
    Seq::new(
        mem.len(),
        |i: int|
            if start <= i < start + bytes.len() {
                bytes[i - start]
            } else {
                mem[i]
            },
    )
}

/// Whether the `len` bytes from `start` on all lie inside a memory of `size`
/// bytes. A span of no bytes touches nothing and lies inside wherever it starts.
pub open spec fn span_inside(size: nat, start: int, len: nat) -> bool {
    len == 0 || (0 <= start && start + len <= size)
}

/// What a sequential read of `entries` bytes from `start` gives in `mem`.
///
/// It fails when fewer than `SEQ_READ_SPAN` bytes lie between `start` and the
/// end of memory, even if fewer were asked for, and when a byte asked for lies
/// past the end.
pub open spec fn read_span(mem: Seq<u8>, start: int, entries: nat) -> Result<Seq<u8>, Chip8Error> {
    if 0 <= start && start + SEQ_READ_SPAN <= mem.len() && span_inside(mem.len(), start, entries) {
        Ok(mem.subrange(start, start + entries))
    } else {
        Err(Chip8Error::OutOfBounds)
    }
}

/// Memory `mem` after `regs` was drained into it from `start` on. The last
/// element of `regs` lands at `start`, the one before it at `start + 1`, and
/// so on.
pub open spec fn drained_into(mem: Seq<u8>, start: int, regs: Seq<u8>) -> Result<
    Seq<u8>,
    Chip8Error,
> {
    if span_inside(mem.len(), start, regs.len()) {
        Ok(overwrite(mem, start, regs.reverse()))
    } else {
        Err(Chip8Error::OutOfBounds)
    }
}

/// The hundreds, tens and ones digit of `value`, in this order.
pub open spec fn bcd(value: u8) -> Seq<u8> {
    seq![value / 100, ((value % 100) / 10) as u8, value % 10]
}

/// Memory `mem` after the three decimal digits of `value` were written to
/// `start`, `start + 1` and `start + 2`.
pub open spec fn bcd_written(mem: Seq<u8>, start: int, value: u8) -> Result<Seq<u8>, Chip8Error> {
    if span_inside(mem.len(), start, 3) {
        Ok(overwrite(mem, start, bcd(value)))
    } else {
        Err(Chip8Error::OutOfBounds)
    }
}

/// Memory `mem` after the bytes at `l1` and `l2` changed places.
pub open spec fn swapped(mem: Seq<u8>, l1: int, l2: int) -> Result<Seq<u8>, Chip8Error> {
    if 0 <= l1 < mem.len() && 0 <= l2 < mem.len() {
        Ok(mem.update(l1, mem[l2]).update(l2, mem[l1]))
    } else {
        Err(Chip8Error::OutOfBounds)
    }
}

/// The memory of one machine.
pub struct Ram {
    r: Vec<u8>,
}

impl View for Ram {
    type V = Seq<u8>;

    /// The bytes of memory, by address.
    closed spec fn view(&self) -> Seq<u8> {
        self.r@
    }
}

impl Ram {
    /// Memory always has `MEMORY_SIZE` bytes.
    pub open spec fn wf(&self) -> bool {
        self@.len() == MEMORY_SIZE
    }

    /// A memory of 4096 bytes, all zero.
    pub fn new() -> (ram: Ram)
        ensures
            ram.wf(),
            ram@ == Seq::new(MEMORY_SIZE as nat, |i: int| 0u8),
    {
        let mut r: Vec<u8> = Vec::with_capacity(MEMORY_SIZE);
        let mut i: usize = 0;
        while i < MEMORY_SIZE
            invariant
                i <= MEMORY_SIZE,
                r@.len() == i,
                forall|j: int| 0 <= j < i ==> r@[j] == 0u8,
            decreases MEMORY_SIZE - i,
        {
            r.push(0);
            i += 1;
        }
        Ram { r }
    }

    /// Writes one byte to `loc`, or fails and leaves the memory as it was.
    pub fn write(&mut self, loc: usize, x: u8) -> (res: Result<(), Chip8Error>)
        requires
            old(self).wf(),
        ensures
            final(self).wf(),
            match written(old(self)@, loc as int, x) {
                Ok(mem) => res == Ok::<(), Chip8Error>(()) && final(self)@ == mem,
                Err(e) => res == Err::<(), Chip8Error>(e) && final(self)@ == old(self)@,
            },
    {
        if loc >= MEMORY_SIZE {
            return Err(Chip8Error::OutOfBounds);
        }
        self.r.set(loc, x);
        Ok(())
    }

    /// The byte at `loc`.
    pub fn read(&self, loc: usize) -> (res: Result<u8, Chip8Error>)
        requires
            self.wf(),
        ensures
            res == read_at(self@, loc as int),
    {
        if loc >= MEMORY_SIZE {
            return Err(Chip8Error::OutOfBounds);
        }
        Ok(self.r[loc])
    }

    /// The `entries` bytes from `start_addr` on, in the order of their
    /// addresses.
    pub fn read_seq(&self, start_addr: usize, entries: usize) -> (res: Result<Vec<u8>, Chip8Error>)
        requires
            self.wf(),
        ensures
            match read_span(self@, start_addr as int, entries as nat) {
                Ok(bytes) => res is Ok && res->Ok_0@ == bytes,
                Err(e) => res is Err && res->Err_0 == e,
            },
    {
        if start_addr > MEMORY_SIZE - SEQ_READ_SPAN {
            return Err(Chip8Error::OutOfBounds);
        }
        if entries > MEMORY_SIZE - start_addr {
            return Err(Chip8Error::OutOfBounds);
        }
        let mut ret: Vec<u8> = Vec::new();
        let mut i: usize = 0;
        while i < entries
            invariant
                self.wf(),
                i <= entries,
                start_addr + entries <= MEMORY_SIZE,
                ret@ == self@.subrange(start_addr as int, start_addr + i),
            decreases entries - i,
        {
            ret.push(self.r[start_addr + i]);
            i += 1;
        }
        Ok(ret)
    }

    /// Drains `regs` into memory from `start_addr` on, the last element
    /// first, and leaves `regs` empty. A caller that wants its bytes to land
    /// in their own order hands them over reversed.
    ///
    /// Where a byte would land outside memory nothing is written and `regs`
    /// is left as it was.
    pub fn write_seq(&mut self, start_addr: usize, regs: &mut Vec<u8>) -> (res: Result<
        (),
        Chip8Error,
    >)
        requires
            old(self).wf(),
        ensures
            final(self).wf(),
            match drained_into(old(self)@, start_addr as int, old(regs)@) {
                Ok(mem) => res == Ok::<(), Chip8Error>(()) && final(self)@ == mem && final(regs)@
                    == Seq::<u8>::empty(),
                Err(e) => res == Err::<(), Chip8Error>(e) && final(self)@ == old(self)@
                    && final(regs)@ == old(regs)@,
            },
    {
        let total: usize = regs.len();
        if total == 0 {
            return Ok(());
        }
        if total > MEMORY_SIZE || start_addr > MEMORY_SIZE - total {
            return Err(Chip8Error::OutOfBounds);
        }
        let mut i: usize = 0;
        while i < total
            invariant
                self.wf(),
                i <= total,
                total == old(regs)@.len(),
                start_addr + total <= MEMORY_SIZE,
                regs@ == old(regs)@.subrange(0, total - i),
                self@ == overwrite(
                    old(self)@,
                    start_addr as int,
                    old(regs)@.reverse().subrange(0, i as int),
                ),
            decreases total - i,
        {
            let value: u8 = regs.pop().unwrap();
            self.r.set(start_addr + i, value);
            i += 1;
        }
        Ok(())
    }

    /// Writes the hundreds, tens and ones digit of `value` to `start_addr`
    /// and the two bytes after it. Where one of the three lies outside
    /// memory nothing is written.
    pub fn write_bcd(&mut self, start_addr: usize, value: u8) -> (res: Result<(), Chip8Error>)
        requires
            old(self).wf(),
        ensures
            final(self).wf(),
            match bcd_written(old(self)@, start_addr as int, value) {
                Ok(mem) => res == Ok::<(), Chip8Error>(()) && final(self)@ == mem,
                Err(e) => res == Err::<(), Chip8Error>(e) && final(self)@ == old(self)@,
            },
    {
        if start_addr > MEMORY_SIZE - 3 {
            return Err(Chip8Error::OutOfBounds);
        }
        let hundreds: u8 = value / 100;
        let tens: u8 = (value % 100) / 10;
        let ones: u8 = value % 10;
        self.r.set(start_addr, hundreds);
        self.r.set(start_addr + 1, tens);
        self.r.set(start_addr + 2, ones);
        Ok(())
    }

    /// Exchanges the bytes at `l1` and `l2`.
    pub fn swap(&mut self, l1: usize, l2: usize) -> (res: Result<(), Chip8Error>)
        requires
            old(self).wf(),
        ensures
            final(self).wf(),
            match swapped(old(self)@, l1 as int, l2 as int) {
                Ok(mem) => res == Ok::<(), Chip8Error>(()) && final(self)@ == mem,
                Err(e) => res == Err::<(), Chip8Error>(e) && final(self)@ == old(self)@,
            },
    {
        if l1 >= MEMORY_SIZE || l2 >= MEMORY_SIZE {
            return Err(Chip8Error::OutOfBounds);
        }
        let t1: u8 = self.r[l1];
        let t2: u8 = self.r[l2];
        self.r.set(l1, t2);
        self.r.set(l2, t1);
        Ok(())
    }
}

/// A byte written to an address is the byte read back from that address, and
/// every other address reads as before. Outside the memory both the write and
/// the read fail.
pub proof fn write_then_read(mem: Seq<u8>, loc: int, x: u8)
    requires
        mem.len() == MEMORY_SIZE,
    ensures
        0 <= loc < MEMORY_SIZE ==> written(mem, loc, x) is Ok && read_at(
            written(mem, loc, x)->Ok_0,
            loc,
        ) == Ok::<u8, Chip8Error>(x),
        0 <= loc < MEMORY_SIZE ==> forall|other: int|
            other != loc ==> read_at(written(mem, loc, x)->Ok_0, other) == read_at(mem, other),
        loc >= MEMORY_SIZE || loc < 0 ==> written(mem, loc, x) == Err::<Seq<u8>, Chip8Error>(
            Chip8Error::OutOfBounds,
        ) && read_at(mem, loc) == Err::<u8, Chip8Error>(Chip8Error::OutOfBounds),
{
}

/// The three bytes of `bcd(value)` are decimal digits, and read as a decimal
/// number they give `value` back.
pub proof fn bcd_is_decimal(value: u8)
    ensures
        bcd(value).len() == 3,
        bcd(value)[0] == value / 100,
        bcd(value)[1] == (value / 10) % 10,
        bcd(value)[2] == value % 10,
        bcd(value)[0] < 10 && bcd(value)[1] < 10 && bcd(value)[2] < 10,
        100 * bcd(value)[0] + 10 * bcd(value)[1] + bcd(value)[2] == value,
{
}

/// After the digits of `value` were written to `start`, the hundreds digit
/// is read at `start`, the tens digit at `start + 1` and the ones digit at
/// `start + 2`, and all other addresses read as before.
pub proof fn bcd_then_read(mem: Seq<u8>, start: int, value: u8)
    requires
        mem.len() == MEMORY_SIZE,
        0 <= start,
        start + 2 < MEMORY_SIZE,
    ensures
        bcd_written(mem, start, value) is Ok,
        read_at(bcd_written(mem, start, value)->Ok_0, start) == Ok::<u8, Chip8Error>(value / 100),
        read_at(bcd_written(mem, start, value)->Ok_0, start + 1) == Ok::<u8, Chip8Error>(
            ((value / 10) % 10) as u8,
        ),
        read_at(bcd_written(mem, start, value)->Ok_0, start + 2) == Ok::<u8, Chip8Error>(
            value % 10,
        ),
        forall|other: int|
            !(start <= other <= start + 2) ==> read_at(
                bcd_written(mem, start, value)->Ok_0,
                other,
            ) == read_at(mem, other),
{
}

/// What was drained into memory from `start` on is read back from there by a
/// sequential read as the reverse of what was handed over.
pub proof fn drain_then_read_span(mem: Seq<u8>, start: int, regs: Seq<u8>)
    requires
        mem.len() == MEMORY_SIZE,
        0 <= start,
        start + SEQ_READ_SPAN <= MEMORY_SIZE,
        start + regs.len() <= MEMORY_SIZE,
    ensures
        drained_into(mem, start, regs) is Ok,
        read_span(drained_into(mem, start, regs)->Ok_0, start, regs.len()) == Ok::<
            Seq<u8>,
            Chip8Error,
        >(regs.reverse()),
{
    let after = drained_into(mem, start, regs)->Ok_0;
    assert(after.subrange(start, start + regs.len()) =~= regs.reverse());
}

} // verus!
