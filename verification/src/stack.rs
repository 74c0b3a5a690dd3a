//! The call stack: at most sixteen return addresses, last in, first out.

use vstd::prelude::*;
use crate::error::Chip8Error;

verus! {

/// The number of return addresses the stack can hold.
pub const STACK_DEPTH: usize = 16;

/// The stack `stack` (oldest address first) after a push of `v`.
pub open spec fn pushed(stack: Seq<u16>, v: u16) -> Result<Seq<u16>, Chip8Error> {
    if stack.len() < STACK_DEPTH {
        Ok(stack.push(v))
    } else {
        Err(Chip8Error::StackOverflow)
    }
}

/// The address that a pop takes from `stack`, and the stack that is left.
pub open spec fn popped(stack: Seq<u16>) -> Result<(u16, Seq<u16>), Chip8Error> {
    if stack.len() > 0 {
        Ok((stack.last(), stack.drop_last()))
    } else {
        Err(Chip8Error::StackUnderflow)
    }
}

/// The stack after the addresses of `items` were pushed one after the other,
/// the first of them first. The first push that fails ends it.
pub open spec fn pushed_all(stack: Seq<u16>, items: Seq<u16>) -> Result<Seq<u16>, Chip8Error>
    decreases items.len(),
{
    if items.len() == 0 {
        Ok(stack)
    } else {
        match pushed(stack, items.first()) {
            Ok(next) => pushed_all(next, items.drop_first()),
            Err(e) => Err(e),
        }
    }
}

/// The addresses that `n` pops take from `stack`, in the order in which they
/// come off, and the stack that is left. The first pop that fails ends it.
pub open spec fn popped_times(stack: Seq<u16>, n: nat) -> Result<(Seq<u16>, Seq<u16>), Chip8Error>
    decreases n,
{
    if n == 0 {
        Ok((Seq::<u16>::empty(), stack))
    } else {
        match popped(stack) {
            Ok((top, rest)) => match popped_times(rest, (n - 1) as nat) {
                Ok((taken, left)) => Ok((seq![top] + taken, left)),
                Err(e) => Err(e),
            },
            Err(e) => Err(e),
        }
    }
}

/// A pop straight after a push gives the pushed address back and leaves the
/// stack as it was before the push.
pub proof fn push_then_pop(stack: Seq<u16>, v: u16)
    requires
        stack.len() < STACK_DEPTH,
    ensures
        pushed(stack, v) is Ok,
        popped(pushed(stack, v)->Ok_0) == Ok::<(u16, Seq<u16>), Chip8Error>((v, stack)),
{
    assert(stack.push(v).drop_last() =~= stack);
}

/// A push onto a stack of `STACK_DEPTH` addresses fails with an overflow, and
/// a pop from an empty stack fails with an underflow.
pub proof fn stack_is_bounded(stack: Seq<u16>, v: u16)
    ensures
        stack.len() >= STACK_DEPTH ==> pushed(stack, v) == Err::<Seq<u16>, Chip8Error>(
            Chip8Error::StackOverflow,
        ),
        stack.len() == 0 ==> popped(stack) == Err::<(u16, Seq<u16>), Chip8Error>(
            Chip8Error::StackUnderflow,
        ),
{
}

/// Pushes succeed for as long as there is room: a run of pushes succeeds as a
/// whole exactly if the stack then holds at most `STACK_DEPTH` addresses, and
/// it then holds the old ones followed by the new ones. Otherwise the run
/// fails with an overflow.
pub proof fn pushes_fill_the_stack(stack: Seq<u16>, items: Seq<u16>)
    requires
        stack.len() <= STACK_DEPTH,
    ensures
        stack.len() + items.len() <= STACK_DEPTH ==> pushed_all(stack, items) == Ok::<
            Seq<u16>,
            Chip8Error,
        >(stack + items),
        stack.len() + items.len() > STACK_DEPTH ==> pushed_all(stack, items) == Err::<
            Seq<u16>,
            Chip8Error,
        >(Chip8Error::StackOverflow),
    decreases items.len(),
{
    if items.len() == 0 {
        assert(stack + items =~= stack);
    } else if stack.len() < STACK_DEPTH {
        let next = stack.push(items.first());
        pushes_fill_the_stack(next, items.drop_first());
        assert(next + items.drop_first() =~= stack + items);
    }
}

/// Last in, first out: after a run of pushes as many pops give the pushed
/// addresses back in reverse order and leave the stack as it was before.
pub proof fn pops_reverse_pushes(stack: Seq<u16>, items: Seq<u16>)
    requires
        stack.len() + items.len() <= STACK_DEPTH,
    ensures
        pushed_all(stack, items) is Ok,
        popped_times(pushed_all(stack, items)->Ok_0, items.len()) == Ok::<
            (Seq<u16>, Seq<u16>),
            Chip8Error,
        >((items.reverse(), stack)),
{
    pushes_fill_the_stack(stack, items);
    pops_take_from_the_end(stack, items);
}

/// Pops take the addresses at the end of the stack, the last one first.
proof fn pops_take_from_the_end(stack: Seq<u16>, items: Seq<u16>)
    ensures
        popped_times(stack + items, items.len()) == Ok::<(Seq<u16>, Seq<u16>), Chip8Error>(
            (items.reverse(), stack),
        ),
    decreases items.len(),
{
    if items.len() == 0 {
        assert(stack + items =~= stack);
        assert(items.reverse() =~= Seq::<u16>::empty());
    } else {
        let whole = stack + items;
        let shorter = items.drop_last();
        assert(whole.last() == items.last());
        assert(whole.drop_last() =~= stack + shorter);
        pops_take_from_the_end(stack, shorter);
        assert(seq![items.last()] + shorter.reverse() =~= items.reverse());
    }
}

/// A bounded stack of 16-bit return addresses.
pub struct Stack {
    stack: Vec<u16>,
}

impl View for Stack {
    type V = Seq<u16>;

    /// The addresses on the stack, the oldest first.
    closed spec fn view(&self) -> Seq<u16> {
        self.stack@
    }
}

impl Stack {
    /// A stack never holds more than `STACK_DEPTH` addresses.
    pub open spec fn wf(&self) -> bool {
        self@.len() <= STACK_DEPTH
    }

    /// An empty stack.
    pub fn new() -> (s: Stack)
        ensures
            s.wf(),
            s@ == Seq::<u16>::empty(),
    {
        Stack { stack: Vec::new() }
    }

    /// Pushes `v`, or fails with an overflow and leaves the stack as it was.
    pub fn push(&mut self, v: u16) -> (res: Result<(), Chip8Error>)
        requires
            old(self).wf(),
        ensures
            final(self).wf(),
            match pushed(old(self)@, v) {
                Ok(stack) => res == Ok::<(), Chip8Error>(()) && final(self)@ == stack,
                Err(e) => res == Err::<(), Chip8Error>(e) && final(self)@ == old(self)@,
            },
    {
        if self.stack.len() >= STACK_DEPTH {
            return Err(Chip8Error::StackOverflow);
        }
        self.stack.push(v);
        Ok(())
    }

    /// Pops the address pushed last, or fails with an underflow.
    pub fn pop(&mut self) -> (res: Result<u16, Chip8Error>)
        requires
            old(self).wf(),
        ensures
            final(self).wf(),
            match popped(old(self)@) {
                Ok((top, rest)) => res == Ok::<u16, Chip8Error>(top) && final(self)@ == rest,
                Err(e) => res == Err::<u16, Chip8Error>(e) && final(self)@ == old(self)@,
            },
    {
        match self.stack.pop() {
            Some(v) => Ok(v),
            None => Err(Chip8Error::StackUnderflow),
        }
    }

    /// The number of addresses on the stack.
    pub fn len(&self) -> (n: usize)
        ensures
            n == self@.len(),
    {
        self.stack.len()
    }
}

} // verus!
