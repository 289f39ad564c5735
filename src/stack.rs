use vstd::prelude::*;
use crate::error::Chip8Error;

verus! {

/// Maximum number of return addresses the stack holds.
pub const STACK_DEPTH: usize = 16;

/// Pushing `addr` onto the stack `s` (bottom first): refused at full depth.
pub open spec fn push_spec(s: Seq<u16>, addr: u16) -> Result<Seq<u16>, Chip8Error> {
    if s.len() >= STACK_DEPTH {
        Err(Chip8Error::StackOverflow)
    } else {
        Ok(s.push(addr))
    }
}

/// Popping the stack `s`: the rest and the most recently pushed address,
/// refused on an empty stack.
pub open spec fn pop_spec(s: Seq<u16>) -> Result<(Seq<u16>, u16), Chip8Error> {
    if s.len() == 0 {
        Err(Chip8Error::StackUnderflow)
    } else {
        Ok((s.drop_last(), s.last()))
    }
}

/// A bounded LIFO of return addresses.
#[derive(Debug)]
pub struct CallStack {
    addrs: Vec<u16>,
}

impl View for CallStack {
    type V = Seq<u16>;

    /// The addresses, the oldest first.
    closed spec fn view(&self) -> Seq<u16> {
        self.addrs@
    }
}

impl CallStack {
    /// The depth never exceeds the bound.
    pub open spec fn wf(&self) -> bool {
        self@.len() <= STACK_DEPTH
    }

    /// An empty stack.
    pub fn new() -> (r: CallStack)
        ensures
            r.wf(),
            r@ == Seq::<u16>::empty(),
    {
        CallStack { addrs: Vec::new() }
    }

    /// Number of addresses on the stack.
    pub fn depth(&self) -> (r: usize)
        ensures
            r == self@.len(),
    {
        self.addrs.len()
    }

    /// Pushes `addr`, or fails with `StackOverflow`, changing nothing, at
    /// full depth.
    pub fn push(&mut self, addr: u16) -> (r: Result<(), Chip8Error>)
        requires
            old(self).wf(),
        ensures
            final(self).wf(),
            push_spec(old(self)@, addr) matches Ok(s) ==> r == Ok::<(), Chip8Error>(()) && final(self)@ == s,
            push_spec(old(self)@, addr) matches Err(e) ==> r == Err::<(), Chip8Error>(e) && final(self)@ == old(self)@,
    {
        if self.addrs.len() >= STACK_DEPTH {
            Err(Chip8Error::StackOverflow)
        } else {
            self.addrs.push(addr);
            Ok(())
        }
    }

    /// Removes and returns the most recently pushed address, or fails with
    /// `StackUnderflow` on an empty stack.
    pub fn pop(&mut self) -> (r: Result<u16, Chip8Error>)
        requires
            old(self).wf(),
        ensures
            final(self).wf(),
            pop_spec(old(self)@) matches Ok((s, a)) ==> r == Ok::<u16, Chip8Error>(a) && final(self)@ == s,
            pop_spec(old(self)@) matches Err(e) ==> r == Err::<u16, Chip8Error>(e) && final(self)@ == old(self)@,
    {
        match self.addrs.pop() {
            Some(a) => Ok(a),
            None => Err(Chip8Error::StackUnderflow),
        }
    }
}

/// Sixteen pushes onto an empty stack all succeed and a seventeenth fails
/// with `StackOverflow`; popping the full stack sixteen times gives the
/// addresses back newest first, and a seventeenth pop fails with
/// `StackUnderflow`.
pub proof fn lemma_stack_depth(addrs: Seq<u16>, extra: u16)
    requires
        addrs.len() == STACK_DEPTH,
    ensures
        forall|i: int| 0 <= i < STACK_DEPTH ==>
            push_spec(#[trigger] addrs.take(i), addrs[i]) == Ok::<Seq<u16>, Chip8Error>(addrs.take(i + 1)),
        push_spec(addrs, extra) == Err::<Seq<u16>, Chip8Error>(Chip8Error::StackOverflow),
        forall|i: int| 0 <= i < STACK_DEPTH ==>
            pop_spec(#[trigger] addrs.take(i + 1)) == Ok::<(Seq<u16>, u16), Chip8Error>((addrs.take(i), addrs[i])),
        pop_spec(addrs.take(0)) == Err::<(Seq<u16>, u16), Chip8Error>(Chip8Error::StackUnderflow),
{
    assert forall|i: int| 0 <= i < STACK_DEPTH implies
        push_spec(#[trigger] addrs.take(i), addrs[i]) == Ok::<Seq<u16>, Chip8Error>(addrs.take(i + 1)) by {
        assert(addrs.take(i).push(addrs[i]) =~= addrs.take(i + 1));
    }
    assert forall|i: int| 0 <= i < STACK_DEPTH implies
        pop_spec(#[trigger] addrs.take(i + 1)) == Ok::<(Seq<u16>, u16), Chip8Error>((addrs.take(i), addrs[i])) by {
        assert(addrs.take(i + 1).drop_last() =~= addrs.take(i));
    }
}

} // verus!
