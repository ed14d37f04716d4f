//! Serials: correlation tokens that match a configure or an input event to
//! the client's later answer, issued in order and compared across wrap-around.
use vstd::prelude::*;

verus! {

/// A correlation token issued by the compositor and echoed back by clients.
#[derive(Clone, Copy, PartialEq, Eq, Structural, Debug)]
pub struct Serial(pub u32);

/// Whether serial `a` was issued no earlier than `b`: `a` lies less than
/// half the 32-bit range ahead of `b`, counting past the wrap.
pub open spec fn no_older(a: u32, b: u32) -> bool {
    (a - b) % 0x1_0000_0000 < 0x8000_0000
}

/// The serial issued after `n`: the next value, skipping zero on wrap.
pub open spec fn successor(n: u32) -> u32 {
    if n == u32::MAX {
        1
    } else {
        (n + 1) as u32
    }
}

impl Serial {
    /// The raw value sent on the wire.
    pub fn raw(self) -> (r: u32)
        ensures
            r == self.0,
    {
        self.0
    }

    /// Whether this serial was issued no earlier than `other`.
    pub fn is_no_older_than(&self, other: &Serial) -> (r: bool)
        ensures
            r == no_older(self.0, other.0),
    {
        self.0.wrapping_sub(other.0) < 0x8000_0000
    }
}

/// Issues serials in order, never zero.
#[derive(Debug)]
pub struct SerialCounter {
    next: u32,
}

impl View for SerialCounter {
    type V = u32;

    /// The serial that will be issued next.
    closed spec fn view(&self) -> u32 {
        self.next
    }
}

impl SerialCounter {
    /// A counter whose first serial is 1.
    pub fn new() -> (r: Self)
        ensures
            r@ == 1,
    {
        SerialCounter { next: 1 }
    }

    /// Issues the next serial.
    pub fn next_serial(&mut self) -> (r: Serial)
        requires
            old(self)@ != 0,
        ensures
            r.0 == old(self)@,
            final(self)@ == successor(old(self)@),
            final(self)@ != 0,
    {
        let r = Serial(self.next);
        if self.next == u32::MAX {
            self.next = 1;
        } else {
            self.next = self.next + 1;
        }
        r
    }
}

/// A serial is no older than itself, and each serial issued is no older
/// than the one issued just before it.
pub proof fn lemma_issued_in_order(n: u32)
    ensures
        no_older(n, n),
        no_older(successor(n), n),
{
    assert((n - n) % 0x1_0000_0000 == 0) by (nonlinear_arith);
    if n == u32::MAX {
        assert((1 - n) % 0x1_0000_0000 == 2) by (nonlinear_arith)
            requires n == 0xffff_ffffu32;
    } else {
        assert((successor(n) - n) % 0x1_0000_0000 == 1) by (nonlinear_arith)
            requires successor(n) == n + 1;
    }
}

} // verus!
