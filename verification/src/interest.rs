//! Interest in read and/or write readiness events of a file descriptor.

use vstd::prelude::*;

verus! {

/// The bit recording interest in read readiness.
pub const READABLE: u8 = 0b0001;

/// The bit recording interest in write readiness.
pub const WRITABLE: u8 = 0b0010;

/// A non-empty set of readiness directions. A value is created from one of
/// the two base sets, [`Interest::readable`] and [`Interest::writable`], and
/// grown with [`Interest::add`]; the empty set cannot be built.
#[derive(Clone, Copy, PartialEq, Eq, Structural, Debug, Hash)]
pub struct Interest {
    bits: u8,
}

impl Interest {
    /// The raw bitset underneath the value.
    pub closed spec fn spec_bits(self) -> u8 {
        self.bits
    }

    /// Every well-formed interest uses only the two direction bits and sets
    /// at least one of them.
    pub open spec fn wf(self) -> bool {
        1 <= self.spec_bits() <= 3
    }

    /// Whether the set includes read readiness.
    pub open spec fn spec_is_readable(self) -> bool {
        self.spec_bits() == 1 || self.spec_bits() == 3
    }

    /// Whether the set includes write readiness.
    pub open spec fn spec_is_writable(self) -> bool {
        self.spec_bits() == 2 || self.spec_bits() == 3
    }

    /// The interest set holding read readiness alone.
    pub fn readable() -> (r: Interest)
        ensures
            r.wf(),
            r.spec_is_readable(),
            !r.spec_is_writable(),
    {
        Interest { bits: READABLE }
    }

    /// The interest set holding write readiness alone.
    pub fn writable() -> (r: Interest)
        ensures
            r.wf(),
            !r.spec_is_readable(),
            r.spec_is_writable(),
    {
        Interest { bits: WRITABLE }
    }

    /// Adds together two `Interest` sets: the result cares about a direction
    /// exactly when one of the operands does.
    pub fn add(self, other: Interest) -> (r: Interest)
        requires
            self.wf(),
            other.wf(),
        ensures
            r.wf(),
            r.spec_is_readable() == (self.spec_is_readable() || other.spec_is_readable()),
            r.spec_is_writable() == (self.spec_is_writable() || other.spec_is_writable()),
    {
        proof {
            assert(forall|a: u8, b: u8|
                1 <= a <= 3 && 1 <= b <= 3 ==> 1 <= #[trigger] (a | b) <= 3) by (bit_vector);
            assert(forall|a: u8, b: u8|
                1 <= a <= 3 && 1 <= b <= 3 ==> (((a | b) == 1 || (a | b) == 3) <==> (a == 1 || a
                    == 3 || b == 1 || b == 3))) by (bit_vector);
            assert(forall|a: u8, b: u8|
                1 <= a <= 3 && 1 <= b <= 3 ==> (((a | b) == 2 || (a | b) == 3) <==> (a == 2 || a
                    == 3 || b == 2 || b == 3))) by (bit_vector);
        }
        Interest { bits: self.bits | other.bits }
    }

    /// Returns true if the value includes readable readiness.
    pub fn is_readable(self) -> (r: bool)
        requires
            self.wf(),
        ensures
            r == self.spec_is_readable(),
    {
        proof {
            assert(forall|a: u8| a <= 3 ==> ((a & 1 != 0) <==> (a == 1 || a == 3)))
                by (bit_vector);
        }
        (self.bits & READABLE) != 0
    }

    /// Returns true if the value includes writable readiness.
    pub fn is_writable(self) -> (r: bool)
        requires
            self.wf(),
        ensures
            r == self.spec_is_writable(),
    {
        proof {
            assert(forall|a: u8| a <= 3 ==> ((a & 2 != 0) <==> (a == 2 || a == 3)))
                by (bit_vector);
        }
        (self.bits & WRITABLE) != 0
    }

    /// Renders the set for diagnostics, naming each direction it holds.
    pub fn describe(self) -> (r: String)
        requires
            self.wf(),
        ensures
            self.spec_is_readable() && self.spec_is_writable() ==> r@ == "READABLE | WRITABLE"@,
            self.spec_is_readable() && !self.spec_is_writable() ==> r@ == "READABLE"@,
            !self.spec_is_readable() && self.spec_is_writable() ==> r@ == "WRITABLE"@,
    {
        if self.is_readable() && self.is_writable() {
            "READABLE | WRITABLE".to_owned()
        } else if self.is_readable() {
            "READABLE".to_owned()
        } else {
            "WRITABLE".to_owned()
        }
    }
}

/// An interest set always carries at least one direction: there is no
/// well-formed value for which both queries come back false.
pub proof fn lemma_no_empty_interest(i: Interest)
    requires
        i.wf(),
    ensures
        i.spec_is_readable() || i.spec_is_writable(),
{
}

} // verus!
