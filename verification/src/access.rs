//! CPU access rights attached to a usage hint.

use vstd::prelude::*;
use vstd::std_specs::cmp::PartialOrdSpec;
use core::cmp::Ordering;

verus! {

/// A set of CPU access rights.
///
/// The set is stored as a bit pattern: bit `0x1` stands for read access and
/// bit `0x2` for write access. No other bit is ever set, so the four
/// patterns `0x0` to `0x3` are exactly the values of this type. A value is
/// only ever built from [`Access::read`], [`Access::write`],
/// [`Access::read_write`] and [`Access::empty`] by union and intersection,
/// never from a raw integer.
#[derive(Clone, Copy, Debug, PartialEq, Eq, Ord, Hash, Structural)]
pub struct Access {
    bits: u8,
}

impl Access {
    /// No bit outside `0x3` is set.
    #[verifier::type_invariant]
    pub closed spec fn well_formed(self) -> bool {
        self.bits <= 0x3
    }

    /// The bit pattern of the set.
    pub closed spec fn spec_bits(&self) -> u8 {
        self.bits
    }

    /// The set whose bit pattern is the union of the two patterns.
    pub closed spec fn spec_union(self, other: Access) -> Access {
        Access { bits: self.bits | other.bits }
    }

    /// The set whose bit pattern is the intersection of the two patterns.
    pub closed spec fn spec_intersection(self, other: Access) -> Access {
        Access { bits: self.bits & other.bits }
    }

    /// Every right of `other` is a right of `self`.
    pub open spec fn spec_contains(&self, other: Access) -> bool {
        self.bits() & other.bits() == other.bits()
    }

    /// Some right belongs to both sets.
    pub open spec fn spec_intersects(&self, other: Access) -> bool {
        self.bits() & other.bits() != 0
    }

    /// The set without any right.
    pub closed spec fn spec_empty() -> Access {
        Access { bits: 0x0 }
    }

    /// Read access alone.
    pub closed spec fn spec_read() -> Access {
        Access { bits: 0x1 }
    }

    /// Write access alone.
    pub closed spec fn spec_write() -> Access {
        Access { bits: 0x2 }
    }

    /// Read and write access.
    pub closed spec fn spec_read_write() -> Access {
        Access { bits: 0x3 }
    }

    /// The set without any right.
    #[verifier::when_used_as_spec(spec_empty)]
    pub fn empty() -> (r: Access)
        ensures
            r == Access::empty(),
            r.bits() == 0x0,
    {
        Access { bits: 0x0 }
    }

    /// Read access alone.
    #[verifier::when_used_as_spec(spec_read)]
    pub fn read() -> (r: Access)
        ensures
            r == Access::read(),
            r.bits() == 0x1,
    {
        Access { bits: 0x1 }
    }

    /// Write access alone.
    #[verifier::when_used_as_spec(spec_write)]
    pub fn write() -> (r: Access)
        ensures
            r == Access::write(),
            r.bits() == 0x2,
    {
        Access { bits: 0x2 }
    }

    /// Read and write access together.
    #[verifier::when_used_as_spec(spec_read_write)]
    pub fn read_write() -> (r: Access)
        ensures
            r == Access::read_write(),
            r == Access::read().union(Access::write()),
            r.bits() == 0x3,
    {
        proof {
            Self::lemma_read_write_is_union();
        }
        Access { bits: 0x3 }
    }

    /// The bit pattern of the set.
    #[verifier::when_used_as_spec(spec_bits)]
    pub fn bits(&self) -> (b: u8)
        ensures
            b == self.bits(),
            b <= 0x3,
    {
        proof {
            use_type_invariant(self);
        }
        self.bits
    }

    /// Whether the set holds no right.
    pub fn is_empty(&self) -> (b: bool)
        ensures
            b == (self.bits() == 0),
    {
        self.bits == 0
    }

    /// Whether every right of `other` is a right of `self`.
    #[verifier::when_used_as_spec(spec_contains)]
    pub fn contains(&self, other: Access) -> (b: bool)
        ensures
            b == self.contains(other),
    {
        self.bits & other.bits == other.bits
    }

    /// Whether some right belongs to both sets.
    #[verifier::when_used_as_spec(spec_intersects)]
    pub fn intersects(&self, other: Access) -> (b: bool)
        ensures
            b == self.intersects(other),
    {
        self.bits & other.bits != 0
    }

    /// The rights found in `self` or in `other`.
    #[verifier::when_used_as_spec(spec_union)]
    pub fn union(self, other: Access) -> (r: Access)
        ensures
            r == self.union(other),
            r.bits() == self.bits() | other.bits(),
    {
        proof {
            use_type_invariant(self);
            use_type_invariant(other);
            let (a, b) = (self.bits, other.bits);
            assert(a <= 0x3 && b <= 0x3 ==> (a | b) <= 0x3) by (bit_vector);
        }
        Access { bits: self.bits | other.bits }
    }

    /// The rights found in `self` and in `other`.
    #[verifier::when_used_as_spec(spec_intersection)]
    pub fn intersection(self, other: Access) -> (r: Access)
        ensures
            r == self.intersection(other),
            r.bits() == self.bits() & other.bits(),
    {
        proof {
            use_type_invariant(self);
            let (a, b) = (self.bits, other.bits);
            assert(a <= 0x3 ==> (a & b) <= 0x3) by (bit_vector);
        }
        Access { bits: self.bits & other.bits }
    }

    /// The bit patterns of the named sets.
    pub proof fn lemma_named_bits()
        ensures
            Access::empty().bits() == 0x0,
            Access::read().bits() == 0x1,
            Access::write().bits() == 0x2,
            Access::read_write().bits() == 0x3,
            Access::empty().well_formed(),
            Access::read().well_formed(),
            Access::write().well_formed(),
            Access::read_write().well_formed(),
    {
    }

    /// Read and write access together is the union of read access and write
    /// access.
    pub proof fn lemma_read_write_is_union()
        ensures
            Access::read_write() == Access::read().union(Access::write()),
    {
        assert(0x1u8 | 0x2u8 == 0x3u8) by (bit_vector);
    }

    /// Two sets with the same bit pattern are the same set.
    pub proof fn lemma_bits_injective(a: Access, b: Access)
        requires
            a.bits() == b.bits(),
        ensures
            a == b,
    {
    }

    /// The bit patterns of a union and of an intersection.
    pub proof fn lemma_bits_of_combination(a: Access, b: Access)
        ensures
            a.union(b).bits() == a.bits() | b.bits(),
            a.intersection(b).bits() == a.bits() & b.bits(),
    {
    }

    /// Unions and intersections of well-formed sets are well-formed.
    pub proof fn lemma_combination_well_formed(a: Access, b: Access)
        requires
            a.well_formed(),
            b.well_formed(),
        ensures
            a.union(b).well_formed(),
            a.intersection(b).well_formed(),
            a.bits() <= 0x3,
    {
        let (x, y) = (a.bits, b.bits);
        assert(x <= 0x3 && y <= 0x3 ==> (x | y) <= 0x3 && (x & y) <= 0x3) by (bit_vector);
    }

    /// Union with itself leaves a set unchanged.
    pub proof fn lemma_union_idempotent(a: Access)
        ensures
            a.union(a) == a,
    {
        let x = a.bits;
        assert(x | x == x) by (bit_vector);
    }

    /// Union does not depend on the order of its operands.
    pub proof fn lemma_union_commutative(a: Access, b: Access)
        ensures
            a.union(b) == b.union(a),
    {
        let (x, y) = (a.bits, b.bits);
        assert(x | y == y | x) by (bit_vector);
    }

    /// Union does not depend on how its operands are grouped.
    pub proof fn lemma_union_associative(a: Access, b: Access, c: Access)
        ensures
            a.union(b).union(c) == a.union(b.union(c)),
    {
        let (x, y, z) = (a.bits, b.bits, c.bits);
        assert((x | y) | z == x | (y | z)) by (bit_vector);
    }

    /// A union contains both operands, and a set contains the union exactly
    /// when it contains both operands.
    pub proof fn lemma_union_is_least_upper_bound(a: Access, b: Access, c: Access)
        ensures
            a.union(b).contains(a),
            a.union(b).contains(b),
            c.contains(a) && c.contains(b) <==> c.contains(a.union(b)),
    {
        let (x, y, z) = (a.bits, b.bits, c.bits);
        assert((x | y) & x == x && (x | y) & y == y) by (bit_vector);
        assert((z & x == x && z & y == y) <==> z & (x | y) == (x | y)) by (bit_vector);
    }

    /// Both operands contain their intersection, and the intersection
    /// contains a set exactly when both operands contain it.
    pub proof fn lemma_intersection_is_greatest_lower_bound(a: Access, b: Access, c: Access)
        ensures
            a.contains(a.intersection(b)),
            b.contains(a.intersection(b)),
            a.contains(c) && b.contains(c) <==> a.intersection(b).contains(c),
    {
        let (x, y, z) = (a.bits, b.bits, c.bits);
        assert(x & (x & y) == (x & y) && y & (x & y) == (x & y)) by (bit_vector);
        assert((x & z == z && y & z == z) <==> (x & y) & z == z) by (bit_vector);
    }

    /// The order of the sets is total: any two sets compare, they compare
    /// equal exactly when they are the same set, `a` is below `b` exactly
    /// when `b` is above `a`, and what is below a set that is below a third
    /// is below the third.
    pub proof fn lemma_order_is_total(a: Access, b: Access, c: Access)
        ensures
            a.partial_cmp_spec(&b) is Some,
            a.partial_cmp_spec(&b) == Some(Ordering::Equal) <==> a == b,
            a.partial_cmp_spec(&b) == Some(Ordering::Less) <==> b.partial_cmp_spec(&a) == Some(
                Ordering::Greater,
            ),
            a.partial_cmp_spec(&b) == Some(Ordering::Less) && b.partial_cmp_spec(&c) == Some(
                Ordering::Less,
            ) ==> a.partial_cmp_spec(&c) == Some(Ordering::Less),
    {
    }
}

impl core::ops::BitOr for Access {
    type Output = Access;

    /// `a | b` is the union of `a` and `b`.
    fn bitor(self, rhs: Access) -> (r: Access) {
        self.union(rhs)
    }
}

impl vstd::std_specs::ops::BitOrSpecImpl for Access {
    open spec fn obeys_bitor_spec() -> bool {
        true
    }

    open spec fn bitor_req(self, rhs: Access) -> bool {
        true
    }

    open spec fn bitor_spec(self, rhs: Access) -> Access {
        self.union(rhs)
    }
}

impl core::ops::BitAnd for Access {
    type Output = Access;

    /// `a & b` is the intersection of `a` and `b`.
    fn bitand(self, rhs: Access) -> (r: Access) {
        self.intersection(rhs)
    }
}

impl vstd::std_specs::ops::BitAndSpecImpl for Access {
    open spec fn obeys_bitand_spec() -> bool {
        true
    }

    open spec fn bitand_req(self, rhs: Access) -> bool {
        true
    }

    open spec fn bitand_spec(self, rhs: Access) -> Access {
        self.intersection(rhs)
    }
}

impl PartialOrd for Access {
    /// Sets are ordered as their bit patterns are.
    fn partial_cmp(&self, other: &Access) -> (r: Option<Ordering>) {
        if self.bits < other.bits {
            Some(Ordering::Less)
        } else if self.bits == other.bits {
            Some(Ordering::Equal)
        } else {
            Some(Ordering::Greater)
        }
    }
}

impl vstd::std_specs::cmp::PartialOrdSpecImpl for Access {
    open spec fn obeys_partial_cmp_spec() -> bool {
        true
    }

    open spec fn partial_cmp_spec(&self, other: &Access) -> Option<Ordering> {
        if self.bits() < other.bits() {
            Some(Ordering::Less)
        } else if self.bits() == other.bits() {
            Some(Ordering::Equal)
        } else {
            Some(Ordering::Greater)
        }
    }
}

} // verus!
