//! Pipeline bindings that a resource may be created for.

use vstd::prelude::*;
use vstd::std_specs::cmp::PartialOrdSpec;
use core::cmp::Ordering;

verus! {

/// A set of binding capabilities of a resource.
///
/// The set is stored as a bit pattern: bit `0x1` stands for use as a render
/// target, `0x2` for use as a depth or stencil target, `0x4` for reading from
/// a shader and `0x8` for writing from a shader. The four capabilities are
/// independent, so the sixteen patterns `0x0` to `0xf` are exactly the values
/// of this type. A value is only ever built from the named sets by union and
/// intersection, never from a raw integer.
#[derive(Clone, Copy, Debug, PartialEq, Eq, Ord, Hash, Structural)]
pub struct Bind {
    bits: u8,
}

impl Bind {
    /// No bit outside `0xf` is set.
    #[verifier::type_invariant]
    pub closed spec fn well_formed(self) -> bool {
        self.bits <= 0xf
    }

    /// The bit pattern of the set.
    pub closed spec fn spec_bits(&self) -> u8 {
        self.bits
    }

    /// The set whose bit pattern is the union of the two patterns.
    pub closed spec fn spec_union(self, other: Bind) -> Bind {
        Bind { bits: self.bits | other.bits }
    }

    /// The set whose bit pattern is the intersection of the two patterns.
    pub closed spec fn spec_intersection(self, other: Bind) -> Bind {
        Bind { bits: self.bits & other.bits }
    }

    /// Every capability of `other` is a capability of `self`.
    pub open spec fn spec_contains(&self, other: Bind) -> bool {
        self.bits() & other.bits() == other.bits()
    }

    /// Some capability belongs to both sets.
    pub open spec fn spec_intersects(&self, other: Bind) -> bool {
        self.bits() & other.bits() != 0
    }

    /// The set without any capability.
    pub closed spec fn spec_empty() -> Bind {
        Bind { bits: 0x0 }
    }

    /// Can be rendered into.
    pub closed spec fn spec_render_target() -> Bind {
        Bind { bits: 0x1 }
    }

    /// Can serve as a depth or stencil target.
    pub closed spec fn spec_depth_stencil() -> Bind {
        Bind { bits: 0x2 }
    }

    /// Can be bound to a shader for reading.
    pub closed spec fn spec_shader_resource() -> Bind {
        Bind { bits: 0x4 }
    }

    /// Can be bound to a shader for writing.
    pub closed spec fn spec_unordered_access() -> Bind {
        Bind { bits: 0x8 }
    }

    /// The set without any capability.
    #[verifier::when_used_as_spec(spec_empty)]
    pub fn empty() -> (r: Bind)
        ensures
            r == Bind::empty(),
            r.bits() == 0x0,
    {
        Bind { bits: 0x0 }
    }

    /// Can be rendered into.
    #[verifier::when_used_as_spec(spec_render_target)]
    pub fn render_target() -> (r: Bind)
        ensures
            r == Bind::render_target(),
            r.bits() == 0x1,
    {
        Bind { bits: 0x1 }
    }

    /// Can serve as a depth or stencil target.
    #[verifier::when_used_as_spec(spec_depth_stencil)]
    pub fn depth_stencil() -> (r: Bind)
        ensures
            r == Bind::depth_stencil(),
            r.bits() == 0x2,
    {
        Bind { bits: 0x2 }
    }

    /// Can be bound to a shader for reading.
    #[verifier::when_used_as_spec(spec_shader_resource)]
    pub fn shader_resource() -> (r: Bind)
        ensures
            r == Bind::shader_resource(),
            r.bits() == 0x4,
    {
        Bind { bits: 0x4 }
    }

    /// Can be bound to a shader for writing.
    #[verifier::when_used_as_spec(spec_unordered_access)]
    pub fn unordered_access() -> (r: Bind)
        ensures
            r == Bind::unordered_access(),
            r.bits() == 0x8,
    {
        Bind { bits: 0x8 }
    }

    /// The bit pattern of the set.
    #[verifier::when_used_as_spec(spec_bits)]
    pub fn bits(&self) -> (b: u8)
        ensures
            b == self.bits(),
            b <= 0xf,
    {
        proof {
            use_type_invariant(self);
        }
        self.bits
    }

    /// Whether the set holds no capability.
    pub fn is_empty(&self) -> (b: bool)
        ensures
            b == (self.bits() == 0),
    {
        self.bits == 0
    }

    /// Whether every capability of `other` is a capability of `self`.
    #[verifier::when_used_as_spec(spec_contains)]
    pub fn contains(&self, other: Bind) -> (b: bool)
        ensures
            b == self.contains(other),
    {
        self.bits & other.bits == other.bits
    }

    /// Whether some capability belongs to both sets.
    #[verifier::when_used_as_spec(spec_intersects)]
    pub fn intersects(&self, other: Bind) -> (b: bool)
        ensures
            b == self.intersects(other),
    {
        self.bits & other.bits != 0
    }

    /// The capabilities found in `self` or in `other`.
    #[verifier::when_used_as_spec(spec_union)]
    pub fn union(self, other: Bind) -> (r: Bind)
        ensures
            r == self.union(other),
            r.bits() == self.bits() | other.bits(),
    {
        proof {
            use_type_invariant(self);
            use_type_invariant(other);
            let (a, b) = (self.bits, other.bits);
            assert(a <= 0xf && b <= 0xf ==> (a | b) <= 0xf) by (bit_vector);
        }
        Bind { bits: self.bits | other.bits }
    }

    /// The capabilities found in `self` and in `other`.
    #[verifier::when_used_as_spec(spec_intersection)]
    pub fn intersection(self, other: Bind) -> (r: Bind)
        ensures
            r == self.intersection(other),
            r.bits() == self.bits() & other.bits(),
    {
        proof {
            use_type_invariant(self);
            let (a, b) = (self.bits, other.bits);
            assert(a <= 0xf ==> (a & b) <= 0xf) by (bit_vector);
        }
        Bind { bits: self.bits & other.bits }
    }

    /// The bit patterns of the named sets.
    pub proof fn lemma_named_bits()
        ensures
            Bind::empty().bits() == 0x0,
            Bind::render_target().bits() == 0x1,
            Bind::depth_stencil().bits() == 0x2,
            Bind::shader_resource().bits() == 0x4,
            Bind::unordered_access().bits() == 0x8,
            Bind::empty().well_formed(),
            Bind::render_target().well_formed(),
            Bind::depth_stencil().well_formed(),
            Bind::shader_resource().well_formed(),
            Bind::unordered_access().well_formed(),
    {
    }

    /// Two sets with the same bit pattern are the same set.
    pub proof fn lemma_bits_injective(a: Bind, b: Bind)
        requires
            a.bits() == b.bits(),
        ensures
            a == b,
    {
    }

    /// The bit patterns of a union and of an intersection.
    pub proof fn lemma_bits_of_combination(a: Bind, b: Bind)
        ensures
            a.union(b).bits() == a.bits() | b.bits(),
            a.intersection(b).bits() == a.bits() & b.bits(),
    {
    }

    /// Unions and intersections of well-formed sets are well-formed.
    pub proof fn lemma_combination_well_formed(a: Bind, b: Bind)
        requires
            a.well_formed(),
            b.well_formed(),
        ensures
            a.union(b).well_formed(),
            a.intersection(b).well_formed(),
            a.bits() <= 0xf,
    {
        let (x, y) = (a.bits, b.bits);
        assert(x <= 0xf && y <= 0xf ==> (x | y) <= 0xf && (x & y) <= 0xf) by (bit_vector);
    }

    /// Union with itself leaves a set unchanged.
    pub proof fn lemma_union_idempotent(a: Bind)
        ensures
            a.union(a) == a,
    {
        let x = a.bits;
        assert(x | x == x) by (bit_vector);
    }

    /// Union does not depend on the order of its operands.
    pub proof fn lemma_union_commutative(a: Bind, b: Bind)
        ensures
            a.union(b) == b.union(a),
    {
        let (x, y) = (a.bits, b.bits);
        assert(x | y == y | x) by (bit_vector);
    }

    /// Union does not depend on how its operands are grouped.
    pub proof fn lemma_union_associative(a: Bind, b: Bind, c: Bind)
        ensures
            a.union(b).union(c) == a.union(b.union(c)),
    {
        let (x, y, z) = (a.bits, b.bits, c.bits);
        assert((x | y) | z == x | (y | z)) by (bit_vector);
    }

    /// A union contains both operands, and a set contains the union exactly
    /// when it contains both operands.
    pub proof fn lemma_union_is_least_upper_bound(a: Bind, b: Bind, c: Bind)
        ensures
            a.union(b).contains(a),
            a.union(b).contains(b),
            c.contains(a) && c.contains(b) <==> c.contains(a.union(b)),
    {
        let (x, y, z) = (a.bits, b.bits, c.bits);
        assert((x | y) & x == x && (x | y) & y == y) by (bit_vector);
        assert((z & x == x && z & y == y) <==> z & (x | y) == (x | y)) by (bit_vector);
    }

    /// Both operands contain their intersection, and the intersection
    /// contains a set exactly when both operands contain it.
    pub proof fn lemma_intersection_is_greatest_lower_bound(a: Bind, b: Bind, c: Bind)
        ensures
            a.contains(a.intersection(b)),
            b.contains(a.intersection(b)),
            a.contains(c) && b.contains(c) <==> a.intersection(b).contains(c),
    {
        let (x, y, z) = (a.bits, b.bits, c.bits);
        assert(x & (x & y) == (x & y) && y & (x & y) == (x & y)) by (bit_vector);
        assert((x & z == z && y & z == z) <==> (x & y) & z == z) by (bit_vector);
    }

    /// The order of the sets is total: any two sets compare, they compare
    /// equal exactly when they are the same set, `a` is below `b` exactly
    /// when `b` is above `a`, and what is below a set that is below a third
    /// is below the third.
    pub proof fn lemma_order_is_total(a: Bind, b: Bind, c: Bind)
        ensures
            a.partial_cmp_spec(&b) is Some,
            a.partial_cmp_spec(&b) == Some(Ordering::Equal) <==> a == b,
            a.partial_cmp_spec(&b) == Some(Ordering::Less) <==> b.partial_cmp_spec(&a) == Some(
                Ordering::Greater,
            ),
            a.partial_cmp_spec(&b) == Some(Ordering::Less) && b.partial_cmp_spec(&c) == Some(
                Ordering::Less,
            ) ==> a.partial_cmp_spec(&c) == Some(Ordering::Less),
    {
    }
}

impl core::ops::BitOr for Bind {
    type Output = Bind;

    /// `a | b` is the union of `a` and `b`.
    fn bitor(self, rhs: Bind) -> (r: Bind) {
        self.union(rhs)
    }
}

impl vstd::std_specs::ops::BitOrSpecImpl for Bind {
    open spec fn obeys_bitor_spec() -> bool {
        true
    }

    open spec fn bitor_req(self, rhs: Bind) -> bool {
        true
    }

    open spec fn bitor_spec(self, rhs: Bind) -> Bind {
        self.union(rhs)
    }
}

impl core::ops::BitAnd for Bind {
    type Output = Bind;

    /// `a & b` is the intersection of `a` and `b`.
    fn bitand(self, rhs: Bind) -> (r: Bind) {
        self.intersection(rhs)
    }
}

impl vstd::std_specs::ops::BitAndSpecImpl for Bind {
    open spec fn obeys_bitand_spec() -> bool {
        true
    }

    open spec fn bitand_req(self, rhs: Bind) -> bool {
        true
    }

    open spec fn bitand_spec(self, rhs: Bind) -> Bind {
        self.intersection(rhs)
    }
}

impl PartialOrd for Bind {
    /// Sets are ordered as their bit patterns are.
    fn partial_cmp(&self, other: &Bind) -> (r: Option<Ordering>) {
        if self.bits < other.bits {
            Some(Ordering::Less)
        } else if self.bits == other.bits {
            Some(Ordering::Equal)
        } else {
            Some(Ordering::Greater)
        }
    }
}

impl vstd::std_specs::cmp::PartialOrdSpecImpl for Bind {
    open spec fn obeys_partial_cmp_spec() -> bool {
        true
    }

    open spec fn partial_cmp_spec(&self, other: &Bind) -> Option<Ordering> {
        if self.bits() < other.bits() {
            Some(Ordering::Less)
        } else if self.bits() == other.bits() {
            Some(Ordering::Equal)
        } else {
            Some(Ordering::Greater)
        }
    }
}

} // verus!
