//! Hints on how the memory of a resource will be used.

use vstd::prelude::*;
use vstd::std_specs::cmp::PartialOrdSpec;
use core::cmp::Ordering;
use crate::access::Access;

verus! {

/// A hint as to how the memory of a resource will be used.
///
/// The hints exclude one another. Three of them imply what the CPU may do
/// and carry no access rights; the other two carry the rights of the CPU
/// explicitly. How a hint is honoured is up to the backend that allocates
/// the memory.
#[derive(Clone, Copy, Debug, PartialEq, Eq, Ord, Hash, Structural)]
pub enum Usage {
    /// GPU: read and write, CPU: copy only. Suits render targets.
    GpuOnly,
    /// GPU: read, CPU: none after the initial load.
    Immutable,
    /// GPU: read, CPU: write, for frequent updates.
    Dynamic,
    /// GPU: read and write, CPU: as given.
    Persistent(Access),
    /// GPU: copy only, CPU: as given. Staging memory, to be copied back and
    /// forth with targets on the GPU.
    CpuOnly(Access),
}

impl Usage {
    /// The access rights that the hint carries, if it carries any.
    pub open spec fn spec_access(&self) -> Option<Access> {
        match *self {
            Usage::Persistent(access) => Some(access),
            Usage::CpuOnly(access) => Some(access),
            _ => None,
        }
    }

    /// A hint that carries access rights carries at least one.
    pub open spec fn spec_is_meaningful(&self) -> bool {
        match self.access() {
            Some(access) => access.bits() != 0,
            None => true,
        }
    }

    /// The place of the variant of the hint among the five variants, in the
    /// order of their declaration.
    pub open spec fn spec_rank(&self) -> u8 {
        match *self {
            Usage::GpuOnly => 0,
            Usage::Immutable => 1,
            Usage::Dynamic => 2,
            Usage::Persistent(_) => 3,
            Usage::CpuOnly(_) => 4,
        }
    }

    /// The bit pattern of the access rights that the hint carries, and zero
    /// where it carries none.
    pub open spec fn spec_access_bits(&self) -> u8 {
        match self.access() {
            Some(access) => access.bits(),
            None => 0,
        }
    }

    /// The access rights that the hint carries: those given to `Persistent`
    /// or `CpuOnly`, and none for the hints that leave the rights implied.
    #[verifier::when_used_as_spec(spec_access)]
    pub fn access(&self) -> (r: Option<Access>)
        ensures
            r == self.access(),
    {
        match *self {
            Usage::Persistent(access) => Some(access),
            Usage::CpuOnly(access) => Some(access),
            _ => None,
        }
    }

    /// Whether the hint is meaningful: the rights it carries, if any, are not
    /// empty.
    #[verifier::when_used_as_spec(spec_is_meaningful)]
    pub fn is_meaningful(&self) -> (r: bool)
        ensures
            r == self.is_meaningful(),
    {
        match self.access() {
            Some(access) => !access.is_empty(),
            None => true,
        }
    }

    /// The place of the variant of the hint among the five variants.
    fn rank(&self) -> (r: u8)
        ensures
            r == self.spec_rank(),
    {
        match *self {
            Usage::GpuOnly => 0,
            Usage::Immutable => 1,
            Usage::Dynamic => 2,
            Usage::Persistent(_) => 3,
            Usage::CpuOnly(_) => 4,
        }
    }

    /// The bit pattern of the access rights that the hint carries, and zero
    /// where it carries none.
    fn access_bits(&self) -> (r: u8)
        ensures
            r == self.spec_access_bits(),
    {
        match self.access() {
            Some(access) => access.bits(),
            None => 0,
        }
    }

    /// No right is lost by building a hint and reading it back: a hint made
    /// with access rights carries exactly those rights, a hint made without
    /// carries none, and two hints are equal exactly when they are the same
    /// variant with the same rights.
    pub proof fn lemma_payload_preserved(a: Access, b: Access)
        ensures
            Usage::Persistent(a).access() == Some(a),
            Usage::CpuOnly(a).access() == Some(a),
            Usage::GpuOnly.access().is_none(),
            Usage::Immutable.access().is_none(),
            Usage::Dynamic.access().is_none(),
            Usage::Persistent(a) == Usage::Persistent(b) <==> a == b,
            Usage::CpuOnly(a) == Usage::CpuOnly(b) <==> a == b,
            Usage::Persistent(a) != Usage::CpuOnly(b),
    {
    }

    /// The order of the hints is total: any two hints compare, they compare
    /// equal exactly when they are the same hint, `u` is below `v` exactly
    /// when `v` is above `u`, and what is below a hint that is below a third
    /// is below the third.
    pub proof fn lemma_order_is_total(u: Usage, v: Usage, w: Usage)
        ensures
            u.partial_cmp_spec(&v) is Some,
            u.partial_cmp_spec(&v) == Some(Ordering::Equal) <==> u == v,
            u.partial_cmp_spec(&v) == Some(Ordering::Less) <==> v.partial_cmp_spec(&u) == Some(
                Ordering::Greater,
            ),
            u.partial_cmp_spec(&v) == Some(Ordering::Less) && v.partial_cmp_spec(&w) == Some(
                Ordering::Less,
            ) ==> u.partial_cmp_spec(&w) == Some(Ordering::Less),
    {
        if u.spec_rank() == v.spec_rank() && u.spec_access_bits() == v.spec_access_bits() {
            match (u.access(), v.access()) {
                (Some(a), Some(b)) => {
                    Access::lemma_bits_injective(a, b);
                },
                _ => {},
            }
        }
    }
}

impl PartialOrd for Usage {
    /// Hints are ordered by their variants, in the order of declaration, and
    /// two hints of the same variant by the access rights they carry.
    fn partial_cmp(&self, other: &Usage) -> (r: Option<Ordering>) {
        let (rank, other_rank) = (self.rank(), other.rank());
        let (bits, other_bits) = (self.access_bits(), other.access_bits());
        if rank < other_rank || (rank == other_rank && bits < other_bits) {
            Some(Ordering::Less)
        } else if rank == other_rank && bits == other_bits {
            Some(Ordering::Equal)
        } else {
            Some(Ordering::Greater)
        }
    }
}

impl vstd::std_specs::cmp::PartialOrdSpecImpl for Usage {
    open spec fn obeys_partial_cmp_spec() -> bool {
        true
    }

    open spec fn partial_cmp_spec(&self, other: &Usage) -> Option<Ordering> {
        if self.spec_rank() < other.spec_rank() || (self.spec_rank() == other.spec_rank()
            && self.spec_access_bits() < other.spec_access_bits()) {
            Some(Ordering::Less)
        } else if self.spec_rank() == other.spec_rank() && self.spec_access_bits()
            == other.spec_access_bits() {
            Some(Ordering::Equal)
        } else {
            Some(Ordering::Greater)
        }
    }
}

} // verus!
