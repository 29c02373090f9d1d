use vstd::prelude::*;

verus! {

/// The maximum number of component types that can be registered: one per bit
/// of a signature.
pub const MAX_COMPONENTS: usize = 64;

/// A set of component types, one bit per registered component type.
///
/// Entities carry one (the components they have), components have one with a
/// single bit, and systems have one (the components they need).
/// Assign a component: `entity | component`; has a component:
/// `entity & component == component`; remove a component: `entity & !component`.
#[derive(Clone, Copy, PartialEq, Eq, Structural, Debug)]
pub struct Signature {
    pub bits: u64,
}

/// `entity` carries every component that `system` asks for.
pub open spec fn covers(entity: u64, system: u64) -> bool {
    entity & system == system
}

impl Signature {
    /// The signature with no component.
    pub fn new() -> (s: Signature)
        ensures
            s.bits == 0,
    {
        Signature { bits: 0 }
    }

    /// The signature that holds only the bit at `index`.
    pub fn single(index: usize) -> (s: Signature)
        requires
            index < MAX_COMPONENTS,
        ensures
            s.bits == 1u64 << index,
    {
        let i: u64 = index as u64;
        Signature { bits: 1u64 << i }
    }

    /// Turns the bit at `index` on or off.
    pub fn set(&mut self, index: usize, value: bool)
        requires
            index < MAX_COMPONENTS,
        ensures
            final(self).bits == if value {
                old(self).bits | (1u64 << index)
            } else {
                old(self).bits & !(1u64 << index)
            },
    {
        let i: u64 = index as u64;
        if value {
            self.bits = self.bits | (1u64 << i);
        } else {
            self.bits = self.bits & !(1u64 << i);
        }
    }

    /// The components of either signature (`self | other`).
    pub fn union(self, other: Signature) -> (s: Signature)
        ensures
            s.bits == self.bits | other.bits,
    {
        Signature { bits: self.bits | other.bits }
    }

    /// The components of exactly one of the signatures (`self ^ other`).
    pub fn symmetric_difference(self, other: Signature) -> (s: Signature)
        ensures
            s.bits == self.bits ^ other.bits,
    {
        Signature { bits: self.bits ^ other.bits }
    }

    /// The components of `self` that are not in `other` (`self & !other`).
    pub fn difference(self, other: Signature) -> (s: Signature)
        ensures
            s.bits == self.bits & !other.bits,
    {
        Signature { bits: self.bits & !other.bits }
    }

    /// Whether `self` carries every component of `other`
    /// (`self & other == other`).
    pub fn covers(self, other: Signature) -> (b: bool)
        ensures
            b == covers(self.bits, other.bits),
    {
        self.bits & other.bits == other.bits
    }
}

/// Assigning a component makes an entity carry it.
pub proof fn lemma_union_covers(entity: u64, component: u64)
    ensures
        covers(entity | component, component),
{
    assert((entity | component) & component == component) by (bit_vector);
}

/// Removing a component makes an entity no longer carry it, whether or not
/// it carried it before, as long as the component's signature is not empty.
pub proof fn lemma_difference_uncovers(entity: u64, component: u64)
    requires
        component != 0,
    ensures
        !covers(entity & !component, component),
{
    assert(component != 0 ==> (entity & !component) & component != component) by (bit_vector);
}

} // verus!
