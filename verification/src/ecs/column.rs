use vstd::prelude::*;

use super::entity::{Entity, MAX_ENTITIES};

verus! {

/// The values of one component type, one optional slot per entity
/// identifier.
#[verifier::reject_recursive_types(T)]
pub struct Column<T> {
    slots: Vec<Option<T>>,
}

impl<T> Column<T> {
    /// The slot of every identifier.
    pub closed spec fn slots(&self) -> Seq<Option<T>> {
        self.slots@
    }

    /// One slot per identifier.
    pub open spec fn wf(&self) -> bool {
        self.slots().len() == MAX_ENTITIES
    }

    /// Every slot empty.
    pub fn new() -> (c: Self)
        ensures
            c.wf(),
            forall|i: int| 0 <= i < MAX_ENTITIES ==> #[trigger] c.slots()[i] is None,
    {
        let mut slots: Vec<Option<T>> = Vec::new();
        let mut i: usize = 0;
        while i < MAX_ENTITIES
            invariant
                i <= MAX_ENTITIES,
                slots@.len() == i,
                forall|j: int| 0 <= j < i ==> #[trigger] slots@[j] is None,
            decreases MAX_ENTITIES - i,
        {
            slots.push(None);
            i = i + 1;
        }
        Column { slots }
    }

    /// Puts `value` in the slot of `entity`, dropping what was there.
    pub fn set(&mut self, entity: Entity, value: Option<T>)
        requires
            old(self).wf(),
            entity < MAX_ENTITIES,
        ensures
            final(self).wf(),
            final(self).slots() == old(self).slots().update(entity as int, value),
    {
        self.slots.set(entity, value);
    }

    /// The value in the slot of `entity`, if any.
    pub fn get(&self, entity: Entity) -> (r: Option<&T>)
        requires
            self.wf(),
            entity < MAX_ENTITIES,
        ensures
            match r {
                Some(v) => self.slots()[entity as int] == Some(*v),
                None => self.slots()[entity as int] is None,
            },
    {
        match &self.slots[entity] {
            Some(v) => Some(v),
            None => None,
        }
    }
}

} // verus!
