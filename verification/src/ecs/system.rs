use std::collections::BTreeSet;
use vstd::hash_map::StringHashMap;
use vstd::prelude::*;

use super::entity::Entity;
use super::signature::{covers, Signature};

verus! {

broadcast use {vstd::std_specs::btree::group_btree_axioms, vstd::laws_cmp::group_laws_cmp};

/// The entity set of a system after an entity with signature `entity_sig` was
/// indexed (`insert_matching`: added where it matches) and deindexed
/// (`remove_unmatched`: removed where it does not match).
pub open spec fn reindexed(
    set: Set<Entity>,
    system_sig: u64,
    entity: Entity,
    entity_sig: u64,
    insert_matching: bool,
    remove_unmatched: bool,
) -> Set<Entity> {
    if covers(entity_sig, system_sig) {
        if insert_matching {
            set.insert(entity)
        } else {
            set
        }
    } else {
        if remove_unmatched {
            set.remove(entity)
        } else {
            set
        }
    }
}

/// Tracks the registered systems: the signature each one needs, the index of
/// its instance, and the entities it acts on. Slot `i` belongs to the `i`-th
/// distinct system name registered.
pub struct SystemManager {
    /// The name of each slot.
    names: Vec<String>,
    /// The slot of each registered name.
    slots: StringHashMap<usize>,
    /// The signature and instance index of each slot.
    signatures: Vec<(Signature, usize)>,
    /// The entities that each slot's system acts on.
    entity_index: Vec<BTreeSet<Entity>>,
    /// The number of system instances registered.
    systems: usize,
}

impl SystemManager {
    /// The system name of each slot.
    pub closed spec fn names(&self) -> Seq<Seq<char>> {
        self.names@.map_values(|s: String| s@)
    }

    /// The slot of each registered system name.
    pub closed spec fn slots(&self) -> Map<Seq<char>, usize> {
        self.slots@
    }

    /// The signature bits of each slot.
    pub closed spec fn sigs(&self) -> Seq<u64> {
        self.signatures@.map_values(|p: (Signature, usize)| p.0.bits)
    }

    /// The instance index of each slot.
    pub closed spec fn instances(&self) -> Seq<usize> {
        self.signatures@.map_values(|p: (Signature, usize)| p.1)
    }

    /// The entities of each slot.
    pub closed spec fn entity_sets(&self) -> Seq<Set<Entity>> {
        self.entity_index@.map_values(|s: BTreeSet<Entity>| s@)
    }

    /// The number of system instances registered.
    pub closed spec fn systems(&self) -> nat {
        self.systems as nat
    }

    /// One slot per distinct name, found through `slots`; every instance
    /// index was handed out.
    pub closed spec fn wf(&self) -> bool {
        &&& self.signatures@.len() == self.names@.len()
        &&& self.entity_index@.len() == self.names@.len()
        &&& forall|i: int, j: int|
            0 <= i < self.names@.len() && 0 <= j < self.names@.len() && i != j
                ==> self.names@[i]@ != self.names@[j]@
        &&& forall|n: Seq<char>|
            #[trigger] self.slots@.contains_key(n) ==> self.slots@[n] < self.names@.len()
                && self.names@[self.slots@[n] as int]@ == n
        &&& forall|i: int|
            0 <= i < self.names@.len() ==> #[trigger] self.slots@.contains_key(self.names@[i]@)
        &&& forall|i: int|
            0 <= i < self.signatures@.len() ==> #[trigger] self.signatures@[i].1 < self.systems
    }

    /// No system is registered.
    pub fn new() -> (sm: Self)
        ensures
            sm.wf(),
            sm.names() == Seq::<Seq<char>>::empty(),
            sm.slots() == Map::<Seq<char>, usize>::empty(),
            sm.systems() == 0,
    {
        let sm = SystemManager {
            names: Vec::new(),
            slots: StringHashMap::new(),
            signatures: Vec::new(),
            entity_index: Vec::new(),
            systems: 0,
        };
        assert(sm.names() =~= Seq::<Seq<char>>::empty());
        sm
    }

    /// Registers the next system instance under `name` with `signature`.
    ///
    /// A name registered before keeps its slot; its signature and instance
    /// index are replaced and its entity set is emptied. A new name gets a new
    /// slot at the end. The instance index is the number of instances
    /// registered before.
    pub fn register(&mut self, name: String, signature: Signature)
        requires
            old(self).wf(),
            old(self).systems() < usize::MAX,
        ensures
            final(self).wf(),
            final(self).systems() == old(self).systems() + 1,
            old(self).slots().contains_key(name@) ==> {
                let i = old(self).slots()[name@] as int;
                &&& final(self).names() == old(self).names()
                &&& final(self).slots() == old(self).slots()
                &&& final(self).sigs() == old(self).sigs().update(i, signature.bits)
                &&& final(self).instances() == old(self).instances().update(
                    i,
                    old(self).systems() as usize,
                )
                &&& final(self).entity_sets() == old(self).entity_sets().update(
                    i,
                    Set::<Entity>::empty(),
                )
            },
            !old(self).slots().contains_key(name@) ==> {
                &&& final(self).names() == old(self).names().push(name@)
                &&& final(self).slots() == old(self).slots().insert(
                    name@,
                    old(self).names().len() as usize,
                )
                &&& final(self).sigs() == old(self).sigs().push(signature.bits)
                &&& final(self).instances() == old(self).instances().push(
                    old(self).systems() as usize,
                )
                &&& final(self).entity_sets() == old(self).entity_sets().push(
                    Set::<Entity>::empty(),
                )
            },
    {
        let index = self.systems;
        match self.slots.get(name.as_str()) {
            Some(slot) => {
                let i: usize = *slot;
                self.signatures[i] = (signature, index);
                self.entity_index[i] = BTreeSet::new();
            },
            None => {
                let i: usize = self.names.len();
                self.slots.insert(name.clone(), i);
                self.names.push(name);
                self.signatures.push((signature, index));
                self.entity_index.push(BTreeSet::new());
            },
        }
        self.systems = self.systems + 1;
        proof {
            assert(self.names() =~= old(self).names() || self.names() =~= old(self).names().push(
                name@,
            ));
            if old(self).slots().contains_key(name@) {
                let i = old(self).slots()[name@] as int;
                assert(self.names() =~= old(self).names());
                assert(self.sigs() =~= old(self).sigs().update(i, signature.bits));
                assert(self.instances() =~= old(self).instances().update(i, index));
                assert(self.entity_sets() =~= old(self).entity_sets().update(
                    i,
                    Set::<Entity>::empty(),
                ));
            } else {
                let k = old(self).names@.len() as int;
                assert(self.names() =~= old(self).names().push(name@));
                assert(self.sigs() =~= old(self).sigs().push(signature.bits));
                assert(self.instances() =~= old(self).instances().push(index));
                assert(self.entity_sets() =~= old(self).entity_sets().push(
                    Set::<Entity>::empty(),
                ));
                assert forall|i: int|
                    0 <= i < self.names@.len() implies #[trigger] self.slots@.contains_key(
                    self.names@[i]@,
                ) by {
                    if i < k {
                        assert(old(self).slots@.contains_key(old(self).names@[i]@));
                    }
                }
                assert forall|n: Seq<char>| #[trigger]
                    self.slots@.contains_key(n) implies self.slots@[n] < self.names@.len()
                    && self.names@[self.slots@[n] as int]@ == n by {
                    if n != name@ {
                        assert(old(self).slots@.contains_key(n));
                    }
                }
                assert forall|i: int, j: int|
                    0 <= i < self.names@.len() && 0 <= j < self.names@.len() && i != j implies self.names@[i]@
                    != self.names@[j]@ by {
                    if i == k {
                        assert(old(self).slots@.contains_key(old(self).names@[j]@));
                    } else if j == k {
                        assert(old(self).slots@.contains_key(old(self).names@[i]@));
                    }
                }
            }
        }
    }

    /// Brings every slot's entity set up to date for `entity`, whose signature
    /// is `ent_sig`.
    fn reindex(
        &mut self,
        entity: Entity,
        ent_sig: Signature,
        insert_matching: bool,
        remove_unmatched: bool,
    )
        requires
            old(self).wf(),
        ensures
            final(self).wf(),
            final(self).names() == old(self).names(),
            final(self).slots() == old(self).slots(),
            final(self).sigs() == old(self).sigs(),
            final(self).instances() == old(self).instances(),
            final(self).systems() == old(self).systems(),
            final(self).entity_sets().len() == old(self).entity_sets().len(),
            forall|i: int|
                0 <= i < old(self).entity_sets().len() ==> #[trigger] final(self).entity_sets()[i]
                    == reindexed(
                    old(self).entity_sets()[i],
                    old(self).sigs()[i],
                    entity,
                    ent_sig.bits,
                    insert_matching,
                    remove_unmatched,
                ),
    {
        let n = self.signatures.len();
        let mut i: usize = 0;
        while i < n
            invariant
                0 <= i <= n,
                n == self.signatures@.len(),
                self.wf(),
                self.names@ == old(self).names@,
                self.slots@ == old(self).slots@,
                self.signatures@ == old(self).signatures@,
                self.systems == old(self).systems,
                self.entity_index@.len() == old(self).entity_index@.len(),
                forall|j: int|
                    0 <= j < i ==> #[trigger] self.entity_index@[j]@ == reindexed(
                        old(self).entity_index@[j]@,
                        old(self).signatures@[j].0.bits,
                        entity,
                        ent_sig.bits,
                        insert_matching,
                        remove_unmatched,
                    ),
                forall|j: int|
                    i <= j < n ==> #[trigger] self.entity_index@[j] == old(self).entity_index@[j],
            decreases n - i,
        {
            let sys_sig = self.signatures[i].0;
            if ent_sig.covers(sys_sig) {
                if insert_matching {
                    self.entity_index[i].insert(entity);
                }
            } else {
                if remove_unmatched {
                    self.entity_index[i].remove(&entity);
                }
            }
            i = i + 1;
        }
        proof {
            assert(self.names() =~= old(self).names());
            assert(self.sigs() =~= old(self).sigs());
            assert(self.instances() =~= old(self).instances());
        }
    }

    /// Adds `entity` to the entity set of every system whose signature
    /// `ent_sig` covers.
    pub fn index(&mut self, entity: Entity, ent_sig: Signature)
        requires
            old(self).wf(),
        ensures
            final(self).wf(),
            final(self).names() == old(self).names(),
            final(self).slots() == old(self).slots(),
            final(self).sigs() == old(self).sigs(),
            final(self).instances() == old(self).instances(),
            final(self).systems() == old(self).systems(),
            final(self).entity_sets().len() == old(self).entity_sets().len(),
            forall|i: int|
                0 <= i < old(self).entity_sets().len() ==> #[trigger] final(self).entity_sets()[i]
                    == if covers(ent_sig.bits, old(self).sigs()[i]) {
                    old(self).entity_sets()[i].insert(entity)
                } else {
                    old(self).entity_sets()[i]
                },
    {
        self.reindex(entity, ent_sig, true, false);
    }

    /// Removes `entity` from the entity set of every system whose signature
    /// `ent_sig` does not cover.
    pub fn deindex(&mut self, entity: Entity, ent_sig: Signature)
        requires
            old(self).wf(),
        ensures
            final(self).wf(),
            final(self).names() == old(self).names(),
            final(self).slots() == old(self).slots(),
            final(self).sigs() == old(self).sigs(),
            final(self).instances() == old(self).instances(),
            final(self).systems() == old(self).systems(),
            final(self).entity_sets().len() == old(self).entity_sets().len(),
            forall|i: int|
                0 <= i < old(self).entity_sets().len() ==> #[trigger] final(self).entity_sets()[i]
                    == if covers(ent_sig.bits, old(self).sigs()[i]) {
                    old(self).entity_sets()[i]
                } else {
                    old(self).entity_sets()[i].remove(entity)
                },
    {
        self.reindex(entity, ent_sig, false, true);
    }

    /// Removes `entity` from the entity set of every system.
    pub fn forget(&mut self, entity: Entity)
        requires
            old(self).wf(),
        ensures
            final(self).wf(),
            final(self).names() == old(self).names(),
            final(self).slots() == old(self).slots(),
            final(self).sigs() == old(self).sigs(),
            final(self).instances() == old(self).instances(),
            final(self).systems() == old(self).systems(),
            final(self).entity_sets().len() == old(self).entity_sets().len(),
            forall|i: int|
                0 <= i < old(self).entity_sets().len() ==> #[trigger] final(self).entity_sets()[i]
                    == old(self).entity_sets()[i].remove(entity),
    {
        let n = self.entity_index.len();
        let mut i: usize = 0;
        while i < n
            invariant
                0 <= i <= n,
                n == self.entity_index@.len(),
                self.wf(),
                self.names@ == old(self).names@,
                self.slots@ == old(self).slots@,
                self.signatures@ == old(self).signatures@,
                self.systems == old(self).systems,
                self.entity_index@.len() == old(self).entity_index@.len(),
                forall|j: int|
                    0 <= j < i ==> #[trigger] self.entity_index@[j]@ == old(
                        self,
                    ).entity_index@[j]@.remove(entity),
                forall|j: int|
                    i <= j < n ==> #[trigger] self.entity_index@[j] == old(self).entity_index@[j],
            decreases n - i,
        {
            self.entity_index[i].remove(&entity);
            i = i + 1;
        }
        proof {
            assert(self.names() =~= old(self).names());
            assert(self.sigs() =~= old(self).sigs());
            assert(self.instances() =~= old(self).instances());
        }
    }

    /// Puts `entity` in exactly the entity sets of the systems whose
    /// signature `ent_sig` covers.
    pub fn clean(&mut self, entity: Entity, ent_sig: Signature)
        requires
            old(self).wf(),
        ensures
            final(self).wf(),
            final(self).names() == old(self).names(),
            final(self).slots() == old(self).slots(),
            final(self).sigs() == old(self).sigs(),
            final(self).instances() == old(self).instances(),
            final(self).systems() == old(self).systems(),
            final(self).entity_sets().len() == old(self).entity_sets().len(),
            forall|i: int|
                0 <= i < old(self).entity_sets().len() ==> #[trigger] final(self).entity_sets()[i]
                    == if covers(ent_sig.bits, old(self).sigs()[i]) {
                    old(self).entity_sets()[i].insert(entity)
                } else {
                    old(self).entity_sets()[i].remove(entity)
                },
    {
        self.reindex(entity, ent_sig, true, true);
    }

    /// The number of system instances registered.
    pub fn system_count(&self) -> (n: usize)
        ensures
            n == self.systems(),
    {
        self.systems
    }

    /// The number of slots (distinct system names).
    pub fn len(&self) -> (n: usize)
        requires
            self.wf(),
        ensures
            n == self.names().len(),
    {
        self.names.len()
    }

    /// The instance index of a slot.
    pub fn instance_of(&self, slot: usize) -> (index: usize)
        requires
            self.wf(),
            slot < self.names().len(),
        ensures
            index == self.instances()[slot as int],
            index < self.systems(),
    {
        self.signatures[slot].1
    }

    /// The entities that a slot's system acts on.
    pub fn entities_of(&self, slot: usize) -> (entities: &BTreeSet<Entity>)
        requires
            self.wf(),
            slot < self.names().len(),
        ensures
            entities@ == self.entity_sets()[slot as int],
    {
        &self.entity_index[slot]
    }
}

/// After `clean`, an entity belongs to a system's entity set exactly when its
/// signature covers the system's signature.
pub proof fn lemma_clean_matches(
    before: Set<Entity>,
    system_sig: u64,
    entity: Entity,
    ent_sig: u64,
)
    ensures
        reindexed(before, system_sig, entity, ent_sig, true, true).contains(entity) <==> covers(
            ent_sig,
            system_sig,
        ),
{
}

} // verus!
