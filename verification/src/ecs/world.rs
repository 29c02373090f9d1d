use std::collections::BTreeSet;
use vstd::prelude::*;

use super::component::{component_bit, lemma_registered_type_has_index, ComponentManager};
use super::entity::{Entity, EntityManager, MAX_ENTITIES};
use super::signature::{covers, lemma_difference_uncovers, lemma_union_covers, Signature, MAX_COMPONENTS};
use super::system::SystemManager;

verus! {

broadcast use {vstd::std_specs::btree::group_btree_axioms, vstd::laws_cmp::group_laws_cmp};

/// Holds the entities and the component types of a game, and the entities
/// that changed.
pub struct World {
    /// Manager for entities.
    entity_manager: EntityManager,
    /// Manager for component types.
    component_manager: ComponentManager,
    /// Entities that have been created, destroyed, or given or stripped of a
    /// component.
    pub dirty: BTreeSet<Entity>,
}

impl World {
    pub closed spec fn entity_manager(&self) -> EntityManager {
        self.entity_manager
    }

    pub closed spec fn component_manager(&self) -> ComponentManager {
        self.component_manager
    }

    /// The dirty entities.
    pub closed spec fn dirty_set(&self) -> Set<Entity> {
        self.dirty@
    }

    /// Both managers are well formed and every dirty entity is in range.
    pub closed spec fn wf(&self) -> bool {
        &&& self.entity_manager.wf()
        &&& self.component_manager.wf()
        &&& forall|e: Entity| #[trigger] self.dirty@.contains(e) ==> e < MAX_ENTITIES
    }

    /// A well-formed world has well-formed managers, and a signature for
    /// every identifier below `MAX_ENTITIES`.
    pub proof fn lemma_wf(&self)
        requires
            self.wf(),
        ensures
            self.entity_manager().wf(),
            self.component_manager().wf(),
            self.entity_manager().signatures().len() == MAX_ENTITIES,
            forall|e: Entity| #[trigger] self.dirty_set().contains(e) ==> e < MAX_ENTITIES,
    {
        self.entity_manager.lemma_wf_ranges();
    }

    /// Every dirty entity is in range.
    pub proof fn lemma_dirty_in_range(&self, e: Entity)
        requires
            self.wf(),
            self.dirty_set().contains(e),
        ensures
            e < MAX_ENTITIES,
    {
    }

    /// The signature bits of an entity.
    pub open spec fn sig(&self, entity: Entity) -> u64 {
        self.entity_manager().signatures()[entity as int]
    }

    /// The signature bits of a registered component type.
    pub open spec fn component_type(&self, name: Seq<char>) -> u64 {
        self.component_manager().types()[name]
    }

    /// No living entity, no component type, nothing dirty.
    pub fn new() -> (w: Self)
        ensures
            w.wf(),
            w.entity_manager().available() == Seq::new(MAX_ENTITIES as nat, |i: int| i as Entity),
            w.entity_manager().signatures() == Seq::new(MAX_ENTITIES as nat, |i: int| 0u64),
            w.entity_manager().living() == 0,
            w.entity_manager().uuids() == Map::<Entity, Seq<char>>::empty(),
            w.entity_manager().entities() == Map::<Seq<char>, Entity>::empty(),
            w.component_manager().count() == 0,
            w.component_manager().types() == Map::<Seq<char>, u64>::empty(),
            w.component_manager().indices() == Map::<u64, usize>::empty(),
            w.dirty_set() == Set::<Entity>::empty(),
    {
        World {
            entity_manager: EntityManager::new(),
            component_manager: ComponentManager::new(),
            dirty: BTreeSet::new(),
        }
    }

    /// Creates a new entity, returning its identifier and uuid; the entity is
    /// marked dirty.
    pub fn create_entity(&mut self) -> (r: (Entity, String))
        requires
            old(self).wf(),
            old(self).entity_manager().living() < MAX_ENTITIES,
        ensures
            final(self).wf(),
            r.0 == old(self).entity_manager().available()[0],
            r.0 < MAX_ENTITIES,
            r.1@.len() == 36,
            !old(self).entity_manager().uuids().contains_key(r.0),
            final(self).entity_manager().available() == old(
                self,
            ).entity_manager().available().drop_first(),
            final(self).entity_manager().signatures() == old(self).entity_manager().signatures(),
            final(self).entity_manager().living() == old(self).entity_manager().living() + 1,
            final(self).entity_manager().uuids() == old(self).entity_manager().uuids().insert(
                r.0,
                r.1@,
            ),
            final(self).entity_manager().entities() == old(
                self,
            ).entity_manager().entities().insert(r.1@, r.0),
            final(self).component_manager() == old(self).component_manager(),
            final(self).dirty_set() == old(self).dirty_set().insert(r.0),
    {
        let (ent, id) = self.entity_manager.create_entity();
        self.dirty.insert(ent);
        (ent, id)
    }

    /// Destroys a living entity and marks it dirty.
    pub fn destroy_entity(&mut self, entity: Entity)
        requires
            old(self).wf(),
            entity < MAX_ENTITIES,
            old(self).entity_manager().uuids().contains_key(entity),
        ensures
            final(self).wf(),
            final(self).entity_manager().available() == old(
                self,
            ).entity_manager().available().push(entity),
            final(self).entity_manager().signatures() == old(
                self,
            ).entity_manager().signatures().update(entity as int, 0u64),
            final(self).entity_manager().living() == old(self).entity_manager().living() - 1,
            final(self).entity_manager().uuids() == old(self).entity_manager().uuids().remove(
                entity,
            ),
            final(self).entity_manager().entities() == old(
                self,
            ).entity_manager().entities().remove(old(self).entity_manager().uuids()[entity]),
            final(self).component_manager() == old(self).component_manager(),
            final(self).dirty_set() == old(self).dirty_set().insert(entity),
    {
        self.entity_manager.destroy_entity(entity);
        self.dirty.insert(entity);
    }

    /// The entity manager, to read.
    pub fn get_entity_manager(&self) -> (em: &EntityManager)
        ensures
            *em == self.entity_manager(),
    {
        &self.entity_manager
    }

    /// The component manager, to read.
    pub fn get_component_manager(&self) -> (cm: &ComponentManager)
        ensures
            *cm == self.component_manager(),
    {
        &self.component_manager
    }

    /// Whether an entity is marked dirty.
    pub fn is_dirty(&self, entity: Entity) -> (b: bool)
        ensures
            b == self.dirty_set().contains(entity),
    {
        self.dirty.contains(&entity)
    }

    /// The signature of an entity.
    pub fn get_signature(&self, entity: Entity) -> (s: Signature)
        requires
            self.wf(),
            entity < MAX_ENTITIES,
        ensures
            s.bits == self.sig(entity),
    {
        self.entity_manager.get_signature(entity)
    }

    /// Registers a new component type under `name`.
    pub fn register_component(&mut self, name: String)
        requires
            old(self).wf(),
            !old(self).component_manager().types().contains_key(name@),
            old(self).component_manager().count() < MAX_COMPONENTS,
        ensures
            final(self).wf(),
            final(self).component_manager().types() == old(
                self,
            ).component_manager().types().insert(
                name@,
                component_bit(old(self).component_manager().count()),
            ),
            final(self).component_manager().indices() == old(
                self,
            ).component_manager().indices().insert(
                component_bit(old(self).component_manager().count()),
                old(self).component_manager().count() as usize,
            ),
            final(self).component_manager().count() == old(self).component_manager().count() + 1,
            final(self).entity_manager() == old(self).entity_manager(),
            final(self).dirty_set() == old(self).dirty_set(),
    {
        self.component_manager.register_component(name);
    }

    /// The signature of the component type registered under `component_name`.
    pub fn get_component_type_from_name(&self, component_name: String) -> (s: Signature)
        requires
            self.component_manager().types().contains_key(component_name@),
        ensures
            s.bits == self.component_type(component_name@),
    {
        self.component_manager.get_component_type(component_name)
    }

    /// The storage index of a registered component signature.
    pub fn get_component_index(&self, component_type: &Signature) -> (index: usize)
        requires
            self.component_manager().indices().contains_key(component_type.bits),
        ensures
            index == self.component_manager().indices()[component_type.bits],
    {
        self.component_manager.get_component_index(component_type)
    }

    /// Gives an entity the component type registered under `component_name`
    /// (`signature | component`) and marks the entity dirty.
    pub fn assign(&mut self, entity: Entity, component_name: String)
        requires
            old(self).wf(),
            entity < MAX_ENTITIES,
            old(self).component_manager().types().contains_key(component_name@),
        ensures
            final(self).wf(),
            final(self).entity_manager().signatures() == old(
                self,
            ).entity_manager().signatures().update(
                entity as int,
                old(self).sig(entity) | old(self).component_type(component_name@),
            ),
            final(self).entity_manager().available() == old(self).entity_manager().available(),
            final(self).entity_manager().living() == old(self).entity_manager().living(),
            final(self).entity_manager().uuids() == old(self).entity_manager().uuids(),
            final(self).entity_manager().entities() == old(self).entity_manager().entities(),
            final(self).component_manager() == old(self).component_manager(),
            final(self).dirty_set() == old(self).dirty_set().insert(entity),
            covers(final(self).sig(entity), old(self).component_type(component_name@)),
    {
        let mut entity_sig = self.get_signature(entity);
        let component_type = self.get_component_type_from_name(component_name);
        entity_sig = entity_sig.union(component_type);
        self.entity_manager.set_signature(entity, entity_sig);
        self.dirty.insert(entity);
        proof {
            old(self).entity_manager.lemma_wf_ranges();
            lemma_union_covers(old(self).sig(entity), component_type.bits);
        }
    }

    /// Whether an entity has the component type registered under
    /// `component_name` (`signature & component == component`).
    pub fn has(&self, entity: Entity, component_name: String) -> (b: bool)
        requires
            self.wf(),
            entity < MAX_ENTITIES,
            self.component_manager().types().contains_key(component_name@),
        ensures
            b == covers(self.sig(entity), self.component_type(component_name@)),
    {
        let entity_sig = self.get_signature(entity);
        let component_type = self.get_component_type_from_name(component_name);
        entity_sig.covers(component_type)
    }

    /// Removes the component type registered under `component_name` from an
    /// entity's signature (`signature & !component`) and marks the entity
    /// dirty; the other components of the entity stay.
    pub fn remove(&mut self, entity: Entity, component_name: String)
        requires
            old(self).wf(),
            entity < MAX_ENTITIES,
            old(self).component_manager().types().contains_key(component_name@),
        ensures
            final(self).wf(),
            final(self).entity_manager().signatures() == old(
                self,
            ).entity_manager().signatures().update(
                entity as int,
                old(self).sig(entity) & !old(self).component_type(component_name@),
            ),
            final(self).entity_manager().available() == old(self).entity_manager().available(),
            final(self).entity_manager().living() == old(self).entity_manager().living(),
            final(self).entity_manager().uuids() == old(self).entity_manager().uuids(),
            final(self).entity_manager().entities() == old(self).entity_manager().entities(),
            final(self).component_manager() == old(self).component_manager(),
            final(self).dirty_set() == old(self).dirty_set().insert(entity),
            !covers(final(self).sig(entity), old(self).component_type(component_name@)),
    {
        let mut entity_sig = self.get_signature(entity);
        let component_type = self.get_component_type_from_name(component_name);
        entity_sig = entity_sig.difference(component_type);
        self.entity_manager.set_signature(entity, entity_sig);
        self.dirty.insert(entity);
        proof {
            old(self).entity_manager.lemma_wf_ranges();
            lemma_registered_type_has_index(&old(self).component_manager, component_name@);
            lemma_difference_uncovers(old(self).sig(entity), component_type.bits);
        }
    }
}

} // verus!
