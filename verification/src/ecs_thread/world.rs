use std::collections::BTreeSet;
use vstd::prelude::*;

use super::component::{lemma_types_distinct, ComponentManager};
use super::entity::EntityManager;
use crate::ecs::component::component_bit;
use crate::ecs::entity::{Entity, MAX_ENTITIES};
use crate::ecs::signature::{covers, lemma_difference_uncovers, lemma_union_covers, Signature, MAX_COMPONENTS};

verus! {

broadcast use {vstd::std_specs::btree::group_btree_axioms, vstd::laws_cmp::group_laws_cmp};

/// Coordinates the entities and component types that systems share.
pub struct World {
    /// Manager for entities.
    entity_manager: EntityManager,
    /// Manager for component types.
    component_manager: ComponentManager,
    /// Entities that have been updated since the last clean.
    pub dirty: BTreeSet<Entity>,
}

impl World {
    pub closed spec fn entity_manager(&self) -> EntityManager {
        self.entity_manager
    }

    pub closed spec fn component_manager(&self) -> ComponentManager {
        self.component_manager
    }

    /// The dirty entities.
    pub closed spec fn dirty_set(&self) -> Set<Entity> {
        self.dirty@
    }

    /// Both managers are well formed and every dirty entity is in range.
    pub closed spec fn wf(&self) -> bool {
        &&& self.entity_manager.wf()
        &&& self.component_manager.wf()
        &&& forall|e: Entity| #[trigger] self.dirty@.contains(e) ==> e < MAX_ENTITIES
    }

    /// The signature bits of an entity.
    pub open spec fn sig(&self, entity: Entity) -> u64 {
        self.entity_manager().signatures()[entity as int]
    }

    /// The signature bits of a registered component type.
    pub open spec fn component_type(&self, name: Seq<char>) -> u64 {
        self.component_manager().types()[name]
    }

    /// What a well-formed world guarantees to its users.
    pub proof fn lemma_wf(&self)
        requires
            self.wf(),
        ensures
            self.entity_manager().wf(),
            self.component_manager().wf(),
            self.entity_manager().signatures().len() == MAX_ENTITIES,
            self.entity_manager().uuids().len() == MAX_ENTITIES,
            forall|e: Entity| #[trigger] self.dirty_set().contains(e) ==> e < MAX_ENTITIES,
    {
    }

    /// Fresh managers and nothing dirty.
    pub fn new() -> (w: Self)
        ensures
            w.wf(),
            w.entity_manager().shelf() == Seq::new(MAX_ENTITIES as nat, |i: int| i as Entity),
            w.entity_manager().signatures() == Seq::new(MAX_ENTITIES as nat, |i: int| 0u64),
            w.entity_manager().uuids() == Seq::new(
                MAX_ENTITIES as nat,
                |i: int| None::<Seq<char>>,
            ),
            w.entity_manager().living() == 0,
            w.component_manager().types() == Map::<Seq<char>, u64>::empty(),
            w.component_manager().count() == 0,
            w.dirty_set() == Set::<Entity>::empty(),
    {
        World {
            entity_manager: EntityManager::new(),
            component_manager: ComponentManager::new(),
            dirty: BTreeSet::new(),
        }
    }

    /// Spawns a new blank entity and marks it dirty.
    pub fn create_entity(&mut self) -> (r: (Entity, String))
        requires
            old(self).wf(),
            old(self).entity_manager().living() < MAX_ENTITIES,
        ensures
            final(self).wf(),
            r.0 == old(self).entity_manager().shelf()[0],
            r.0 < MAX_ENTITIES,
            r.1@.len() == 36,
            old(self).entity_manager().uuids()[r.0 as int] is None,
            final(self).entity_manager().shelf() == old(self).entity_manager().shelf().drop_first(),
            final(self).entity_manager().signatures() == old(self).entity_manager().signatures(),
            final(self).entity_manager().uuids() == old(self).entity_manager().uuids().update(
                r.0 as int,
                Some(r.1@),
            ),
            final(self).entity_manager().living() == old(self).entity_manager().living() + 1,
            final(self).component_manager() == old(self).component_manager(),
            final(self).dirty_set() == old(self).dirty_set().insert(r.0),
    {
        let (ent, id) = self.entity_manager.spawn();
        self.dirty.insert(ent);
        (ent, id)
    }

    /// Destroys an entity and marks it dirty.
    pub fn destroy_entity(&mut self, entity: Entity)
        requires
            old(self).wf(),
            entity < MAX_ENTITIES,
            old(self).entity_manager().uuids()[entity as int] is Some,
        ensures
            final(self).wf(),
            final(self).entity_manager().shelf() == old(self).entity_manager().shelf().push(entity),
            final(self).entity_manager().signatures() == old(
                self,
            ).entity_manager().signatures().update(entity as int, 0u64),
            final(self).entity_manager().uuids() == old(self).entity_manager().uuids().update(
                entity as int,
                None,
            ),
            final(self).entity_manager().living() == old(self).entity_manager().living() - 1,
            final(self).component_manager() == old(self).component_manager(),
            final(self).dirty_set() == old(self).dirty_set().insert(entity),
    {
        self.entity_manager.destroy(entity);
        self.dirty.insert(entity);
    }

    /// Registers a component type under `name`.
    pub fn register(&mut self, name: String)
        requires
            old(self).wf(),
            old(self).component_manager().count() < MAX_COMPONENTS,
            !old(self).component_manager().types().contains_key(name@),
        ensures
            final(self).wf(),
            final(self).component_manager().types() == old(
                self,
            ).component_manager().types().insert(
                name@,
                component_bit(old(self).component_manager().count()),
            ),
            final(self).component_manager().indices() == old(
                self,
            ).component_manager().indices().insert(
                name@,
                old(self).component_manager().count() as usize,
            ),
            final(self).component_manager().count() == old(self).component_manager().count() + 1,
            final(self).entity_manager() == old(self).entity_manager(),
            final(self).dirty_set() == old(self).dirty_set(),
    {
        self.component_manager.register(name);
    }

    /// Gives an entity a component type and marks it dirty.
    pub fn assign(&mut self, entity: Entity, component_name: String)
        requires
            old(self).wf(),
            entity < MAX_ENTITIES,
            old(self).component_manager().types().contains_key(component_name@),
        ensures
            final(self).wf(),
            final(self).entity_manager().signatures() == old(
                self,
            ).entity_manager().signatures().update(
                entity as int,
                old(self).sig(entity) | old(self).component_type(component_name@),
            ),
            final(self).entity_manager().shelf() == old(self).entity_manager().shelf(),
            final(self).entity_manager().uuids() == old(self).entity_manager().uuids(),
            final(self).entity_manager().living() == old(self).entity_manager().living(),
            final(self).component_manager() == old(self).component_manager(),
            final(self).dirty_set() == old(self).dirty_set().insert(entity),
            covers(final(self).sig(entity), old(self).component_type(component_name@)),
    {
        let component_sig = self.component_manager.get_signature_from_name(&component_name);
        self.entity_manager.assign(entity, component_sig);
        self.dirty.insert(entity);
        proof {
            lemma_union_covers(old(self).sig(entity), component_sig.bits);
        }
    }

    /// Removes a component type from an entity's signature
    /// (`signature & !component`) and marks the entity dirty; the other
    /// components of the entity stay.
    pub fn unassign(&mut self, entity: Entity, component_name: String)
        requires
            old(self).wf(),
            entity < MAX_ENTITIES,
            old(self).component_manager().types().contains_key(component_name@),
        ensures
            final(self).wf(),
            final(self).entity_manager().signatures() == old(
                self,
            ).entity_manager().signatures().update(
                entity as int,
                old(self).sig(entity) & !old(self).component_type(component_name@),
            ),
            final(self).entity_manager().shelf() == old(self).entity_manager().shelf(),
            final(self).entity_manager().uuids() == old(self).entity_manager().uuids(),
            final(self).entity_manager().living() == old(self).entity_manager().living(),
            final(self).component_manager() == old(self).component_manager(),
            final(self).dirty_set() == old(self).dirty_set().insert(entity),
            !covers(final(self).sig(entity), old(self).component_type(component_name@)),
    {
        let component_sig = self.component_manager.get_signature_from_name(&component_name);
        self.entity_manager.unassign(entity, component_sig);
        self.dirty.insert(entity);
        proof {
            lemma_types_distinct(old(self).component_manager, component_name@, component_name@);
            lemma_difference_uncovers(old(self).sig(entity), component_sig.bits);
        }
    }

    /// The signature of the component type registered under `name`.
    pub fn get_component_signature_from_name(&self, name: String) -> (s: Signature)
        requires
            self.component_manager().types().contains_key(name@),
        ensures
            s.bits == self.component_type(name@),
    {
        self.component_manager.get_signature_from_name(&name)
    }

    /// The storage index of the component type registered under `name`.
    pub fn get_component_index(&self, name: &String) -> (index: usize)
        requires
            self.wf(),
            self.component_manager().types().contains_key(name@),
        ensures
            index == self.component_manager().indices()[name@],
    {
        self.component_manager.get_component_index(name)
    }

    /// The signature of an entity.
    pub fn get_signature(&self, entity: Entity) -> (s: Signature)
        requires
            self.wf(),
            entity < MAX_ENTITIES,
        ensures
            s.bits == self.sig(entity),
    {
        self.entity_manager.get_signature(entity)
    }

    /// The entity manager, to read.
    pub fn get_entity_manager(&self) -> (em: &EntityManager)
        ensures
            *em == self.entity_manager(),
    {
        &self.entity_manager
    }

    /// The component manager, to read.
    pub fn get_component_manager(&self) -> (cm: &ComponentManager)
        ensures
            *cm == self.component_manager(),
    {
        &self.component_manager
    }

    /// Whether an entity is marked dirty.
    pub fn is_dirty(&self, entity: Entity) -> (b: bool)
        ensures
            b == self.dirty_set().contains(entity),
    {
        self.dirty.contains(&entity)
    }

    /// Clears the dirty set.
    pub fn clear_dirty(&mut self)
        requires
            old(self).wf(),
        ensures
            final(self).wf(),
            final(self).dirty_set() == Set::<Entity>::empty(),
            final(self).entity_manager() == old(self).entity_manager(),
            final(self).component_manager() == old(self).component_manager(),
    {
        self.dirty.clear();
    }
}

} // verus!
