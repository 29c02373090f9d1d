use vstd::prelude::*;

use super::world::World;
use crate::ecs::component::component_bit;
use crate::ecs::entity::{Entity, MAX_ENTITIES};
use crate::ecs::manager::{cleaned_set, union_of_types};
use crate::ecs::signature::{covers, Signature, MAX_COMPONENTS};
use crate::ecs::system::SystemManager;

verus! {

/// Manages systems and a world together; after every change the systems'
/// entity sets are brought up to date for the entities that changed.
pub struct WorldManager {
    world: World,
    system_manager: SystemManager,
}

impl WorldManager {
    pub closed spec fn world_view(&self) -> World {
        self.world
    }

    pub closed spec fn systems_view(&self) -> SystemManager {
        self.system_manager
    }

    pub open spec fn wf(&self) -> bool {
        &&& self.world_view().wf()
        &&& self.systems_view().wf()
    }

    /// A fresh world and no system.
    pub fn new() -> (wm: Self)
        ensures
            wm.wf(),
            wm.world_view().entity_manager().living() == 0,
            wm.world_view().entity_manager().shelf() == Seq::new(
                MAX_ENTITIES as nat,
                |i: int| i as Entity,
            ),
            wm.world_view().entity_manager().signatures() == Seq::new(
                MAX_ENTITIES as nat,
                |i: int| 0u64,
            ),
            wm.world_view().component_manager().count() == 0,
            wm.world_view().component_manager().types() == Map::<Seq<char>, u64>::empty(),
            wm.world_view().dirty_set() == Set::<Entity>::empty(),
            wm.systems_view().names() == Seq::<Seq<char>>::empty(),
            wm.systems_view().systems() == 0,
    {
        WorldManager { world: World::new(), system_manager: SystemManager::new() }
    }

    /// The world.
    pub fn world(&self) -> (w: &World)
        ensures
            *w == self.world_view(),
    {
        &self.world
    }

    /// The world, for systems to change; the systems stay as they are.
    pub fn world_mut(&mut self) -> (w: &mut World)
        ensures
            *w == old(self).world_view(),
            final(self).world_view() == *final(w),
            final(self).systems_view() == old(self).systems_view(),
    {
        &mut self.world
    }

    /// The systems.
    pub fn system_manager(&self) -> (sm: &SystemManager)
        ensures
            *sm == self.systems_view(),
    {
        &self.system_manager
    }

    /// Spawns a new blank entity.
    pub fn create_entity(&mut self) -> (r: (Entity, String))
        requires
            old(self).wf(),
            old(self).world_view().entity_manager().living() < MAX_ENTITIES,
        ensures
            final(self).wf(),
            r.0 == old(self).world_view().entity_manager().shelf()[0],
            r.0 < MAX_ENTITIES,
            r.1@.len() == 36,
            old(self).world_view().entity_manager().uuids()[r.0 as int] is None,
            final(self).world_view().entity_manager().shelf() == old(
                self,
            ).world_view().entity_manager().shelf().drop_first(),
            final(self).world_view().entity_manager().signatures() == old(
                self,
            ).world_view().entity_manager().signatures(),
            final(self).world_view().entity_manager().uuids() == old(
                self,
            ).world_view().entity_manager().uuids().update(r.0 as int, Some(r.1@)),
            final(self).world_view().entity_manager().living() == old(
                self,
            ).world_view().entity_manager().living() + 1,
            final(self).world_view().component_manager() == old(
                self,
            ).world_view().component_manager(),
            final(self).world_view().dirty_set() == old(self).world_view().dirty_set().insert(r.0),
            final(self).systems_view() == old(self).systems_view(),
    {
        self.world.create_entity()
    }

    /// Destroys an entity.
    pub fn destroy_entity(&mut self, entity: Entity)
        requires
            old(self).wf(),
            entity < MAX_ENTITIES,
            old(self).world_view().entity_manager().uuids()[entity as int] is Some,
        ensures
            final(self).wf(),
            final(self).world_view().entity_manager().shelf() == old(
                self,
            ).world_view().entity_manager().shelf().push(entity),
            final(self).world_view().entity_manager().signatures() == old(
                self,
            ).world_view().entity_manager().signatures().update(entity as int, 0u64),
            final(self).world_view().entity_manager().uuids() == old(
                self,
            ).world_view().entity_manager().uuids().update(entity as int, None),
            final(self).world_view().entity_manager().living() == old(
                self,
            ).world_view().entity_manager().living() - 1,
            final(self).world_view().component_manager() == old(
                self,
            ).world_view().component_manager(),
            final(self).world_view().dirty_set() == old(self).world_view().dirty_set().insert(
                entity,
            ),
            final(self).systems_view() == old(self).systems_view(),
    {
        self.world.destroy_entity(entity);
    }

    /// Registers a component type under `name`.
    pub fn register_component(&mut self, name: String)
        requires
            old(self).wf(),
            old(self).world_view().component_manager().count() < MAX_COMPONENTS,
            !old(self).world_view().component_manager().types().contains_key(name@),
        ensures
            final(self).wf(),
            final(self).world_view().component_manager().types() == old(
                self,
            ).world_view().component_manager().types().insert(
                name@,
                component_bit(old(self).world_view().component_manager().count()),
            ),
            final(self).world_view().component_manager().count() == old(
                self,
            ).world_view().component_manager().count() + 1,
            final(self).world_view().entity_manager() == old(self).world_view().entity_manager(),
            final(self).world_view().dirty_set() == old(self).world_view().dirty_set(),
            final(self).systems_view() == old(self).systems_view(),
    {
        self.world.register(name);
    }

    /// Gives an entity a component type, then cleans.
    pub fn assign(&mut self, entity: Entity, component_name: String)
        requires
            old(self).wf(),
            entity < MAX_ENTITIES,
            old(self).world_view().component_manager().types().contains_key(component_name@),
        ensures
            final(self).wf(),
            final(self).world_view().entity_manager().signatures() == old(
                self,
            ).world_view().entity_manager().signatures().update(
                entity as int,
                old(self).world_view().sig(entity) | old(self).world_view().component_type(
                    component_name@,
                ),
            ),
            covers(
                final(self).world_view().sig(entity),
                old(self).world_view().component_type(component_name@),
            ),
            final(self).world_view().component_manager() == old(
                self,
            ).world_view().component_manager(),
            final(self).world_view().dirty_set() == Set::<Entity>::empty(),
            final(self).systems_view().sigs() == old(self).systems_view().sigs(),
            final(self).systems_view().entity_sets().len() == old(
                self,
            ).systems_view().entity_sets().len(),
            forall|i: int|
                0 <= i < old(self).systems_view().entity_sets().len()
                    ==> #[trigger] final(self).systems_view().entity_sets()[i] == cleaned_set(
                    old(self).systems_view().entity_sets()[i],
                    old(self).systems_view().sigs()[i],
                    old(self).world_view().dirty_set().insert(entity),
                    final(self).world_view().entity_manager().signatures(),
                ),
    {
        self.world.assign(entity, component_name);
        self.clean();
    }

    /// Removes a component type from an entity's signature, then cleans.
    pub fn unassign(&mut self, entity: Entity, component_name: String)
        requires
            old(self).wf(),
            entity < MAX_ENTITIES,
            old(self).world_view().component_manager().types().contains_key(component_name@),
        ensures
            final(self).wf(),
            final(self).world_view().entity_manager().signatures() == old(
                self,
            ).world_view().entity_manager().signatures().update(
                entity as int,
                old(self).world_view().sig(entity) & !old(self).world_view().component_type(
                    component_name@,
                ),
            ),
            !covers(
                final(self).world_view().sig(entity),
                old(self).world_view().component_type(component_name@),
            ),
            final(self).world_view().component_manager() == old(
                self,
            ).world_view().component_manager(),
            final(self).world_view().dirty_set() == Set::<Entity>::empty(),
            final(self).systems_view().sigs() == old(self).systems_view().sigs(),
            final(self).systems_view().entity_sets().len() == old(
                self,
            ).systems_view().entity_sets().len(),
            forall|i: int|
                0 <= i < old(self).systems_view().entity_sets().len()
                    ==> #[trigger] final(self).systems_view().entity_sets()[i] == cleaned_set(
                    old(self).systems_view().entity_sets()[i],
                    old(self).systems_view().sigs()[i],
                    old(self).world_view().dirty_set().insert(entity),
                    final(self).world_view().entity_manager().signatures(),
                ),
    {
        self.world.unassign(entity, component_name);
        self.clean();
    }

    /// Registers the next instance of the system type `name`, whose signature
    /// is the union of the signatures of the named component types.
    pub fn register_system(&mut self, name: String, component_names: Vec<String>)
        requires
            old(self).wf(),
            old(self).systems_view().systems() < usize::MAX,
            forall|i: int|
                0 <= i < component_names@.len() ==> old(
                    self,
                ).world_view().component_manager().types().contains_key(
                    #[trigger] component_names@[i]@,
                ),
        ensures
            final(self).wf(),
            final(self).world_view() == old(self).world_view(),
            final(self).systems_view().systems() == old(self).systems_view().systems() + 1,
            ({
                let sig = union_of_types(
                    old(self).world_view().component_manager().types(),
                    component_names@.map_values(|s: String| s@),
                );
                let sm0 = old(self).systems_view();
                let sm1 = final(self).systems_view();
                &&& sm0.slots().contains_key(name@) ==> {
                    let i = sm0.slots()[name@] as int;
                    &&& sm1.names() == sm0.names()
                    &&& sm1.sigs() == sm0.sigs().update(i, sig)
                    &&& sm1.instances() == sm0.instances().update(i, sm0.systems() as usize)
                    &&& sm1.entity_sets() == sm0.entity_sets().update(i, Set::<Entity>::empty())
                }
                &&& !sm0.slots().contains_key(name@) ==> {
                    &&& sm1.names() == sm0.names().push(name@)
                    &&& sm1.sigs() == sm0.sigs().push(sig)
                    &&& sm1.instances() == sm0.instances().push(sm0.systems() as usize)
                    &&& sm1.entity_sets() == sm0.entity_sets().push(Set::<Entity>::empty())
                }
            }),
    {
        let ghost types = self.world.component_manager().types();
        let ghost names = component_names@.map_values(|s: String| s@);
        let mut sig = Signature::new();
        let n = component_names.len();
        let mut i: usize = 0;
        while i < n
            invariant
                0 <= i <= n,
                n == component_names@.len(),
                names == component_names@.map_values(|s: String| s@),
                types == self.world.component_manager().types(),
                self.world == old(self).world,
                forall|k: int|
                    0 <= k < component_names@.len() ==> types.contains_key(
                        #[trigger] component_names@[k]@,
                    ),
                sig.bits == union_of_types(types, names.take(i as int)),
            decreases n - i,
        {
            let comp_sig = self.world.get_component_signature_from_name(
                component_names[i].clone(),
            );
            proof {
                assert(names.take(i + 1).drop_last() =~= names.take(i as int));
                assert(names.take(i + 1).last() == component_names@[i as int]@);
            }
            sig = sig.union(comp_sig);
            i = i + 1;
        }
        assert(names.take(n as int) =~= names);
        self.system_manager.register(name, sig);
    }

    /// Brings every system's entity set up to date for every dirty entity,
    /// then clears the dirty set.
    pub fn clean(&mut self)
        requires
            old(self).wf(),
        ensures
            final(self).wf(),
            final(self).world_view().entity_manager() == old(self).world_view().entity_manager(),
            final(self).world_view().component_manager() == old(
                self,
            ).world_view().component_manager(),
            final(self).world_view().dirty_set() == Set::<Entity>::empty(),
            final(self).systems_view().sigs() == old(self).systems_view().sigs(),
            final(self).systems_view().names() == old(self).systems_view().names(),
            final(self).systems_view().slots() == old(self).systems_view().slots(),
            final(self).systems_view().instances() == old(self).systems_view().instances(),
            final(self).systems_view().systems() == old(self).systems_view().systems(),
            final(self).systems_view().entity_sets().len() == old(
                self,
            ).systems_view().entity_sets().len(),
            forall|i: int|
                0 <= i < old(self).systems_view().entity_sets().len()
                    ==> #[trigger] final(self).systems_view().entity_sets()[i] == cleaned_set(
                    old(self).systems_view().entity_sets()[i],
                    old(self).systems_view().sigs()[i],
                    old(self).world_view().dirty_set(),
                    old(self).world_view().entity_manager().signatures(),
                ),
    {
        let ghost sets0 = self.system_manager.entity_sets();
        let ghost sigs = self.system_manager.sigs();
        let ghost dirty = self.world.dirty_set();
        let ghost esigs = self.world.entity_manager().signatures();
        let mut e: usize = 0;
        while e < MAX_ENTITIES
            invariant
                0 <= e <= MAX_ENTITIES,
                self.wf(),
                self.world == old(self).world,
                dirty == self.world.dirty_set(),
                esigs == self.world.entity_manager().signatures(),
                sigs == self.system_manager.sigs(),
                self.system_manager.names() == old(self).system_manager.names(),
                self.system_manager.slots() == old(self).system_manager.slots(),
                self.system_manager.instances() == old(self).system_manager.instances(),
                self.system_manager.systems() == old(self).system_manager.systems(),
                self.system_manager.entity_sets().len() == sets0.len(),
                forall|i: int, x: Entity|
                    0 <= i < sets0.len() ==> (#[trigger] self.system_manager.entity_sets()[i].contains(x)
                        <==> if x < e && dirty.contains(x) {
                        covers(esigs[x as int], sigs[i])
                    } else {
                        sets0[i].contains(x)
                    }),
            decreases MAX_ENTITIES - e,
        {
            if self.world.is_dirty(e) {
                let sig = self.world.get_signature(e);
                self.system_manager.clean(e, sig);
            }
            e = e + 1;
        }
        proof {
            old(self).world.lemma_wf();
            assert forall|i: int|
                0 <= i < sets0.len() implies #[trigger] self.system_manager.entity_sets()[i]
                == cleaned_set(sets0[i], sigs[i], dirty, esigs) by {
                assert(self.system_manager.entity_sets()[i] =~= cleaned_set(
                    sets0[i],
                    sigs[i],
                    dirty,
                    esigs,
                ));
            }
        }
        self.world.clear_dirty();
    }
}

} // verus!
