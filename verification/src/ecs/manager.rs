use std::collections::BTreeSet;
use vstd::prelude::*;

use super::component::component_bit;
use super::entity::{Entity, MAX_ENTITIES};
use super::signature::{covers, Signature, MAX_COMPONENTS};
use super::system::SystemManager;
use super::world::World;

verus! {

broadcast use {vstd::std_specs::btree::group_btree_axioms, vstd::laws_cmp::group_laws_cmp};

/// The union of the signatures of the named component types.
pub open spec fn union_of_types(types: Map<Seq<char>, u64>, names: Seq<Seq<char>>) -> u64
    decreases names.len(),
{
    if names.len() == 0 {
        0
    } else {
        union_of_types(types, names.drop_last()) | types[names.last()]
    }
}

/// The entity set of a system after every dirty entity was cleaned: a dirty
/// entity belongs exactly when its signature covers the system's.
pub open spec fn cleaned_set(
    before: Set<Entity>,
    system_sig: u64,
    dirty: Set<Entity>,
    sigs: Seq<u64>,
) -> Set<Entity> {
    Set::new(
        |x: Entity|
            if dirty.contains(x) {
                covers(sigs[x as int], system_sig)
            } else {
                before.contains(x)
            },
    )
}

/// Cleaning decides a dirty entity by its signature alone: whatever its
/// identifier, it belongs to a system's cleaned set exactly when its
/// signature covers the system's; an entity that is not dirty stays as it
/// was.
pub proof fn law_cleaned_set_membership(
    before: Set<Entity>,
    system_sig: u64,
    dirty: Set<Entity>,
    sigs: Seq<u64>,
    x: Entity,
)
    ensures
        dirty.contains(x) ==> (cleaned_set(before, system_sig, dirty, sigs).contains(x) <==> covers(
            sigs[x as int],
            system_sig,
        )),
        !dirty.contains(x) ==> (cleaned_set(before, system_sig, dirty, sigs).contains(x)
            <==> before.contains(x)),
{
}

/// The signature made from a list of component names covers the signature
/// of every component named in it.
pub proof fn law_union_covers_each_named(
    types: Map<Seq<char>, u64>,
    names: Seq<Seq<char>>,
    k: int,
)
    requires
        0 <= k < names.len(),
    ensures
        covers(union_of_types(types, names), types[names[k]]),
    decreases names.len(),
{
    let rest = names.drop_last();
    let u = union_of_types(types, rest);
    let t = types[names.last()];
    if k == names.len() - 1 {
        assert((u | t) & t == t) by (bit_vector);
    } else {
        law_union_covers_each_named(types, rest, k);
        let x = types[names[k]];
        assert(rest[k] == names[k]);
        assert(u & x == x ==> (u | t) & x == x) by (bit_vector);
    }
}

/// The signature made from a list of component names is the least one that
/// covers every named component: any signature that covers each of them
/// covers it too, so it holds no other component.
pub proof fn law_union_is_least(types: Map<Seq<char>, u64>, names: Seq<Seq<char>>, m: u64)
    requires
        forall|k: int| 0 <= k < names.len() ==> covers(m, #[trigger] types[names[k]]),
    ensures
        covers(m, union_of_types(types, names)),
    decreases names.len(),
{
    if names.len() == 0 {
        assert(m & 0 == 0) by (bit_vector);
    } else {
        let rest = names.drop_last();
        assert forall|k: int| 0 <= k < rest.len() implies covers(m, #[trigger] types[rest[k]]) by {
            assert(rest[k] == names[k]);
        }
        law_union_is_least(types, rest, m);
        let u = union_of_types(types, rest);
        let t = types[names.last()];
        assert(covers(m, types[names[names.len() - 1]]));
        assert(m & u == u && m & t == t ==> m & (u | t) == (u | t)) by (bit_vector);
    }
}

/// A system that needs a single component type gets exactly that type's
/// signature.
pub proof fn law_union_of_one(types: Map<Seq<char>, u64>, name: Seq<char>)
    ensures
        union_of_types(types, seq![name]) == types[name],
{
    let names = seq![name];
    assert(names.drop_last() =~= Seq::<Seq<char>>::empty());
    assert(union_of_types(types, names.drop_last()) == 0);
    assert(names.last() == name);
    let t = types[name];
    assert(0u64 | t == t) by (bit_vector);
}

/// Manages systems and a world together, so that each system acts on the
/// entities whose signatures cover its own.
pub struct WorldManager {
    world: World,
    system_manager: SystemManager,
}

impl WorldManager {
    pub closed spec fn world_view(&self) -> World {
        self.world
    }

    pub closed spec fn systems_view(&self) -> SystemManager {
        self.system_manager
    }

    pub open spec fn wf(&self) -> bool {
        &&& self.world_view().wf()
        &&& self.systems_view().wf()
    }

    /// An empty world and no system.
    pub fn new() -> (wm: Self)
        ensures
            wm.wf(),
            wm.world_view().entity_manager().living() == 0,
            wm.world_view().entity_manager().signatures() == Seq::new(
                MAX_ENTITIES as nat,
                |i: int| 0u64,
            ),
            wm.world_view().entity_manager().available() == Seq::new(
                MAX_ENTITIES as nat,
                |i: int| i as Entity,
            ),
            wm.world_view().component_manager().count() == 0,
            wm.world_view().component_manager().types() == Map::<Seq<char>, u64>::empty(),
            wm.world_view().dirty_set() == Set::<Entity>::empty(),
            wm.systems_view().names() == Seq::<Seq<char>>::empty(),
            wm.systems_view().systems() == 0,
    {
        WorldManager { world: World::new(), system_manager: SystemManager::new() }
    }

    /// The world.
    pub fn world(&self) -> (w: &World)
        ensures
            *w == self.world_view(),
    {
        &self.world
    }

    /// The world, for systems to change; the systems stay as they are.
    pub fn world_mut(&mut self) -> (w: &mut World)
        ensures
            *w == old(self).world_view(),
            final(self).world_view() == *final(w),
            final(self).systems_view() == old(self).systems_view(),
    {
        &mut self.world
    }

    /// The systems.
    pub fn system_manager(&self) -> (sm: &SystemManager)
        ensures
            *sm == self.systems_view(),
    {
        &self.system_manager
    }

    /// Creates a new entity, returning its identifier and uuid.
    pub fn create_entity(&mut self) -> (r: (Entity, String))
        requires
            old(self).wf(),
            old(self).world_view().entity_manager().living() < MAX_ENTITIES,
        ensures
            final(self).wf(),
            r.0 == old(self).world_view().entity_manager().available()[0],
            r.0 < MAX_ENTITIES,
            r.1@.len() == 36,
            !old(self).world_view().entity_manager().uuids().contains_key(r.0),
            final(self).world_view().entity_manager().available() == old(
                self,
            ).world_view().entity_manager().available().drop_first(),
            final(self).world_view().entity_manager().signatures() == old(
                self,
            ).world_view().entity_manager().signatures(),
            final(self).world_view().entity_manager().living() == old(
                self,
            ).world_view().entity_manager().living() + 1,
            final(self).world_view().entity_manager().uuids() == old(
                self,
            ).world_view().entity_manager().uuids().insert(r.0, r.1@),
            final(self).world_view().entity_manager().entities() == old(
                self,
            ).world_view().entity_manager().entities().insert(r.1@, r.0),
            final(self).world_view().component_manager() == old(
                self,
            ).world_view().component_manager(),
            final(self).world_view().dirty_set() == old(self).world_view().dirty_set().insert(r.0),
            final(self).systems_view() == old(self).systems_view(),
    {
        self.world.create_entity()
    }

    /// Removes a living entity from every system's entity set, then destroys
    /// it.
    pub fn destroy_entity(&mut self, entity: Entity)
        requires
            old(self).wf(),
            entity < MAX_ENTITIES,
            old(self).world_view().entity_manager().uuids().contains_key(entity),
        ensures
            final(self).wf(),
            final(self).world_view().entity_manager().signatures() == old(
                self,
            ).world_view().entity_manager().signatures().update(entity as int, 0u64),
            final(self).world_view().entity_manager().available() == old(
                self,
            ).world_view().entity_manager().available().push(entity),
            final(self).world_view().entity_manager().living() == old(
                self,
            ).world_view().entity_manager().living() - 1,
            final(self).world_view().entity_manager().uuids() == old(
                self,
            ).world_view().entity_manager().uuids().remove(entity),
            final(self).world_view().dirty_set() == old(self).world_view().dirty_set().insert(
                entity,
            ),
            final(self).world_view().component_manager() == old(
                self,
            ).world_view().component_manager(),
            final(self).systems_view().sigs() == old(self).systems_view().sigs(),
            final(self).systems_view().names() == old(self).systems_view().names(),
            final(self).systems_view().instances() == old(self).systems_view().instances(),
            final(self).systems_view().entity_sets().len() == old(
                self,
            ).systems_view().entity_sets().len(),
            forall|i: int|
                0 <= i < old(self).systems_view().entity_sets().len()
                    ==> #[trigger] final(self).systems_view().entity_sets()[i] == old(
                    self,
                ).systems_view().entity_sets()[i].remove(entity),
    {
        self.system_manager.forget(entity);
        self.world.destroy_entity(entity)
    }

    /// The signature of an entity.
    pub fn get_signature(&self, entity: Entity) -> (s: Signature)
        requires
            self.wf(),
            entity < MAX_ENTITIES,
        ensures
            s.bits == self.world_view().sig(entity),
    {
        self.world.get_signature(entity)
    }

    /// Registers a new component type under `name`.
    pub fn register_component(&mut self, name: String)
        requires
            old(self).wf(),
            !old(self).world_view().component_manager().types().contains_key(name@),
            old(self).world_view().component_manager().count() < MAX_COMPONENTS,
        ensures
            final(self).wf(),
            final(self).world_view().component_manager().types() == old(
                self,
            ).world_view().component_manager().types().insert(
                name@,
                component_bit(old(self).world_view().component_manager().count()),
            ),
            final(self).world_view().component_manager().indices() == old(
                self,
            ).world_view().component_manager().indices().insert(
                component_bit(old(self).world_view().component_manager().count()),
                old(self).world_view().component_manager().count() as usize,
            ),
            final(self).world_view().component_manager().count() == old(
                self,
            ).world_view().component_manager().count() + 1,
            final(self).world_view().entity_manager() == old(self).world_view().entity_manager(),
            final(self).world_view().dirty_set() == old(self).world_view().dirty_set(),
            final(self).systems_view() == old(self).systems_view(),
    {
        self.world.register_component(name);
    }

    /// Gives an entity a component type, then adds the entity to every system
    /// whose signature its new signature covers.
    pub fn assign(&mut self, entity: Entity, component_name: String)
        requires
            old(self).wf(),
            entity < MAX_ENTITIES,
            old(self).world_view().component_manager().types().contains_key(component_name@),
        ensures
            final(self).wf(),
            final(self).world_view().entity_manager().signatures() == old(
                self,
            ).world_view().entity_manager().signatures().update(
                entity as int,
                old(self).world_view().sig(entity) | old(self).world_view().component_type(
                    component_name@,
                ),
            ),
            final(self).world_view().entity_manager().uuids() == old(
                self,
            ).world_view().entity_manager().uuids(),
            final(self).world_view().entity_manager().available() == old(
                self,
            ).world_view().entity_manager().available(),
            final(self).world_view().entity_manager().living() == old(
                self,
            ).world_view().entity_manager().living(),
            final(self).world_view().component_manager() == old(
                self,
            ).world_view().component_manager(),
            final(self).world_view().dirty_set() == old(self).world_view().dirty_set().insert(
                entity,
            ),
            covers(
                final(self).world_view().sig(entity),
                old(self).world_view().component_type(component_name@),
            ),
            final(self).systems_view().sigs() == old(self).systems_view().sigs(),
            final(self).systems_view().names() == old(self).systems_view().names(),
            final(self).systems_view().instances() == old(self).systems_view().instances(),
            final(self).systems_view().entity_sets().len() == old(
                self,
            ).systems_view().entity_sets().len(),
            forall|i: int|
                0 <= i < old(self).systems_view().entity_sets().len()
                    ==> #[trigger] final(self).systems_view().entity_sets()[i] == if covers(
                    final(self).world_view().sig(entity),
                    old(self).systems_view().sigs()[i],
                ) {
                    old(self).systems_view().entity_sets()[i].insert(entity)
                } else {
                    old(self).systems_view().entity_sets()[i]
                },
    {
        self.world.assign(entity, component_name);
        let entity_sig = self.get_signature(entity);
        self.system_manager.index(entity, entity_sig);
    }

    /// Whether an entity has a registered component type.
    pub fn has(&self, entity: Entity, component_name: String) -> (b: bool)
        requires
            self.wf(),
            entity < MAX_ENTITIES,
            self.world_view().component_manager().types().contains_key(component_name@),
        ensures
            b == covers(
                self.world_view().sig(entity),
                self.world_view().component_type(component_name@),
            ),
    {
        self.world.has(entity, component_name)
    }

    /// Removes a component type from an entity's signature, then removes the
    /// entity from every system whose signature its new signature does not
    /// cover.
    pub fn remove(&mut self, entity: Entity, component_name: String)
        requires
            old(self).wf(),
            entity < MAX_ENTITIES,
            old(self).world_view().component_manager().types().contains_key(component_name@),
        ensures
            final(self).wf(),
            final(self).world_view().entity_manager().signatures() == old(
                self,
            ).world_view().entity_manager().signatures().update(
                entity as int,
                old(self).world_view().sig(entity) & !old(self).world_view().component_type(
                    component_name@,
                ),
            ),
            final(self).world_view().entity_manager().uuids() == old(
                self,
            ).world_view().entity_manager().uuids(),
            final(self).world_view().entity_manager().available() == old(
                self,
            ).world_view().entity_manager().available(),
            final(self).world_view().entity_manager().living() == old(
                self,
            ).world_view().entity_manager().living(),
            final(self).world_view().component_manager() == old(
                self,
            ).world_view().component_manager(),
            final(self).world_view().dirty_set() == old(self).world_view().dirty_set().insert(
                entity,
            ),
            !covers(
                final(self).world_view().sig(entity),
                old(self).world_view().component_type(component_name@),
            ),
            final(self).systems_view().sigs() == old(self).systems_view().sigs(),
            final(self).systems_view().names() == old(self).systems_view().names(),
            final(self).systems_view().instances() == old(self).systems_view().instances(),
            final(self).systems_view().entity_sets().len() == old(
                self,
            ).systems_view().entity_sets().len(),
            forall|i: int|
                0 <= i < old(self).systems_view().entity_sets().len()
                    ==> #[trigger] final(self).systems_view().entity_sets()[i] == if covers(
                    final(self).world_view().sig(entity),
                    old(self).systems_view().sigs()[i],
                ) {
                    old(self).systems_view().entity_sets()[i]
                } else {
                    old(self).systems_view().entity_sets()[i].remove(entity)
                },
    {
        self.world.remove(entity, component_name);
        let entity_sig = self.get_signature(entity);
        self.system_manager.deindex(entity, entity_sig);
    }

    /// Registers the next instance of the system type `name`, whose signature
    /// is the union of the signatures of the named component types.
    pub fn register_system(&mut self, name: String, component_names: Vec<String>)
        requires
            old(self).wf(),
            old(self).systems_view().systems() < usize::MAX,
            forall|i: int|
                0 <= i < component_names@.len() ==> old(
                    self,
                ).world_view().component_manager().types().contains_key(
                    #[trigger] component_names@[i]@,
                ),
        ensures
            final(self).wf(),
            final(self).world_view() == old(self).world_view(),
            final(self).systems_view().systems() == old(self).systems_view().systems() + 1,
            ({
                let sig = union_of_types(
                    old(self).world_view().component_manager().types(),
                    component_names@.map_values(|s: String| s@),
                );
                let sm0 = old(self).systems_view();
                let sm1 = final(self).systems_view();
                &&& sm0.slots().contains_key(name@) ==> {
                    let i = sm0.slots()[name@] as int;
                    &&& sm1.names() == sm0.names()
                    &&& sm1.slots() == sm0.slots()
                    &&& sm1.sigs() == sm0.sigs().update(i, sig)
                    &&& sm1.instances() == sm0.instances().update(i, sm0.systems() as usize)
                    &&& sm1.entity_sets() == sm0.entity_sets().update(i, Set::<Entity>::empty())
                }
                &&& !sm0.slots().contains_key(name@) ==> {
                    &&& sm1.names() == sm0.names().push(name@)
                    &&& sm1.slots() == sm0.slots().insert(name@, sm0.names().len() as usize)
                    &&& sm1.sigs() == sm0.sigs().push(sig)
                    &&& sm1.instances() == sm0.instances().push(sm0.systems() as usize)
                    &&& sm1.entity_sets() == sm0.entity_sets().push(Set::<Entity>::empty())
                }
            }),
    {
        let ghost types = self.world.component_manager().types();
        let ghost names = component_names@.map_values(|s: String| s@);
        let mut sig = Signature::new();
        let n = component_names.len();
        let mut i: usize = 0;
        while i < n
            invariant
                0 <= i <= n,
                n == component_names@.len(),
                names == component_names@.map_values(|s: String| s@),
                types == self.world.component_manager().types(),
                self.world == old(self).world,
                forall|k: int|
                    0 <= k < component_names@.len() ==> types.contains_key(
                        #[trigger] component_names@[k]@,
                    ),
                sig.bits == union_of_types(types, names.take(i as int)),
            decreases n - i,
        {
            let comp_sig = self.world.get_component_type_from_name(component_names[i].clone());
            proof {
                assert(names.take(i + 1).drop_last() =~= names.take(i as int));
                assert(names.take(i + 1).last() == component_names@[i as int]@);
            }
            sig = sig.union(comp_sig);
            i = i + 1;
        }
        assert(names.take(n as int) =~= names);
        self.system_manager.register(name, sig);
    }

    /// Brings every system's entity set up to date for every dirty entity.
    pub fn clean(&mut self)
        requires
            old(self).wf(),
        ensures
            final(self).wf(),
            final(self).world_view() == old(self).world_view(),
            final(self).systems_view().sigs() == old(self).systems_view().sigs(),
            final(self).systems_view().names() == old(self).systems_view().names(),
            final(self).systems_view().slots() == old(self).systems_view().slots(),
            final(self).systems_view().instances() == old(self).systems_view().instances(),
            final(self).systems_view().systems() == old(self).systems_view().systems(),
            final(self).systems_view().entity_sets().len() == old(
                self,
            ).systems_view().entity_sets().len(),
            forall|i: int|
                0 <= i < old(self).systems_view().entity_sets().len()
                    ==> #[trigger] final(self).systems_view().entity_sets()[i] == cleaned_set(
                    old(self).systems_view().entity_sets()[i],
                    old(self).systems_view().sigs()[i],
                    old(self).world_view().dirty_set(),
                    old(self).world_view().entity_manager().signatures(),
                ),
    {
        let ghost sets0 = self.system_manager.entity_sets();
        let ghost sigs = self.system_manager.sigs();
        let ghost dirty = self.world.dirty_set();
        let ghost esigs = self.world.entity_manager().signatures();
        let mut e: usize = 0;
        while e < MAX_ENTITIES
            invariant
                0 <= e <= MAX_ENTITIES,
                self.wf(),
                self.world == old(self).world,
                dirty == self.world.dirty_set(),
                esigs == self.world.entity_manager().signatures(),
                sigs == self.system_manager.sigs(),
                self.system_manager.names() == old(self).system_manager.names(),
                self.system_manager.slots() == old(self).system_manager.slots(),
                self.system_manager.instances() == old(self).system_manager.instances(),
                self.system_manager.systems() == old(self).system_manager.systems(),
                self.system_manager.entity_sets().len() == sets0.len(),
                forall|i: int, x: Entity|
                    0 <= i < sets0.len() ==> (#[trigger] self.system_manager.entity_sets()[i].contains(x)
                        <==> if x < e && dirty.contains(x) {
                        covers(esigs[x as int], sigs[i])
                    } else {
                        sets0[i].contains(x)
                    }),
            decreases MAX_ENTITIES - e,
        {
            if self.world.is_dirty(e) {
                let sig = self.world.get_signature(e);
                self.system_manager.clean(e, sig);
            }
            e = e + 1;
        }
        proof {
            assert forall|i: int|
                0 <= i < sets0.len() implies #[trigger] self.system_manager.entity_sets()[i]
                == cleaned_set(sets0[i], sigs[i], dirty, esigs) by {
                assert forall|x: Entity|
                    self.system_manager.entity_sets()[i].contains(x) == cleaned_set(
                        sets0[i],
                        sigs[i],
                        dirty,
                        esigs,
                    ).contains(x) by {
                    if dirty.contains(x) {
                        old(self).world.lemma_dirty_in_range(x);
                    }
                }
                assert(self.system_manager.entity_sets()[i] =~= cleaned_set(
                    sets0[i],
                    sigs[i],
                    dirty,
                    esigs,
                ));
            }
        }
    }

    /// Whether a system with signature `system_sig` acts on an entity.
    pub fn matches(&self, entity: Entity, system_sig: Signature) -> (b: bool)
        requires
            self.wf(),
            entity < MAX_ENTITIES,
        ensures
            b == covers(self.world_view().sig(entity), system_sig.bits),
    {
        let entity_sig = self.world.get_signature(entity);
        entity_sig.covers(system_sig)
    }

    /// All entities whose signatures cover `system_sig`.
    pub fn get_all_matches(&self, system_sig: Signature) -> (matched: BTreeSet<Entity>)
        requires
            self.wf(),
        ensures
            matched@ == Set::new(
                |i: Entity| i < MAX_ENTITIES && covers(self.world_view().sig(i), system_sig.bits),
            ),
    {
        let mut matched: BTreeSet<Entity> = BTreeSet::new();
        let mut i: usize = 0;
        while i < MAX_ENTITIES
            invariant
                0 <= i <= MAX_ENTITIES,
                self.wf(),
                matched@ == Set::new(
                    |j: Entity| j < i && covers(self.world_view().sig(j), system_sig.bits),
                ),
            decreases MAX_ENTITIES - i,
        {
            if self.matches(i, system_sig) {
                matched.insert(i);
            }
            proof {
                assert(matched@ =~= Set::new(
                    |j: Entity| j < i + 1 && covers(self.world_view().sig(j), system_sig.bits),
                ));
            }
            i = i + 1;
        }
        matched
    }
}

} // verus!
