use std::collections::VecDeque;
use vstd::prelude::*;

use crate::ecs::entity::{
    ids_below, lemma_distinct_within, lemma_ids_below_len, new_uuid, Entity, MAX_ENTITIES,
};
use crate::ecs::signature::Signature;

verus! {

/// Manages entity identifiers: a shelf of the free identifiers, the
/// signature of every identifier, the number of living entities and the uuid
/// of every identifier.
///
/// Destroying an entity puts its identifier back at the end of the shelf.
pub struct EntityManager {
    /// Free identifiers, in the order they will be handed out.
    entity_shelf: VecDeque<Entity>,
    /// The signature of every identifier.
    signatures: Vec<Signature>,
    /// The number of living entities.
    living: Entity,
    /// The uuid of every identifier, if it has one.
    entity_uuid: Vec<Option<String>>,
}

/// The uuid views of the entries of `uuids`.
pub open spec fn uuid_views(uuids: Seq<Option<String>>) -> Seq<Option<Seq<char>>> {
    uuids.map_values(
        |u: Option<String>|
            match u {
                Some(s) => Some(s@),
                None => None,
            },
    )
}

impl EntityManager {
    /// The free identifiers, in the order they will be handed out.
    pub closed spec fn shelf(&self) -> Seq<Entity> {
        self.entity_shelf@
    }

    /// The signature bits of every identifier.
    pub closed spec fn signatures(&self) -> Seq<u64> {
        self.signatures@.map_values(|s: Signature| s.bits)
    }

    /// The number of living entities.
    pub closed spec fn living(&self) -> nat {
        self.living as nat
    }

    /// The uuid of every identifier, if it has one.
    pub closed spec fn uuids(&self) -> Seq<Option<Seq<char>>> {
        uuid_views(self.entity_uuid@)
    }

    /// One signature and one uuid slot per identifier; every identifier is
    /// either free (once, on the shelf) or living (with a uuid), never both;
    /// the living count is the number of identifiers that are not free.
    pub open spec fn wf(&self) -> bool {
        &&& self.signatures().len() == MAX_ENTITIES
        &&& self.uuids().len() == MAX_ENTITIES
        &&& self.shelf().no_duplicates()
        &&& forall|i: int| 0 <= i < self.shelf().len() ==> #[trigger] self.shelf()[i] < MAX_ENTITIES
        &&& forall|e: Entity|
            e < MAX_ENTITIES ==> (self.shelf().contains(e) <==> #[trigger] self.uuids()[e as int] is None)
        &&& self.living() + self.shelf().len() == MAX_ENTITIES
    }

    /// Every identifier is on the shelf in increasing order; no signature, no
    /// uuid, nobody living.
    pub fn new() -> (em: Self)
        ensures
            em.wf(),
            em.shelf() == Seq::new(MAX_ENTITIES as nat, |i: int| i as Entity),
            em.signatures() == Seq::new(MAX_ENTITIES as nat, |i: int| 0u64),
            em.uuids() == Seq::new(MAX_ENTITIES as nat, |i: int| None::<Seq<char>>),
            em.living() == 0,
    {
        let mut entity_shelf: VecDeque<Entity> = VecDeque::new();
        let mut signatures: Vec<Signature> = Vec::new();
        let mut entity_uuid: Vec<Option<String>> = Vec::new();
        let mut i: usize = 0;
        while i < MAX_ENTITIES
            invariant
                i <= MAX_ENTITIES,
                entity_shelf@ == Seq::new(i as nat, |j: int| j as Entity),
                signatures@.len() == i,
                entity_uuid@.len() == i,
                forall|j: int| 0 <= j < i ==> signatures@[j].bits == 0,
                forall|j: int| 0 <= j < i ==> entity_uuid@[j] is None,
            decreases MAX_ENTITIES - i,
        {
            entity_shelf.push_back(i);
            signatures.push(Signature::new());
            entity_uuid.push(None);
            i = i + 1;
        }
        let em = EntityManager { entity_shelf, signatures, living: 0, entity_uuid };
        assert(em.signatures() =~= Seq::new(MAX_ENTITIES as nat, |i: int| 0u64));
        assert(em.uuids() =~= Seq::new(MAX_ENTITIES as nat, |i: int| None::<Seq<char>>));
        assert forall|e: Entity| e < MAX_ENTITIES implies em.entity_shelf@.contains(e) by {
            assert(em.entity_shelf@[e as int] == e);
        }
        em
    }

    /// Hands out the next identifier from the shelf under `uuid`.
    fn take_from_shelf(&mut self, uuid: String) -> (id: Entity)
        requires
            old(self).wf(),
            old(self).living() < MAX_ENTITIES,
        ensures
            final(self).wf(),
            id == old(self).shelf()[0],
            id < MAX_ENTITIES,
            old(self).uuids()[id as int] is None,
            final(self).shelf() == old(self).shelf().drop_first(),
            final(self).signatures() == old(self).signatures(),
            final(self).uuids() == old(self).uuids().update(id as int, Some(uuid@)),
            final(self).living() == old(self).living() + 1,
    {
        let ghost shelf = self.entity_shelf@;
        let id: Entity = self.entity_shelf.pop_front().unwrap();
        assert(shelf[0] < MAX_ENTITIES);
        assert(shelf.contains(id));
        self.entity_uuid[id] = Some(uuid);
        self.living = self.living + 1;
        proof {
            assert(self.uuids() =~= old(self).uuids().update(id as int, Some(uuid@)));
            let new_shelf = self.entity_shelf@;
            assert forall|i: int| 0 <= i < new_shelf.len() implies #[trigger] new_shelf[i]
                < MAX_ENTITIES by {
                assert(new_shelf[i] == shelf[i + 1]);
            }
            assert forall|e: Entity| e < MAX_ENTITIES implies (new_shelf.contains(e)
                <==> #[trigger] self.uuids()[e as int] is None) by {
                if new_shelf.contains(e) {
                    let k = choose|k: int| 0 <= k < new_shelf.len() && new_shelf[k] == e;
                    assert(shelf[k + 1] == e);
                    assert(shelf[0] != shelf[k + 1]);
                }
                if e != id && shelf.contains(e) {
                    let k = choose|k: int| 0 <= k < shelf.len() && shelf[k] == e;
                    assert(k != 0);
                    assert(new_shelf[k - 1] == e);
                }
            }
            assert forall|i: int, j: int|
                0 <= i < new_shelf.len() && 0 <= j < new_shelf.len() && i != j implies new_shelf[i]
                != new_shelf[j] by {
                assert(new_shelf[i] == shelf[i + 1]);
                assert(new_shelf[j] == shelf[j + 1]);
            }
        }
        id
    }

    /// Creates a new entity with a new uuid.
    ///
    /// The uuid comes from a time-ordered generator in its 36-character
    /// form; that it differs from every other uuid rests on the clock and a
    /// random source, and is not stated here.
    pub fn spawn(&mut self) -> (r: (Entity, String))
        requires
            old(self).wf(),
            old(self).living() < MAX_ENTITIES,
        ensures
            final(self).wf(),
            r.0 == old(self).shelf()[0],
            r.0 < MAX_ENTITIES,
            r.1@.len() == 36,
            old(self).uuids()[r.0 as int] is None,
            final(self).shelf() == old(self).shelf().drop_first(),
            final(self).signatures() == old(self).signatures(),
            final(self).uuids() == old(self).uuids().update(r.0 as int, Some(r.1@)),
            final(self).living() == old(self).living() + 1,
    {
        let uuid = new_uuid();
        let id = self.take_from_shelf(uuid.clone());
        (id, uuid)
    }

    /// Creates an entity under an existing uuid.
    pub fn load(&mut self, uuid: String) -> (id: Entity)
        requires
            old(self).wf(),
            old(self).living() < MAX_ENTITIES,
        ensures
            final(self).wf(),
            id == old(self).shelf()[0],
            id < MAX_ENTITIES,
            old(self).uuids()[id as int] is None,
            final(self).shelf() == old(self).shelf().drop_first(),
            final(self).signatures() == old(self).signatures(),
            final(self).uuids() == old(self).uuids().update(id as int, Some(uuid@)),
            final(self).living() == old(self).living() + 1,
    {
        self.take_from_shelf(uuid)
    }

    /// Destroys a living entity: its signature is cleared, its uuid
    /// forgotten and its identifier put back at the end of the shelf.
    pub fn destroy(&mut self, entity: Entity)
        requires
            old(self).wf(),
            entity < MAX_ENTITIES,
            old(self).uuids()[entity as int] is Some,
        ensures
            final(self).wf(),
            final(self).shelf() == old(self).shelf().push(entity),
            final(self).signatures() == old(self).signatures().update(entity as int, 0u64),
            final(self).uuids() == old(self).uuids().update(entity as int, None),
            final(self).living() == old(self).living() - 1,
    {
        let ghost shelf = self.entity_shelf@;
        proof {
            lemma_ids_below_len(MAX_ENTITIES as nat);
            let bound = ids_below(MAX_ENTITIES as nat).remove(entity);
            assert forall|i: int| 0 <= i < shelf.len() implies bound.contains(shelf[i]) by {
                assert(shelf.contains(shelf[i]));
            }
            lemma_distinct_within(shelf, bound);
        }
        self.signatures[entity] = Signature::new();
        self.entity_uuid[entity] = None;
        self.entity_shelf.push_back(entity);
        self.living = self.living - 1;
        proof {
            assert(self.signatures() =~= old(self).signatures().update(entity as int, 0u64));
            assert(self.uuids() =~= old(self).uuids().update(entity as int, None));
            let new_shelf = self.entity_shelf@;
            assert(!shelf.contains(entity));
            assert forall|i: int, j: int|
                0 <= i < new_shelf.len() && 0 <= j < new_shelf.len() && i != j implies new_shelf[i]
                != new_shelf[j] by {
                if i == shelf.len() as int {
                    assert(new_shelf[j] == shelf[j]);
                } else if j == shelf.len() as int {
                    assert(new_shelf[i] == shelf[i]);
                }
            }
            assert forall|i: int| 0 <= i < new_shelf.len() implies #[trigger] new_shelf[i]
                < MAX_ENTITIES by {
                if i < shelf.len() {
                    assert(new_shelf[i] == shelf[i]);
                }
            }
            assert forall|e: Entity| e < MAX_ENTITIES implies (new_shelf.contains(e)
                <==> #[trigger] self.uuids()[e as int] is None) by {
                if e != entity && new_shelf.contains(e) {
                    let k = choose|k: int| 0 <= k < new_shelf.len() && new_shelf[k] == e;
                    assert(shelf[k] == e);
                }
                if e != entity && shelf.contains(e) {
                    let k = choose|k: int| 0 <= k < shelf.len() && shelf[k] == e;
                    assert(new_shelf[k] == e);
                }
                if e == entity {
                    assert(new_shelf[shelf.len() as int] == e);
                }
            }
        }
    }

    /// Adds a component signature to an entity's signature (`|`).
    pub fn assign(&mut self, entity: Entity, component_sig: Signature)
        requires
            old(self).wf(),
            entity < MAX_ENTITIES,
        ensures
            final(self).wf(),
            final(self).signatures() == old(self).signatures().update(
                entity as int,
                old(self).signatures()[entity as int] | component_sig.bits,
            ),
            final(self).shelf() == old(self).shelf(),
            final(self).uuids() == old(self).uuids(),
            final(self).living() == old(self).living(),
    {
        let sig = self.signatures[entity].union(component_sig);
        self.signatures[entity] = sig;
        assert(self.signatures() =~= old(self).signatures().update(
            entity as int,
            old(self).signatures()[entity as int] | component_sig.bits,
        ));
    }

    /// Removes a component signature from an entity's signature (`& !`).
    pub fn unassign(&mut self, entity: Entity, component_sig: Signature)
        requires
            old(self).wf(),
            entity < MAX_ENTITIES,
        ensures
            final(self).wf(),
            final(self).signatures() == old(self).signatures().update(
                entity as int,
                old(self).signatures()[entity as int] & !component_sig.bits,
            ),
            final(self).shelf() == old(self).shelf(),
            final(self).uuids() == old(self).uuids(),
            final(self).living() == old(self).living(),
    {
        let sig = self.signatures[entity].difference(component_sig);
        self.signatures[entity] = sig;
        assert(self.signatures() =~= old(self).signatures().update(
            entity as int,
            old(self).signatures()[entity as int] & !component_sig.bits,
        ));
    }

    /// The number of living entities.
    pub fn living_count(&self) -> (n: usize)
        ensures
            n == self.living(),
    {
        self.living
    }

    /// The number of identifiers not handed out yet.
    pub fn shelf_len(&self) -> (n: usize)
        ensures
            n == self.shelf().len(),
    {
        self.entity_shelf.len()
    }

    /// The signature of an entity.
    pub fn get_signature(&self, entity: Entity) -> (s: Signature)
        requires
            self.wf(),
            entity < MAX_ENTITIES,
        ensures
            s.bits == self.signatures()[entity as int],
    {
        self.signatures[entity]
    }

    /// The uuid of an entity, if it has one.
    pub fn get_uuid(&self, entity: Entity) -> (uuid: Option<String>)
        requires
            self.wf(),
            entity < MAX_ENTITIES,
        ensures
            match uuid {
                Some(s) => self.uuids()[entity as int] == Some(s@),
                None => self.uuids()[entity as int] is None,
            },
    {
        match &self.entity_uuid[entity] {
            Some(s) => Some(s.clone()),
            None => None,
        }
    }
}

} // verus!
