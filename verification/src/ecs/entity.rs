use std::collections::{HashMap, VecDeque};
use vstd::hash_map::StringHashMap;
use vstd::prelude::*;

use super::signature::Signature;

verus! {

broadcast use vstd::std_specs::hash::group_hash_axioms;

/// Numerical identifier of an entity, used as an index into per-entity storage.
pub type Entity = usize;

/// The number of entity identifiers: at most `MAX_ENTITIES` entities are
/// alive at once.
pub const MAX_ENTITIES: Entity = 5000;

/// A new time-ordered unique identifier in its 8-4-4-4-12 hexadecimal form.
///
/// Calls `uuid7::uuid7()` and formats the result with `Display`. The value
/// depends on the clock and on a random source; only its length (the
/// canonical form has 36 characters) is stated. The call panics only on the
/// state of the process, never on an argument: when the system clock reads
/// a time before 1970, or when the generator's global lock was poisoned by a
/// panic elsewhere.
#[verifier::external_body]
pub(crate) fn new_uuid() -> (id: String)
    ensures
        id@.len() == 36,
{
    uuid7::uuid7().to_string()
}

/// The identifiers below `n`.
pub open spec fn ids_below(n: nat) -> Set<Entity> {
    Set::new(|e: Entity| e < n)
}

pub(crate) proof fn lemma_ids_below_len(n: nat)
    requires
        n <= usize::MAX + 1,
    ensures
        ids_below(n).finite(),
        ids_below(n).len() == n,
    decreases n,
{
    if n == 0 {
        assert(ids_below(0) =~= Set::empty());
    } else {
        lemma_ids_below_len((n - 1) as nat);
        assert(ids_below(n) =~= ids_below((n - 1) as nat).insert((n - 1) as Entity));
    }
}

/// A sequence without duplicates whose items all lie in `bound` is no longer
/// than `bound` is large.
pub(crate) proof fn lemma_distinct_within(s: Seq<Entity>, bound: Set<Entity>)
    requires
        s.no_duplicates(),
        bound.finite(),
        forall|i: int| 0 <= i < s.len() ==> bound.contains(s[i]),
    ensures
        s.len() <= bound.len(),
    decreases s.len(),
{
    if s.len() > 0 {
        let x = s.last();
        let t = s.drop_last();
        assert forall|i: int| 0 <= i < t.len() implies bound.remove(x).contains(t[i]) by {
            assert(t[i] == s[i]);
            assert(s[i] != s[s.len() - 1]);
        }
        lemma_distinct_within(t, bound.remove(x));
    }
}

/// Manages up to `MAX_ENTITIES` entity identifiers: which are free, the
/// signature of each, and the unique identifier (uuid) of each living entity.
pub struct EntityManager {
    /// Queue of the identifiers that are free, oldest first.
    available_entities: VecDeque<Entity>,
    /// The signature of every identifier.
    signatures: Vec<Signature>,
    /// The number of living entities.
    living_entity_count: Entity,
    /// The uuid of each living entity; uuids let entities persist between runs.
    entity_uuid: HashMap<Entity, String>,
    /// Reverse lookup from a uuid to its entity.
    uuid_entity: StringHashMap<Entity>,
}

impl EntityManager {
    /// The free identifiers, in the order in which they will be handed out.
    pub closed spec fn available(&self) -> Seq<Entity> {
        self.available_entities@
    }

    /// The signature bits of every identifier.
    pub closed spec fn signatures(&self) -> Seq<u64> {
        self.signatures@.map_values(|s: Signature| s.bits)
    }

    /// The number of living entities.
    pub closed spec fn living(&self) -> nat {
        self.living_entity_count as nat
    }

    /// The uuid of each living entity.
    pub closed spec fn uuids(&self) -> Map<Entity, Seq<char>> {
        self.entity_uuid@.map_values(|s: String| s@)
    }

    /// The entity registered under each uuid.
    pub closed spec fn entities(&self) -> Map<Seq<char>, Entity> {
        self.uuid_entity@
    }

    /// Every identifier below `MAX_ENTITIES` is either free (once, in the
    /// queue) or living (with a uuid), never both; the living count is the
    /// number of identifiers that are not free.
    pub closed spec fn wf(&self) -> bool {
        let avail = self.available_entities@;
        &&& self.signatures@.len() == MAX_ENTITIES
        &&& avail.no_duplicates()
        &&& forall|i: int| 0 <= i < avail.len() ==> avail[i] < MAX_ENTITIES
        &&& forall|e: Entity|
            e < MAX_ENTITIES ==> (avail.contains(e) <==> !self.entity_uuid@.contains_key(e))
        &&& forall|e: Entity| self.entity_uuid@.contains_key(e) ==> e < MAX_ENTITIES
        &&& self.living_entity_count + avail.len() == MAX_ENTITIES
    }

    /// A well-formed manager has a signature for every identifier, and every
    /// free or living identifier is below `MAX_ENTITIES`.
    pub proof fn lemma_wf_ranges(&self)
        requires
            self.wf(),
        ensures
            self.signatures().len() == MAX_ENTITIES,
            forall|i: int| 0 <= i < self.available().len() ==> self.available()[i] < MAX_ENTITIES,
            forall|e: Entity| #[trigger] self.uuids().contains_key(e) ==> e < MAX_ENTITIES,
            self.living() + self.available().len() == MAX_ENTITIES,
    {
    }

    /// The living count is the number of entities that have a uuid.
    pub proof fn lemma_living_count(&self)
        requires
            self.wf(),
        ensures
            self.uuids().dom().finite(),
            self.uuids().dom().len() == self.living(),
    {
        let all = ids_below(MAX_ENTITIES as nat);
        let free = self.available_entities@.to_set();
        let live = self.uuids().dom();
        lemma_ids_below_len(MAX_ENTITIES as nat);
        self.available_entities@.unique_seq_to_set();
        assert(live.subset_of(all));
        vstd::set_lib::lemma_len_subset(live, all);
        assert forall|e: Entity| #[trigger] free.contains(e) implies all.contains(e) by {
            let k = choose|k: int|
                0 <= k < self.available_entities@.len() && self.available_entities@[k] == e;
        }
        vstd::set_lib::lemma_len_subset(free, all);
        assert(free.disjoint(live));
        assert(free + live =~= all);
        vstd::set_lib::lemma_set_disjoint_lens(free, live);
    }

    /// Every identifier is free, in increasing order, and every signature is
    /// empty.
    pub fn new() -> (em: Self)
        ensures
            em.wf(),
            em.available() == Seq::new(MAX_ENTITIES as nat, |i: int| i as Entity),
            em.signatures() == Seq::new(MAX_ENTITIES as nat, |i: int| 0u64),
            em.living() == 0,
            em.uuids() == Map::<Entity, Seq<char>>::empty(),
            em.entities() == Map::<Seq<char>, Entity>::empty(),
    {
        let mut available_entities: VecDeque<Entity> = VecDeque::new();
        let mut signatures: Vec<Signature> = Vec::new();
        let mut i: usize = 0;
        while i < MAX_ENTITIES
            invariant
                i <= MAX_ENTITIES,
                available_entities@ == Seq::new(i as nat, |j: int| j as Entity),
                signatures@.len() == i,
                forall|j: int| 0 <= j < i ==> signatures@[j].bits == 0,
            decreases MAX_ENTITIES - i,
        {
            available_entities.push_back(i);
            signatures.push(Signature::new());
            i = i + 1;
        }
        let em = EntityManager {
            available_entities,
            signatures,
            living_entity_count: 0,
            entity_uuid: HashMap::new(),
            uuid_entity: StringHashMap::new(),
        };
        assert(em.available_entities@.no_duplicates());
        assert forall|e: Entity| e < MAX_ENTITIES implies em.available_entities@.contains(e) by {
            assert(em.available_entities@[e as int] == e);
        }
        assert(em.signatures() =~= Seq::new(MAX_ENTITIES as nat, |i: int| 0u64));
        assert(em.uuids() =~= Map::<Entity, Seq<char>>::empty());
        em
    }

    /// Hands out the oldest free identifier under `uuid` and counts it as living.
    fn take_free(&mut self, uuid: String) -> (id: Entity)
        requires
            old(self).wf(),
            old(self).living() < MAX_ENTITIES,
        ensures
            final(self).wf(),
            id == old(self).available()[0],
            id < MAX_ENTITIES,
            !old(self).uuids().contains_key(id),
            final(self).available() == old(self).available().drop_first(),
            final(self).signatures() == old(self).signatures(),
            final(self).living() == old(self).living() + 1,
            final(self).uuids() == old(self).uuids().insert(id, uuid@),
            final(self).entities() == old(self).entities().insert(uuid@, id),
    {
        let ghost avail = self.available_entities@;
        let id: Entity = self.available_entities.pop_front().unwrap();
        assert(avail.contains(id));
        self.entity_uuid.insert(id, uuid.clone());
        self.uuid_entity.insert(uuid, id);
        self.living_entity_count = self.living_entity_count + 1;
        proof {
            let new_avail = self.available_entities@;
            assert forall|e: Entity| e < MAX_ENTITIES implies (new_avail.contains(e)
                <==> !self.entity_uuid@.contains_key(e)) by {
                if new_avail.contains(e) {
                    let k = choose|k: int| 0 <= k < new_avail.len() && new_avail[k] == e;
                    assert(avail[k + 1] == e);
                    assert(avail[0] != avail[k + 1]);
                }
                if e != id && avail.contains(e) {
                    let k = choose|k: int| 0 <= k < avail.len() && avail[k] == e;
                    assert(k != 0);
                    assert(new_avail[k - 1] == e);
                }
            }
            assert forall|i: int, j: int|
                0 <= i < new_avail.len() && 0 <= j < new_avail.len() && i != j implies new_avail[i]
                != new_avail[j] by {
                assert(new_avail[i] == avail[i + 1]);
                assert(new_avail[j] == avail[j + 1]);
            }
            assert(self.uuids() =~= old(self).uuids().insert(id, uuid@));
        }
        id
    }

    /// Creates a new blank entity, returning its identifier and its new uuid.
    ///
    /// The uuid comes from a time-ordered generator in its 36-character
    /// form; that it differs from every other uuid rests on the clock and a
    /// random source, and is not stated here.
    pub fn create_entity(&mut self) -> (r: (Entity, String))
        requires
            old(self).wf(),
            old(self).living() < MAX_ENTITIES,
        ensures
            final(self).wf(),
            r.0 == old(self).available()[0],
            r.0 < MAX_ENTITIES,
            r.1@.len() == 36,
            !old(self).uuids().contains_key(r.0),
            final(self).available() == old(self).available().drop_first(),
            final(self).signatures() == old(self).signatures(),
            final(self).living() == old(self).living() + 1,
            final(self).uuids() == old(self).uuids().insert(r.0, r.1@),
            final(self).entities() == old(self).entities().insert(r.1@, r.0),
    {
        let uuid = new_uuid();
        let id = self.take_free(uuid.clone());
        (id, uuid)
    }

    /// Creates a new blank entity under a uuid that no entity holds yet.
    pub fn load_entity(&mut self, uuid: String) -> (id: Entity)
        requires
            old(self).wf(),
            old(self).living() < MAX_ENTITIES,
            !old(self).entities().contains_key(uuid@),
        ensures
            final(self).wf(),
            id == old(self).available()[0],
            id < MAX_ENTITIES,
            !old(self).uuids().contains_key(id),
            final(self).available() == old(self).available().drop_first(),
            final(self).signatures() == old(self).signatures(),
            final(self).living() == old(self).living() + 1,
            final(self).uuids() == old(self).uuids().insert(id, uuid@),
            final(self).entities() == old(self).entities().insert(uuid@, id),
    {
        self.take_free(uuid)
    }

    /// Destroys a living entity: its signature is cleared, its uuid forgotten
    /// and its identifier returned to the back of the queue.
    pub fn destroy_entity(&mut self, entity: Entity)
        requires
            old(self).wf(),
            entity < MAX_ENTITIES,
            old(self).uuids().contains_key(entity),
        ensures
            final(self).wf(),
            final(self).available() == old(self).available().push(entity),
            final(self).signatures() == old(self).signatures().update(entity as int, 0u64),
            final(self).living() == old(self).living() - 1,
            final(self).uuids() == old(self).uuids().remove(entity),
            final(self).entities() == old(self).entities().remove(old(self).uuids()[entity]),
    {
        let ghost avail = self.available_entities@;
        self.signatures[entity] = Signature::new();
        let uuid: String = self.entity_uuid.get(&entity).unwrap().clone();
        self.uuid_entity.remove(uuid.as_str());
        self.entity_uuid.remove(&entity);
        self.available_entities.push_back(entity);
        proof {
            lemma_ids_below_len(MAX_ENTITIES as nat);
            let bound = ids_below(MAX_ENTITIES as nat).remove(entity);
            assert forall|i: int| 0 <= i < avail.len() implies bound.contains(avail[i]) by {
                assert(avail.contains(avail[i]));
            }
            lemma_distinct_within(avail, bound);
            let new_avail = self.available_entities@;
            assert forall|i: int, j: int|
                0 <= i < new_avail.len() && 0 <= j < new_avail.len() && i != j implies new_avail[i]
                != new_avail[j] by {
                if i == avail.len() as int {
                    assert(!avail.contains(entity));
                    assert(new_avail[j] == avail[j]);
                } else if j == avail.len() as int {
                    assert(!avail.contains(entity));
                    assert(new_avail[i] == avail[i]);
                }
            }
            assert forall|e: Entity| e < MAX_ENTITIES implies (new_avail.contains(e)
                <==> !self.entity_uuid@.contains_key(e)) by {
                if e != entity && new_avail.contains(e) {
                    let k = choose|k: int| 0 <= k < new_avail.len() && new_avail[k] == e;
                    assert(avail[k] == e);
                }
                if e != entity && avail.contains(e) {
                    let k = choose|k: int| 0 <= k < avail.len() && avail[k] == e;
                    assert(new_avail[k] == e);
                }
                if e == entity {
                    assert(new_avail[avail.len() as int] == e);
                }
            }
            assert(self.signatures() =~= old(self).signatures().update(entity as int, 0u64));
            assert(self.uuids() =~= old(self).uuids().remove(entity));
        }
        self.living_entity_count = self.living_entity_count - 1;
    }

    /// Sets the signature of an entity.
    pub fn set_signature(&mut self, entity: Entity, signature: Signature)
        requires
            old(self).wf(),
            entity < MAX_ENTITIES,
        ensures
            final(self).wf(),
            final(self).signatures() == old(self).signatures().update(entity as int, signature.bits),
            final(self).available() == old(self).available(),
            final(self).living() == old(self).living(),
            final(self).uuids() == old(self).uuids(),
            final(self).entities() == old(self).entities(),
    {
        self.signatures[entity] = signature;
        assert(self.signatures() =~= old(self).signatures().update(entity as int, signature.bits));
    }

    /// The signature of an entity.
    pub fn get_signature(&self, entity: Entity) -> (s: Signature)
        requires
            self.wf(),
            entity < MAX_ENTITIES,
        ensures
            s.bits == self.signatures()[entity as int],
    {
        self.signatures[entity]
    }

    /// The number of living entities.
    pub fn living_count(&self) -> (n: usize)
        ensures
            n == self.living(),
    {
        self.living_entity_count
    }

    /// Whether an entity is living (has a uuid).
    pub fn is_living(&self, entity: Entity) -> (b: bool)
        ensures
            b == self.uuids().contains_key(entity),
    {
        self.entity_uuid.contains_key(&entity)
    }

    /// Whether some entity holds `uuid`.
    pub fn has_uuid(&self, uuid: &String) -> (b: bool)
        ensures
            b == self.entities().contains_key(uuid@),
    {
        self.uuid_entity.contains_key(uuid.as_str())
    }

    /// The uuid of a living entity.
    pub fn get_uuid(&self, entity: Entity) -> (uuid: &String)
        requires
            self.uuids().contains_key(entity),
        ensures
            uuid@ == self.uuids()[entity],
    {
        self.entity_uuid.get(&entity).unwrap()
    }

    /// The entity registered under a uuid.
    pub fn get_entity_from_uuid(&self, uuid: &String) -> (entity: Entity)
        requires
            self.entities().contains_key(uuid@),
        ensures
            entity == self.entities()[uuid@],
    {
        *self.uuid_entity.get(uuid.as_str()).unwrap()
    }
}

} // verus!
