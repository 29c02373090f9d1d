use std::collections::HashMap;
use vstd::hash_map::StringHashMap;
use vstd::prelude::*;

use super::signature::{Signature, MAX_COMPONENTS};

verus! {

broadcast use vstd::std_specs::hash::group_hash_axioms;

/// The signature bits of the `index`-th registered component type: the
/// highest bit first.
pub open spec fn component_bit(index: nat) -> u64 {
    1u64 << ((MAX_COMPONENTS - 1 - index) as u64)
}

/// Different registration slots get different bits.
pub proof fn lemma_component_bits_distinct(i: nat, j: nat)
    requires
        i < MAX_COMPONENTS,
        j < MAX_COMPONENTS,
        i != j,
    ensures
        component_bit(i) != component_bit(j),
        component_bit(i) != 0,
{
    let a: u64 = (MAX_COMPONENTS - 1 - i) as u64;
    let b: u64 = (MAX_COMPONENTS - 1 - j) as u64;
    assert(a < 64 && b < 64 && a != b ==> (1u64 << a) != (1u64 << b)) by (bit_vector);
    assert(a < 64 ==> (1u64 << a) != 0) by (bit_vector);
}

/// Stores the registered component types: the signature of each type name and
/// the storage index of each signature.
pub struct ComponentManager {
    /// Component type names and their signatures.
    component_types: StringHashMap<Signature>,
    /// The storage index of each component signature.
    component_index_map: HashMap<u64, usize>,
    /// The number of registered component types.
    components: usize,
}

impl ComponentManager {
    /// The signature bits of each registered component type name.
    pub closed spec fn types(&self) -> Map<Seq<char>, u64> {
        self.component_types@.map_values(|s: Signature| s.bits)
    }

    /// The storage index of each registered component signature.
    pub closed spec fn indices(&self) -> Map<u64, usize> {
        self.component_index_map@
    }

    /// The number of registered component types.
    pub closed spec fn count(&self) -> nat {
        self.components as nat
    }

    /// The `i`-th registered type has the `i`-th bit and storage index `i`;
    /// no two names share a bit.
    pub closed spec fn wf(&self) -> bool {
        &&& self.components <= MAX_COMPONENTS
        &&& forall|i: nat|
            i < self.components ==> #[trigger] self.component_index_map@.contains_key(
                component_bit(i),
            ) && self.component_index_map@[component_bit(i)] == i
        &&& forall|k: u64|
            #[trigger] self.component_index_map@.contains_key(k) ==> exists|i: nat|
                i < self.components && k == component_bit(i)
        &&& forall|n: Seq<char>|
            #[trigger] self.component_types@.contains_key(n) ==> exists|i: nat|
                i < self.components && self.component_types@[n].bits == component_bit(i)
        &&& forall|n1: Seq<char>, n2: Seq<char>|
            #[trigger] self.component_types@.contains_key(n1)
                && #[trigger] self.component_types@.contains_key(n2) && n1 != n2
                ==> self.component_types@[n1].bits != self.component_types@[n2].bits
    }

    /// No component type is registered.
    pub fn new() -> (cm: Self)
        ensures
            cm.wf(),
            cm.types() == Map::<Seq<char>, u64>::empty(),
            cm.indices() == Map::<u64, usize>::empty(),
            cm.count() == 0,
    {
        let cm = ComponentManager {
            component_types: StringHashMap::new(),
            component_index_map: HashMap::new(),
            components: 0,
        };
        assert(cm.types() =~= Map::<Seq<char>, u64>::empty());
        cm
    }

    /// Registers a new component type under `name`. The `n`-th type registered
    /// (from 0) gets the signature whose only bit is `MAX_COMPONENTS - 1 - n`
    /// and storage index `n`.
    pub fn register_component(&mut self, name: String)
        requires
            old(self).wf(),
            !old(self).types().contains_key(name@),
            old(self).count() < MAX_COMPONENTS,
        ensures
            final(self).wf(),
            final(self).types() == old(self).types().insert(name@, component_bit(old(self).count())),
            final(self).indices() == old(self).indices().insert(
                component_bit(old(self).count()),
                old(self).count() as usize,
            ),
            final(self).count() == old(self).count() + 1,
    {
        let mut component_type = Signature::new();
        component_type.set((MAX_COMPONENTS - 1) - self.components, true);
        let ghost n = self.components as nat;
        assert(component_type.bits == component_bit(n)) by {
            let s: u64 = (MAX_COMPONENTS - 1 - n) as u64;
            assert(s < 64 ==> (0u64 | (1u64 << s)) == (1u64 << s)) by (bit_vector);
        }
        self.component_types.insert(name, component_type);
        self.component_index_map.insert(component_type.bits, self.components);
        self.components = self.components + 1;
        proof {
            assert forall|i: nat| i < n implies component_bit(i) != component_bit(n) by {
                lemma_component_bits_distinct(i, n);
            }
            assert forall|k: u64| #[trigger]
                self.component_index_map@.contains_key(k) implies exists|i: nat|
                i < self.components && k == component_bit(i) by {
                if k != component_bit(n) {
                    assert(old(self).component_index_map@.contains_key(k));
                }
            }
            assert forall|m: Seq<char>| #[trigger]
                self.component_types@.contains_key(m) implies exists|i: nat|
                i < self.components && self.component_types@[m].bits == component_bit(i) by {
                if m != name@ {
                    assert(old(self).component_types@.contains_key(m));
                    let i = choose|i: nat|
                        i < n && old(self).component_types@[m].bits == component_bit(i);
                    assert(i < self.components);
                }
            }
            assert forall|n1: Seq<char>, n2: Seq<char>|
                #[trigger] self.component_types@.contains_key(n1)
                    && #[trigger] self.component_types@.contains_key(n2) && n1 != n2 implies self.component_types@[n1].bits
                != self.component_types@[n2].bits by {
                if n1 == name@ {
                    let i = choose|i: nat|
                        i < n && old(self).component_types@[n2].bits == component_bit(i);
                    lemma_component_bits_distinct(i, n);
                } else if n2 == name@ {
                    let i = choose|i: nat|
                        i < n && old(self).component_types@[n1].bits == component_bit(i);
                    lemma_component_bits_distinct(i, n);
                }
            }
            assert(self.types() =~= old(self).types().insert(name@, component_bit(n)));
        }
    }

    /// Whether a component type is registered under `name`.
    pub fn is_registered(&self, name: &String) -> (b: bool)
        ensures
            b == self.types().contains_key(name@),
    {
        self.component_types.contains_key(name.as_str())
    }

    /// The number of registered component types.
    pub fn len(&self) -> (n: usize)
        ensures
            n == self.count(),
    {
        self.components
    }

    /// The signature of a registered component type.
    pub fn get_component_type(&self, name: String) -> (s: Signature)
        requires
            self.types().contains_key(name@),
        ensures
            s.bits == self.types()[name@],
    {
        *self.component_types.get(name.as_str()).unwrap()
    }

    /// The storage index of a registered component signature.
    pub fn get_component_index(&self, component_type: &Signature) -> (index: usize)
        requires
            self.indices().contains_key(component_type.bits),
        ensures
            index == self.indices()[component_type.bits],
    {
        *self.component_index_map.get(&component_type.bits).unwrap()
    }
}

/// The signature of a registered component type has a single bit, and the
/// storage index of that signature is the position in which the type was
/// registered.
pub proof fn lemma_registered_type_has_index(cm: &ComponentManager, name: Seq<char>)
    requires
        cm.wf(),
        cm.types().contains_key(name),
    ensures
        exists|i: nat|
            i < cm.count() && cm.types()[name] == component_bit(i) && cm.indices().contains_key(
                cm.types()[name],
            ) && cm.indices()[cm.types()[name]] == i,
        cm.types()[name] != 0,
{
    let i = choose|i: nat| i < cm.count() && cm.component_types@[name].bits == component_bit(i);
    assert(cm.component_index_map@.contains_key(component_bit(i)));
    if i == 0 {
        lemma_component_bits_distinct(0, 1);
    } else {
        lemma_component_bits_distinct(i, 0);
    }
}

} // verus!
