use vstd::hash_map::StringHashMap;
use vstd::prelude::*;

use crate::ecs::component::{component_bit, lemma_component_bits_distinct};
use crate::ecs::signature::{Signature, MAX_COMPONENTS};

verus! {

/// Stores the registered component types: the storage index and signature of
/// each type name.
pub struct ComponentManager {
    /// Component type names with their storage index and signature.
    component_types: StringHashMap<(usize, Signature)>,
    /// The number of registered component types.
    components: usize,
}

impl ComponentManager {
    /// The storage index of each registered component type name.
    pub closed spec fn indices(&self) -> Map<Seq<char>, usize> {
        self.component_types@.map_values(|p: (usize, Signature)| p.0)
    }

    /// The signature bits of each registered component type name.
    pub closed spec fn types(&self) -> Map<Seq<char>, u64> {
        self.component_types@.map_values(|p: (usize, Signature)| p.1.bits)
    }

    /// The number of registered component types.
    pub closed spec fn count(&self) -> nat {
        self.components as nat
    }

    /// Each registered name has a storage index below the count and the
    /// matching bit; no two names share an index.
    pub open spec fn wf(&self) -> bool {
        &&& self.count() <= MAX_COMPONENTS
        &&& forall|n: Seq<char>|
            #[trigger] self.types().contains_key(n) ==> self.indices().contains_key(n)
                && self.indices()[n] < self.count() && self.types()[n] == component_bit(
                self.indices()[n] as nat,
            )
        &&& forall|n1: Seq<char>, n2: Seq<char>|
            #[trigger] self.types().contains_key(n1) && #[trigger] self.types().contains_key(n2)
                && n1 != n2 ==> self.indices()[n1] != self.indices()[n2]
    }

    /// No component type is registered.
    pub fn new() -> (cm: Self)
        ensures
            cm.wf(),
            cm.types() == Map::<Seq<char>, u64>::empty(),
            cm.indices() == Map::<Seq<char>, usize>::empty(),
            cm.count() == 0,
    {
        let cm = ComponentManager { component_types: StringHashMap::new(), components: 0 };
        assert(cm.types() =~= Map::<Seq<char>, u64>::empty());
        assert(cm.indices() =~= Map::<Seq<char>, usize>::empty());
        cm
    }

    /// Registers a new component type under `name`: the `n`-th type
    /// registered (from 0) gets storage index `n` and the signature whose only
    /// bit is `MAX_COMPONENTS - 1 - n`.
    pub fn register(&mut self, name: String)
        requires
            old(self).wf(),
            old(self).count() < MAX_COMPONENTS,
            !old(self).types().contains_key(name@),
        ensures
            final(self).wf(),
            final(self).types() == old(self).types().insert(name@, component_bit(old(self).count())),
            final(self).indices() == old(self).indices().insert(name@, old(self).count() as usize),
            final(self).count() == old(self).count() + 1,
    {
        let mut component_sig = Signature::new();
        component_sig.set((MAX_COMPONENTS - 1) - self.components, true);
        let ghost n = self.components as nat;
        assert(component_sig.bits == component_bit(n)) by {
            let s: u64 = (MAX_COMPONENTS - 1 - n) as u64;
            assert(s < 64 ==> (0u64 | (1u64 << s)) == (1u64 << s)) by (bit_vector);
        }
        self.component_types.insert(name, (self.components, component_sig));
        self.components = self.components + 1;
        proof {
            assert(self.types() =~= old(self).types().insert(name@, component_bit(n)));
            assert(self.indices() =~= old(self).indices().insert(name@, n as usize));
            assert forall|m: Seq<char>| #[trigger] self.types().contains_key(m) implies self.indices().contains_key(m)
                && self.indices()[m] < self.count() && self.types()[m] == component_bit(
                self.indices()[m] as nat,
            ) by {
                if m != name@ {
                    assert(old(self).types().contains_key(m));
                }
            }
            assert forall|n1: Seq<char>, n2: Seq<char>|
                #[trigger] self.types().contains_key(n1) && #[trigger] self.types().contains_key(n2)
                    && n1 != n2 implies self.indices()[n1] != self.indices()[n2] by {
                if n1 != name@ {
                    assert(old(self).types().contains_key(n1));
                }
                if n2 != name@ {
                    assert(old(self).types().contains_key(n2));
                }
            }
        }
    }

    /// Whether a component type is registered under `name`.
    pub fn is_registered(&self, name: &String) -> (b: bool)
        ensures
            b == self.types().contains_key(name@),
    {
        self.component_types.contains_key(name.as_str())
    }

    /// The number of registered component types.
    pub fn len(&self) -> (n: usize)
        ensures
            n == self.count(),
    {
        self.components
    }

    /// The signature of a registered component type.
    pub fn get_signature_from_name(&self, name: &String) -> (s: Signature)
        requires
            self.types().contains_key(name@),
        ensures
            s.bits == self.types()[name@],
    {
        self.component_types.get(name.as_str()).unwrap().1
    }

    /// The storage index of a registered component type.
    pub fn get_component_index(&self, name: &String) -> (index: usize)
        requires
            self.types().contains_key(name@),
            self.wf(),
        ensures
            index == self.indices()[name@],
    {
        self.component_types.get(name.as_str()).unwrap().0
    }
}

/// Different registered component types have different signatures, none of
/// them empty.
pub proof fn lemma_types_distinct(cm: ComponentManager, n1: Seq<char>, n2: Seq<char>)
    requires
        cm.wf(),
        cm.types().contains_key(n1),
        cm.types().contains_key(n2),
    ensures
        n1 != n2 ==> cm.types()[n1] != cm.types()[n2],
        cm.types()[n1] != 0,
{
    let i = cm.indices()[n1] as nat;
    let j = cm.indices()[n2] as nat;
    if n1 != n2 {
        lemma_component_bits_distinct(i, j);
    }
    if i == 0 {
        lemma_component_bits_distinct(0, 1);
    } else {
        lemma_component_bits_distinct(i, 0);
    }
}

} // verus!
