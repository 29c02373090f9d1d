//! Events addressed to named modules, and the routing table that decides which
//! subscriber receives each event.
use vstd::hash_map::StringHashMap;
use vstd::prelude::*;

verus! {

/// What an event carries: nothing, or serialised data.
#[derive(Clone, Debug)]
pub enum Payload {
    Empty,
    Post(String),
}

/// An event addressed to the module registered under `module`.
#[derive(Clone, Debug)]
pub struct Event {
    pub module: String,
    pub payload: Payload,
}

impl Event {
    /// An event for `module` carrying `payload`.
    pub fn new(module: String, payload: Payload) -> (e: Self)
        ensures
            e.module == module,
            e.payload == payload,
    {
        Event { module, payload }
    }
}

/// Decides which subscriber receives the events of each module name.
///
/// Each subscriber has a slot; a module name that subscribes again keeps its
/// slot, whose subscriber is replaced.
pub struct Routes {
    slots: StringHashMap<usize>,
    subscribers: usize,
}

impl Routes {
    /// The slot of each subscribed module name.
    pub closed spec fn slots(&self) -> Map<Seq<char>, usize> {
        self.slots@
    }

    /// The number of slots handed out.
    pub closed spec fn subscribers(&self) -> nat {
        self.subscribers as nat
    }

    /// Every slot was handed out, and no two names share one.
    pub open spec fn wf(&self) -> bool {
        &&& forall|n: Seq<char>| #[trigger] self.slots().contains_key(n) ==> self.slots()[n] < self.subscribers()
        &&& forall|n1: Seq<char>, n2: Seq<char>|
            #[trigger] self.slots().contains_key(n1) && #[trigger] self.slots().contains_key(n2)
                && n1 != n2 ==> self.slots()[n1] != self.slots()[n2]
    }

    /// No module has subscribed.
    pub fn new() -> (r: Self)
        ensures
            r.wf(),
            r.slots() == Map::<Seq<char>, usize>::empty(),
            r.subscribers() == 0,
    {
        Routes { slots: StringHashMap::new(), subscribers: 0 }
    }

    /// Subscribes the module `name`: a name seen before keeps its slot
    /// (`replaced` is `true`), a new name gets the next slot.
    pub fn subscribe(&mut self, name: String) -> (r: (usize, bool))
        requires
            old(self).wf(),
            old(self).subscribers() < usize::MAX,
        ensures
            final(self).wf(),
            r.1 == old(self).slots().contains_key(name@),
            r.1 ==> r.0 == old(self).slots()[name@] && final(self).slots() == old(self).slots()
                && final(self).subscribers() == old(self).subscribers(),
            !r.1 ==> r.0 == old(self).subscribers() && final(self).slots() == old(
                self,
            ).slots().insert(name@, r.0) && final(self).subscribers() == old(self).subscribers()
                + 1,
    {
        match self.slots.get(name.as_str()) {
            Some(slot) => (*slot, true),
            None => {
                let slot = self.subscribers;
                self.slots.insert(name, slot);
                self.subscribers = self.subscribers + 1;
                proof {
                    assert forall|n: Seq<char>| #[trigger] self.slots().contains_key(n) implies self.slots()[n]
                        < self.subscribers() by {
                        if n != name@ {
                            assert(old(self).slots().contains_key(n));
                        }
                    }
                    assert forall|n1: Seq<char>, n2: Seq<char>|
                        #[trigger] self.slots().contains_key(n1) && #[trigger] self.slots().contains_key(n2)
                            && n1 != n2 implies self.slots()[n1] != self.slots()[n2] by {
                        if n1 != name@ {
                            assert(old(self).slots().contains_key(n1));
                        }
                        if n2 != name@ {
                            assert(old(self).slots().contains_key(n2));
                        }
                    }
                }
                (slot, false)
            },
        }
    }

    /// The number of slots handed out.
    pub fn subscriber_count(&self) -> (n: usize)
        ensures
            n == self.subscribers(),
    {
        self.subscribers
    }

    /// The slot of the subscriber that receives `event`, if its module has
    /// subscribed.
    pub fn route(&self, event: &Event) -> (slot: Option<usize>)
        ensures
            slot == if self.slots().contains_key(event.module@) {
                Some(self.slots()[event.module@])
            } else {
                None::<usize>
            },
    {
        match self.slots.get(event.module.as_str()) {
            Some(slot) => Some(*slot),
            None => None,
        }
    }
}

} // verus!
