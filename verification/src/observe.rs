//! The observer pattern: a subject whose observers are told of every new
//! state.
use vstd::prelude::*;

verus! {

/// Action to perform when an observed subject updates its state.
pub trait Observer<StateType> {
    /// Whether this observer has been told of `state`: what an update with
    /// `state` leaves true of the observer.
    spec fn told(&self, state: StateType) -> bool;

    /// Action run when the observed subject updates its state.
    fn update(&self, state: &StateType)
        ensures
            self.told(*state),
    ;
}

proof fn lemma_push_len<A>(s: Seq<A>, a: A)
    ensures
        s.push(a).len() == s.len() + 1,
{
}

/// An object that has its state observed.
#[verifier::reject_recursive_types(StateType)]
pub struct Subject<StateType: Clone> {
    state: StateType,
    observers: Vec<Box<dyn Observer<StateType>>>,
}

impl<StateType: Clone> Subject<StateType> {
    /// The current state.
    pub closed spec fn state_view(&self) -> StateType {
        self.state
    }

    /// The attached observers, in the order attached.
    pub closed spec fn observers(&self) -> Seq<Box<dyn Observer<StateType>>> {
        self.observers@
    }

    /// The `i`-th observer has been told of a clone of `state`.
    pub open spec fn told_clone(&self, i: int, state: StateType) -> bool {
        exists|c: StateType| cloned(state, c) && #[trigger] self.observers()[i].told(c)
    }

    /// The number of attached observers.
    pub open spec fn observer_count(&self) -> nat {
        self.observers().len()
    }

    /// A subject in `state` with no observer.
    pub fn new(state: StateType) -> (s: Self)
        ensures
            s.state_view() == state,
            s.observers() == Seq::<Box<dyn Observer<StateType>>>::empty(),
    {
        Subject { state, observers: Vec::new() }
    }

    /// A clone of the current state.
    pub fn state(&self) -> (s: StateType)
        ensures
            cloned(self.state_view(), s),
    {
        self.state.clone()
    }

    /// Attaches an observer to this subject.
    pub fn attach(&mut self, observer: Box<dyn Observer<StateType>>)
        ensures
            final(self).state_view() == old(self).state_view(),
            final(self).observers() == old(self).observers().push(observer),
            final(self).observer_count() == old(self).observer_count() + 1,
    {
        let ghost before = self.observers@;
        self.observers.push(observer);
        proof {
            lemma_push_len(before, observer);
        }
    }

    /// Replaces the state and notifies every observer of it.
    pub fn update_state(&mut self, state: StateType)
        ensures
            final(self).state_view() == state,
            final(self).observers() == old(self).observers(),
            forall|i: int|
                0 <= i < final(self).observer_count() ==> #[trigger] final(self).told_clone(i, state),
    {
        self.state = state;
        self.notify();
    }

    /// Calls every observer, in the order attached, with a clone of the
    /// current state.
    fn notify(&self)
        ensures
            forall|i: int|
                0 <= i < self.observer_count() ==> #[trigger] self.told_clone(i, self.state_view()),
    {
        let n = self.observers.len();
        let mut i: usize = 0;
        while i < n
            invariant
                0 <= i <= n,
                n == self.observers@.len(),
                forall|j: int|
                    0 <= j < i ==> #[trigger] self.told_clone(j, self.state_view()),
            decreases n - i,
        {
            let current = self.state();
            self.observers[i].update(&current);
            assert(cloned(self.state_view(), current));
            assert(self.observers()[i as int].told(current));
            assert(self.told_clone(i as int, self.state_view()));
            i = i + 1;
        }
    }
}

} // verus!
