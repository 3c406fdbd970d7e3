//! A value that is delivered once and may be waited for by many.
use vstd::prelude::*;

verus! {

/// Where an eventual stands: either the value is still to come and some
/// wait for it, or it is there.
enum State<V, W> {
    Pending(Vec<W>),
    Resolved(V),
}

/// A value of type `V` that one producer delivers once. Until then,
/// whoever asks for it is queued; from then on, whoever asks is served at
/// once. `W` is what a waiter leaves behind to be called back by.
pub struct Eventual<V, W> {
    state: State<V, W>,
}

impl<V, W> Eventual<V, W> {
    /// The value, once it was delivered.
    pub closed spec fn delivered(self) -> Option<V> {
        match self.state {
            State::Pending(_) => None,
            State::Resolved(value) => Some(value),
        }
    }

    /// Those who wait for the value, the first to ask first.
    pub closed spec fn waiting(self) -> Seq<W> {
        match self.state {
            State::Pending(callees) => callees@,
            State::Resolved(_) => Seq::empty(),
        }
    }

    /// An eventual that nothing was delivered to and nobody waits for.
    pub fn new() -> (e: Self)
        ensures
            e.delivered() is None,
            e.waiting() == Seq::<W>::empty(),
    {
        Eventual { state: State::Pending(Vec::new()) }
    }

    /// Whether the value was delivered.
    pub fn is_resolved(&self) -> (resolved: bool)
        ensures
            resolved == self.delivered() is Some,
    {
        match &self.state {
            State::Pending(_) => false,
            State::Resolved(_) => true,
        }
    }

    /// The value, once it was delivered.
    pub fn get(&self) -> (value: Option<&V>)
        ensures
            value is Some <==> self.delivered() is Some,
            value is Some ==> *value.unwrap() == self.delivered().unwrap(),
    {
        match &self.state {
            State::Pending(_) => None,
            State::Resolved(value) => Some(value),
        }
    }

    /// Asks for the value on behalf of `then`. Where the value is there,
    /// `then` is handed back to be served at once and nothing changes; where
    /// it is not, `then` joins the end of the queue.
    pub fn get_and(&mut self, then: W) -> (now: Option<W>)
        ensures
            final(self).delivered() == old(self).delivered(),
            old(self).delivered() is Some ==> now == Some(then) && final(self).waiting() == old(
                self,
            ).waiting(),
            old(self).delivered() is None ==> now is None && final(self).waiting() == old(
                self,
            ).waiting().push(then),
    {
        let mut state: State<V, W> = State::Pending(Vec::new());
        std::mem::swap(&mut state, &mut self.state);
        match state {
            State::Pending(mut callees) => {
                callees.push(then);
                self.state = State::Pending(callees);
                None
            },
            State::Resolved(value) => {
                self.state = State::Resolved(value);
                Some(then)
            },
        }
    }

    /// Delivers the value. The first delivery stores it and hands out those
    /// who waited, the first to ask first, each once; a later one changes
    /// nothing and hands out nobody.
    pub fn resolve(&mut self, value: V) -> (due: Vec<W>)
        ensures
            final(self).waiting() == Seq::<W>::empty(),
            old(self).delivered() is None ==> final(self).delivered() == Some(value) && due@
                == old(self).waiting(),
            old(self).delivered() is Some ==> final(self).delivered() == old(self).delivered()
                && due@ == Seq::<W>::empty(),
    {
        let mut state: State<V, W> = State::Pending(Vec::new());
        std::mem::swap(&mut state, &mut self.state);
        match state {
            State::Pending(callees) => {
                self.state = State::Resolved(value);
                callees
            },
            State::Resolved(first) => {
                self.state = State::Resolved(first);
                Vec::new()
            },
        }
    }
}

} // verus!
