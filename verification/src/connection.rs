//! Keeping one connection to a host alive: which address to try next, and
//! when to wait before resolving the host again.
use vstd::prelude::*;

verus! {

/// A message that the protocol does not allow at this point, or that does
/// not verify.
#[derive(Debug, PartialEq, Eq)]
pub struct HandleError;

impl HandleError {
    /// What went wrong, in words.
    pub fn description(&self) -> (words: &'static str)
        ensures
            words@ == "Failed to handle message"@,
    {
        "Failed to handle message"
    }
}

/// What a connection maintainer needs of the protocol that runs over the
/// connection.
pub trait ConnectionHandler<MessageType>: Sized {
    /// Whether `after` is what a handler in this state becomes when a
    /// connection is made.
    spec fn on_connect(&self, after: &Self) -> bool;

    /// Whether `after` is what a handler in this state becomes when `msg`
    /// comes in, and `ok` whether the message is allowed.
    spec fn on_message(&self, msg: MessageType, after: &Self, ok: bool) -> bool;

    /// Whether `after` is what a handler in this state becomes when the
    /// connection goes away.
    spec fn on_close(&self, after: &Self) -> bool;

    /// A connection was made: anything left of an earlier one is void.
    fn new_connection(&mut self)
        ensures
            old(self).on_connect(final(self)),
    ;

    /// A message came in. An error closes the connection.
    fn handle_message(&mut self, msg: MessageType) -> (r: Result<(), HandleError>)
        ensures
            old(self).on_message(msg, final(self), r is Ok),
    ;

    /// The connection is gone.
    fn connection_closed(&mut self)
        ensures
            old(self).on_close(final(self)),
    ;
}

/// How long the maintainer waits, in seconds, before it resolves the host
/// again.
pub const RECONNECT_DELAY_SECS: u64 = 30;

/// What the maintainer wants done next.
#[derive(Clone, Copy, Debug, PartialEq, Eq)]
pub enum NextStep<A> {
    /// Resolve the host, and report the addresses or the failure.
    Resolve,
    /// Try to connect to this address, and report how it went.
    Connect(A),
    /// Wait this many seconds, then ask again.
    Sleep(u64),
}

/// What the maintainer does with the addresses it has left: it tries the
/// last one, and where none is left it forgets the resolution and waits.
pub open spec fn next_attempt<A>(addrs: Seq<A>) -> (NextStep<A>, Option<Seq<A>>) {
    if addrs.len() == 0 {
        (NextStep::Sleep(RECONNECT_DELAY_SECS), None)
    } else {
        (NextStep::Connect(addrs.last()), Some(addrs.drop_last()))
    }
}

/// What the maintainer does when it is asked for the next step: without a
/// resolution it asks for one.
pub open spec fn next_step<A>(cur_addrs: Option<Seq<A>>) -> (NextStep<A>, Option<Seq<A>>) {
    match cur_addrs {
        None => (NextStep::Resolve, None),
        Some(addrs) => next_attempt(addrs),
    }
}

/// Keeps one connection to `host` alive. The maintainer decides; whoever
/// drives it resolves, connects, sleeps and reports back.
pub struct ConnectionMaintainer<MessageType, HandlerProvider: ConnectionHandler<MessageType>, A> {
    host: String,
    cur_addrs: Option<Vec<A>>,
    handler: HandlerProvider,
    ph: core::marker::PhantomData<MessageType>,
}

impl<MessageType, HandlerProvider: ConnectionHandler<MessageType>, A> ConnectionMaintainer<
    MessageType,
    HandlerProvider,
    A,
> {
    /// The addresses of the last resolution that were not tried yet; the
    /// last of them is tried next.
    pub closed spec fn addresses(&self) -> Option<Seq<A>> {
        match self.cur_addrs {
            Some(addrs) => Some(addrs@),
            None => None,
        }
    }

    /// The host that the maintainer connects to.
    pub closed spec fn host_name(&self) -> Seq<char> {
        self.host@
    }

    /// The handler of the protocol that runs over the connection.
    pub closed spec fn handler_state(&self) -> HandlerProvider {
        self.handler
    }

    /// A maintainer for `host` that has resolved nothing yet.
    pub fn new(host: String, handler: HandlerProvider) -> (maintainer: Self)
        ensures
            maintainer.addresses() is None,
            maintainer.host_name() == host@,
            maintainer.handler_state() == handler,
    {
        ConnectionMaintainer { host, cur_addrs: None, handler, ph: core::marker::PhantomData }
    }

    /// The host that the maintainer connects to.
    pub fn host(&self) -> (host: &String)
        ensures
            host@ == self.host_name(),
    {
        &self.host
    }

    /// The handler of the protocol that runs over the connection.
    pub fn handler(&self) -> (handler: &HandlerProvider)
        ensures
            *handler == self.handler_state(),
    {
        &self.handler
    }

    /// The handler, to be changed in place; the maintainer's own state
    /// stays as it is.
    pub fn handler_mut(&mut self) -> (handler: &mut HandlerProvider)
        ensures
            *handler == old(self).handler_state(),
            final(self).handler_state() == *final(handler),
            final(self).addresses() == old(self).addresses(),
            final(self).host_name() == old(self).host_name(),
    {
        &mut self.handler
    }

    /// What is to be done next to get a connection: resolve the host where
    /// there is no resolution, try the last address that is left where
    /// there is one, and else forget the resolution and wait.
    pub fn make_connection(&mut self) -> (step: NextStep<A>)
        ensures
            step == next_step(old(self).addresses()).0,
            final(self).addresses() == next_step(old(self).addresses()).1,
            final(self).host_name() == old(self).host_name(),
            final(self).handler_state() == old(self).handler_state(),
    {
        let mut addrs: Option<Vec<A>> = None;
        std::mem::swap(&mut addrs, &mut self.cur_addrs);
        match addrs {
            None => NextStep::Resolve,
            Some(mut addrs) => match addrs.pop() {
                Some(addr) => {
                    self.cur_addrs = Some(addrs);
                    NextStep::Connect(addr)
                },
                None => NextStep::Sleep(RECONNECT_DELAY_SECS),
            },
        }
    }

    /// The host was resolved to `addrs`, or could not be resolved. After a
    /// failure the maintainer waits; else it takes the addresses and goes
    /// on as `make_connection` does.
    pub fn addresses_resolved(&mut self, addrs: Option<Vec<A>>) -> (step: NextStep<A>)
        ensures
            match addrs {
                Some(addrs) => step == next_attempt(addrs@).0 && final(self).addresses()
                    == next_attempt(addrs@).1,
                None => step == NextStep::<A>::Sleep(RECONNECT_DELAY_SECS)
                    && final(self).addresses() is None,
            },
            final(self).host_name() == old(self).host_name(),
            final(self).handler_state() == old(self).handler_state(),
    {
        match addrs {
            Some(addrs) => {
                self.cur_addrs = Some(addrs);
                self.make_connection()
            },
            None => {
                self.cur_addrs = None;
                NextStep::Sleep(RECONNECT_DELAY_SECS)
            },
        }
    }

    /// The connection was made: the handler is told. The addresses that
    /// were not tried stay for the next attempt.
    pub fn connected(&mut self)
        ensures
            old(self).handler_state().on_connect(&final(self).handler_state()),
            final(self).addresses() == old(self).addresses(),
            final(self).host_name() == old(self).host_name(),
    {
        self.handler.new_connection();
    }

    /// A message came in over the connection: the handler decides whether
    /// the connection stays.
    pub fn handle_message(&mut self, msg: MessageType) -> (r: Result<(), HandleError>)
        ensures
            old(self).handler_state().on_message(msg, &final(self).handler_state(), r is Ok),
            final(self).addresses() == old(self).addresses(),
            final(self).host_name() == old(self).host_name(),
    {
        self.handler.handle_message(msg)
    }

    /// The connection is gone: the handler is told, and the maintainer goes
    /// on as `make_connection` does, with the next address first.
    pub fn disconnected(&mut self) -> (step: NextStep<A>)
        ensures
            old(self).handler_state().on_close(&final(self).handler_state()),
            step == next_step(old(self).addresses()).0,
            final(self).addresses() == next_step(old(self).addresses()).1,
            final(self).host_name() == old(self).host_name(),
    {
        self.handler.connection_closed();
        self.make_connection()
    }
}

/// The addresses that are left after `k` attempts have failed.
pub open spec fn after_failures<A>(addrs: Seq<A>, k: nat) -> Option<Seq<A>>
    decreases k,
{
    if k == 0 {
        Some(addrs)
    } else {
        next_step(after_failures(addrs, (k - 1) as nat)).1
    }
}

/// Of a resolution with `n` addresses, attempt `k` goes to the address `k`
/// places from the end, for every `k` below `n`; after `n` failures the
/// maintainer waits the fixed delay, and after that it resolves again.
pub proof fn lemma_addresses_tried_last_first<A>(addrs: Seq<A>, k: nat)
    requires
        k <= addrs.len(),
    ensures
        after_failures(addrs, k) == Some(addrs.take(addrs.len() - k)),
        k < addrs.len() ==> next_step(after_failures(addrs, k)).0 == NextStep::Connect(
            addrs[addrs.len() - 1 - k],
        ),
        k == addrs.len() ==> next_step(after_failures(addrs, k)) == (
            NextStep::<A>::Sleep(RECONNECT_DELAY_SECS),
            None::<Seq<A>>,
        ),
        next_step(None::<Seq<A>>).0 == NextStep::<A>::Resolve,
    decreases k,
{
    if k == 0 {
        assert(addrs.take(addrs.len() as int) =~= addrs);
    } else {
        lemma_addresses_tried_last_first(addrs, (k - 1) as nat);
        assert(addrs.take(addrs.len() - k + 1).drop_last() =~= addrs.take(addrs.len() - k));
    }
}

} // verus!
