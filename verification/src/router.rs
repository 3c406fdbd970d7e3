//! Where the solutions to one piece of work go: full-target solutions to
//! the job provider at once, every solution to the pool once the template's
//! transactions are known.
use crate::eventual::Eventual;
use crate::job_provider::FulfilledRequest;
use crate::pool_handler::{Solution, SolutionView};
use crate::target::{does_hash_meet_target, meets_target};
use crate::work::{TransactionData, TransactionDataView, WinningNonce, WinningNonceView};
use vstd::prelude::*;

verus! {

/// The state of a router as a mathematical value.
pub struct SolutionRouterView {
    /// The target of the merged template.
    pub target: Seq<u8>,
    /// The job provider that the template came from, if it is to hear of
    /// solutions.
    pub job_source: Option<usize>,
    /// The pool that the payout policy came from, if there is one.
    pub payout_source: Option<usize>,
    /// The request whose answer holds the template's transactions.
    pub ticket: u64,
    /// The template's transactions, once they came in.
    pub tx_data: Option<TransactionDataView>,
    /// The solutions that wait for the transactions, the first to come
    /// first.
    pub waiting: Seq<SolutionView>,
}

/// What is to be done with a solution right away.
#[derive(Debug, PartialEq, Eq)]
pub struct Routed {
    /// What to submit to the job provider, if anything.
    pub provider: Option<WinningNonce>,
    /// What to offer to the pool, if anything.
    pub pool: Option<Solution>,
}

/// What is to be done with a solution right away, as a mathematical value.
pub struct RoutedView {
    pub provider: Option<WinningNonceView>,
    pub pool: Option<SolutionView>,
}

impl View for Routed {
    type V = RoutedView;

    open spec fn view(&self) -> RoutedView {
        RoutedView { provider: self.provider.deep_view(), pool: self.pool.deep_view() }
    }
}

/// The solutions of a list as mathematical values.
pub open spec fn solutions_view(solutions: Seq<Solution>) -> Seq<SolutionView> {
    Seq::new(solutions.len(), |i: int| solutions[i]@)
}

impl SolutionRouterView {
    /// What is to be done right away with a solution that comes in.
    pub open spec fn routed(self, solution: SolutionView) -> RoutedView {
        RoutedView {
            provider: if self.job_source is Some && meets_target(solution.block_hash, self.target) {
                Some(solution.nonces)
            } else {
                None
            },
            pool: if self.payout_source is Some && self.tx_data is Some {
                Some(solution)
            } else {
                None
            },
        }
    }

    /// The state after a solution came in: with a pool, and without the
    /// template's transactions, the solution waits.
    pub open spec fn submitted(self, solution: SolutionView) -> SolutionRouterView {
        if self.payout_source is Some && self.tx_data is None {
            SolutionRouterView { waiting: self.waiting.push(solution), ..self }
        } else {
            self
        }
    }

    /// Whether the answer to request `ticket` of provider `source` is the
    /// one that this work waits for.
    pub open spec fn awaits(self, source: usize, ticket: u64) -> bool {
        self.job_source == Some(source) && self.ticket == ticket
    }

    /// The state after transaction data came in: the first to come stays.
    pub open spec fn resolved(self, data: TransactionDataView) -> SolutionRouterView {
        SolutionRouterView {
            tx_data: if self.tx_data is None {
                Some(data)
            } else {
                self.tx_data
            },
            waiting: Seq::empty(),
            ..self
        }
    }
}

/// The router of the solutions to one piece of work.
pub struct SolutionRouter {
    target: [u8; 32],
    job_source: Option<usize>,
    payout_source: Option<usize>,
    ticket: u64,
    tx_data: Eventual<TransactionData, Solution>,
}

impl View for SolutionRouter {
    type V = SolutionRouterView;

    closed spec fn view(&self) -> SolutionRouterView {
        SolutionRouterView {
            target: self.target@,
            job_source: self.job_source,
            payout_source: self.payout_source,
            ticket: self.ticket,
            tx_data: self.tx_data.delivered().deep_view(),
            waiting: solutions_view(self.tx_data.waiting()),
        }
    }
}

impl SolutionRouter {
    /// A router for work with target `target`, before any solution and
    /// before the template's transactions.
    pub fn new(
        target: [u8; 32],
        job_source: Option<usize>,
        payout_source: Option<usize>,
        ticket: u64,
    ) -> (router: Self)
        ensures
            router@ == (SolutionRouterView {
                target: target@,
                job_source,
                payout_source,
                ticket,
                tx_data: None,
                waiting: Seq::empty(),
            }),
    {
        let router = SolutionRouter {
            target,
            job_source,
            payout_source,
            ticket,
            tx_data: Eventual::new(),
        };
        assert(router@.waiting =~= Seq::empty());
        router
    }

    /// The job provider that hears of full-target solutions, if any.
    pub fn job_source(&self) -> (source: Option<usize>)
        ensures
            source == self@.job_source,
    {
        self.job_source
    }

    /// The pool that is offered the solutions, if any.
    pub fn payout_source(&self) -> (source: Option<usize>)
        ensures
            source == self@.payout_source,
    {
        self.payout_source
    }

    /// The request whose answer holds the template's transactions.
    pub fn ticket(&self) -> (ticket: u64)
        ensures
            ticket == self@.ticket,
    {
        self.ticket
    }

    /// The template's transactions, once they came in.
    pub fn transactions(&self) -> (data: Option<&TransactionData>)
        ensures
            data.deep_view() == self@.tx_data,
    {
        self.tx_data.get()
    }

    /// Takes in a solution. A solution that meets the work's target goes to
    /// the job provider, if one is to hear of it. With a pool, the solution
    /// goes to the pool: at once where the template's transactions are
    /// known, and else as soon as they are.
    pub fn submit(&mut self, solution: Solution) -> (r: Routed)
        ensures
            r@ == old(self)@.routed(solution@),
            final(self)@ == old(self)@.submitted(solution@),
    {
        let provider: Option<WinningNonce> = if self.job_source.is_some() && does_hash_meet_target(
            solution.block_hash.as_slice(),
            self.target.as_slice(),
        ) {
            Some(solution.nonces.duplicate())
        } else {
            None
        };
        let pool: Option<Solution> = if self.payout_source.is_some() {
            let ghost before = self.tx_data.waiting();
            let now: Option<Solution> = self.tx_data.get_and(solution);
            assert(self.tx_data.waiting() == before || self.tx_data.waiting() == before.push(
                solution,
            ));
            assert(solutions_view(before.push(solution)) =~= solutions_view(before).push(
                solution@,
            ));
            now
        } else {
            None
        };
        Routed { provider, pool }
    }

    /// Takes in the template's transactions. The first delivery releases
    /// the solutions that waited, the first to come first, each once; a
    /// later one changes nothing and releases none.
    pub fn transaction_data(&mut self, data: TransactionData) -> (due: Vec<Solution>)
        ensures
            due.deep_view() == if old(self)@.tx_data is None {
                old(self)@.waiting
            } else {
                Seq::empty()
            },
            final(self)@ == old(self)@.resolved(data@),
    {
        let due: Vec<Solution> = self.tx_data.resolve(data);
        assert(due.deep_view() =~= solutions_view(due@));
        assert(solutions_view(Seq::<Solution>::empty()) =~= Seq::empty());
        due
    }

    /// Takes in the answer to a request for transactions that came from
    /// provider `source`. It counts only if it answers the request that
    /// went out with this work's job, to this work's provider; any other
    /// answer changes nothing and releases nobody.
    pub fn deliver(&mut self, source: usize, answer: FulfilledRequest) -> (due: Vec<Solution>)
        ensures
            old(self)@.awaits(source, answer.ticket) ==> final(self)@ == old(self)@.resolved(
                answer.data@,
            ) && due.deep_view() == if old(self)@.tx_data is None {
                old(self)@.waiting
            } else {
                Seq::empty()
            },
            !old(self)@.awaits(source, answer.ticket) ==> final(self)@ == old(self)@
                && due.deep_view() == Seq::<SolutionView>::empty(),
    {
        if self.job_source == Some(source) && self.ticket == answer.ticket {
            self.transaction_data(answer.data)
        } else {
            let due: Vec<Solution> = Vec::new();
            assert(due.deep_view() =~= Seq::empty());
            due
        }
    }
}

} // verus!
