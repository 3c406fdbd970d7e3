//! What the proxy keeps of one pool: the latest payout policy, the latest
//! targets, and the shares that wait to be sent.
use crate::connection::{ConnectionHandler, HandleError};
use crate::envelope::{signature_valid, verify};
use crate::job_provider::PROTOCOL_VERSION;
use crate::keys::{PublicKey, Signature};
use crate::payload::{duplicate_hashes, Transaction};
use crate::pool::{
    PoolDifficulty, PoolDifficultyView, PoolMessage, PoolMessageView, PoolPayoutInfo,
    PoolPayoutInfoView, PoolShare, PoolShareView, WeakBlock, WeakBlockView, POOL_PAYOUT_INFO,
};
use crate::target::{does_hash_meet_target, meets_target};
use crate::work::{BlockTemplate, BlockTemplateView, WinningNonce, WinningNonceView};
use vstd::prelude::*;

verus! {

/// How many payout updates may wait to be merged before a pool counts as
/// too fast.
pub const POOL_STREAM_CAPACITY: usize = 5;

/// A pool's payout policy with the targets that were current when it was
/// issued.
#[derive(Clone, Debug, PartialEq, Eq)]
pub struct PoolUpdate {
    pub payout_info: PoolPayoutInfo,
    pub difficulty: Option<PoolDifficulty>,
}

/// A `PoolUpdate` as a mathematical value.
pub struct PoolUpdateView {
    pub payout_info: PoolPayoutInfoView,
    pub difficulty: Option<PoolDifficultyView>,
}

impl View for PoolUpdate {
    type V = PoolUpdateView;

    open spec fn view(&self) -> PoolUpdateView {
        PoolUpdateView { payout_info: self.payout_info@, difficulty: self.difficulty.deep_view() }
    }
}

impl DeepView for PoolUpdate {
    type V = PoolUpdateView;

    open spec fn deep_view(&self) -> PoolUpdateView {
        self@
    }
}

/// A solution as the downstream server reports it: what the miner chose,
/// and the hash of the block that results.
#[derive(Clone, Debug, PartialEq, Eq)]
pub struct Solution {
    pub nonces: WinningNonce,
    pub block_hash: [u8; 32],
}

/// A `Solution` as a mathematical value.
pub struct SolutionView {
    pub nonces: WinningNonceView,
    pub block_hash: Seq<u8>,
}

impl View for Solution {
    type V = SolutionView;

    open spec fn view(&self) -> SolutionView {
        SolutionView { nonces: self.nonces@, block_hash: self.block_hash@ }
    }
}

impl DeepView for Solution {
    type V = SolutionView;

    open spec fn deep_view(&self) -> SolutionView {
        self@
    }
}

/// What became of a solution that was offered to a pool.
#[derive(Clone, Copy, Debug, PartialEq, Eq)]
pub enum ShareOutcome {
    /// The share waits to be sent.
    Submitted,
    /// The hash does not meet the pool's share target.
    MissedTarget,
    /// The hash meets the target, but there is no connection to the pool.
    NotConnected,
    /// The pool did not say yet what its targets are.
    NoDifficulty,
}

/// The state of a pool's handler as a mathematical value.
pub struct PoolHandlerView {
    /// The pool's rank among the configured pools; 0 is preferred most.
    pub pool_priority: usize,
    /// What waits to be sent; nothing at all while there is no connection.
    pub stream: Option<Seq<PoolMessageView>>,
    /// The key that signed messages must verify under, once it is known.
    pub auth_key: Option<Seq<u8>>,
    pub cur_payout_info: Option<PoolPayoutInfoView>,
    pub cur_difficulty: Option<PoolDifficultyView>,
    pub last_weak_block: Option<WeakBlockView>,
    /// The payout updates that wait to be merged, oldest first.
    pub job_stream: Seq<PoolUpdateView>,
}

/// The share that submits `solution`, found on `template`, to a pool.
pub open spec fn share_for(solution: SolutionView, template: BlockTemplateView) -> PoolShareView {
    PoolShareView {
        header_version: solution.nonces.header_version,
        header_prevblock: template.header_prevblock,
        header_time: solution.nonces.header_time,
        header_nbits: template.header_nbits,
        header_nonce: solution.nonces.header_nonce,
        merkle_rhss: template.merkle_rhss,
        coinbase_tx: solution.nonces.coinbase_tx,
    }
}

impl PoolHandlerView {
    /// Whether `signature` signs `payload` under `tag` for the key that this
    /// pool is known by. Without a key nothing verifies.
    pub open spec fn authentic(self, tag: u8, payload: Seq<u8>, signature: Seq<u8>) -> bool {
        self.auth_key matches Some(key) && signature_valid(key, tag, payload, signature)
    }

    /// Whether there is room for another payout update.
    pub open spec fn has_room(self) -> bool {
        self.job_stream.len() < POOL_STREAM_CAPACITY
    }

    /// Whether `info` is newer than the current payout policy.
    pub open spec fn supersedes(self, info: PoolPayoutInfoView) -> bool {
        self.cur_payout_info matches Some(cur) ==> cur.timestamp < info.timestamp
    }

    /// The state after a connection was made: nothing waits to be sent, and
    /// the last weak block is forgotten.
    pub open spec fn connect(self) -> PoolHandlerView {
        PoolHandlerView { stream: Some(Seq::empty()), last_weak_block: None, ..self }
    }

    /// The state after the connection went away.
    pub open spec fn close(self) -> PoolHandlerView {
        PoolHandlerView { stream: None, ..self }
    }

    /// What a message does to the state, and whether it is allowed: `false`
    /// closes the connection.
    pub open spec fn handle(self, msg: PoolMessageView) -> (bool, PoolHandlerView) {
        match msg {
            PoolMessageView::ProtocolSupport { .. } => (false, self),
            PoolMessageView::ProtocolVersion { selected_version, auth_key } => {
                if selected_version != PROTOCOL_VERSION {
                    (false, self)
                } else {
                    match self.auth_key {
                        None => (true, PoolHandlerView { auth_key: Some(auth_key), ..self }),
                        Some(known) => (known == auth_key, self),
                    }
                }
            },
            PoolMessageView::PayoutInfo { signature, payout_info } => {
                if !payout_info.encodable() || !self.authentic(
                    POOL_PAYOUT_INFO,
                    payout_info.encoding(),
                    signature,
                ) {
                    (false, self)
                } else if !self.supersedes(payout_info) {
                    (true, self)
                } else if !self.has_room() {
                    (false, self)
                } else {
                    (
                        true,
                        PoolHandlerView {
                            cur_payout_info: Some(payout_info),
                            job_stream: self.job_stream.push(
                                PoolUpdateView { payout_info, difficulty: self.cur_difficulty },
                            ),
                            ..self
                        },
                    )
                }
            },
            PoolMessageView::ShareDifficulty { difficulty } => {
                let installed = PoolHandlerView { cur_difficulty: Some(difficulty), ..self };
                match self.cur_payout_info {
                    None => (true, installed),
                    Some(payout_info) => if self.has_room() {
                        (
                            true,
                            PoolHandlerView {
                                job_stream: self.job_stream.push(
                                    PoolUpdateView { payout_info, difficulty: Some(difficulty) },
                                ),
                                ..installed
                            },
                        )
                    } else {
                        (false, installed)
                    },
                }
            },
            PoolMessageView::Share { .. } => (false, self),
            PoolMessageView::WeakBlock { .. } => (false, self),
            PoolMessageView::WeakBlockStateReset => (
                true,
                PoolHandlerView { last_weak_block: None, ..self },
            ),
        }
    }

    /// What becomes of a solution that is offered to the pool.
    pub open spec fn share_outcome(self, block_hash: Seq<u8>) -> ShareOutcome {
        match self.cur_difficulty {
            None => ShareOutcome::NoDifficulty,
            Some(difficulty) => if !meets_target(block_hash, difficulty.share_target) {
                ShareOutcome::MissedTarget
            } else if self.stream is None {
                ShareOutcome::NotConnected
            } else {
                ShareOutcome::Submitted
            },
        }
    }
}

/// What the proxy keeps of one pool.
pub struct PoolHandler {
    pool_priority: usize,
    stream: Option<Vec<PoolMessage>>,
    auth_key: Option<PublicKey>,
    cur_payout_info: Option<PoolPayoutInfo>,
    cur_difficulty: Option<PoolDifficulty>,
    last_weak_block: Option<WeakBlock>,
    job_stream: Vec<PoolUpdate>,
}

impl View for PoolHandler {
    type V = PoolHandlerView;

    closed spec fn view(&self) -> PoolHandlerView {
        PoolHandlerView {
            pool_priority: self.pool_priority,
            stream: self.stream.deep_view(),
            auth_key: self.auth_key.deep_view(),
            cur_payout_info: self.cur_payout_info.deep_view(),
            cur_difficulty: self.cur_difficulty.deep_view(),
            last_weak_block: self.last_weak_block.deep_view(),
            job_stream: self.job_stream.deep_view(),
        }
    }
}

impl PoolHandler {
    /// A handler for a pool that no connection was made to yet. With an
    /// `expected_auth_key` the pool must prove to hold that key; without
    /// one, the first key it names is taken.
    pub fn new(expected_auth_key: Option<PublicKey>, pool_priority: usize) -> (handler: Self)
        ensures
            handler@ == (PoolHandlerView {
                pool_priority,
                stream: None,
                auth_key: expected_auth_key.deep_view(),
                cur_payout_info: None,
                cur_difficulty: None,
                last_weak_block: None,
                job_stream: Seq::empty(),
            }),
    {
        let handler = PoolHandler {
            pool_priority,
            stream: None,
            auth_key: expected_auth_key,
            cur_payout_info: None,
            cur_difficulty: None,
            last_weak_block: None,
            job_stream: Vec::new(),
        };
        assert(handler.job_stream.deep_view() =~= Seq::empty());
        handler
    }

    /// Whether there is a connection to send on.
    pub fn is_connected(&self) -> (connected: bool)
        ensures
            connected == self@.stream is Some,
    {
        self.stream.is_some()
    }

    /// The pool's rank among the configured pools; 0 is preferred most.
    pub fn get_priority(&self) -> (priority: usize)
        ensures
            priority == self@.pool_priority,
    {
        self.pool_priority
    }

    /// The timestamp of the current payout policy, if there is one.
    pub fn current_payout_timestamp(&self) -> (timestamp: Option<u64>)
        ensures
            timestamp == match self@.cur_payout_info {
                Some(info) => Some(info.timestamp),
                None => None,
            },
    {
        match &self.cur_payout_info {
            Some(info) => Some(info.timestamp),
            None => None,
        }
    }

    /// The current targets, if the pool named any.
    pub fn current_difficulty(&self) -> (difficulty: Option<PoolDifficulty>)
        ensures
            difficulty.deep_view() == self@.cur_difficulty,
    {
        self.cur_difficulty
    }

    /// A connection was made: nothing waits to be sent, and the last weak
    /// block is forgotten.
    pub fn new_connection(&mut self)
        ensures
            final(self)@ == old(self)@.connect(),
    {
        let queue: Vec<PoolMessage> = Vec::new();
        assert(queue.deep_view() =~= Seq::empty());
        self.stream = Some(queue);
        self.last_weak_block = None;
    }

    /// The connection is gone, and with it what waited to be sent.
    pub fn connection_closed(&mut self)
        ensures
            final(self)@ == old(self)@.close(),
    {
        self.stream = None;
    }

    /// Queues `msg` to be sent, if there is a connection.
    fn enqueue(&mut self, msg: PoolMessage) -> (queued: bool)
        ensures
            queued == old(self)@.stream is Some,
            queued ==> final(self)@ == (PoolHandlerView {
                stream: Some(old(self)@.stream.unwrap().push(msg@)),
                ..old(self)@
            }),
            !queued ==> final(self)@ == old(self)@,
    {
        let mut stream: Option<Vec<PoolMessage>> = None;
        std::mem::swap(&mut stream, &mut self.stream);
        match stream {
            Some(mut queue) => {
                let ghost before = queue.deep_view();
                queue.push(msg);
                assert(queue.deep_view() =~= before.push(msg@));
                self.stream = Some(queue);
                true
            },
            None => false,
        }
    }

    /// Queues a payout update to be merged.
    fn push_update(&mut self, payout_info: PoolPayoutInfo, difficulty: Option<PoolDifficulty>)
        ensures
            final(self)@ == (PoolHandlerView {
                job_stream: old(self)@.job_stream.push(
                    PoolUpdateView {
                        payout_info: payout_info@,
                        difficulty: difficulty.deep_view(),
                    },
                ),
                ..old(self)@
            }),
    {
        let ghost before = self.job_stream.deep_view();
        let update = PoolUpdate { payout_info, difficulty };
        self.job_stream.push(update);
        assert(self.job_stream.deep_view() =~= before.push(update@));
    }

    /// Hands out what waits to be sent, oldest first, and leaves nothing
    /// waiting.
    pub fn take_outbound(&mut self) -> (out: Vec<PoolMessage>)
        ensures
            out.deep_view() == match old(self)@.stream {
                Some(queue) => queue,
                None => Seq::empty(),
            },
            final(self)@ == (PoolHandlerView {
                stream: match old(self)@.stream {
                    Some(_) => Some(Seq::empty()),
                    None => None,
                },
                ..old(self)@
            }),
    {
        let mut stream: Option<Vec<PoolMessage>> = None;
        std::mem::swap(&mut stream, &mut self.stream);
        match stream {
            Some(queue) => {
                let fresh: Vec<PoolMessage> = Vec::new();
                assert(fresh.deep_view() =~= Seq::empty());
                self.stream = Some(fresh);
                queue
            },
            None => {
                let out: Vec<PoolMessage> = Vec::new();
                assert(out.deep_view() =~= Seq::empty());
                out
            },
        }
    }

    /// Hands out the payout updates that wait to be merged, oldest first,
    /// and leaves none waiting.
    pub fn take_updates(&mut self) -> (updates: Vec<PoolUpdate>)
        ensures
            updates.deep_view() == old(self)@.job_stream,
            final(self)@ == (PoolHandlerView { job_stream: Seq::empty(), ..old(self)@ }),
    {
        let mut updates: Vec<PoolUpdate> = Vec::new();
        assert(updates.deep_view() =~= Seq::empty());
        std::mem::swap(&mut updates, &mut self.job_stream);
        updates
    }

    /// Whether `signature` signs `payload` under `tag` for the key that this
    /// pool is known by.
    fn check_signature(&self, tag: u8, payload: &[u8], signature: &Signature) -> (ok: bool)
        ensures
            ok == self@.authentic(tag, payload@, signature@),
    {
        match &self.auth_key {
            Some(key) => verify(key, tag, payload, signature),
            None => false,
        }
    }

    /// Takes in a message from the pool. The state afterwards, and whether
    /// the message was allowed, are those that `handle` gives; an error
    /// closes the connection.
    pub fn handle_message(&mut self, msg: PoolMessage) -> (r: Result<(), HandleError>)
        ensures
            r is Ok == old(self)@.handle(msg@).0,
            final(self)@ == old(self)@.handle(msg@).1,
    {
        match msg {
            PoolMessage::ProtocolSupport { .. } => Err(HandleError),
            PoolMessage::ProtocolVersion { selected_version, auth_key } => {
                if selected_version != PROTOCOL_VERSION {
                    return Err(HandleError);
                }
                let known: Option<bool> = match &self.auth_key {
                    Some(key) => Some(key.same_as(&auth_key)),
                    None => None,
                };
                match known {
                    None => {
                        self.auth_key = Some(auth_key);
                        Ok(())
                    },
                    Some(true) => Ok(()),
                    Some(false) => Err(HandleError),
                }
            },
            PoolMessage::PayoutInfo { signature, payout_info } => {
                if !payout_info.is_encodable() {
                    return Err(HandleError);
                }
                let payload: Vec<u8> = payout_info.unsigned_bytes();
                if !self.check_signature(POOL_PAYOUT_INFO, payload.as_slice(), &signature) {
                    return Err(HandleError);
                }
                let newer: bool = match &self.cur_payout_info {
                    Some(cur) => cur.timestamp < payout_info.timestamp,
                    None => true,
                };
                if !newer {
                    return Ok(());
                }
                if self.job_stream.len() >= POOL_STREAM_CAPACITY {
                    return Err(HandleError);
                }
                let difficulty: Option<PoolDifficulty> = self.cur_difficulty;
                self.push_update(payout_info.duplicate(), difficulty);
                self.cur_payout_info = Some(payout_info);
                Ok(())
            },
            PoolMessage::ShareDifficulty { difficulty } => {
                self.cur_difficulty = Some(difficulty);
                let payout_info: Option<PoolPayoutInfo> = match &self.cur_payout_info {
                    Some(info) => Some(info.duplicate()),
                    None => None,
                };
                match payout_info {
                    None => Ok(()),
                    Some(info) => {
                        if self.job_stream.len() >= POOL_STREAM_CAPACITY {
                            return Err(HandleError);
                        }
                        self.push_update(info, Some(difficulty));
                        Ok(())
                    },
                }
            },
            PoolMessage::Share { .. } => Err(HandleError),
            PoolMessage::WeakBlock { .. } => Err(HandleError),
            PoolMessage::WeakBlockStateReset {  } => {
                self.last_weak_block = None;
                Ok(())
            },
        }
    }

    /// Offers a solution to the pool. A solution whose hash meets the
    /// pool's share target is queued as a share, if there is a connection;
    /// nothing else changes. `post_coinbase_txn` are the template's
    /// transactions, which the pool is owed only once it asks for a weak
    /// block.
    pub fn send_nonce(
        &mut self,
        work: &Solution,
        template: &BlockTemplate,
        post_coinbase_txn: &Vec<Transaction>,
    ) -> (outcome: ShareOutcome)
        ensures
            outcome == old(self)@.share_outcome(work@.block_hash),
            outcome == ShareOutcome::Submitted ==> final(self)@ == (PoolHandlerView {
                stream: Some(
                    old(self)@.stream.unwrap().push(
                        PoolMessageView::Share { share: share_for(work@, template@) },
                    ),
                ),
                ..old(self)@
            }),
            outcome != ShareOutcome::Submitted ==> final(self)@ == old(self)@,
    {
        let difficulty: PoolDifficulty = match self.cur_difficulty {
            Some(d) => d,
            None => {
                return ShareOutcome::NoDifficulty;
            },
        };
        if !does_hash_meet_target(work.block_hash.as_slice(), difficulty.share_target.as_slice()) {
            return ShareOutcome::MissedTarget;
        }
        if self.stream.is_none() {
            return ShareOutcome::NotConnected;
        }
        let merkle_rhss: Vec<[u8; 32]> = duplicate_hashes(&template.merkle_rhss);
        assert(merkle_rhss.deep_view() =~= template.merkle_rhss.deep_view());
        let share = PoolShare {
            header_version: work.nonces.header_version,
            header_prevblock: template.header_prevblock,
            header_time: work.nonces.header_time,
            header_nbits: template.header_nbits,
            header_nonce: work.nonces.header_nonce,
            merkle_rhss,
            coinbase_tx: work.nonces.coinbase_tx.duplicate(),
        };
        self.enqueue(PoolMessage::Share { share });
        ShareOutcome::Submitted
    }
}

impl ConnectionHandler<PoolMessage> for PoolHandler {
    open spec fn on_connect(&self, after: &Self) -> bool {
        after@ == self@.connect()
    }

    open spec fn on_message(&self, msg: PoolMessage, after: &Self, ok: bool) -> bool {
        ok == self@.handle(msg@).0 && after@ == self@.handle(msg@).1
    }

    open spec fn on_close(&self, after: &Self) -> bool {
        after@ == self@.close()
    }

    fn new_connection(&mut self) {
        PoolHandler::new_connection(self)
    }

    fn handle_message(&mut self, msg: PoolMessage) -> (r: Result<(), HandleError>) {
        PoolHandler::handle_message(self, msg)
    }

    fn connection_closed(&mut self) {
        PoolHandler::connection_closed(self)
    }
}

/// The timestamp of the current payout policy, or -1 where there is none.
pub open spec fn payout_mark(s: PoolHandlerView) -> int {
    match s.cur_payout_info {
        Some(info) => info.timestamp as int,
        None => -1,
    }
}

/// The state after a run of messages, handled one after the other.
pub open spec fn run(s: PoolHandlerView, msgs: Seq<PoolMessageView>) -> PoolHandlerView
    decreases msgs.len(),
{
    if msgs.len() == 0 {
        s
    } else {
        run(s, msgs.drop_last()).handle(msgs.last()).1
    }
}

/// The payout policy changes only to one that came signed by the pool's
/// key and whose timestamp is greater than that of the one it replaces; a
/// payout message that does not verify changes nothing.
pub proof fn lemma_payout_replaced_by_newer(s: PoolHandlerView, msg: PoolMessageView)
    ensures
        s.handle(msg).1.cur_payout_info != s.cur_payout_info ==> {
            &&& msg matches PoolMessageView::PayoutInfo { signature, payout_info }
            &&& s.handle(msg).1.cur_payout_info == Some(payout_info)
            &&& s.authentic(POOL_PAYOUT_INFO, payout_info.encoding(), signature)
            &&& payout_mark(s) < payout_info.timestamp
        },
        payout_mark(s) <= payout_mark(s.handle(msg).1),
        msg matches PoolMessageView::PayoutInfo { signature, payout_info } ==> {
            let valid = s.authentic(POOL_PAYOUT_INFO, payout_info.encoding(), signature);
            &&& s.handle(msg).0 ==> valid
            &&& !valid ==> s.handle(msg).1 == s
        },
{
}

/// Over any run of messages the timestamp of the current payout policy
/// never falls: whatever is accepted later exceeds all that was accepted
/// before.
pub proof fn lemma_payout_mark_never_falls(s: PoolHandlerView, msgs: Seq<PoolMessageView>, k: int)
    requires
        0 <= k <= msgs.len(),
    ensures
        payout_mark(run(s, msgs.take(k))) <= payout_mark(run(s, msgs)),
    decreases msgs.len(),
{
    if k == msgs.len() {
        assert(msgs.take(k) =~= msgs);
    } else {
        let front = msgs.drop_last();
        assert(front.take(k) =~= msgs.take(k));
        lemma_payout_mark_never_falls(s, front, k);
        lemma_payout_replaced_by_newer(run(s, front), msgs.last());
    }
}

/// No message makes more payout updates wait than there is room for: an
/// update is queued only where there is room, and a message that finds none
/// closes the connection.
pub proof fn lemma_update_stream_bounded(s: PoolHandlerView, msg: PoolMessageView)
    requires
        s.job_stream.len() <= POOL_STREAM_CAPACITY,
    ensures
        s.handle(msg).1.job_stream.len() <= POOL_STREAM_CAPACITY,
        s.handle(msg).1.job_stream != s.job_stream ==> s.handle(msg).0 && s.has_room(),
{
}

} // verus!
